//! The GW-BASIC token set and the table of keywords recognized in source
//! text.

use vstd::prelude::*;

verus! {

/// Every GW-BASIC token: the statement and function keywords of the
/// tokenized file format, the operators, and the separators used by the
/// parser.
#[derive(Debug, PartialEq, Eq, Structural, Clone, Copy, Hash)]
pub enum GwBasicToken {
    EndTok,
    ForTok,
    NextTok,
    DataTok,
    InputTok,
    DimTok,
    ReadTok,
    LetTok,
    GotoTok,
    RunTok,
    IfTok,
    RestoreTok,
    GosubTok,
    ReturnTok,
    RemTok,
    StopTok,
    PrintTok,
    ClearTok,
    ListTok,
    NewTok,
    OnTok,
    WaitTok,
    DefTok,
    PokeTok,
    ContTok,
    OutTok,
    LprintTok,
    LlistTok,
    WidthTok,
    ElseTok,
    TronTok,
    TroffTok,
    SwapTok,
    EraseTok,
    EditTok,
    ErrorTok,
    ResumeTok,
    DeleteTok,
    AutoTok,
    RenumTok,
    DefstrTok,
    DefintTok,
    DefsngTok,
    DefdblTok,
    LineTok,
    WhileTok,
    WendTok,
    CallTok,
    WriteTok,
    OptionTok,
    RandomizeTok,
    OpenTok,
    CloseTok,
    LoadTok,
    MergeTok,
    SaveTok,
    ColorTok,
    ClsTok,
    MotorTok,
    BsaveTok,
    BloadTok,
    SoundTok,
    BeepTok,
    PsetTok,
    PresetTok,
    ScreenTok,
    KeyTok,
    LocateTok,
    ToTok,
    ThenTok,
    TabTok,
    StepTok,
    UsrTok,
    FnTok,
    SpcTok,
    NotTok,
    ErlTok,
    ErrTok,
    StringDTok,
    UsingTok,
    InstrTok,
    SingleQuoteTok,
    VarptrTok,
    CsrlinTok,
    PointTok,
    OffTok,
    InkeyDTok,
    GtTok,
    EqlTok,
    LtTok,
    PlusTok,
    MinusTok,
    TimesTok,
    DivTok,
    PowOperatorTok,
    AndTok,
    OrTok,
    XorTok,
    EqvTok,
    ImpTok,
    ModTok,
    Div2Tok,
    CviTok,
    CvsTok,
    CvdTok,
    MkiDTok,
    MksDTok,
    MkdDTok,
    ExterrTok,
    FilesTok,
    FieldTok,
    SystemTok,
    NameTok,
    LsetTok,
    RsetTok,
    KillTok,
    PutTok,
    GetTok,
    ResetTok,
    CommonTok,
    ChainTok,
    DateDTok,
    TimeDTok,
    PaintTok,
    ComTok,
    CircleTok,
    DrawTok,
    PlayTok,
    TimerTok,
    ErdevTok,
    IoctlTok,
    ChdirTok,
    MkdirTok,
    RmdirTok,
    ShellTok,
    EnvironTok,
    ViewTok,
    WindowTok,
    PmapTok,
    PaletteTok,
    LcopyTok,
    CallsTok,
    NoiseTok,
    PcopyTok,
    TermTok,
    LockTok,
    UnlockTok,
    LeftDTok,
    RightDTok,
    MidDTok,
    SgnTok,
    IntTok,
    AbsTok,
    SqrTok,
    RndTok,
    SinTok,
    LogTok,
    ExpTok,
    CosTok,
    TanTok,
    AtnTok,
    FreTok,
    InpTok,
    PosTok,
    LenTok,
    StrDTok,
    ValTok,
    AscTok,
    ChrDTok,
    PeekTok,
    SpaceDTok,
    OctDTok,
    HexDTok,
    LposTok,
    CintTok,
    CsngTok,
    CdblTok,
    FixTok,
    PenTok,
    StickTok,
    StrigTok,
    EofTok,
    LocTok,
    LofTok,
    ColonSeparatorTok,
    CommaSeparatorTok,
    SemiColonSeparatorTok,
    LparTok,
    RparTok,
    DifferentTok,
    LteTok,
    GteTok,
    Untokenized(u8),
}

/// The basic keyword table that `GwTokenInfo::create` builds: statement
/// keywords for output and the console, and the additive and
/// multiplicative operators.
pub open spec fn basic_keyword_map() -> Map<Seq<char>, GwBasicToken> {
    Map::<Seq<char>, GwBasicToken>::empty()
        .insert("GOTO"@, GwBasicToken::GotoTok)
        .insert("END"@, GwBasicToken::EndTok)
        .insert("PRINT"@, GwBasicToken::PrintTok)
        .insert("INPUT"@, GwBasicToken::InpTok)
        .insert("KEY"@, GwBasicToken::KeyTok)
        .insert("OFF"@, GwBasicToken::OffTok)
        .insert("ON"@, GwBasicToken::OnTok)
        .insert("CLS"@, GwBasicToken::ClsTok)
        .insert("COLOR"@, GwBasicToken::ColorTok)
        .insert("*"@, GwBasicToken::TimesTok)
        .insert("-"@, GwBasicToken::MinusTok)
        .insert("+"@, GwBasicToken::PlusTok)
}

/// The text of each token of the basic keyword table.
pub open spec fn basic_keyword_texts() -> Map<GwBasicToken, Seq<char>> {
    Map::<GwBasicToken, Seq<char>>::empty()
        .insert(GwBasicToken::GotoTok, "GOTO"@)
        .insert(GwBasicToken::EndTok, "END"@)
        .insert(GwBasicToken::PrintTok, "PRINT"@)
        .insert(GwBasicToken::InpTok, "INPUT"@)
        .insert(GwBasicToken::KeyTok, "KEY"@)
        .insert(GwBasicToken::OffTok, "OFF"@)
        .insert(GwBasicToken::OnTok, "ON"@)
        .insert(GwBasicToken::ClsTok, "CLS"@)
        .insert(GwBasicToken::ColorTok, "COLOR"@)
        .insert(GwBasicToken::TimesTok, "*"@)
        .insert(GwBasicToken::MinusTok, "-"@)
        .insert(GwBasicToken::PlusTok, "+"@)
}

/// The keyword table of the lexer: the basic table and the keywords of
/// every statement the parser reads.
pub open spec fn keyword_map() -> Map<Seq<char>, GwBasicToken> {
    basic_keyword_map()
        .insert("REM"@, GwBasicToken::RemTok)
        .insert("DEFDBL"@, GwBasicToken::DefdblTok)
        .insert("DEFSTR"@, GwBasicToken::DefstrTok)
        .insert("DEFSNG"@, GwBasicToken::DefsngTok)
        .insert("DEFINT"@, GwBasicToken::DefintTok)
        .insert("LIST"@, GwBasicToken::ListTok)
        .insert("RUN"@, GwBasicToken::RunTok)
        .insert("LOAD"@, GwBasicToken::LoadTok)
        .insert("IF"@, GwBasicToken::IfTok)
        .insert("THEN"@, GwBasicToken::ThenTok)
        .insert("SYSTEM"@, GwBasicToken::SystemTok)
        .insert("WHILE"@, GwBasicToken::WhileTok)
        .insert("WEND"@, GwBasicToken::WendTok)
        .insert("STOP"@, GwBasicToken::StopTok)
        .insert("FOR"@, GwBasicToken::ForTok)
        .insert("TO"@, GwBasicToken::ToTok)
        .insert("STEP"@, GwBasicToken::StepTok)
        .insert("NEXT"@, GwBasicToken::NextTok)
        .insert("DIM"@, GwBasicToken::DimTok)
        .insert("SWAP"@, GwBasicToken::SwapTok)
        .insert("GOSUB"@, GwBasicToken::GosubTok)
        .insert("RETURN"@, GwBasicToken::ReturnTok)
        .insert("READ"@, GwBasicToken::ReadTok)
        .insert("DATA"@, GwBasicToken::DataTok)
        .insert("USING"@, GwBasicToken::UsingTok)
        .insert("TAB"@, GwBasicToken::TabTok)
        .insert("INKEY$"@, GwBasicToken::InkeyDTok)
}

/// Table between keyword texts and tokens, kept in both directions.
///
/// Its view is the map from the (upper-case) text of a keyword to its
/// token; `texts()` maps each token back to its text.
pub struct GwTokenInfo {
    token_text: Vec<(String, GwBasicToken)>,
    token_vs_text: Vec<(GwBasicToken, String)>,
}

/// The map that a list of (key, value) entries describes, later entries
/// overriding earlier ones.
pub open spec fn entries_map<K, V>(entries: Seq<(K, V)>) -> Map<K, V>
    decreases entries.len(),
{
    if entries.len() == 0 {
        Map::empty()
    } else {
        entries_map(entries.drop_last()).insert(entries.last().0, entries.last().1)
    }
}

/// No key occurs twice among the entries.
pub open spec fn distinct_keys<K, V>(entries: Seq<(K, V)>) -> bool {
    forall|i: int, j: int|
        0 <= i < entries.len() && 0 <= j < entries.len() && i != j ==> entries[i].0 != entries[j].0
}

/// With distinct keys, a key is in the map exactly when an entry has it,
/// and it maps to that entry's value.
proof fn lemma_entries_map_lookup<K, V>(entries: Seq<(K, V)>, k: K)
    requires
        distinct_keys(entries),
    ensures
        entries_map(entries).contains_key(k) <==> exists|i: int|
            0 <= i < entries.len() && entries[i].0 == k,
        forall|i: int|
            0 <= i < entries.len() && entries[i].0 == k ==> entries_map(entries)[k]
                == entries[i].1,
    decreases entries.len(),
{
    if entries.len() > 0 {
        let init = entries.drop_last();
        assert(distinct_keys(init)) by {
            assert forall|i: int, j: int|
                0 <= i < init.len() && 0 <= j < init.len() && i != j implies init[i].0
                != init[j].0 by {
                assert(init[i] == entries[i] && init[j] == entries[j]);
            }
        }
        lemma_entries_map_lookup(init, k);
        if entries_map(entries).contains_key(k) && entries.last().0 != k {
            let i = choose|i: int| 0 <= i < init.len() && init[i].0 == k;
            assert(entries[i] == init[i]);
        }
        assert forall|i: int|
            0 <= i < entries.len() && entries[i].0 == k implies entries_map(entries)[k]
            == entries[i].1 by {
            if i < entries.len() - 1 {
                assert(entries[i] == init[i]);
            }
        }
        if exists|i: int| 0 <= i < entries.len() && entries[i].0 == k {
            let i = choose|i: int| 0 <= i < entries.len() && entries[i].0 == k;
            if i < entries.len() - 1 {
                assert(init[i] == entries[i]);
            }
        }
    }
}

/// Replacing the value of one entry replaces it in the map and nowhere
/// else.
proof fn lemma_entries_map_update<K, V>(entries: Seq<(K, V)>, i: int, v: V)
    requires
        distinct_keys(entries),
        0 <= i < entries.len(),
    ensures
        distinct_keys(entries.update(i, (entries[i].0, v))),
        entries_map(entries.update(i, (entries[i].0, v))) == entries_map(entries).insert(
            entries[i].0,
            v,
        ),
{
    let e2 = entries.update(i, (entries[i].0, v));
    assert(distinct_keys(e2)) by {
        assert forall|a: int, b: int|
            0 <= a < e2.len() && 0 <= b < e2.len() && a != b implies e2[a].0 != e2[b].0 by {
            assert(e2[a].0 == entries[a].0 && e2[b].0 == entries[b].0);
        }
    }
    let m1 = entries_map(e2);
    let m2 = entries_map(entries).insert(entries[i].0, v);
    assert forall|k: K| m1.contains_key(k) <==> m2.contains_key(k) by {
        lemma_entries_map_lookup(entries, k);
        lemma_entries_map_lookup(e2, k);
        assert(e2[i].0 == entries[i].0);
        if m2.contains_key(k) && k != entries[i].0 {
            let j = choose|j: int| 0 <= j < entries.len() && entries[j].0 == k;
            assert(e2[j].0 == k);
        }
        if m1.contains_key(k) {
            let j = choose|j: int| 0 <= j < e2.len() && e2[j].0 == k;
            assert(entries[j].0 == k);
        }
    }
    assert forall|k: K| m1.contains_key(k) implies m1[k] == m2[k] by {
        lemma_entries_map_lookup(entries, k);
        lemma_entries_map_lookup(e2, k);
        let j = choose|j: int| 0 <= j < e2.len() && e2[j].0 == k;
        assert(entries[j].0 == k);
    }
    assert(m1 =~= m2);
}

/// Adding an entry with a new key adds it to the map and keeps the keys
/// distinct.
proof fn lemma_entries_map_push<K, V>(entries: Seq<(K, V)>, k: K, v: V)
    requires
        distinct_keys(entries),
        forall|j: int| 0 <= j < entries.len() ==> entries[j].0 != k,
    ensures
        distinct_keys(entries.push((k, v))),
        entries_map(entries.push((k, v))) == entries_map(entries).insert(k, v),
{
    let e2 = entries.push((k, v));
    assert(e2.drop_last() =~= entries);
    assert(distinct_keys(e2)) by {
        assert forall|a: int, b: int|
            0 <= a < e2.len() && 0 <= b < e2.len() && a != b implies e2[a].0 != e2[b].0 by {
            if a < entries.len() {
                assert(e2[a] == entries[a]);
            }
            if b < entries.len() {
                assert(e2[b] == entries[b]);
            }
        }
    }
}

impl View for GwTokenInfo {
    type V = Map<Seq<char>, GwBasicToken>;

    closed spec fn view(&self) -> Map<Seq<char>, GwBasicToken> {
        entries_map(self.entries())
    }
}

impl GwTokenInfo {
    closed spec fn entries(&self) -> Seq<(Seq<char>, GwBasicToken)> {
        self.token_text@.map_values(|e: (String, GwBasicToken)| (e.0@, e.1))
    }

    closed spec fn text_entries(&self) -> Seq<(GwBasicToken, Seq<char>)> {
        self.token_vs_text@.map_values(|e: (GwBasicToken, String)| (e.0, e.1@))
    }

    /// The text recorded for each token.
    pub closed spec fn texts(&self) -> Map<GwBasicToken, Seq<char>> {
        entries_map(self.text_entries())
    }

    /// The table's invariant: no keyword text, and no token, occurs twice.
    pub closed spec fn wf(&self) -> bool {
        distinct_keys(self.entries()) && distinct_keys(self.text_entries())
    }

    /// The basic keyword table.
    pub fn create() -> (info: GwTokenInfo)
        ensures
            info@ == basic_keyword_map(),
            info.texts() == basic_keyword_texts(),
            info.wf(),
    {
        let mut info = GwTokenInfo { token_text: Vec::new(), token_vs_text: Vec::new() };
        assert(info.entries() =~= Seq::empty());
        assert(info.text_entries() =~= Seq::empty());
        info.add_token("GOTO", GwBasicToken::GotoTok);
        info.add_token("END", GwBasicToken::EndTok);
        info.add_token("PRINT", GwBasicToken::PrintTok);
        info.add_token("INPUT", GwBasicToken::InpTok);
        info.add_token("KEY", GwBasicToken::KeyTok);
        info.add_token("OFF", GwBasicToken::OffTok);
        info.add_token("ON", GwBasicToken::OnTok);
        info.add_token("CLS", GwBasicToken::ClsTok);
        info.add_token("COLOR", GwBasicToken::ColorTok);
        info.add_token("*", GwBasicToken::TimesTok);
        info.add_token("-", GwBasicToken::MinusTok);
        info.add_token("+", GwBasicToken::PlusTok);
        info
    }

    /// The lexer's keyword table: the basic table and the keywords of every
    /// statement the parser reads.
    pub fn create_statement_keywords() -> (info: GwTokenInfo)
        ensures
            info@ == keyword_map(),
            info.wf(),
    {
        let mut info = GwTokenInfo::create();
        info.add_token("REM", GwBasicToken::RemTok);
        info.add_token("DEFDBL", GwBasicToken::DefdblTok);
        info.add_token("DEFSTR", GwBasicToken::DefstrTok);
        info.add_token("DEFSNG", GwBasicToken::DefsngTok);
        info.add_token("DEFINT", GwBasicToken::DefintTok);
        info.add_token("LIST", GwBasicToken::ListTok);
        info.add_token("RUN", GwBasicToken::RunTok);
        info.add_token("LOAD", GwBasicToken::LoadTok);
        info.add_token("IF", GwBasicToken::IfTok);
        info.add_token("THEN", GwBasicToken::ThenTok);
        info.add_token("SYSTEM", GwBasicToken::SystemTok);
        info.add_token("WHILE", GwBasicToken::WhileTok);
        info.add_token("WEND", GwBasicToken::WendTok);
        info.add_token("STOP", GwBasicToken::StopTok);
        info.add_token("FOR", GwBasicToken::ForTok);
        info.add_token("TO", GwBasicToken::ToTok);
        info.add_token("STEP", GwBasicToken::StepTok);
        info.add_token("NEXT", GwBasicToken::NextTok);
        info.add_token("DIM", GwBasicToken::DimTok);
        info.add_token("SWAP", GwBasicToken::SwapTok);
        info.add_token("GOSUB", GwBasicToken::GosubTok);
        info.add_token("RETURN", GwBasicToken::ReturnTok);
        info.add_token("READ", GwBasicToken::ReadTok);
        info.add_token("DATA", GwBasicToken::DataTok);
        info.add_token("USING", GwBasicToken::UsingTok);
        info.add_token("TAB", GwBasicToken::TabTok);
        info.add_token("INKEY$", GwBasicToken::InkeyDTok);
        info
    }

    /// Records `token` as the token of `tok_text`, and `tok_text` as the
    /// text of `token`, replacing what either had before.
    pub fn add_token(&mut self, tok_text: &str, token: GwBasicToken)
        requires
            old(self).wf(),
        ensures
            final(self)@ == old(self)@.insert(tok_text@, token),
            final(self).texts() == old(self).texts().insert(token, tok_text@),
            final(self).wf(),
    {
        let key = String::from_str(tok_text);
        let ghost before_texts = self.text_entries();
        Self::set_text_of(&mut self.token_vs_text, token, String::from_str(tok_text));
        assert(self.text_entries() == self.token_vs_text@.map_values(
            |e: (GwBasicToken, String)| (e.0, e.1@),
        ));
        let mut i: usize = 0;
        while i < self.token_text.len()
            invariant
                i <= self.token_text@.len(),
                forall|j: int| 0 <= j < i ==> self.entries()[j].0 != key@,
                distinct_keys(self.entries()),
                distinct_keys(self.text_entries()),
                self.texts() == old(self).texts().insert(token, tok_text@),
                key@ == tok_text@,
                self.token_text == old(self).token_text,
            decreases self.token_text@.len() - i,
        {
            if self.token_text[i].0 == key {
                let ghost before = self.entries();
                proof {
                    lemma_entries_map_update(before, i as int, token);
                }
                self.token_text.set(i, (key, token));
                assert(self.entries() =~= before.update(i as int, (before[i as int].0, token)));
                return;
            }
            i = i + 1;
        }
        let ghost before = self.entries();
        proof {
            lemma_entries_map_push(before, key@, token);
        }
        self.token_text.push((key, token));
        assert(self.entries() =~= before.push((tok_text@, token)));
    }

    /// Records `text` as the text of `token` in the token-to-text entries.
    fn set_text_of(entries: &mut Vec<(GwBasicToken, String)>, token: GwBasicToken, text: String)
        requires
            distinct_keys(old(entries)@.map_values(|e: (GwBasicToken, String)| (e.0, e.1@))),
        ensures
            distinct_keys(final(entries)@.map_values(|e: (GwBasicToken, String)| (e.0, e.1@))),
            entries_map(final(entries)@.map_values(|e: (GwBasicToken, String)| (e.0, e.1@)))
                == entries_map(old(entries)@.map_values(|e: (GwBasicToken, String)| (e.0, e.1@)))
                .insert(token, text@),
    {
        let ghost before = entries@.map_values(|e: (GwBasicToken, String)| (e.0, e.1@));
        let mut i: usize = 0;
        while i < entries.len()
            invariant
                i <= entries@.len(),
                *entries == *old(entries),
                before == entries@.map_values(|e: (GwBasicToken, String)| (e.0, e.1@)),
                distinct_keys(before),
                forall|j: int| 0 <= j < i ==> before[j].0 != token,
            decreases entries@.len() - i,
        {
            if entries[i].0 == token {
                proof {
                    lemma_entries_map_update(before, i as int, text@);
                }
                let ghost t = text@;
                entries.set(i, (token, text));
                assert(entries@.map_values(|e: (GwBasicToken, String)| (e.0, e.1@)) =~= before.update(
                    i as int,
                    (before[i as int].0, t),
                ));
                return;
            }
            assert(before[i as int].0 == entries@[i as int].0);
            i = i + 1;
        }
        proof {
            lemma_entries_map_push(before, token, text@);
        }
        let ghost t = text@;
        entries.push((token, text));
        assert(entries@.map_values(|e: (GwBasicToken, String)| (e.0, e.1@)) =~= before.push(
            (token, t),
        ));
    }

    /// The token of `tok_text`, if it is a keyword of the table.
    pub fn get_token(&self, tok_text: &String) -> (r: Option<&GwBasicToken>)
        requires
            self.wf(),
        ensures
            r is Some <==> self@.contains_key(tok_text@),
            r is Some ==> *r->0 == self@[tok_text@],
    {
        proof {
            lemma_entries_map_lookup(self.entries(), tok_text@);
        }
        let mut i: usize = 0;
        while i < self.token_text.len()
            invariant
                i <= self.token_text@.len(),
                forall|j: int| 0 <= j < i ==> self.entries()[j].0 != tok_text@,
                self.wf(),
            decreases self.token_text@.len() - i,
        {
            if self.token_text[i].0 == *tok_text {
                proof {
                    assert(self.entries()[i as int] == (
                        self.token_text@[i as int].0@,
                        self.token_text@[i as int].1,
                    ));
                    lemma_entries_map_lookup(self.entries(), tok_text@);
                }
                return Some(&self.token_text[i].1);
            }
            proof {
                assert(self.entries()[i as int] == (
                    self.token_text@[i as int].0@,
                    self.token_text@[i as int].1,
                ));
            }
            i = i + 1;
        }
        proof {
            lemma_entries_map_lookup(self.entries(), tok_text@);
        }
        None
    }
}

/// Looking a text up after adding it gives the token added; every other
/// text keeps what it had.
pub proof fn lemma_lookup_after_add(
    table: Map<Seq<char>, GwBasicToken>,
    text: Seq<char>,
    token: GwBasicToken,
    other: Seq<char>,
)
    ensures
        table.insert(text, token).contains_key(text),
        table.insert(text, token)[text] == token,
        other != text ==> (table.insert(text, token).contains_key(other) == table.contains_key(
            other,
        )),
        other != text && table.contains_key(other) ==> table.insert(text, token)[other]
            == table[other],
{
}

} // verus!
