//! Decoding of GW-BASIC tokenized program files: the byte codes of the
//! keywords, the stream of items of a tokenized file, and the removal of
//! the protection cipher of saved-protected files.

use vstd::prelude::*;
use std::collections::HashMap;
use crate::tokens::GwBasicToken;

verus! {

broadcast use vstd::std_specs::hash::group_hash_axioms;

/// The two-byte codes: for a lead byte `0xFD`, `0xFE` or `0xFF`, the tokens
/// of the second byte.
pub open spec fn multi_byte_row(b1: u8) -> Map<u8, GwBasicToken> {
    if b1 == 0xFD {
        Map::<u8, GwBasicToken>::empty()
            .insert(0x81, GwBasicToken::CviTok)
            .insert(0x82, GwBasicToken::CvsTok)
            .insert(0x83, GwBasicToken::CvdTok)
            .insert(0x84, GwBasicToken::MkiDTok)
            .insert(0x85, GwBasicToken::MksDTok)
            .insert(0x86, GwBasicToken::MkdDTok)
            .insert(0x8B, GwBasicToken::ExterrTok)
    } else if b1 == 0xFE {
        Map::<u8, GwBasicToken>::empty()
            .insert(0x81, GwBasicToken::FilesTok)
            .insert(0x82, GwBasicToken::FieldTok)
            .insert(0x83, GwBasicToken::SystemTok)
            .insert(0x84, GwBasicToken::NameTok)
            .insert(0x85, GwBasicToken::LsetTok)
            .insert(0x86, GwBasicToken::RsetTok)
            .insert(0x87, GwBasicToken::KillTok)
            .insert(0x88, GwBasicToken::PutTok)
            .insert(0x89, GwBasicToken::GetTok)
            .insert(0x8A, GwBasicToken::ResetTok)
            .insert(0x8B, GwBasicToken::CommonTok)
            .insert(0x8C, GwBasicToken::ChainTok)
            .insert(0x8D, GwBasicToken::DateDTok)
            .insert(0x8E, GwBasicToken::TimeDTok)
            .insert(0x8F, GwBasicToken::PaintTok)
            .insert(0x90, GwBasicToken::ComTok)
            .insert(0x91, GwBasicToken::CircleTok)
            .insert(0x92, GwBasicToken::DrawTok)
            .insert(0x93, GwBasicToken::PlayTok)
            .insert(0x94, GwBasicToken::TimerTok)
            .insert(0x95, GwBasicToken::ErdevTok)
            .insert(0x96, GwBasicToken::IoctlTok)
            .insert(0x97, GwBasicToken::ChdirTok)
            .insert(0x98, GwBasicToken::MkdirTok)
            .insert(0x99, GwBasicToken::RmdirTok)
            .insert(0x9A, GwBasicToken::ShellTok)
            .insert(0x9B, GwBasicToken::EnvironTok)
            .insert(0x9C, GwBasicToken::ViewTok)
            .insert(0x9D, GwBasicToken::WindowTok)
            .insert(0x9E, GwBasicToken::PmapTok)
            .insert(0x9F, GwBasicToken::PaletteTok)
            .insert(0xA0, GwBasicToken::LcopyTok)
            .insert(0xA1, GwBasicToken::CallsTok)
            .insert(0xA4, GwBasicToken::NoiseTok)
            .insert(0xA5, GwBasicToken::PcopyTok)
            .insert(0xA6, GwBasicToken::TermTok)
            .insert(0xA7, GwBasicToken::LockTok)
            .insert(0xA8, GwBasicToken::UnlockTok)
    } else if b1 == 0xFF {
        Map::<u8, GwBasicToken>::empty()
            .insert(0x81, GwBasicToken::LeftDTok)
            .insert(0x82, GwBasicToken::RightDTok)
            .insert(0x83, GwBasicToken::MidDTok)
            .insert(0x84, GwBasicToken::SgnTok)
            .insert(0x85, GwBasicToken::IntTok)
            .insert(0x86, GwBasicToken::AbsTok)
            .insert(0x87, GwBasicToken::SqrTok)
            .insert(0x88, GwBasicToken::RndTok)
            .insert(0x89, GwBasicToken::SinTok)
            .insert(0x8A, GwBasicToken::LogTok)
            .insert(0x8B, GwBasicToken::ExpTok)
            .insert(0x8C, GwBasicToken::CosTok)
            .insert(0x8D, GwBasicToken::TanTok)
            .insert(0x8E, GwBasicToken::AtnTok)
            .insert(0x8F, GwBasicToken::FreTok)
            .insert(0x90, GwBasicToken::InpTok)
            .insert(0x91, GwBasicToken::PosTok)
            .insert(0x92, GwBasicToken::LenTok)
            .insert(0x93, GwBasicToken::StrDTok)
            .insert(0x94, GwBasicToken::ValTok)
            .insert(0x95, GwBasicToken::AscTok)
            .insert(0x96, GwBasicToken::ChrDTok)
            .insert(0x97, GwBasicToken::PeekTok)
            .insert(0x98, GwBasicToken::SpaceDTok)
            .insert(0x99, GwBasicToken::OctDTok)
            .insert(0x9A, GwBasicToken::HexDTok)
            .insert(0x9B, GwBasicToken::LposTok)
            .insert(0x9C, GwBasicToken::CintTok)
            .insert(0x9D, GwBasicToken::CsngTok)
            .insert(0x9E, GwBasicToken::CdblTok)
            .insert(0x9F, GwBasicToken::FixTok)
            .insert(0xA0, GwBasicToken::PenTok)
            .insert(0xA1, GwBasicToken::StickTok)
            .insert(0xA2, GwBasicToken::StrigTok)
            .insert(0xA3, GwBasicToken::EofTok)
            .insert(0xA4, GwBasicToken::LocTok)
            .insert(0xA5, GwBasicToken::LofTok)
    } else {
        Map::empty()
    }
}

/// The two-byte keyword codes, by lead byte and then second byte.
pub open spec fn multi_byte_tokens() -> Map<u8, Map<u8, GwBasicToken>> {
    Map::<u8, Map<u8, GwBasicToken>>::empty().insert(0xFD, multi_byte_row(0xFD)).insert(
        0xFE,
        multi_byte_row(0xFE),
    ).insert(0xFF, multi_byte_row(0xFF))
}

/// The one-byte keyword and operator codes.
pub open spec fn single_byte_tokens() -> Map<u8, GwBasicToken> {
    Map::<u8, GwBasicToken>::empty()
        .insert(0x81, GwBasicToken::EndTok)
        .insert(0x82, GwBasicToken::ForTok)
        .insert(0x83, GwBasicToken::NextTok)
        .insert(0x84, GwBasicToken::DataTok)
        .insert(0x85, GwBasicToken::InputTok)
        .insert(0x86, GwBasicToken::DimTok)
        .insert(0x87, GwBasicToken::ReadTok)
        .insert(0x88, GwBasicToken::LetTok)
        .insert(0x89, GwBasicToken::GotoTok)
        .insert(0x8A, GwBasicToken::RunTok)
        .insert(0x8B, GwBasicToken::IfTok)
        .insert(0x8C, GwBasicToken::RestoreTok)
        .insert(0x8D, GwBasicToken::GosubTok)
        .insert(0x8E, GwBasicToken::ReturnTok)
        .insert(0x8F, GwBasicToken::RemTok)
        .insert(0x90, GwBasicToken::StopTok)
        .insert(0x91, GwBasicToken::PrintTok)
        .insert(0x92, GwBasicToken::ClearTok)
        .insert(0x93, GwBasicToken::ListTok)
        .insert(0x94, GwBasicToken::NewTok)
        .insert(0x95, GwBasicToken::OnTok)
        .insert(0x96, GwBasicToken::WaitTok)
        .insert(0x97, GwBasicToken::DefTok)
        .insert(0x98, GwBasicToken::PokeTok)
        .insert(0x99, GwBasicToken::ContTok)
        .insert(0x9C, GwBasicToken::OutTok)
        .insert(0x9D, GwBasicToken::LprintTok)
        .insert(0x9E, GwBasicToken::LlistTok)
        .insert(0xA0, GwBasicToken::WidthTok)
        .insert(0xA1, GwBasicToken::ElseTok)
        .insert(0xA2, GwBasicToken::TronTok)
        .insert(0xA3, GwBasicToken::TroffTok)
        .insert(0xA4, GwBasicToken::SwapTok)
        .insert(0xA5, GwBasicToken::EraseTok)
        .insert(0xA6, GwBasicToken::EditTok)
        .insert(0xA7, GwBasicToken::ErrorTok)
        .insert(0xA8, GwBasicToken::ResumeTok)
        .insert(0xA9, GwBasicToken::DeleteTok)
        .insert(0xAA, GwBasicToken::AutoTok)
        .insert(0xAB, GwBasicToken::RenumTok)
        .insert(0xAC, GwBasicToken::DefstrTok)
        .insert(0xAD, GwBasicToken::DefintTok)
        .insert(0xAE, GwBasicToken::DefsngTok)
        .insert(0xAF, GwBasicToken::DefdblTok)
        .insert(0xB0, GwBasicToken::LineTok)
        .insert(0xB1, GwBasicToken::WhileTok)
        .insert(0xB2, GwBasicToken::WendTok)
        .insert(0xB3, GwBasicToken::CallTok)
        .insert(0xB7, GwBasicToken::WriteTok)
        .insert(0xB8, GwBasicToken::OptionTok)
        .insert(0xB9, GwBasicToken::RandomizeTok)
        .insert(0xBA, GwBasicToken::OpenTok)
        .insert(0xBB, GwBasicToken::CloseTok)
        .insert(0xBC, GwBasicToken::LoadTok)
        .insert(0xBD, GwBasicToken::MergeTok)
        .insert(0xBE, GwBasicToken::SaveTok)
        .insert(0xBF, GwBasicToken::ColorTok)
        .insert(0xC0, GwBasicToken::ClsTok)
        .insert(0xC1, GwBasicToken::MotorTok)
        .insert(0xC2, GwBasicToken::BsaveTok)
        .insert(0xC3, GwBasicToken::BloadTok)
        .insert(0xC4, GwBasicToken::SoundTok)
        .insert(0xC5, GwBasicToken::BeepTok)
        .insert(0xC6, GwBasicToken::PsetTok)
        .insert(0xC7, GwBasicToken::PresetTok)
        .insert(0xC8, GwBasicToken::ScreenTok)
        .insert(0xC9, GwBasicToken::KeyTok)
        .insert(0xCA, GwBasicToken::LocateTok)
        .insert(0xCC, GwBasicToken::ToTok)
        .insert(0xCD, GwBasicToken::ThenTok)
        .insert(0xCE, GwBasicToken::TabTok)
        .insert(0xCF, GwBasicToken::StepTok)
        .insert(0xD0, GwBasicToken::UsrTok)
        .insert(0xD1, GwBasicToken::FnTok)
        .insert(0xD2, GwBasicToken::SpcTok)
        .insert(0xD3, GwBasicToken::NotTok)
        .insert(0xD4, GwBasicToken::ErlTok)
        .insert(0xD5, GwBasicToken::ErrTok)
        .insert(0xD6, GwBasicToken::StringDTok)
        .insert(0xD7, GwBasicToken::UsingTok)
        .insert(0xD8, GwBasicToken::InstrTok)
        .insert(0xD9, GwBasicToken::SingleQuoteTok)
        .insert(0xDA, GwBasicToken::VarptrTok)
        .insert(0xDB, GwBasicToken::CsrlinTok)
        .insert(0xDC, GwBasicToken::PointTok)
        .insert(0xDD, GwBasicToken::OffTok)
        .insert(0xDE, GwBasicToken::InkeyDTok)
        .insert(0xE6, GwBasicToken::GtTok)
        .insert(0xE7, GwBasicToken::EqlTok)
        .insert(0xE8, GwBasicToken::LtTok)
        .insert(0xE9, GwBasicToken::PlusTok)
        .insert(0xEA, GwBasicToken::MinusTok)
        .insert(0xEB, GwBasicToken::TimesTok)
        .insert(0xEC, GwBasicToken::DivTok)
        .insert(0xED, GwBasicToken::PowOperatorTok)
        .insert(0xEE, GwBasicToken::AndTok)
        .insert(0xEF, GwBasicToken::OrTok)
        .insert(0xF0, GwBasicToken::XorTok)
        .insert(0xF1, GwBasicToken::EqvTok)
        .insert(0xF2, GwBasicToken::ImpTok)
        .insert(0xF3, GwBasicToken::ModTok)
        .insert(0xF4, GwBasicToken::Div2Tok)
}

/// The view of a two-level table: each inner table by its view.
pub open spec fn nested_view(dict: Map<u8, HashMap<u8, GwBasicToken>>) -> Map<
    u8,
    Map<u8, GwBasicToken>,
> {
    Map::new(|k: u8| dict.contains_key(k), |k: u8| dict[k]@)
}

/// Records `tok` as the token of the code `byte1 byte2`.
pub fn add_token(
    byte1: u8,
    byte2: u8,
    tok: GwBasicToken,
    dict: &mut HashMap<u8, HashMap<u8, GwBasicToken>>,
)
    ensures
        nested_view(final(dict)@) == nested_view(old(dict)@).insert(
            byte1,
            if nested_view(old(dict)@).contains_key(byte1) {
                nested_view(old(dict)@)[byte1]
            } else {
                Map::empty()
            }.insert(byte2, tok),
        ),
{
    let mut inner: HashMap<u8, GwBasicToken> = match dict.remove(&byte1) {
        Some(existing) => existing,
        None => HashMap::new(),
    };
    inner.insert(byte2, tok);
    dict.insert(byte1, inner);
    assert(nested_view(dict@) =~= nested_view(old(dict)@).insert(
        byte1,
        if nested_view(old(dict)@).contains_key(byte1) {
            nested_view(old(dict)@)[byte1]
        } else {
            Map::empty()
        }.insert(byte2, tok),
    ));
}

/// The table of two-byte keyword codes.
#[verifier::rlimit(100)]
pub fn init_multi_byte_tokens() -> (dict: HashMap<u8, HashMap<u8, GwBasicToken>>)
    ensures
        nested_view(dict@) == multi_byte_tokens(),
{
    let mut dict = HashMap::new();
    assert(nested_view(dict@) =~= Map::empty());
    add_token(0xFD, 0x81, GwBasicToken::CviTok, &mut dict);
    add_token(0xFD, 0x82, GwBasicToken::CvsTok, &mut dict);
    add_token(0xFD, 0x83, GwBasicToken::CvdTok, &mut dict);
    add_token(0xFD, 0x84, GwBasicToken::MkiDTok, &mut dict);
    add_token(0xFD, 0x85, GwBasicToken::MksDTok, &mut dict);
    add_token(0xFD, 0x86, GwBasicToken::MkdDTok, &mut dict);
    add_token(0xFD, 0x8B, GwBasicToken::ExterrTok, &mut dict);
    add_token(0xFE, 0x81, GwBasicToken::FilesTok, &mut dict);
    add_token(0xFE, 0x82, GwBasicToken::FieldTok, &mut dict);
    add_token(0xFE, 0x83, GwBasicToken::SystemTok, &mut dict);
    add_token(0xFE, 0x84, GwBasicToken::NameTok, &mut dict);
    add_token(0xFE, 0x85, GwBasicToken::LsetTok, &mut dict);
    add_token(0xFE, 0x86, GwBasicToken::RsetTok, &mut dict);
    add_token(0xFE, 0x87, GwBasicToken::KillTok, &mut dict);
    add_token(0xFE, 0x88, GwBasicToken::PutTok, &mut dict);
    add_token(0xFE, 0x89, GwBasicToken::GetTok, &mut dict);
    add_token(0xFE, 0x8A, GwBasicToken::ResetTok, &mut dict);
    add_token(0xFE, 0x8B, GwBasicToken::CommonTok, &mut dict);
    add_token(0xFE, 0x8C, GwBasicToken::ChainTok, &mut dict);
    add_token(0xFE, 0x8D, GwBasicToken::DateDTok, &mut dict);
    add_token(0xFE, 0x8E, GwBasicToken::TimeDTok, &mut dict);
    add_token(0xFE, 0x8F, GwBasicToken::PaintTok, &mut dict);
    add_token(0xFE, 0x90, GwBasicToken::ComTok, &mut dict);
    add_token(0xFE, 0x91, GwBasicToken::CircleTok, &mut dict);
    add_token(0xFE, 0x92, GwBasicToken::DrawTok, &mut dict);
    add_token(0xFE, 0x93, GwBasicToken::PlayTok, &mut dict);
    add_token(0xFE, 0x94, GwBasicToken::TimerTok, &mut dict);
    add_token(0xFE, 0x95, GwBasicToken::ErdevTok, &mut dict);
    add_token(0xFE, 0x96, GwBasicToken::IoctlTok, &mut dict);
    add_token(0xFE, 0x97, GwBasicToken::ChdirTok, &mut dict);
    add_token(0xFE, 0x98, GwBasicToken::MkdirTok, &mut dict);
    add_token(0xFE, 0x99, GwBasicToken::RmdirTok, &mut dict);
    add_token(0xFE, 0x9A, GwBasicToken::ShellTok, &mut dict);
    add_token(0xFE, 0x9B, GwBasicToken::EnvironTok, &mut dict);
    add_token(0xFE, 0x9C, GwBasicToken::ViewTok, &mut dict);
    add_token(0xFE, 0x9D, GwBasicToken::WindowTok, &mut dict);
    add_token(0xFE, 0x9E, GwBasicToken::PmapTok, &mut dict);
    add_token(0xFE, 0x9F, GwBasicToken::PaletteTok, &mut dict);
    add_token(0xFE, 0xA0, GwBasicToken::LcopyTok, &mut dict);
    add_token(0xFE, 0xA1, GwBasicToken::CallsTok, &mut dict);
    add_token(0xFE, 0xA4, GwBasicToken::NoiseTok, &mut dict);
    add_token(0xFE, 0xA5, GwBasicToken::PcopyTok, &mut dict);
    add_token(0xFE, 0xA6, GwBasicToken::TermTok, &mut dict);
    add_token(0xFE, 0xA7, GwBasicToken::LockTok, &mut dict);
    add_token(0xFE, 0xA8, GwBasicToken::UnlockTok, &mut dict);
    add_token(0xFF, 0x81, GwBasicToken::LeftDTok, &mut dict);
    add_token(0xFF, 0x82, GwBasicToken::RightDTok, &mut dict);
    add_token(0xFF, 0x83, GwBasicToken::MidDTok, &mut dict);
    add_token(0xFF, 0x84, GwBasicToken::SgnTok, &mut dict);
    add_token(0xFF, 0x85, GwBasicToken::IntTok, &mut dict);
    add_token(0xFF, 0x86, GwBasicToken::AbsTok, &mut dict);
    add_token(0xFF, 0x87, GwBasicToken::SqrTok, &mut dict);
    add_token(0xFF, 0x88, GwBasicToken::RndTok, &mut dict);
    add_token(0xFF, 0x89, GwBasicToken::SinTok, &mut dict);
    add_token(0xFF, 0x8A, GwBasicToken::LogTok, &mut dict);
    add_token(0xFF, 0x8B, GwBasicToken::ExpTok, &mut dict);
    add_token(0xFF, 0x8C, GwBasicToken::CosTok, &mut dict);
    add_token(0xFF, 0x8D, GwBasicToken::TanTok, &mut dict);
    add_token(0xFF, 0x8E, GwBasicToken::AtnTok, &mut dict);
    add_token(0xFF, 0x8F, GwBasicToken::FreTok, &mut dict);
    add_token(0xFF, 0x90, GwBasicToken::InpTok, &mut dict);
    add_token(0xFF, 0x91, GwBasicToken::PosTok, &mut dict);
    add_token(0xFF, 0x92, GwBasicToken::LenTok, &mut dict);
    add_token(0xFF, 0x93, GwBasicToken::StrDTok, &mut dict);
    add_token(0xFF, 0x94, GwBasicToken::ValTok, &mut dict);
    add_token(0xFF, 0x95, GwBasicToken::AscTok, &mut dict);
    add_token(0xFF, 0x96, GwBasicToken::ChrDTok, &mut dict);
    add_token(0xFF, 0x97, GwBasicToken::PeekTok, &mut dict);
    add_token(0xFF, 0x98, GwBasicToken::SpaceDTok, &mut dict);
    add_token(0xFF, 0x99, GwBasicToken::OctDTok, &mut dict);
    add_token(0xFF, 0x9A, GwBasicToken::HexDTok, &mut dict);
    add_token(0xFF, 0x9B, GwBasicToken::LposTok, &mut dict);
    add_token(0xFF, 0x9C, GwBasicToken::CintTok, &mut dict);
    add_token(0xFF, 0x9D, GwBasicToken::CsngTok, &mut dict);
    add_token(0xFF, 0x9E, GwBasicToken::CdblTok, &mut dict);
    add_token(0xFF, 0x9F, GwBasicToken::FixTok, &mut dict);
    add_token(0xFF, 0xA0, GwBasicToken::PenTok, &mut dict);
    add_token(0xFF, 0xA1, GwBasicToken::StickTok, &mut dict);
    add_token(0xFF, 0xA2, GwBasicToken::StrigTok, &mut dict);
    add_token(0xFF, 0xA3, GwBasicToken::EofTok, &mut dict);
    add_token(0xFF, 0xA4, GwBasicToken::LocTok, &mut dict);
    add_token(0xFF, 0xA5, GwBasicToken::LofTok, &mut dict);
    proof {
        assert(nested_view(dict@)[0xFD] =~= multi_byte_row(0xFD));
        assert(nested_view(dict@)[0xFE] =~= multi_byte_row(0xFE));
        assert(nested_view(dict@)[0xFF] =~= multi_byte_row(0xFF));
        assert(nested_view(dict@) =~= multi_byte_tokens());
    }
    dict
}

/// The table of one-byte keyword and operator codes.
#[verifier::rlimit(100)]
pub fn init_single_byte_tokens() -> (single: HashMap<u8, GwBasicToken>)
    ensures
        single@ == single_byte_tokens(),
{
    let mut single_byte_tokens = HashMap::new();
    single_byte_tokens.insert(0x81, GwBasicToken::EndTok);
    single_byte_tokens.insert(0x82, GwBasicToken::ForTok);
    single_byte_tokens.insert(0x83, GwBasicToken::NextTok);
    single_byte_tokens.insert(0x84, GwBasicToken::DataTok);
    single_byte_tokens.insert(0x85, GwBasicToken::InputTok);
    single_byte_tokens.insert(0x86, GwBasicToken::DimTok);
    single_byte_tokens.insert(0x87, GwBasicToken::ReadTok);
    single_byte_tokens.insert(0x88, GwBasicToken::LetTok);
    single_byte_tokens.insert(0x89, GwBasicToken::GotoTok);
    single_byte_tokens.insert(0x8A, GwBasicToken::RunTok);
    single_byte_tokens.insert(0x8B, GwBasicToken::IfTok);
    single_byte_tokens.insert(0x8C, GwBasicToken::RestoreTok);
    single_byte_tokens.insert(0x8D, GwBasicToken::GosubTok);
    single_byte_tokens.insert(0x8E, GwBasicToken::ReturnTok);
    single_byte_tokens.insert(0x8F, GwBasicToken::RemTok);
    single_byte_tokens.insert(0x90, GwBasicToken::StopTok);
    single_byte_tokens.insert(0x91, GwBasicToken::PrintTok);
    single_byte_tokens.insert(0x92, GwBasicToken::ClearTok);
    single_byte_tokens.insert(0x93, GwBasicToken::ListTok);
    single_byte_tokens.insert(0x94, GwBasicToken::NewTok);
    single_byte_tokens.insert(0x95, GwBasicToken::OnTok);
    single_byte_tokens.insert(0x96, GwBasicToken::WaitTok);
    single_byte_tokens.insert(0x97, GwBasicToken::DefTok);
    single_byte_tokens.insert(0x98, GwBasicToken::PokeTok);
    single_byte_tokens.insert(0x99, GwBasicToken::ContTok);
    single_byte_tokens.insert(0x9C, GwBasicToken::OutTok);
    single_byte_tokens.insert(0x9D, GwBasicToken::LprintTok);
    single_byte_tokens.insert(0x9E, GwBasicToken::LlistTok);
    single_byte_tokens.insert(0xA0, GwBasicToken::WidthTok);
    single_byte_tokens.insert(0xA1, GwBasicToken::ElseTok);
    single_byte_tokens.insert(0xA2, GwBasicToken::TronTok);
    single_byte_tokens.insert(0xA3, GwBasicToken::TroffTok);
    single_byte_tokens.insert(0xA4, GwBasicToken::SwapTok);
    single_byte_tokens.insert(0xA5, GwBasicToken::EraseTok);
    single_byte_tokens.insert(0xA6, GwBasicToken::EditTok);
    single_byte_tokens.insert(0xA7, GwBasicToken::ErrorTok);
    single_byte_tokens.insert(0xA8, GwBasicToken::ResumeTok);
    single_byte_tokens.insert(0xA9, GwBasicToken::DeleteTok);
    single_byte_tokens.insert(0xAA, GwBasicToken::AutoTok);
    single_byte_tokens.insert(0xAB, GwBasicToken::RenumTok);
    single_byte_tokens.insert(0xAC, GwBasicToken::DefstrTok);
    single_byte_tokens.insert(0xAD, GwBasicToken::DefintTok);
    single_byte_tokens.insert(0xAE, GwBasicToken::DefsngTok);
    single_byte_tokens.insert(0xAF, GwBasicToken::DefdblTok);
    single_byte_tokens.insert(0xB0, GwBasicToken::LineTok);
    single_byte_tokens.insert(0xB1, GwBasicToken::WhileTok);
    single_byte_tokens.insert(0xB2, GwBasicToken::WendTok);
    single_byte_tokens.insert(0xB3, GwBasicToken::CallTok);
    single_byte_tokens.insert(0xB7, GwBasicToken::WriteTok);
    single_byte_tokens.insert(0xB8, GwBasicToken::OptionTok);
    single_byte_tokens.insert(0xB9, GwBasicToken::RandomizeTok);
    single_byte_tokens.insert(0xBA, GwBasicToken::OpenTok);
    single_byte_tokens.insert(0xBB, GwBasicToken::CloseTok);
    single_byte_tokens.insert(0xBC, GwBasicToken::LoadTok);
    single_byte_tokens.insert(0xBD, GwBasicToken::MergeTok);
    single_byte_tokens.insert(0xBE, GwBasicToken::SaveTok);
    single_byte_tokens.insert(0xBF, GwBasicToken::ColorTok);
    single_byte_tokens.insert(0xC0, GwBasicToken::ClsTok);
    single_byte_tokens.insert(0xC1, GwBasicToken::MotorTok);
    single_byte_tokens.insert(0xC2, GwBasicToken::BsaveTok);
    single_byte_tokens.insert(0xC3, GwBasicToken::BloadTok);
    single_byte_tokens.insert(0xC4, GwBasicToken::SoundTok);
    single_byte_tokens.insert(0xC5, GwBasicToken::BeepTok);
    single_byte_tokens.insert(0xC6, GwBasicToken::PsetTok);
    single_byte_tokens.insert(0xC7, GwBasicToken::PresetTok);
    single_byte_tokens.insert(0xC8, GwBasicToken::ScreenTok);
    single_byte_tokens.insert(0xC9, GwBasicToken::KeyTok);
    single_byte_tokens.insert(0xCA, GwBasicToken::LocateTok);
    single_byte_tokens.insert(0xCC, GwBasicToken::ToTok);
    single_byte_tokens.insert(0xCD, GwBasicToken::ThenTok);
    single_byte_tokens.insert(0xCE, GwBasicToken::TabTok);
    single_byte_tokens.insert(0xCF, GwBasicToken::StepTok);
    single_byte_tokens.insert(0xD0, GwBasicToken::UsrTok);
    single_byte_tokens.insert(0xD1, GwBasicToken::FnTok);
    single_byte_tokens.insert(0xD2, GwBasicToken::SpcTok);
    single_byte_tokens.insert(0xD3, GwBasicToken::NotTok);
    single_byte_tokens.insert(0xD4, GwBasicToken::ErlTok);
    single_byte_tokens.insert(0xD5, GwBasicToken::ErrTok);
    single_byte_tokens.insert(0xD6, GwBasicToken::StringDTok);
    single_byte_tokens.insert(0xD7, GwBasicToken::UsingTok);
    single_byte_tokens.insert(0xD8, GwBasicToken::InstrTok);
    single_byte_tokens.insert(0xD9, GwBasicToken::SingleQuoteTok);
    single_byte_tokens.insert(0xDA, GwBasicToken::VarptrTok);
    single_byte_tokens.insert(0xDB, GwBasicToken::CsrlinTok);
    single_byte_tokens.insert(0xDC, GwBasicToken::PointTok);
    single_byte_tokens.insert(0xDD, GwBasicToken::OffTok);
    single_byte_tokens.insert(0xDE, GwBasicToken::InkeyDTok);
    single_byte_tokens.insert(0xE6, GwBasicToken::GtTok);
    single_byte_tokens.insert(0xE7, GwBasicToken::EqlTok);
    single_byte_tokens.insert(0xE8, GwBasicToken::LtTok);
    single_byte_tokens.insert(0xE9, GwBasicToken::PlusTok);
    single_byte_tokens.insert(0xEA, GwBasicToken::MinusTok);
    single_byte_tokens.insert(0xEB, GwBasicToken::TimesTok);
    single_byte_tokens.insert(0xEC, GwBasicToken::DivTok);
    single_byte_tokens.insert(0xED, GwBasicToken::PowOperatorTok);
    single_byte_tokens.insert(0xEE, GwBasicToken::AndTok);
    single_byte_tokens.insert(0xEF, GwBasicToken::OrTok);
    single_byte_tokens.insert(0xF0, GwBasicToken::XorTok);
    single_byte_tokens.insert(0xF1, GwBasicToken::EqvTok);
    single_byte_tokens.insert(0xF2, GwBasicToken::ImpTok);
    single_byte_tokens.insert(0xF3, GwBasicToken::ModTok);
    single_byte_tokens.insert(0xF4, GwBasicToken::Div2Tok);
    single_byte_tokens
}

/// A byte stream over an in-memory buffer, read the way `std::io::Read`
/// reads a byte cursor: a read fills as much of the buffer as there are
/// bytes left.
pub struct ByteReader {
    bytes: Vec<u8>,
    position: usize,
}

impl ByteReader {
    #[verifier::type_invariant]
    closed spec fn position_in_range(&self) -> bool {
        self.position <= self.bytes@.len()
    }

    /// The bytes not yet read.
    pub closed spec fn rest(&self) -> Seq<u8> {
        self.bytes@.skip(self.position as int)
    }

    /// A reader over `bytes`.
    pub fn new(bytes: Vec<u8>) -> (r: ByteReader)
        ensures
            r.rest() == bytes@,
    {
        let r = ByteReader { bytes, position: 0 };
        assert(r.bytes@.skip(0) == r.bytes@);
        r
    }

    /// Reads up to `n` bytes; fewer when the stream ends first.
    pub fn read(&mut self, n: usize) -> (r: Vec<u8>)
        ensures
            r@ == old(self).rest().take(min_len(n as int, old(self).rest().len() as int)),
            final(self).rest() == old(self).rest().skip(r@.len() as int),
    {
        proof {
            use_type_invariant(&*self);
        }
        let mut out: Vec<u8> = Vec::new();
        let start = self.position;
        while out.len() < n && self.position < self.bytes.len()
            invariant
                start <= self.position <= self.bytes@.len(),
                out@ == self.bytes@.subrange(start as int, self.position as int),
                out@.len() <= n,
                start == old(self).position,
                self.bytes == old(self).bytes,
            decreases self.bytes@.len() - self.position,
        {
            out.push(self.bytes[self.position]);
            self.position = self.position + 1;
        }
        proof {
            assert(out@ =~= old(self).rest().take(min_len(n as int, old(self).rest().len() as int)));
            assert(self.rest() =~= old(self).rest().skip(out@.len() as int));
        }
        out
    }
}

/// The smaller of two lengths.
pub open spec fn min_len(a: int, b: int) -> int {
    if a < b {
        a
    } else {
        b
    }
}

/// The byte at `i`, or 0 past the end (a fixed-size buffer keeps its zero
/// bytes where a short read stops).
pub open spec fn byte_or_zero(bs: Seq<u8>, i: int) -> u8 {
    if 0 <= i < bs.len() {
        bs[i]
    } else {
        0
    }
}

/// The little-endian 16-bit value of the bytes at `i` and `i + 1`.
pub open spec fn le_u16(bs: Seq<u8>, i: int) -> u16 {
    (byte_or_zero(bs, i) as int + 256 * byte_or_zero(bs, i + 1) as int) as u16
}

fn buffered_byte(buf: &Vec<u8>, i: usize) -> (b: u8)
    ensures
        b == byte_or_zero(buf@, i as int),
{
    if i < buf.len() {
        buf[i]
    } else {
        0
    }
}

/// Reads a little-endian 16-bit value (bytes missing at the end of the
/// stream count as 0).
pub fn read_u16(reader: &mut ByteReader) -> (r: u16)
    ensures
        r == le_u16(old(reader).rest(), 0),
        final(reader).rest() == old(reader).rest().skip(min_len(2, old(reader).rest().len() as int)),
{
    let two_bytes = reader.read(2);
    let lo = buffered_byte(&two_bytes, 0);
    let hi = buffered_byte(&two_bytes, 1);
    let result: u16 = ((hi as u16) << 8u16) | (lo as u16);
    assert(((hi as u16) << 8u16) | (lo as u16) == lo as int + 256 * hi as int) by (bit_vector);
    result
}

/// An item of a tokenized program file, as the extractor reports it.
pub enum TokenEvent {
    /// A one-byte keyword or operator code, with the byte.
    Recognized(GwBasicToken, u8),
    /// A printable ASCII character.
    Unrecognized(char),
    /// A one-byte integer constant.
    SingleByteConstant(u8),
    /// A two-byte integer constant.
    TwoByteConstant(u16),
    /// A byte in the unassigned range `0xF5`-`0xFC`.
    Undefined(u8),
    /// A four-byte floating-point constant (its bytes are skipped).
    FloatingPointLiteral,
    /// A line number referred to by a jump.
    LineReference(u16),
    /// A constant 0 to 10 coded in one byte.
    NumberConstant(u8),
    /// A two-byte keyword code.
    MultiRecognized(GwBasicToken),
    /// A two-byte hexadecimal constant (its bytes are skipped).
    HexLiteral,
    /// The start of a line: its number and the offset of the next line.
    LineNumber(u16, u16),
}

/// Why decoding stopped before the end of the file.
pub enum DecodeFailure {
    /// A two-byte code whose second byte has no token.
    UnknownMultibyte,
    /// A byte that starts no item.
    NotImplemented(u8),
}

/// One decoding step at position `i` of `bs`.
pub enum DecodeStep {
    Emit(TokenEvent, int),
    Fail(DecodeFailure),
}

/// The item that starts at position `i` of `bs` and where the next one
/// starts. A short read at the end of the file leaves zero bytes in
/// multi-byte buffers, and leaves the one-byte buffer holding the byte it
/// held before.
pub open spec fn decode_one(
    bs: Seq<u8>,
    i: int,
    single: Map<u8, GwBasicToken>,
    multi: Map<u8, Map<u8, GwBasicToken>>,
) -> DecodeStep {
    let n = bs.len() as int;
    let b = bs[i];
    if single.contains_key(b) {
        DecodeStep::Emit(TokenEvent::Recognized(single[b], b), i + 1)
    } else if 0x20 <= b <= 0x7E {
        DecodeStep::Emit(TokenEvent::Unrecognized(b as char), i + 1)
    } else if b == 0xF {
        if i + 1 < n {
            DecodeStep::Emit(TokenEvent::SingleByteConstant(bs[i + 1]), i + 2)
        } else {
            DecodeStep::Emit(TokenEvent::SingleByteConstant(b), i + 1)
        }
    } else if b == 0x1C {
        DecodeStep::Emit(
            TokenEvent::TwoByteConstant(le_u16(bs.subrange(i + 1, min_len(i + 3, n)), 0)),
            min_len(i + 3, n),
        )
    } else if 0xF5 <= b <= 0xFC {
        DecodeStep::Emit(TokenEvent::Undefined(b), i + 1)
    } else if b == 0x1D {
        DecodeStep::Emit(TokenEvent::FloatingPointLiteral, min_len(i + 5, n))
    } else if b == 0xE {
        DecodeStep::Emit(
            TokenEvent::LineReference(le_u16(bs.subrange(i + 1, min_len(i + 3, n)), 0)),
            min_len(i + 3, n),
        )
    } else if 0x11 <= b <= 0x1B {
        DecodeStep::Emit(TokenEvent::NumberConstant((b - 0x11) as u8), i + 1)
    } else if multi.contains_key(b) {
        let b2 = if i + 1 < n {
            bs[i + 1]
        } else {
            b
        };
        if multi[b].contains_key(b2) {
            DecodeStep::Emit(TokenEvent::MultiRecognized(multi[b][b2]), min_len(i + 2, n))
        } else {
            DecodeStep::Fail(DecodeFailure::UnknownMultibyte)
        }
    } else if b == 0xC {
        DecodeStep::Emit(TokenEvent::HexLiteral, min_len(i + 3, n))
    } else if b == 0x0 {
        let hdr = bs.subrange(i + 1, min_len(i + 5, n));
        DecodeStep::Emit(TokenEvent::LineNumber(le_u16(hdr, 2), le_u16(hdr, 0)), min_len(i + 5, n))
    } else {
        DecodeStep::Fail(DecodeFailure::NotImplemented(b))
    }
}

/// The items of `bs` from position `i` on, and the failure that stopped
/// decoding, if any.
pub open spec fn decode_from(
    bs: Seq<u8>,
    i: int,
    single: Map<u8, GwBasicToken>,
    multi: Map<u8, Map<u8, GwBasicToken>>,
) -> (Seq<TokenEvent>, Option<DecodeFailure>)
    decreases bs.len() - i,
{
    if i < 0 || i >= bs.len() {
        (seq![], None)
    } else {
        match decode_one(bs, i, single, multi) {
            DecodeStep::Emit(e, j) => if j > i {
                let r = decode_from(bs, j, single, multi);
                (seq![e] + r.0, r.1)
            } else {
                (seq![e], None)
            },
            DecodeStep::Fail(f) => (seq![], Some(f)),
        }
    }
}

/// The items of a tokenized program file (after its 4-byte secondary
/// header), in order, and the reason decoding stopped early, if it did.
pub fn decode_tokens(bytes: &Vec<u8>, dict: &HashMap<u8, GwBasicToken>) -> (r: (
    Vec<TokenEvent>,
    Option<DecodeFailure>,
))
    ensures
        r.0@ == decode_from(
            bytes@,
            min_len(4, bytes@.len() as int),
            dict@,
            multi_byte_tokens(),
        ).0,
        r.1 == decode_from(bytes@, min_len(4, bytes@.len() as int), dict@, multi_byte_tokens()).1,
{
    let multi_token_dict = init_multi_byte_tokens();
    let n = bytes.len();
    let mut i: usize = if n < 4 {
        n
    } else {
        4
    };
    let ghost start = i as int;
    let mut events: Vec<TokenEvent> = Vec::new();
    while i < n
        invariant
            n == bytes@.len(),
            start <= i <= n,
            nested_view(multi_token_dict@) == multi_byte_tokens(),
            events@ + decode_from(bytes@, i as int, dict@, multi_byte_tokens()).0 == decode_from(
                bytes@,
                start,
                dict@,
                multi_byte_tokens(),
            ).0,
            decode_from(bytes@, i as int, dict@, multi_byte_tokens()).1 == decode_from(
                bytes@,
                start,
                dict@,
                multi_byte_tokens(),
            ).1,
            start == min_len(4, bytes@.len() as int),
        decreases n - i,
    {
        let b = bytes[i];
        let ghost step = decode_one(bytes@, i as int, dict@, multi_byte_tokens());
        let next: usize;
        let event: TokenEvent;
        if let Some(tok) = dict.get(&b) {
            event = TokenEvent::Recognized(*tok, b);
            next = i + 1;
        } else if b >= 0x20 && b <= 0x7E {
            event = TokenEvent::Unrecognized(b as char);
            next = i + 1;
        } else if b == 0xF {
            if n - i > 1 {
                event = TokenEvent::SingleByteConstant(bytes[i + 1]);
                next = i + 2;
            } else {
                event = TokenEvent::SingleByteConstant(b);
                next = i + 1;
            }
        } else if b == 0x1C {
            let end = if n - i > 3 {
                i + 3
            } else {
                n
            };
            let mut reader = ByteReader::new(slice_to_vec(bytes, i + 1, end));
            event = TokenEvent::TwoByteConstant(read_u16(&mut reader));
            next = end;
        } else if b >= 0xF5 && b <= 0xFC {
            event = TokenEvent::Undefined(b);
            next = i + 1;
        } else if b == 0x1D {
            event = TokenEvent::FloatingPointLiteral;
            next = if n - i > 5 {
                i + 5
            } else {
                n
            };
        } else if b == 0xE {
            let end = if n - i > 3 {
                i + 3
            } else {
                n
            };
            let mut reader = ByteReader::new(slice_to_vec(bytes, i + 1, end));
            event = TokenEvent::LineReference(read_u16(&mut reader));
            next = end;
        } else if b >= 0x11 && b <= 0x1B {
            event = TokenEvent::NumberConstant(b - 0x11);
            next = i + 1;
        } else if let Some(inner_dict) = multi_token_dict.get(&b) {
            let b2 = if n - i > 1 {
                bytes[i + 1]
            } else {
                b
            };
            assert(inner_dict@ == multi_byte_tokens()[b]);
            if let Some(tok2) = inner_dict.get(&b2) {
                event = TokenEvent::MultiRecognized(*tok2);
                next = if n - i > 2 {
                    i + 2
                } else {
                    n
                };
            } else {
                return (events, Some(DecodeFailure::UnknownMultibyte));
            }
        } else if b == 0xC {
            event = TokenEvent::HexLiteral;
            next = if n - i > 3 {
                i + 3
            } else {
                n
            };
        } else if b == 0x0 {
            let end = if n - i > 5 {
                i + 5
            } else {
                n
            };
            let hdr = slice_to_vec(bytes, i + 1, end);
            let mut reader = ByteReader::new(hdr);
            let new_offset = read_u16(&mut reader);
            let current_line = read_u16(&mut reader);
            event = TokenEvent::LineNumber(current_line, new_offset);
            next = end;
        } else {
            return (events, Some(DecodeFailure::NotImplemented(b)));
        }
        assert(step == DecodeStep::Emit(event, next as int));
        events.push(event);
        i = next;
    }
    (events, None)
}

/// The bytes of `bytes` from `start` up to `end`.
fn slice_to_vec(bytes: &Vec<u8>, start: usize, end: usize) -> (r: Vec<u8>)
    requires
        start <= end <= bytes@.len(),
    ensures
        r@ == bytes@.subrange(start as int, end as int),
{
    let mut r: Vec<u8> = Vec::new();
    let mut k = start;
    while k < end
        invariant
            start <= k <= end,
            end <= bytes@.len(),
            r@ == bytes@.subrange(start as int, k as int),
        decreases end - k,
    {
        r.push(bytes[k]);
        k = k + 1;
    }
    r
}

/// The first key of the protection cipher (13 bytes).
pub open spec fn protection_key_1() -> Seq<u8> {
    seq![0x9A, 0xF7, 0x19, 0x83, 0x24, 0x63, 0x43, 0x83, 0x75, 0xCD, 0x8D, 0x84, 0xA9]
}

/// The second key of the protection cipher (11 bytes).
pub open spec fn protection_key_2() -> Seq<u8> {
    seq![0x7C, 0x88, 0x59, 0x74, 0xE0, 0x97, 0x26, 0x77, 0xC4, 0x1D, 0x1E]
}

/// The plain byte for the protected byte `c` at position `i`: the two
/// counters run down from 13 and from 11 and wrap around, and each byte is
/// shifted down by the second counter, masked by one byte of each key and
/// shifted up by the first counter.
pub open spec fn unprotected_byte(c: u8, i: int) -> u8 {
    let idx1 = 13 - i % 13;
    let idx2 = 11 - i % 11;
    ((c.wrapping_sub(idx2 as u8) ^ protection_key_1()[idx1 - 1]) ^ protection_key_2()[idx2
        - 1]).wrapping_add(idx1 as u8)
}

/// Removes the protection cipher of a saved-protected program, byte by
/// byte.
pub fn unprotect(contents: &mut Vec<u8>)
    ensures
        final(contents)@.len() == old(contents)@.len(),
        forall|i: int|
            0 <= i < old(contents)@.len() ==> #[trigger] final(contents)@[i] == unprotected_byte(
                old(contents)@[i],
                i,
            ),
{
    let key_1: [u8; 13] = [
        0x9A,
        0xF7,
        0x19,
        0x83,
        0x24,
        0x63,
        0x43,
        0x83,
        0x75,
        0xCD,
        0x8D,
        0x84,
        0xA9,
    ];
    let key_2: [u8; 11] = [0x7C, 0x88, 0x59, 0x74, 0xE0, 0x97, 0x26, 0x77, 0xC4, 0x1D, 0x1E];
    assert(key_1@ == protection_key_1());
    assert(key_2@ == protection_key_2());
    let mut idx1: u8 = 0x0D;
    let mut idx2: u8 = 0x0B;
    let mut i: usize = 0;
    while i < contents.len()
        invariant
            contents@.len() == old(contents)@.len(),
            i <= contents@.len(),
            idx1 as int == 13 - (i as int) % 13,
            idx2 as int == 11 - (i as int) % 11,
            key_1@ == protection_key_1(),
            key_2@ == protection_key_2(),
            forall|k: int| 0 <= k < i ==> #[trigger] contents@[k] == unprotected_byte(
                old(contents)@[k],
                k,
            ),
            forall|k: int| i <= k < contents@.len() ==> #[trigger] contents@[k] == old(contents)@[k],
        decreases contents@.len() - i,
    {
        let sub_result = contents[i].wrapping_sub(idx2);
        let first_xor = sub_result ^ key_1[(idx1 - 1) as usize];
        let second_xor = first_xor ^ key_2[(idx2 - 1) as usize];
        contents.set(i, second_xor.wrapping_add(idx1));
        idx1 = idx1 - 1;
        idx2 = idx2 - 1;
        if idx2 == 0 {
            idx2 = 0x0B;
        }
        if idx1 == 0 {
            idx1 = 0x0D;
        }
        i = i + 1;
    }
}

/// A two-byte integer constant: the code `0x1C` followed by the bytes
/// `lo` and `hi` is the constant `lo + 256 * hi`, and decoding goes on
/// after `hi`.
pub proof fn lemma_two_byte_constant(
    bs: Seq<u8>,
    i: int,
    single: Map<u8, GwBasicToken>,
    multi: Map<u8, Map<u8, GwBasicToken>>,
)
    requires
        0 <= i,
        i + 2 < bs.len(),
        bs[i] == 0x1C,
        !single.contains_key(0x1Cu8),
    ensures
        decode_one(bs, i, single, multi) == DecodeStep::Emit(
            TokenEvent::TwoByteConstant((bs[i + 1] as int + 256 * bs[i + 2] as int) as u16),
            i + 3,
        ),
        decode_from(bs, i, single, multi) == (
            seq![TokenEvent::TwoByteConstant((bs[i + 1] as int + 256 * bs[i + 2] as int) as u16)]
                + decode_from(bs, i + 3, single, multi).0,
            decode_from(bs, i + 3, single, multi).1,
        ),
{
    let sub = bs.subrange(i + 1, i + 3);
    assert(min_len(i + 3, bs.len() as int) == i + 3);
    assert(byte_or_zero(sub, 0) == bs[i + 1]);
    assert(byte_or_zero(sub, 1) == bs[i + 2]);
}

/// A line reference: the code `0x0E` followed by the bytes `lo` and `hi`
/// refers to line `lo + 256 * hi`, and decoding goes on after `hi`.
pub proof fn lemma_line_reference(
    bs: Seq<u8>,
    i: int,
    single: Map<u8, GwBasicToken>,
    multi: Map<u8, Map<u8, GwBasicToken>>,
)
    requires
        0 <= i,
        i + 2 < bs.len(),
        bs[i] == 0x0E,
        !single.contains_key(0x0Eu8),
    ensures
        decode_one(bs, i, single, multi) == DecodeStep::Emit(
            TokenEvent::LineReference((bs[i + 1] as int + 256 * bs[i + 2] as int) as u16),
            i + 3,
        ),
{
    let sub = bs.subrange(i + 1, i + 3);
    assert(min_len(i + 3, bs.len() as int) == i + 3);
    assert(byte_or_zero(sub, 0) == bs[i + 1]);
    assert(byte_or_zero(sub, 1) == bs[i + 2]);
}

/// The start of a line: the code `0x00` followed by four bytes holds the
/// offset of the next line (first two bytes, low byte first) and the
/// line's number (last two bytes, low byte first); decoding goes on after
/// them.
pub proof fn lemma_line_number(
    bs: Seq<u8>,
    i: int,
    single: Map<u8, GwBasicToken>,
    multi: Map<u8, Map<u8, GwBasicToken>>,
)
    requires
        0 <= i,
        i + 4 < bs.len(),
        bs[i] == 0x00,
        !single.contains_key(0x00u8),
        !multi.contains_key(0x00u8),
    ensures
        decode_one(bs, i, single, multi) == DecodeStep::Emit(
            TokenEvent::LineNumber(
                (bs[i + 3] as int + 256 * bs[i + 4] as int) as u16,
                (bs[i + 1] as int + 256 * bs[i + 2] as int) as u16,
            ),
            i + 5,
        ),
{
    let sub = bs.subrange(i + 1, i + 5);
    assert(min_len(i + 5, bs.len() as int) == i + 5);
    assert(byte_or_zero(sub, 0) == bs[i + 1]);
    assert(byte_or_zero(sub, 1) == bs[i + 2]);
    assert(byte_or_zero(sub, 2) == bs[i + 3]);
    assert(byte_or_zero(sub, 3) == bs[i + 4]);
}

/// The one- and two-byte items: a code of the table is that keyword; a
/// printable character that is no code stands for itself; `0x0F` is
/// followed by a one-byte constant; the codes `0x11` to `0x1B` are the
/// constants 0 to 10.
pub proof fn lemma_short_items(
    bs: Seq<u8>,
    i: int,
    single: Map<u8, GwBasicToken>,
    multi: Map<u8, Map<u8, GwBasicToken>>,
)
    requires
        0 <= i < bs.len(),
    ensures
        single.contains_key(bs[i]) ==> decode_one(bs, i, single, multi) == DecodeStep::Emit(
            TokenEvent::Recognized(single[bs[i]], bs[i]),
            i + 1,
        ),
        !single.contains_key(bs[i]) && 0x20 <= bs[i] <= 0x7E ==> decode_one(bs, i, single, multi)
            == DecodeStep::Emit(TokenEvent::Unrecognized(bs[i] as char), i + 1),
        !single.contains_key(bs[i]) && bs[i] == 0x0F && i + 1 < bs.len() ==> decode_one(
            bs,
            i,
            single,
            multi,
        ) == DecodeStep::Emit(TokenEvent::SingleByteConstant(bs[i + 1]), i + 2),
        !single.contains_key(bs[i]) && 0x11 <= bs[i] <= 0x1B ==> decode_one(bs, i, single, multi)
            == DecodeStep::Emit(TokenEvent::NumberConstant((bs[i] - 0x11) as u8), i + 1),
{
}

} // verus!
