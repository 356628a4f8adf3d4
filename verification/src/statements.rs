//! The syntax tree of GW-BASIC statements and program lines, and the text
//! that shows a tree's structure (`fill_structure_string`).

use vstd::prelude::*;
use crate::ast::{args_text, expr_text, exprs_view, expr_view, fill_arguments, int_text, push_int, lemma_exprs_view, ExprV, GwCall, GwExpression, GwVariableExpression};
use crate::text::{push_char, push_str};

verus! {

/// The types a variable can have.
#[derive(Debug, PartialEq, Eq, Structural, Clone, Copy)]
pub enum ExpressionType {
    Integer,
    Single,
    Double,
    String,
}

/// A letter or a range of letters in a `DEFDBL`-like statement.
#[derive(Debug, PartialEq, Eq, Structural, Clone, Copy)]
pub enum DefVarRange {
    Single(char),
    Range(char, char),
}

/// The argument of `KEY`.
#[derive(Debug, PartialEq, Eq, Structural, Clone, Copy)]
pub enum SwitchIndicator {
    On,
    Off,
}

/// The separator after an element of a `PRINT` statement.
#[derive(Debug, PartialEq, Eq, Structural, Clone, Copy)]
pub enum PrintSeparator {
    Comma,
    Semicolon,
}

/// An element of a `PRINT` statement.
pub enum PrintElementWrapper {
    Nothing,
    Expr(GwExpression),
    Tab(GwExpression),
}

/// An expression that can be assigned to: a variable or an array element.
pub enum GwAssignableExpression {
    Variable(GwVariableExpression),
    Call(GwCall),
}

/// `LIST`
pub struct GwListStat {}

/// `RUN`
pub struct GwRunStat {}

/// `SYSTEM`
pub struct GwSystemStat {}

/// `LOAD filename`
pub struct GwLoadStat {
    pub filename: GwExpression,
}

/// `PRINT elements`
pub struct GwPrintStat {
    pub expressions: Vec<(PrintElementWrapper, Option<PrintSeparator>)>,
}

/// `PRINT USING format; elements`
pub struct GwPrintUsingStat {
    pub expressions: Vec<(PrintElementWrapper, Option<PrintSeparator>)>,
}

/// `INPUT ["prompt",] variables`
pub struct GwInputStat {
    pub prompt: Option<String>,
    pub variables: Vec<GwAssignableExpression>,
}

/// `CLS`
pub struct GwCls {}

/// `END`
pub struct GwEnd {}

/// `STOP`
pub struct GwStop {}

/// `REM comment`
pub struct GwRem {
    pub comment: String,
}

/// `DEFDBL`, `DEFINT`, `DEFSNG` or `DEFSTR` with letter ranges.
pub struct GwDefType {
    pub ranges: Vec<DefVarRange>,
    pub definition_type: ExpressionType,
}

/// `COLOR red, green, blue`
pub struct GwColor {
    pub red: GwExpression,
    pub green: GwExpression,
    pub blue: GwExpression,
}

/// `KEY ON` or `KEY OFF`
pub struct GwKeyStat {
    pub indicator: SwitchIndicator,
}

/// `GOTO line`
pub struct GwGotoStat {
    pub line: i16,
}

/// `variable = expression`
pub struct GwAssign {
    pub variable: String,
    pub expression: GwExpression,
}

/// `variable(indices) = expression`
pub struct GwArrayAssign {
    pub variable: String,
    pub indices_expressions: Vec<GwExpression>,
    pub expression: GwExpression,
}

/// `IF condition THEN line`
pub struct GwIf {
    pub condition: GwExpression,
    pub then_line: i16,
}

/// `IF condition THEN statement : statement ...`
pub struct GwIfWithStats {
    pub condition: GwExpression,
    pub stats: Vec<GwInstruction>,
}

/// `WHILE condition`
pub struct GwWhile {
    pub condition: GwExpression,
}

/// `WEND`
pub struct GwWend {}

/// `FOR variable = from TO to [STEP step]`
pub struct GwFor {
    pub variable: String,
    pub from: GwExpression,
    pub to: GwExpression,
    pub step: Option<GwExpression>,
}

/// `NEXT [variable]`
pub struct GwNext {
    pub variable: Option<String>,
}

/// One array declaration of a `DIM` statement: `name(dimensions)`.
pub struct GwDimDecl {
    pub name: String,
    pub dimensions: Vec<GwExpression>,
}

/// `DIM declaration, ...`
pub struct GwDim {
    pub declaration: GwDimDecl,
    pub rest: Option<Vec<GwDimDecl>>,
}

/// `SWAP left, right`
pub struct GwSwap {
    pub left: GwAssignableExpression,
    pub right: GwAssignableExpression,
}

/// `GOSUB line`
pub struct GwGosub {
    pub line_number: i16,
}

/// `RETURN`
pub struct GwReturn {}

/// `READ variable`
pub struct GwRead {
    pub variable_expr: GwAssignableExpression,
}

/// `DATA items`; the items are kept as written.
pub struct GwData {
    pub elements: Vec<String>,
}

/// `ON expression GOTO line, ...`
pub struct GwOnGoto {
    pub expr: GwExpression,
    pub cases: Vec<i16>,
}

/// A statement.
pub enum GwInstruction {
    List(GwListStat),
    Run(GwRunStat),
    System(GwSystemStat),
    Load(GwLoadStat),
    Print(GwPrintStat),
    PrintUsing(GwPrintUsingStat),
    Input(GwInputStat),
    Cls(GwCls),
    End(GwEnd),
    Stop(GwStop),
    Rem(GwRem),
    DefType(GwDefType),
    Color(GwColor),
    Key(GwKeyStat),
    Goto(GwGotoStat),
    Assign(GwAssign),
    ArrayAssign(GwArrayAssign),
    If(GwIf),
    IfWithStats(GwIfWithStats),
    While(GwWhile),
    Wend(GwWend),
    For(GwFor),
    Next(GwNext),
    Dim(GwDim),
    Swap(GwSwap),
    Gosub(GwGosub),
    Return(GwReturn),
    Read(GwRead),
    Data(GwData),
    OnGoto(GwOnGoto),
}

/// A numbered program line: its first statement and the statements that
/// follow it after `:` separators.
pub struct ProgramLine {
    pub line: i16,
    pub instruction: GwInstruction,
    pub rest_instructions: Option<Vec<GwInstruction>>,
}

// ----- mathematical values -----

/// The value of a `PRINT` element.
pub enum PrintElemV {
    Nothing,
    Expr(ExprV),
    Tab(ExprV),
}

/// The value of a statement.
pub enum InstrV {
    List,
    Run,
    System,
    Load(ExprV),
    Print(Seq<(PrintElemV, Option<PrintSeparator>)>),
    PrintUsing(Seq<(PrintElemV, Option<PrintSeparator>)>),
    Input(Option<Seq<char>>, Seq<ExprV>),
    Cls,
    End,
    Stop,
    Rem(Seq<char>),
    DefType(Seq<DefVarRange>, ExpressionType),
    Color(ExprV, ExprV, ExprV),
    Key(SwitchIndicator),
    Goto(i16),
    Assign(Seq<char>, ExprV),
    ArrayAssign(Seq<char>, Seq<ExprV>, ExprV),
    If(ExprV, i16),
    IfWithStats(ExprV, Seq<InstrV>),
    While(ExprV),
    Wend,
    For(Seq<char>, ExprV, ExprV, Option<ExprV>),
    Next(Option<Seq<char>>),
    Dim((Seq<char>, Seq<ExprV>), Option<Seq<(Seq<char>, Seq<ExprV>)>>),
    Swap(ExprV, ExprV),
    Gosub(i16),
    Return,
    Read(ExprV),
    Data(Seq<Seq<char>>),
    OnGoto(ExprV, Seq<i16>),
}

/// The value of a program line.
pub struct LineV {
    pub line: i16,
    pub instr: InstrV,
    pub rest: Option<Seq<InstrV>>,
}

pub open spec fn print_elem_view(e: PrintElementWrapper) -> PrintElemV {
    match e {
        PrintElementWrapper::Nothing => PrintElemV::Nothing,
        PrintElementWrapper::Expr(x) => PrintElemV::Expr(expr_view(x)),
        PrintElementWrapper::Tab(x) => PrintElemV::Tab(expr_view(x)),
    }
}

pub open spec fn print_items_view(s: Seq<(PrintElementWrapper, Option<PrintSeparator>)>) -> Seq<
    (PrintElemV, Option<PrintSeparator>),
> {
    s.map_values(|p: (PrintElementWrapper, Option<PrintSeparator>)| (print_elem_view(p.0), p.1))
}

pub open spec fn assignable_view(a: GwAssignableExpression) -> ExprV {
    match a {
        GwAssignableExpression::Variable(v) => ExprV::Variable(v.name@),
        GwAssignableExpression::Call(c) => ExprV::Call(
            c.array_or_function@,
            exprs_view(c.arguments@),
        ),
    }
}

pub open spec fn assignables_view(s: Seq<GwAssignableExpression>) -> Seq<ExprV> {
    s.map_values(|a: GwAssignableExpression| assignable_view(a))
}

pub open spec fn dim_decl_view(d: GwDimDecl) -> (Seq<char>, Seq<ExprV>) {
    (d.name@, exprs_view(d.dimensions@))
}

pub open spec fn dim_decls_view(s: Seq<GwDimDecl>) -> Seq<(Seq<char>, Seq<ExprV>)> {
    s.map_values(|d: GwDimDecl| dim_decl_view(d))
}

pub open spec fn strings_view(s: Seq<String>) -> Seq<Seq<char>> {
    s.map_values(|t: String| t@)
}

pub open spec fn opt_string_view(o: Option<String>) -> Option<Seq<char>> {
    match o {
        Some(s) => Some(s@),
        None => None,
    }
}

pub open spec fn opt_expr_view(o: Option<GwExpression>) -> Option<ExprV> {
    match o {
        Some(e) => Some(expr_view(e)),
        None => None,
    }
}

/// The value of a statement tree.
pub open spec fn instr_view(i: GwInstruction) -> InstrV
    decreases i,
{
    match i {
        GwInstruction::List(_) => InstrV::List,
        GwInstruction::Run(_) => InstrV::Run,
        GwInstruction::System(_) => InstrV::System,
        GwInstruction::Load(s) => InstrV::Load(expr_view(s.filename)),
        GwInstruction::Print(s) => InstrV::Print(print_items_view(s.expressions@)),
        GwInstruction::PrintUsing(s) => InstrV::PrintUsing(print_items_view(s.expressions@)),
        GwInstruction::Input(s) => InstrV::Input(
            opt_string_view(s.prompt),
            assignables_view(s.variables@),
        ),
        GwInstruction::Cls(_) => InstrV::Cls,
        GwInstruction::End(_) => InstrV::End,
        GwInstruction::Stop(_) => InstrV::Stop,
        GwInstruction::Rem(s) => InstrV::Rem(s.comment@),
        GwInstruction::DefType(s) => InstrV::DefType(s.ranges@, s.definition_type),
        GwInstruction::Color(s) => InstrV::Color(
            expr_view(s.red),
            expr_view(s.green),
            expr_view(s.blue),
        ),
        GwInstruction::Key(s) => InstrV::Key(s.indicator),
        GwInstruction::Goto(s) => InstrV::Goto(s.line),
        GwInstruction::Assign(s) => InstrV::Assign(s.variable@, expr_view(s.expression)),
        GwInstruction::ArrayAssign(s) => InstrV::ArrayAssign(
            s.variable@,
            exprs_view(s.indices_expressions@),
            expr_view(s.expression),
        ),
        GwInstruction::If(s) => InstrV::If(expr_view(s.condition), s.then_line),
        GwInstruction::IfWithStats(s) => InstrV::IfWithStats(
            expr_view(s.condition),
            instrs_view(s.stats@),
        ),
        GwInstruction::While(s) => InstrV::While(expr_view(s.condition)),
        GwInstruction::Wend(_) => InstrV::Wend,
        GwInstruction::For(s) => InstrV::For(
            s.variable@,
            expr_view(s.from),
            expr_view(s.to),
            opt_expr_view(s.step),
        ),
        GwInstruction::Next(s) => InstrV::Next(opt_string_view(s.variable)),
        GwInstruction::Dim(s) => InstrV::Dim(
            dim_decl_view(s.declaration),
            match s.rest {
                Some(r) => Some(dim_decls_view(r@)),
                None => None,
            },
        ),
        GwInstruction::Swap(s) => InstrV::Swap(assignable_view(s.left), assignable_view(s.right)),
        GwInstruction::Gosub(s) => InstrV::Gosub(s.line_number),
        GwInstruction::Return(_) => InstrV::Return,
        GwInstruction::Read(s) => InstrV::Read(assignable_view(s.variable_expr)),
        GwInstruction::Data(s) => InstrV::Data(strings_view(s.elements@)),
        GwInstruction::OnGoto(s) => InstrV::OnGoto(expr_view(s.expr), s.cases@),
    }
}

/// The values of a sequence of statement trees.
pub open spec fn instrs_view(s: Seq<GwInstruction>) -> Seq<InstrV>
    decreases s,
{
    if s.len() == 0 {
        seq![]
    } else {
        instrs_view(s.drop_last()).push(instr_view(s.last()))
    }
}

/// The view of a sequence of statements has one element per statement,
/// the view of that statement.
pub proof fn lemma_instrs_view(s: Seq<GwInstruction>)
    ensures
        instrs_view(s).len() == s.len(),
        forall|i: int| 0 <= i < s.len() ==> #[trigger] instrs_view(s)[i] == instr_view(s[i]),
    decreases s.len(),
{
    if s.len() > 0 {
        lemma_instrs_view(s.drop_last());
        assert forall|i: int| 0 <= i < s.len() implies #[trigger] instrs_view(s)[i] == instr_view(
            s[i],
        ) by {
            if i < s.len() - 1 {
                assert(s.drop_last()[i] == s[i]);
            }
        }
    }
}

/// Viewing a sequence after a push is viewing it before and pushing the
/// view of the new statement.
pub proof fn lemma_instrs_view_push(s: Seq<GwInstruction>, i: GwInstruction)
    ensures
        instrs_view(s.push(i)) == instrs_view(s).push(instr_view(i)),
{
    assert(s.push(i).drop_last() == s);
}

impl View for GwInstruction {
    type V = InstrV;

    open spec fn view(&self) -> InstrV {
        instr_view(*self)
    }
}

impl View for GwAssignableExpression {
    type V = ExprV;

    open spec fn view(&self) -> ExprV {
        assignable_view(*self)
    }
}

impl View for ProgramLine {
    type V = LineV;

    open spec fn view(&self) -> LineV {
        LineV {
            line: self.line,
            instr: instr_view(self.instruction),
            rest: match self.rest_instructions {
                Some(r) => Some(instrs_view(r@)),
                None => None,
            },
        }
    }
}

// ----- structure text -----

/// Parts joined by a separator.
pub open spec fn join_texts(parts: Seq<Seq<char>>, sep: Seq<char>) -> Seq<char>
    decreases parts.len(),
{
    if parts.len() == 0 {
        seq![]
    } else if parts.len() == 1 {
        parts[0]
    } else {
        join_texts(parts.drop_last(), sep) + sep + parts.last()
    }
}

/// Joining one more part adds the separator (but before the first part)
/// and the part.
pub proof fn lemma_join_step(parts: Seq<Seq<char>>, sep: Seq<char>, i: int)
    requires
        0 <= i < parts.len(),
    ensures
        join_texts(parts.take(i + 1), sep) == join_texts(parts.take(i), sep) + (if i == 0 {
            seq![]
        } else {
            sep
        }) + parts[i],
{
    let t = parts.take(i + 1);
    assert(t.drop_last() == parts.take(i));
    if i == 0 {
        assert(join_texts(parts.take(0), sep) == Seq::<char>::empty());
    }
}

pub open spec fn print_elem_text(e: PrintElemV) -> Seq<char> {
    match e {
        PrintElemV::Nothing => seq![],
        PrintElemV::Expr(x) => expr_text(x),
        PrintElemV::Tab(x) => "TAB("@ + expr_text(x) + seq![')'],
    }
}

/// Each element of a `PRINT` statement followed by `;`.
pub open spec fn print_items_text(s: Seq<(PrintElemV, Option<PrintSeparator>)>) -> Seq<char>
    decreases s.len(),
{
    if s.len() == 0 {
        seq![]
    } else {
        print_items_text(s.drop_last()) + print_elem_text(s.last().0) + seq![';']
    }
}

pub open spec fn range_text(r: DefVarRange) -> Seq<char> {
    match r {
        DefVarRange::Single(c) => seq![c],
        DefVarRange::Range(a, b) => seq![a, '-', b],
    }
}

/// Each range followed by `,`.
pub open spec fn ranges_text(s: Seq<DefVarRange>) -> Seq<char>
    decreases s.len(),
{
    if s.len() == 0 {
        seq![]
    } else {
        ranges_text(s.drop_last()) + range_text(s.last()) + seq![',']
    }
}

pub open spec fn deftype_name(t: ExpressionType) -> Seq<char> {
    match t {
        ExpressionType::Double => "DEFDBL"@,
        ExpressionType::Integer => "DEFINT"@,
        ExpressionType::String => "DEFSTR"@,
        ExpressionType::Single => "DEFSNG"@,
    }
}

pub open spec fn dim_decl_text(d: (Seq<char>, Seq<ExprV>)) -> Seq<char> {
    d.0 + seq!['('] + args_text(d.1) + seq![')']
}

pub open spec fn prompt_text(p: Option<Seq<char>>) -> Seq<char> {
    match p {
        Some(t) => seq!['"'] + t + seq!['"', ','],
        None => seq![],
    }
}

pub open spec fn cases_text(cases: Seq<i16>) -> Seq<char> {
    join_texts(cases.map_values(|c: i16| int_text(c as int)), ", "@)
}

pub open spec fn concat_exprs_text(s: Seq<ExprV>) -> Seq<char> {
    join_texts(s.map_values(|e: ExprV| expr_text(e)), seq![])
}

/// The text that shows the structure of a statement.
pub open spec fn instr_text(i: InstrV) -> Seq<char>
    decreases i,
{
    match i {
        InstrV::List => "LIST"@,
        InstrV::Run => "RUN"@,
        InstrV::System => "SYSTEM"@,
        InstrV::Load(e) => "LOAD "@ + expr_text(e),
        InstrV::Print(items) => "PRINT "@ + print_items_text(items),
        InstrV::PrintUsing(_) => "PRINT USING "@,
        InstrV::Input(p, vars) => "INPUT "@ + prompt_text(p) + args_text(vars),
        InstrV::Cls => "CLS"@,
        InstrV::End => "END"@,
        InstrV::Stop => "STOP"@,
        InstrV::Rem(c) => "REM "@ + c,
        InstrV::DefType(ranges, t) => deftype_name(t) + seq![' '] + ranges_text(ranges),
        InstrV::Color(r, g, b) => "COLOR "@ + expr_text(r) + ", "@ + expr_text(g) + ", "@
            + expr_text(b),
        InstrV::Key(SwitchIndicator::On) => "KEY "@ + "ON"@,
        InstrV::Key(SwitchIndicator::Off) => "KEY "@ + "OFF"@,
        InstrV::Goto(_) => "GOTO "@,
        InstrV::Assign(v, e) => v + " = "@ + expr_text(e),
        InstrV::ArrayAssign(v, idx, e) => v + seq!['('] + concat_exprs_text(idx) + ") = "@
            + expr_text(e),
        InstrV::If(c, l) => "IF "@ + expr_text(c) + seq![' '] + int_text(l as int),
        InstrV::IfWithStats(c, stats) => "IF "@ + expr_text(c) + " THEN "@ + stats_text(stats),
        InstrV::While(c) => "WHILE "@ + expr_text(c),
        InstrV::Wend => "WEND"@,
        InstrV::For(_, _, _, _) => "FOR"@,
        InstrV::Next(_) => "NEXT"@,
        InstrV::Dim(d, _) => "(DIM "@ + dim_decl_text(d),
        InstrV::Swap(l, r) => "SWAP "@ + expr_text(l) + ", "@ + expr_text(r),
        InstrV::Gosub(_) => "GOSUB "@,
        InstrV::Return => "RETURN"@,
        InstrV::Read(v) => "READ "@ + expr_text(v),
        InstrV::Data(items) => "DATA "@ + join_texts(items, ", "@),
        InstrV::OnGoto(e, cases) => "ON "@ + expr_text(e) + " GOTO "@ + cases_text(cases),
    }
}

/// The statements of an `IF ... THEN` separated by ` : `.
pub open spec fn stats_text(s: Seq<InstrV>) -> Seq<char>
    decreases s,
{
    if s.len() == 0 {
        seq![]
    } else if s.len() == 1 {
        instr_text(s[0])
    } else {
        stats_text(s.drop_last()) + " : "@ + instr_text(s.last())
    }
}

/// Each statement preceded by `:`.
pub open spec fn rest_text(s: Seq<InstrV>) -> Seq<char>
    decreases s,
{
    if s.len() == 0 {
        seq![]
    } else {
        rest_text(s.drop_last()) + seq![':'] + instr_text(s.last())
    }
}

/// The text that shows the structure of a program line.
pub open spec fn line_text(l: LineV) -> Seq<char> {
    seq!['('] + int_text(l.line as int) + seq![' '] + instr_text(l.instr) + match l.rest {
        Some(r) => seq![' '] + rest_text(r),
        None => seq![],
    } + seq![')']
}


/// The text of an argument list is the texts of the arguments joined by
/// commas.
pub proof fn lemma_args_text_join(s: Seq<ExprV>)
    ensures
        args_text(s) == join_texts(s.map_values(|e: ExprV| expr_text(e)), seq![',']),
    decreases s.len(),
{
    let parts = s.map_values(|e: ExprV| expr_text(e));
    if s.len() > 1 {
        lemma_args_text_join(s.drop_last());
        assert(parts.drop_last() == s.drop_last().map_values(|e: ExprV| expr_text(e)));
    }
}

/// Appends the text of an expression that can be assigned to.
pub fn fill_assignable(a: &GwAssignableExpression, buffer: &mut String)
    ensures
        final(buffer)@ == old(buffer)@ + expr_text(a@),
{
    match a {
        GwAssignableExpression::Variable(v) => push_str(buffer, v.name.as_str()),
        GwAssignableExpression::Call(c) => {
            push_str(buffer, c.array_or_function.as_str());
            push_char(buffer, '(');
            fill_arguments(&c.arguments, buffer);
            push_char(buffer, ')');
        },
    }
}

/// Appends the texts of assignable expressions separated by `,`.
fn fill_assignables(vars: &Vec<GwAssignableExpression>, buffer: &mut String)
    ensures
        final(buffer)@ == old(buffer)@ + args_text(assignables_view(vars@)),
{
    let ghost start = buffer@;
    let ghost vs = assignables_view(vars@);
    let ghost parts = vs.map_values(|e: ExprV| expr_text(e));
    let ghost sep = seq![','];
    let n = vars.len();
    let mut i: usize = 0;
    while i < n
        invariant
            n == vars@.len(),
            i <= n,
            vs == assignables_view(vars@),
            parts == vs.map_values(|e: ExprV| expr_text(e)),
            sep == seq![','],
            buffer@ == start + join_texts(parts.take(i as int), sep),
        decreases n - i,
    {
        proof {
            lemma_join_step(parts, sep, i as int);
        }
        if i != 0 {
            push_char(buffer, ',');
        }
        fill_assignable(&vars[i], buffer);
        i = i + 1;
    }
    proof {
        assert(parts.take(n as int) == parts);
        lemma_args_text_join(vs);
    }
}

/// Appends the elements of a `PRINT` statement, each followed by `;`.
fn fill_print_items(items: &Vec<(PrintElementWrapper, Option<PrintSeparator>)>, buffer: &mut String)
    ensures
        final(buffer)@ == old(buffer)@ + print_items_text(print_items_view(items@)),
{
    let ghost start = buffer@;
    let ghost vs = print_items_view(items@);
    let n = items.len();
    let mut i: usize = 0;
    while i < n
        invariant
            n == items@.len(),
            i <= n,
            vs == print_items_view(items@),
            buffer@ == start + print_items_text(vs.take(i as int)),
        decreases n - i,
    {
        proof {
            assert(vs.take(i + 1).drop_last() == vs.take(i as int));
        }
        match &items[i].0 {
            PrintElementWrapper::Expr(e) => e.fill_structure_string(buffer),
            PrintElementWrapper::Tab(e) => {
                push_str(buffer, "TAB(");
                e.fill_structure_string(buffer);
                push_char(buffer, ')');
            },
            PrintElementWrapper::Nothing => {},
        }
        push_char(buffer, ';');
        i = i + 1;
    }
    proof {
        assert(vs.take(n as int) == vs);
    }
}

/// Appends each range followed by `,`.
pub fn range_to_string_buffer(ranges: &Vec<DefVarRange>, buffer: &mut String)
    ensures
        final(buffer)@ == old(buffer)@ + ranges_text(ranges@),
{
    let ghost start = buffer@;
    let n = ranges.len();
    let mut i: usize = 0;
    while i < n
        invariant
            n == ranges@.len(),
            i <= n,
            buffer@ == start + ranges_text(ranges@.take(i as int)),
        decreases n - i,
    {
        proof {
            assert(ranges@.take(i + 1).drop_last() == ranges@.take(i as int));
        }
        match ranges[i] {
            DefVarRange::Single(c) => push_char(buffer, c),
            DefVarRange::Range(a, b) => {
                push_char(buffer, a);
                push_char(buffer, '-');
                push_char(buffer, b);
            },
        }
        push_char(buffer, ',');
        i = i + 1;
    }
    proof {
        assert(ranges@.take(n as int) == ranges@);
    }
}

/// Appends the items of a `DATA` statement separated by `, `.
fn fill_data_items(elements: &Vec<String>, buffer: &mut String)
    ensures
        final(buffer)@ == old(buffer)@ + join_texts(strings_view(elements@), ", "@),
{
    let ghost start = buffer@;
    let ghost parts = strings_view(elements@);
    let n = elements.len();
    let mut i: usize = 0;
    while i < n
        invariant
            n == elements@.len(),
            i <= n,
            parts == strings_view(elements@),
            buffer@ == start + join_texts(parts.take(i as int), ", "@),
        decreases n - i,
    {
        proof {
            lemma_join_step(parts, ", "@, i as int);
        }
        if i != 0 {
            push_str(buffer, ", ");
        }
        push_str(buffer, elements[i].as_str());
        i = i + 1;
    }
    proof {
        assert(parts.take(n as int) == parts);
    }
}

/// Appends the target lines of an `ON ... GOTO` separated by `, `.
fn fill_cases(cases: &Vec<i16>, buffer: &mut String)
    ensures
        final(buffer)@ == old(buffer)@ + cases_text(cases@),
{
    let ghost start = buffer@;
    let ghost parts = cases@.map_values(|c: i16| int_text(c as int));
    let n = cases.len();
    let mut i: usize = 0;
    while i < n
        invariant
            n == cases@.len(),
            i <= n,
            parts == cases@.map_values(|c: i16| int_text(c as int)),
            buffer@ == start + join_texts(parts.take(i as int), ", "@),
        decreases n - i,
    {
        proof {
            lemma_join_step(parts, ", "@, i as int);
        }
        if i != 0 {
            push_str(buffer, ", ");
        }
        push_int(buffer, cases[i]);
        i = i + 1;
    }
    proof {
        assert(parts.take(n as int) == parts);
    }
}

/// Appends the texts of expressions one after the other.
fn fill_concat_exprs(exprs: &Vec<GwExpression>, buffer: &mut String)
    ensures
        final(buffer)@ == old(buffer)@ + concat_exprs_text(exprs_view(exprs@)),
{
    let ghost start = buffer@;
    let ghost vs = exprs_view(exprs@);
    let ghost parts = vs.map_values(|e: ExprV| expr_text(e));
    let ghost sep: Seq<char> = seq![];
    proof {
        lemma_exprs_view(exprs@);
    }
    let n = exprs.len();
    let mut i: usize = 0;
    while i < n
        invariant
            n == exprs@.len(),
            i <= n,
            vs == exprs_view(exprs@),
            vs.len() == n,
            forall|k: int| 0 <= k < n ==> #[trigger] vs[k] == expr_view(exprs@[k]),
            parts == vs.map_values(|e: ExprV| expr_text(e)),
            sep == Seq::<char>::empty(),
            buffer@ == start + join_texts(parts.take(i as int), sep),
        decreases n - i,
    {
        proof {
            lemma_join_step(parts, sep, i as int);
        }
        exprs[i].fill_structure_string(buffer);
        i = i + 1;
    }
    proof {
        assert(parts.take(n as int) == parts);
    }
}


impl GwInstruction {
    /// Appends the text that shows this statement's structure.
    pub fn fill_structure_string(&self, buffer: &mut String)
        ensures
            final(buffer)@ == old(buffer)@ + instr_text(self@),
        decreases self,
    {
        match self {
            GwInstruction::List(_) => push_str(buffer, "LIST"),
            GwInstruction::Run(_) => push_str(buffer, "RUN"),
            GwInstruction::System(_) => push_str(buffer, "SYSTEM"),
            GwInstruction::Load(s) => {
                push_str(buffer, "LOAD ");
                s.filename.fill_structure_string(buffer);
            },
            GwInstruction::Print(s) => {
                push_str(buffer, "PRINT ");
                fill_print_items(&s.expressions, buffer);
            },
            GwInstruction::PrintUsing(_) => push_str(buffer, "PRINT USING "),
            GwInstruction::Input(s) => {
                push_str(buffer, "INPUT ");
                match &s.prompt {
                    Some(p) => {
                        push_char(buffer, '"');
                        push_str(buffer, p.as_str());
                        push_char(buffer, '"');
                        push_char(buffer, ',');
                    },
                    None => {},
                }
                fill_assignables(&s.variables, buffer);
            },
            GwInstruction::Cls(_) => push_str(buffer, "CLS"),
            GwInstruction::End(_) => push_str(buffer, "END"),
            GwInstruction::Stop(_) => push_str(buffer, "STOP"),
            GwInstruction::Rem(s) => {
                push_str(buffer, "REM ");
                push_str(buffer, s.comment.as_str());
            },
            GwInstruction::DefType(s) => {
                match s.definition_type {
                    ExpressionType::Double => push_str(buffer, "DEFDBL"),
                    ExpressionType::Integer => push_str(buffer, "DEFINT"),
                    ExpressionType::String => push_str(buffer, "DEFSTR"),
                    ExpressionType::Single => push_str(buffer, "DEFSNG"),
                }
                push_char(buffer, ' ');
                range_to_string_buffer(&s.ranges, buffer);
            },
            GwInstruction::Color(s) => {
                push_str(buffer, "COLOR ");
                s.red.fill_structure_string(buffer);
                push_str(buffer, ", ");
                s.green.fill_structure_string(buffer);
                push_str(buffer, ", ");
                s.blue.fill_structure_string(buffer);
            },
            GwInstruction::Key(s) => {
                push_str(buffer, "KEY ");
                match s.indicator {
                    SwitchIndicator::On => push_str(buffer, "ON"),
                    SwitchIndicator::Off => push_str(buffer, "OFF"),
                }
            },
            GwInstruction::Goto(_) => push_str(buffer, "GOTO "),
            GwInstruction::Assign(s) => {
                push_str(buffer, s.variable.as_str());
                push_str(buffer, " = ");
                s.expression.fill_structure_string(buffer);
            },
            GwInstruction::ArrayAssign(s) => {
                push_str(buffer, s.variable.as_str());
                push_char(buffer, '(');
                fill_concat_exprs(&s.indices_expressions, buffer);
                push_str(buffer, ") = ");
                s.expression.fill_structure_string(buffer);
            },
            GwInstruction::If(s) => {
                push_str(buffer, "IF ");
                s.condition.fill_structure_string(buffer);
                push_char(buffer, ' ');
                push_int(buffer, s.then_line);
            },
            GwInstruction::IfWithStats(s) => {
                push_str(buffer, "IF ");
                s.condition.fill_structure_string(buffer);
                push_str(buffer, " THEN ");
                fill_stats(&s.stats, buffer);
            },
            GwInstruction::While(s) => {
                push_str(buffer, "WHILE ");
                s.condition.fill_structure_string(buffer);
            },
            GwInstruction::Wend(_) => push_str(buffer, "WEND"),
            GwInstruction::For(_) => push_str(buffer, "FOR"),
            GwInstruction::Next(_) => push_str(buffer, "NEXT"),
            GwInstruction::Dim(s) => {
                push_str(buffer, "(DIM ");
                s.declaration.fill_structure_string(buffer);
            },
            GwInstruction::Swap(s) => {
                push_str(buffer, "SWAP ");
                fill_assignable(&s.left, buffer);
                push_str(buffer, ", ");
                fill_assignable(&s.right, buffer);
            },
            GwInstruction::Gosub(_) => push_str(buffer, "GOSUB "),
            GwInstruction::Return(_) => push_str(buffer, "RETURN"),
            GwInstruction::Read(s) => {
                push_str(buffer, "READ ");
                fill_assignable(&s.variable_expr, buffer);
            },
            GwInstruction::Data(s) => {
                push_str(buffer, "DATA ");
                fill_data_items(&s.elements, buffer);
            },
            GwInstruction::OnGoto(s) => {
                push_str(buffer, "ON ");
                s.expr.fill_structure_string(buffer);
                push_str(buffer, " GOTO ");
                fill_cases(&s.cases, buffer);
            },
        }
    }

    /// Whether this is a `FOR` statement.
    pub fn is_for(&self) -> (r: bool)
        ensures
            r <==> self@ is For,
    {
        match self {
            GwInstruction::For(_) => true,
            _ => false,
        }
    }

    /// Whether this is a `NEXT` statement.
    pub fn is_next(&self) -> (r: bool)
        ensures
            r <==> self@ is Next,
    {
        match self {
            GwInstruction::Next(_) => true,
            _ => false,
        }
    }

    /// Whether this is a `WHILE` statement.
    pub fn is_while(&self) -> (r: bool)
        ensures
            r <==> self@ is While,
    {
        match self {
            GwInstruction::While(_) => true,
            _ => false,
        }
    }

    /// Whether this is a `WEND` statement.
    pub fn is_wend(&self) -> (r: bool)
        ensures
            r <==> self@ is Wend,
    {
        match self {
            GwInstruction::Wend(_) => true,
            _ => false,
        }
    }

    /// The items of a `DATA` statement; `None` for any other statement.
    pub fn get_data(&self) -> (r: Option<&Vec<String>>)
        ensures
            match self@ {
                InstrV::Data(items) => r is Some && strings_view(r->0@) == items,
                _ => r is None,
            },
    {
        match self {
            GwInstruction::Data(d) => Some(&d.elements),
            _ => None,
        }
    }
}

/// Appends the statements of an `IF ... THEN` separated by ` : `.
fn fill_stats(stats: &Vec<GwInstruction>, buffer: &mut String)
    ensures
        final(buffer)@ == old(buffer)@ + stats_text(instrs_view(stats@)),
    decreases stats@,
{
    let ghost start = buffer@;
    let ghost vs = instrs_view(stats@);
    proof {
        lemma_instrs_view(stats@);
    }
    let n = stats.len();
    let mut i: usize = 0;
    while i < n
        invariant
            n == stats@.len(),
            i <= n,
            vs == instrs_view(stats@),
            vs.len() == n,
            forall|k: int| 0 <= k < n ==> #[trigger] vs[k] == instr_view(stats@[k]),
            buffer@ == start + stats_text(vs.take(i as int)),
        decreases n - i,
    {
        proof {
            assert(decreases_to!(stats@ => stats@[i as int]));
            assert(vs.take(i + 1).drop_last() == vs.take(i as int));
            if i == 0 {
                assert(vs.take(1) == seq![vs[0]]);
            }
        }
        if i != 0 {
            push_str(buffer, " : ");
        }
        stats[i].fill_structure_string(buffer);
        i = i + 1;
    }
    proof {
        assert(vs.take(n as int) == vs);
    }
}

impl GwDimDecl {
    pub fn new(name: String, dimensions: Vec<GwExpression>) -> (r: GwDimDecl)
        ensures
            r.name@ == name@,
            r.dimensions@ == dimensions@,
    {
        GwDimDecl { name, dimensions }
    }

    /// Appends `name(dimensions)`.
    pub fn fill_structure_string(&self, buffer: &mut String)
        ensures
            final(buffer)@ == old(buffer)@ + dim_decl_text(dim_decl_view(*self)),
    {
        push_str(buffer, self.name.as_str());
        push_char(buffer, '(');
        fill_arguments(&self.dimensions, buffer);
        push_char(buffer, ')');
    }
}

impl ProgramLine {
    /// The line number.
    pub fn get_line(&self) -> (r: i16)
        ensures
            r == self.line,
    {
        self.line
    }

    /// Appends `(line instruction :rest...)`.
    pub fn fill_structure_string(&self, buffer: &mut String)
        ensures
            final(buffer)@ == old(buffer)@ + line_text(self@),
    {
        let ghost start = buffer@;
        push_char(buffer, '(');
        push_int(buffer, self.line);
        push_char(buffer, ' ');
        self.instruction.fill_structure_string(buffer);
        let ghost mid = buffer@;
        assert(mid == start + seq!['('] + int_text(self.line as int) + seq![' '] + instr_text(
            self@.instr,
        ));
        if let Some(rest) = &self.rest_instructions {
            push_char(buffer, ' ');
            let ghost base = buffer@;
            let ghost vs = instrs_view(rest@);
            proof {
                lemma_instrs_view(rest@);
            }
            let n = rest.len();
            let mut i: usize = 0;
            while i < n
                invariant
                    n == rest@.len(),
                    i <= n,
                    vs == instrs_view(rest@),
                    vs.len() == n,
                    forall|k: int| 0 <= k < n ==> #[trigger] vs[k] == instr_view(rest@[k]),
                    buffer@ == base + rest_text(vs.take(i as int)),
                decreases n - i,
            {
                proof {
                    assert(vs.take(i + 1).drop_last() == vs.take(i as int));
                }
                push_char(buffer, ':');
                rest[i].fill_structure_string(buffer);
                i = i + 1;
            }
            proof {
                assert(vs.take(n as int) == vs);
            }
        }
        push_char(buffer, ')');
    }
}

impl GwDefType {
    pub fn with_var_range(var_range: Vec<DefVarRange>, definition_type: ExpressionType) -> (r:
        GwDefType)
        ensures
            r.ranges@ == var_range@,
            r.definition_type == definition_type,
    {
        GwDefType { ranges: var_range, definition_type }
    }
}

impl GwDim {
    pub fn new(declaration: GwDimDecl, rest: Option<Vec<GwDimDecl>>) -> (r: GwDim)
        ensures
            r.declaration == declaration,
            r.rest == rest,
    {
        GwDim { declaration, rest }
    }
}

impl GwGosub {
    pub fn new(line_number: i16) -> (r: GwGosub)
        ensures
            r.line_number == line_number,
    {
        GwGosub { line_number }
    }
}

impl GwReturn {
    pub fn new() -> (r: GwReturn) {
        GwReturn {}
    }
}

impl GwRead {
    pub fn new(variable_expr: GwAssignableExpression) -> (r: GwRead)
        ensures
            r.variable_expr == variable_expr,
    {
        GwRead { variable_expr }
    }
}

impl GwData {
    pub fn new(elements: Vec<String>) -> (r: GwData)
        ensures
            r.elements@ == elements@,
    {
        GwData { elements }
    }
}

impl GwSwap {
    pub fn new(left: GwAssignableExpression, right: GwAssignableExpression) -> (r: GwSwap)
        ensures
            r.left == left,
            r.right == right,
    {
        GwSwap { left, right }
    }
}

impl GwOnGoto {
    pub fn new(expr: GwExpression, cases: Vec<i16>) -> (r: GwOnGoto)
        ensures
            r.expr == expr,
            r.cases@ == cases@,
    {
        GwOnGoto { expr, cases }
    }
}

impl GwIf {
    pub fn new(condition: GwExpression, then_line: i16) -> (r: GwIf)
        ensures
            r.condition == condition,
            r.then_line == then_line,
    {
        GwIf { condition, then_line }
    }
}

impl GwIfWithStats {
    pub fn new(condition: GwExpression, stats: Vec<GwInstruction>) -> (r: GwIfWithStats)
        ensures
            r.condition == condition,
            r.stats@ == stats@,
    {
        GwIfWithStats { condition, stats }
    }
}

/// `DEFDBL` with letter ranges (the statement before the other `DEF`
/// types were added).
pub struct GwDefDbl {
    pub ranges: Vec<DefVarRange>,
}

impl GwDefDbl {
    pub fn with_var_range(var_range: Vec<DefVarRange>) -> (r: GwDefDbl)
        ensures
            r.ranges@ == var_range@,
    {
        GwDefDbl { ranges: var_range }
    }

    /// Appends `DEFDBL ` and each range followed by `,`.
    pub fn fill_structure_string(&self, buffer: &mut String)
        ensures
            final(buffer)@ == old(buffer)@ + "DEFDBL "@ + ranges_text(self.ranges@),
    {
        push_str(buffer, "DEFDBL ");
        range_to_string_buffer(&self.ranges, buffer);
    }
}

impl GwPrintStat {
    /// Whether the statement ends the line: it does unless its last
    /// element is an expression followed by `;`.
    pub fn ends_line(&self) -> (r: bool)
        ensures
            r == !(self.expressions@.len() > 0 && self.expressions@.last().0 is Expr
                && self.expressions@.last().1 == Some(PrintSeparator::Semicolon)),
    {
        let n = self.expressions.len();
        if n == 0 {
            return true;
        }
        let last = &self.expressions[n - 1];
        match (&last.0, &last.1) {
            (PrintElementWrapper::Expr(_), Some(PrintSeparator::Semicolon)) => false,
            _ => true,
        }
    }
}

impl GwPrintUsingStat {
    /// Whether the statement ends the line: it does unless its last
    /// element is followed by `;`.
    pub fn ends_line(&self) -> (r: bool)
        ensures
            r == !(self.expressions@.len() > 0 && self.expressions@.last().1 == Some(
                PrintSeparator::Semicolon,
            )),
    {
        let n = self.expressions.len();
        if n == 0 {
            return true;
        }
        match &self.expressions[n - 1].1 {
            Some(PrintSeparator::Semicolon) => false,
            _ => true,
        }
    }
}

/// The one-letter variable names a range of a `DEFDBL`-like statement
/// gives a type: the letter of a single range; for `a-b` with an ASCII
/// letter `a`, the letters from `a` up to but not including `b` (the range
/// is taken over the characters' low bytes).
pub open spec fn range_names(r: DefVarRange) -> Seq<Seq<char>> {
    match r {
        DefVarRange::Single(c) => seq![seq![c]],
        DefVarRange::Range(a, b) => if ('a' <= a <= 'z' || 'A' <= a <= 'Z') {
            let lo = a as u8 as int;
            let hi = b as u8 as int;
            Seq::new(
                if hi > lo {
                    (hi - lo) as nat
                } else {
                    0
                },
                |k: int| seq![(lo + k) as u8 as char],
            )
        } else {
            seq![]
        },
    }
}

/// The variable names a range of a `DEFDBL`-like statement gives a type.
pub fn range_variable_names(range: &DefVarRange) -> (r: Vec<String>)
    ensures
        strings_view(r@) == range_names(*range),
{
    let mut names: Vec<String> = Vec::new();
    match *range {
        DefVarRange::Single(c) => {
            let mut tmp_str = String::new();
            push_char(&mut tmp_str, c);
            names.push(tmp_str);
            assert(strings_view(names@) =~= range_names(*range));
        },
        DefVarRange::Range(first_char, second_char) => {
            if ('a' <= first_char && first_char <= 'z') || ('A' <= first_char && first_char
                <= 'Z') {
                let mut tmp_char: u8 = first_char as u8;
                let end_char: u8 = second_char as u8;
                let ghost lo = first_char as u8 as int;
                while tmp_char < end_char
                    invariant
                        lo == first_char as u8 as int,
                        end_char == second_char as u8,
                        lo <= tmp_char,
                        tmp_char <= end_char || tmp_char == lo,
                        names@.len() == tmp_char - lo,
                        forall|k: int| 0 <= k < names@.len() ==> #[trigger] names@[k]@ == seq![
                            (lo + k) as u8 as char,
                        ],
                    decreases end_char - tmp_char,
                {
                    let mut tmp_str = String::new();
                    push_char(&mut tmp_str, tmp_char as char);
                    names.push(tmp_str);
                    tmp_char = tmp_char + 1;
                }
                assert(strings_view(names@) =~= range_names(*range));
            } else {
                assert(strings_view(names@) =~= range_names(*range));
            }
        },
    }
    names
}

} // verus!
