//! The syntax tree of GW-BASIC expressions and statements, and the text
//! that shows a tree's structure (`fill_structure_string`).

use vstd::prelude::*;
use crate::text::push_str;

verus! {

/// The operators of binary expressions.
#[derive(Debug, PartialEq, Eq, Structural, Clone, Copy)]
pub enum GwBinaryOperationKind {
    Plus,
    Minus,
    Times,
    FloatDiv,
    IntDiv,
    LessThan,
    LessEqualThan,
    GreaterThan,
    GreaterEqualThan,
    Equal,
    Different,
    Exponent,
    Mod,
    And,
    Or,
    Eqv,
    Xor,
    Implication,
}

/// The operators that binary expressions can be built with (the others
/// have no evaluation).
pub open spec fn is_supported_operation(kind: GwBinaryOperationKind) -> bool {
    match kind {
        GwBinaryOperationKind::Plus | GwBinaryOperationKind::Minus | GwBinaryOperationKind::Times
        | GwBinaryOperationKind::FloatDiv | GwBinaryOperationKind::Equal
        | GwBinaryOperationKind::Different | GwBinaryOperationKind::Exponent
        | GwBinaryOperationKind::GreaterThan | GwBinaryOperationKind::LessThan
        | GwBinaryOperationKind::GreaterEqualThan | GwBinaryOperationKind::LessEqualThan => true,
        _ => false,
    }
}

/// The one-argument built-in functions.
#[derive(Debug, PartialEq, Eq, Structural, Clone, Copy)]
pub enum BuiltinFunction {
    Abs,
    Log,
    Int,
    Cos,
    Sin,
    Rnd,
}

/// A string literal.
pub struct GwStringLiteral {
    pub value: String,
}

/// An integer literal.
pub struct GwIntegerLiteral {
    pub value: i16,
}

/// A floating-point literal, kept as its numeral.
pub struct GwDoubleLiteral {
    pub value: String,
}

/// A variable.
pub struct GwVariableExpression {
    pub name: String,
}

/// An array element or a function call: a name and its arguments.
pub struct GwCall {
    pub array_or_function: String,
    pub arguments: Vec<GwExpression>,
}

/// A binary operation.
pub struct GwBinaryOperation {
    pub kind: GwBinaryOperationKind,
    pub left: Box<GwExpression>,
    pub right: Box<GwExpression>,
}

/// An expression in parentheses.
pub struct GwParenthesizedExpr {
    pub expr: Box<GwExpression>,
}

/// A negated expression.
pub struct GwNegExpr {
    pub expr: Box<GwExpression>,
}

/// `ABS(expr)`.
pub struct GwAbs {
    pub expr: Box<GwExpression>,
}

/// `LOG(expr)`.
pub struct GwLog {
    pub expr: Box<GwExpression>,
}

/// `INT(expr)`.
pub struct GwInt {
    pub expr: Box<GwExpression>,
}

/// `COS(expr)`.
pub struct GwCos {
    pub expr: Box<GwExpression>,
}

/// `SIN(expr)`.
pub struct GwSin {
    pub expr: Box<GwExpression>,
}

/// `RND(expr)`.
pub struct GwRnd {
    pub expr: Box<GwExpression>,
}

/// The special variable `INKEY$`.
pub struct GwInkey {}

/// An expression.
pub enum GwExpression {
    StringLiteral(GwStringLiteral),
    IntegerLiteral(GwIntegerLiteral),
    DoubleLiteral(GwDoubleLiteral),
    Variable(GwVariableExpression),
    Call(GwCall),
    Binary(GwBinaryOperation),
    Parenthesized(GwParenthesizedExpr),
    Neg(GwNegExpr),
    Abs(GwAbs),
    Log(GwLog),
    Int(GwInt),
    Cos(GwCos),
    Sin(GwSin),
    Rnd(GwRnd),
    Inkey(GwInkey),
}

/// The mathematical value of an expression.
pub enum ExprV {
    StringLiteral(Seq<char>),
    IntegerLiteral(i16),
    DoubleLiteral(Seq<char>),
    Variable(Seq<char>),
    Call(Seq<char>, Seq<ExprV>),
    Binary(GwBinaryOperationKind, Box<ExprV>, Box<ExprV>),
    Parenthesized(Box<ExprV>),
    Neg(Box<ExprV>),
    Builtin(BuiltinFunction, Box<ExprV>),
    Inkey,
}

/// The value of an expression tree.
pub open spec fn expr_view(e: GwExpression) -> ExprV
    decreases e,
{
    match e {
        GwExpression::StringLiteral(s) => ExprV::StringLiteral(s.value@),
        GwExpression::IntegerLiteral(i) => ExprV::IntegerLiteral(i.value),
        GwExpression::DoubleLiteral(d) => ExprV::DoubleLiteral(d.value@),
        GwExpression::Variable(v) => ExprV::Variable(v.name@),
        GwExpression::Call(c) => ExprV::Call(c.array_or_function@, exprs_view(c.arguments@)),
        GwExpression::Binary(b) => ExprV::Binary(
            b.kind,
            Box::new(expr_view(*b.left)),
            Box::new(expr_view(*b.right)),
        ),
        GwExpression::Parenthesized(p) => ExprV::Parenthesized(Box::new(expr_view(*p.expr))),
        GwExpression::Neg(n) => ExprV::Neg(Box::new(expr_view(*n.expr))),
        GwExpression::Abs(f) => ExprV::Builtin(BuiltinFunction::Abs, Box::new(expr_view(*f.expr))),
        GwExpression::Log(f) => ExprV::Builtin(BuiltinFunction::Log, Box::new(expr_view(*f.expr))),
        GwExpression::Int(f) => ExprV::Builtin(BuiltinFunction::Int, Box::new(expr_view(*f.expr))),
        GwExpression::Cos(f) => ExprV::Builtin(BuiltinFunction::Cos, Box::new(expr_view(*f.expr))),
        GwExpression::Sin(f) => ExprV::Builtin(BuiltinFunction::Sin, Box::new(expr_view(*f.expr))),
        GwExpression::Rnd(f) => ExprV::Builtin(BuiltinFunction::Rnd, Box::new(expr_view(*f.expr))),
        GwExpression::Inkey(_) => ExprV::Inkey,
    }
}

/// The values of a sequence of expression trees.
pub open spec fn exprs_view(s: Seq<GwExpression>) -> Seq<ExprV>
    decreases s,
{
    if s.len() == 0 {
        seq![]
    } else {
        exprs_view(s.drop_last()).push(expr_view(s.last()))
    }
}

/// The view of a sequence of expressions has one element per expression,
/// the view of that expression.
pub proof fn lemma_exprs_view(s: Seq<GwExpression>)
    ensures
        exprs_view(s).len() == s.len(),
        forall|i: int| 0 <= i < s.len() ==> #[trigger] exprs_view(s)[i] == expr_view(s[i]),
    decreases s.len(),
{
    if s.len() > 0 {
        lemma_exprs_view(s.drop_last());
        assert forall|i: int| 0 <= i < s.len() implies #[trigger] exprs_view(s)[i] == expr_view(
            s[i],
        ) by {
            if i < s.len() - 1 {
                assert(s.drop_last()[i] == s[i]);
            }
        }
    }
}

/// Viewing a sequence after a push is viewing it before and pushing the
/// view of the new expression.
pub proof fn lemma_exprs_view_push(s: Seq<GwExpression>, e: GwExpression)
    ensures
        exprs_view(s.push(e)) == exprs_view(s).push(expr_view(e)),
{
    assert(s.push(e).drop_last() == s);
}

impl View for GwExpression {
    type V = ExprV;

    open spec fn view(&self) -> ExprV {
        expr_view(*self)
    }
}

/// The decimal text of a natural number.
pub open spec fn nat_text(n: nat) -> Seq<char>
    decreases n,
{
    if n < 10 {
        seq![(('0' as int) + n) as char]
    } else {
        nat_text(n / 10).push((('0' as int) + n % 10) as char)
    }
}

/// The decimal text of an integer (`-` then the digits when negative).
pub open spec fn int_text(i: int) -> Seq<char> {
    if i < 0 {
        seq!['-'] + nat_text((-i) as nat)
    } else {
        nat_text(i as nat)
    }
}

/// Appends the decimal text of `n`.
fn push_nat(buffer: &mut String, n: u32)
    ensures
        final(buffer)@ == old(buffer)@ + nat_text(n as nat),
    decreases n,
{
    if n >= 10 {
        push_nat(buffer, n / 10);
    }
    let c: char = ((48 + (n % 10)) as u8) as char;
    crate::text::push_char(buffer, c);
}

/// Appends the decimal text of `value`.
pub fn push_int(buffer: &mut String, value: i16)
    ensures
        final(buffer)@ == old(buffer)@ + int_text(value as int),
{
    if value < 0 {
        crate::text::push_char(buffer, '-');
        let magnitude: u32 = (0i32 - value as i32) as u32;
        push_nat(buffer, magnitude);
    } else {
        push_nat(buffer, value as u32);
    }
}

/// The text that shows an argument list: the arguments separated by `,`.
pub open spec fn args_text(s: Seq<ExprV>) -> Seq<char>
    decreases s,
{
    if s.len() == 0 {
        seq![]
    } else if s.len() == 1 {
        expr_text(s[0])
    } else {
        args_text(s.drop_last()) + seq![','] + expr_text(s.last())
    }
}

/// The text of an operator between its operands.
pub open spec fn operator_text(kind: GwBinaryOperationKind) -> Seq<char> {
    match kind {
        GwBinaryOperationKind::Plus => " + "@,
        GwBinaryOperationKind::Times => " * "@,
        GwBinaryOperationKind::Minus => " - "@,
        GwBinaryOperationKind::Equal => " = "@,
        GwBinaryOperationKind::FloatDiv => " / "@,
        GwBinaryOperationKind::Different => " <> "@,
        GwBinaryOperationKind::Exponent => " ^ "@,
        GwBinaryOperationKind::GreaterThan => " > "@,
        GwBinaryOperationKind::LessThan => " < "@,
        GwBinaryOperationKind::GreaterEqualThan => " >= "@,
        GwBinaryOperationKind::LessEqualThan => " <= "@,
        _ => " ?? "@,
    }
}

/// The name with which a built-in call is shown, up to its parenthesis.
pub open spec fn builtin_text(f: BuiltinFunction) -> Seq<char> {
    match f {
        BuiltinFunction::Abs => "ABS("@,
        BuiltinFunction::Log => "LOG("@,
        BuiltinFunction::Int => "INT("@,
        BuiltinFunction::Cos => "COS("@,
        BuiltinFunction::Sin => "SIN("@,
        BuiltinFunction::Rnd => "RND("@,
    }
}

/// The text that shows the structure of an expression: binary operations
/// in parentheses, names and literals as written (a string literal without
/// its quotes).
pub open spec fn expr_text(e: ExprV) -> Seq<char>
    decreases e,
{
    match e {
        ExprV::StringLiteral(s) => s,
        ExprV::IntegerLiteral(i) => int_text(i as int),
        ExprV::DoubleLiteral(t) => t,
        ExprV::Variable(n) => n,
        ExprV::Call(n, args) => n + seq!['('] + args_text(args) + seq![')'],
        ExprV::Binary(kind, l, r) => seq!['('] + expr_text(*l) + operator_text(kind) + expr_text(
            *r,
        ) + seq![')'],
        ExprV::Parenthesized(x) => seq!['('] + expr_text(*x) + seq![')'],
        ExprV::Neg(x) => seq!['-'] + expr_text(*x),
        ExprV::Builtin(f, x) => builtin_text(f) + expr_text(*x) + seq![')'],
        ExprV::Inkey => "INKEY$"@,
    }
}

impl GwStringLiteral {
    pub fn with_value(value: String) -> (r: GwStringLiteral)
        ensures
            r.value@ == value@,
    {
        GwStringLiteral { value }
    }
}

impl GwIntegerLiteral {
    pub fn with_value(value: i16) -> (r: GwIntegerLiteral)
        ensures
            r.value == value,
    {
        GwIntegerLiteral { value }
    }
}

impl GwDoubleLiteral {
    pub fn with_value(value: String) -> (r: GwDoubleLiteral)
        ensures
            r.value@ == value@,
    {
        GwDoubleLiteral { value }
    }
}

impl GwVariableExpression {
    pub fn with_name(name: String) -> (r: GwVariableExpression)
        ensures
            r.name@ == name@,
    {
        GwVariableExpression { name }
    }
}

impl GwParenthesizedExpr {
    pub fn new(expr: GwExpression) -> (r: GwParenthesizedExpr)
        ensures
            expr_view(*r.expr) == expr_view(expr),
    {
        GwParenthesizedExpr { expr: Box::new(expr) }
    }
}

impl GwBinaryOperation {
    /// A binary operation of a kind that has an evaluation.
    pub fn new(kind: GwBinaryOperationKind, left: GwExpression, right: GwExpression) -> (r:
        GwBinaryOperation)
        requires
            is_supported_operation(kind),
        ensures
            r.kind == kind,
            expr_view(*r.left) == expr_view(left),
            expr_view(*r.right) == expr_view(right),
    {
        GwBinaryOperation { kind, left: Box::new(left), right: Box::new(right) }
    }

    fn fill_operator(&self, buffer: &mut String)
        ensures
            final(buffer)@ == old(buffer)@ + operator_text(self.kind),
    {
        match self.kind {
            GwBinaryOperationKind::Plus => push_str(buffer, " + "),
            GwBinaryOperationKind::Times => push_str(buffer, " * "),
            GwBinaryOperationKind::Minus => push_str(buffer, " - "),
            GwBinaryOperationKind::Equal => push_str(buffer, " = "),
            GwBinaryOperationKind::FloatDiv => push_str(buffer, " / "),
            GwBinaryOperationKind::Different => push_str(buffer, " <> "),
            GwBinaryOperationKind::Exponent => push_str(buffer, " ^ "),
            GwBinaryOperationKind::GreaterThan => push_str(buffer, " > "),
            GwBinaryOperationKind::LessThan => push_str(buffer, " < "),
            GwBinaryOperationKind::GreaterEqualThan => push_str(buffer, " >= "),
            GwBinaryOperationKind::LessEqualThan => push_str(buffer, " <= "),
            _ => push_str(buffer, " ?? "),
        }
    }
}

impl GwExpression {
    /// Appends the text that shows this expression's structure.
    pub fn fill_structure_string(&self, buffer: &mut String)
        ensures
            final(buffer)@ == old(buffer)@ + expr_text(self@),
        decreases self,
    {
        match self {
            GwExpression::IntegerLiteral(i) => push_int(buffer, i.value),
            GwExpression::StringLiteral(lit) => push_str(buffer, lit.value.as_str()),
            GwExpression::DoubleLiteral(d) => push_str(buffer, d.value.as_str()),
            GwExpression::Variable(v) => push_str(buffer, v.name.as_str()),
            GwExpression::Call(c) => {
                push_str(buffer, c.array_or_function.as_str());
                crate::text::push_char(buffer, '(');
                fill_arguments(&c.arguments, buffer);
                crate::text::push_char(buffer, ')');
            },
            GwExpression::Binary(b) => {
                crate::text::push_char(buffer, '(');
                b.left.fill_structure_string(buffer);
                b.fill_operator(buffer);
                b.right.fill_structure_string(buffer);
                crate::text::push_char(buffer, ')');
            },
            GwExpression::Parenthesized(p) => {
                crate::text::push_char(buffer, '(');
                p.expr.fill_structure_string(buffer);
                crate::text::push_char(buffer, ')');
            },
            GwExpression::Neg(n) => {
                crate::text::push_char(buffer, '-');
                n.expr.fill_structure_string(buffer);
            },
            GwExpression::Abs(f) => {
                push_str(buffer, "ABS(");
                f.expr.fill_structure_string(buffer);
                crate::text::push_char(buffer, ')');
            },
            GwExpression::Log(f) => {
                push_str(buffer, "LOG(");
                f.expr.fill_structure_string(buffer);
                crate::text::push_char(buffer, ')');
            },
            GwExpression::Int(f) => {
                push_str(buffer, "INT(");
                f.expr.fill_structure_string(buffer);
                crate::text::push_char(buffer, ')');
            },
            GwExpression::Cos(f) => {
                push_str(buffer, "COS(");
                f.expr.fill_structure_string(buffer);
                crate::text::push_char(buffer, ')');
            },
            GwExpression::Sin(f) => {
                push_str(buffer, "SIN(");
                f.expr.fill_structure_string(buffer);
                crate::text::push_char(buffer, ')');
            },
            GwExpression::Rnd(f) => {
                push_str(buffer, "RND(");
                f.expr.fill_structure_string(buffer);
                crate::text::push_char(buffer, ')');
            },
            GwExpression::Inkey(_) => push_str(buffer, "INKEY$"),
        }
    }
}

/// Appends the arguments of a call, separated by `,`.
pub fn fill_arguments(arguments: &Vec<GwExpression>, buffer: &mut String)
    ensures
        final(buffer)@ == old(buffer)@ + args_text(exprs_view(arguments@)),
    decreases arguments@,
{
    let ghost start = buffer@;
    let n = arguments.len();
    let mut i: usize = 0;
    proof {
        lemma_exprs_view(arguments@);
    }
    while i < n
        invariant
            n == arguments@.len(),
            i <= n,
            exprs_view(arguments@).len() == n,
            forall|k: int| 0 <= k < n ==> #[trigger] exprs_view(arguments@)[k] == expr_view(
                arguments@[k],
            ),
            buffer@ == start + args_text(exprs_view(arguments@).take(i as int)) + if 0 < i < n {
                seq![',']
            } else {
                seq![]
            },
        decreases n - i,
    {
        let ghost vs = exprs_view(arguments@);
        proof {
            assert(decreases_to!(arguments@ => arguments@[i as int]));
        }
        arguments[i].fill_structure_string(buffer);
        proof {
            assert(vs.take(i + 1).drop_last() == vs.take(i as int));
            assert(vs.take(i + 1).last() == vs[i as int]);
            if i == 0 {
                assert(vs.take(1) == seq![vs[0]]);
            }
        }
        if i != n - 1 {
            crate::text::push_char(buffer, ',');
        }
        i = i + 1;
    }
    assert(exprs_view(arguments@).take(n as int) == exprs_view(arguments@));
}

} // verus!
