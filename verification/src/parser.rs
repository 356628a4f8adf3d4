//! The GW-BASIC parser: expressions, statements and program lines read
//! from a token stream. Each function yields what `parse_model` says of
//! the stream's state; those that return an `Option` give `None` exactly
//! where the model says parsing stops abnormally (`PR::Panic`).

use vstd::prelude::*;
use crate::ast::{
    exprs_view, lemma_exprs_view, lemma_exprs_view_push, BuiltinFunction, ExprV, GwAbs, GwBinaryOperation,
    GwBinaryOperationKind, GwCall, GwCos, GwDoubleLiteral, GwExpression, GwInkey, GwInt,
    GwIntegerLiteral, GwLog, GwNegExpr, GwParenthesizedExpr, GwRnd, GwSin, GwStringLiteral,
    GwVariableExpression, is_supported_operation,
};
use crate::lexer::{GwToken, PushbackCharsIterator, PushbackTokensIterator, TokenValue};
use crate::parse_model::{
    binary, blank_prefix_len, builtin_of, comma_free_prefix_len, data_items, is_additive_token,
    is_comparison_token, is_multiplicative_token, next_tok, operation_of, p_add, p_adds, p_cmp,
    p_cmps, p_dim_decl, p_exp, p_expr, p_exps, p_flex, p_id_aux, p_id_expr, p_mul, p_muls, p_neg,
    p_optional_tab, p_paren, p_print_element, p_restrict_id, p_sep_assignables, p_sep_dims,
    p_sep_exprs, p_sep_ints, p_sep_ranges, p_single, p_single_int, p_var_range,
    p_var_range_fragment, pmeasure, push_state, IdR, NextTok, PState, PR,
};
use crate::statements::{
    assignables_view, dim_decl_view, dim_decls_view, print_elem_view, print_items_view,
    strings_view, DefVarRange, GwAssignableExpression, GwDimDecl, PrintElementWrapper,
    PrintSeparator,
};
use crate::text::{chars_of, push_char};
use crate::statements::{
    ExpressionType, GwArrayAssign, GwAssign, GwCls, GwColor, GwData, GwDefType, GwDim, GwEnd, GwFor,
    GwGosub, GwGotoStat, GwInputStat, GwInstruction, GwKeyStat, GwListStat, GwLoadStat, GwNext,
    GwOnGoto, GwPrintStat, GwPrintUsingStat, GwRead, GwRem, GwReturn, GwRunStat, GwStop, GwSwap,
    GwSystemStat, GwWend, GwWhile, InstrV, SwitchIndicator,
};
use crate::parse_model::{
    p_array_assign, p_assign, p_color, p_data, p_deftype, p_dim, p_for, p_for_step, p_gosub,
    p_goto, p_input, p_key, p_load, p_next, p_on_goto, p_print, p_read, p_rem, p_swap, p_while,
    p_colon_stats, p_continue, p_if, p_instr, p_line, p_same_line, pr_outcome,
};
use crate::statements::{
    instrs_view, lemma_instrs_view, lemma_instrs_view_push, GwIf, GwIfWithStats, ProgramLine,
};
use crate::tokens::GwBasicToken;

verus! {

/// The outcome of a parsing function.
pub enum ParserResult<T> {
    Success(T),
    Error(String),
    Nothing,
}

/// The outcome of reading an identifier and what follows it.
pub enum IdExpressionResult {
    Var(GwVariableExpression),
    Arr(GwCall),
    Builtin(GwExpression),
    Error(String),
}

/// The state of a token stream.
pub open spec fn state_of(it: PushbackTokensIterator) -> PState {
    PState { pushed: it.pushed(), text: it.text() }
}

/// A parsing outcome seen through `view`, with the state it leaves.
pub open spec fn pr_of<T, V>(r: ParserResult<T>, view: spec_fn(T) -> V, fin: PState) -> PR<V> {
    match r {
        ParserResult::Success(v) => PR::Success(view(v), fin),
        ParserResult::Error(m) => PR::Error(m@, fin),
        ParserResult::Nothing => PR::Nothing(fin),
    }
}

/// A parsing outcome that may be missing (`PR::Panic` then), seen through
/// `view`, with the state it leaves.
pub open spec fn opt_pr_of<T, V>(r: Option<ParserResult<T>>, view: spec_fn(T) -> V, fin: PState) -> PR<V> {
    match r {
        Some(x) => pr_of(x, view, fin),
        None => PR::Panic,
    }
}

pub open spec fn id_result_view(r: IdExpressionResult, fin: PState) -> IdR {
    match r {
        IdExpressionResult::Var(v) => IdR::Var(v.name@, fin),
        IdExpressionResult::Arr(c) => IdR::Arr(c.array_or_function@, exprs_view(c.arguments@), fin),
        IdExpressionResult::Builtin(e) => match e@ {
            ExprV::Builtin(f, a) => IdR::Builtin(f, *a, fin),
            _ => IdR::Panic,
        },
        IdExpressionResult::Error(m) => IdR::Error(m@, fin),
    }
}

/// Reads one token: `Some(None)` at the end of the text, `None` where no
/// token can be read.
fn read_token(it: &mut PushbackTokensIterator) -> (r: Option<Option<GwToken>>)
    requires
        old(it).wf(),
    ensures
        final(it).wf(),
        r is None <==> next_tok(state_of(*old(it))) is Stuck,
        r is Some ==> match next_tok(state_of(*old(it))) {
            NextTok::Tok(t, s) => r->0 is Some && r->0->0@ == t && state_of(*final(it)) == s,
            NextTok::Eof(s) => r->0 is None && state_of(*final(it)) == s,
            NextTok::Stuck => false,
        },
        r is Some ==> state_of(*final(it)).pushed is None,
        r is Some ==> pmeasure(state_of(*final(it))) <= pmeasure(state_of(*old(it))),
        r is Some && r->0 is Some ==> pmeasure(state_of(*final(it))) < pmeasure(
            state_of(*old(it)),
        ),
{
    proof {
        reveal(next_tok);
    }
    it.try_next()
}

/// Pushes a token back.
fn unread(it: &mut PushbackTokensIterator, tok: GwToken)
    requires
        old(it).wf(),
    ensures
        final(it).wf(),
        state_of(*final(it)) == push_state(tok@, state_of(*old(it))),
{
    it.push_back(tok);
}

/// An error outcome with the given message.
fn error<T>(msg: &str) -> (r: ParserResult<T>)
    ensures
        r is Error,
        r->Error_0@ == msg@,
{
    ParserResult::Error(msg.to_owned())
}

/// Whether a string equals a literal.
fn str_is(s: &String, lit: &str) -> (r: bool)
    ensures
        r == (s@ == lit@),
{
    let t = lit.to_owned();
    s.eq(&t)
}

/// Whether `func_name` names a built-in function.
pub fn is_builtin_function(func_name: &String) -> (r: bool)
    ensures
        r == builtin_of(func_name@) is Some,
{
    str_is(func_name, "ABS") || str_is(func_name, "LOG") || str_is(func_name, "INT") || str_is(
        func_name,
        "COS",
    ) || str_is(func_name, "SIN") || str_is(func_name, "RND")
}

/// The call of the built-in function `func_name` with `args`: `None` when
/// the name is no built-in function or the call has not exactly one
/// argument.
pub fn create_builtin_function(func_name: &String, args: Vec<GwExpression>) -> (r: Option<
    GwExpression,
>)
    ensures
        match builtin_of(func_name@) {
            Some(f) => if args@.len() == 1 {
                r is Some && r->0@ == ExprV::Builtin(f, Box::new(args@[0]@))
            } else {
                r is None
            },
            None => r is None,
        },
{
    if args.len() != 1 {
        return None;
    }
    let mut args = args;
    let e = args.remove(0);
    if str_is(func_name, "ABS") {
        Some(GwExpression::Abs(GwAbs { expr: Box::new(e) }))
    } else if str_is(func_name, "LOG") {
        Some(GwExpression::Log(GwLog { expr: Box::new(e) }))
    } else if str_is(func_name, "INT") {
        Some(GwExpression::Int(GwInt { expr: Box::new(e) }))
    } else if str_is(func_name, "COS") {
        Some(GwExpression::Cos(GwCos { expr: Box::new(e) }))
    } else if str_is(func_name, "SIN") {
        Some(GwExpression::Sin(GwSin { expr: Box::new(e) }))
    } else if str_is(func_name, "RND") {
        Some(GwExpression::Rnd(GwRnd { expr: Box::new(e) }))
    } else {
        None
    }
}

/// The binary operation of an operator token.
pub fn get_operation_kind_from_token(token: &GwBasicToken) -> (r: Option<GwBinaryOperationKind>)
    ensures
        r == operation_of(*token),
        r is Some ==> is_supported_operation(r->0),
{
    match token {
        GwBasicToken::PlusTok => Some(GwBinaryOperationKind::Plus),
        GwBasicToken::MinusTok => Some(GwBinaryOperationKind::Minus),
        GwBasicToken::TimesTok => Some(GwBinaryOperationKind::Times),
        GwBasicToken::DivTok => Some(GwBinaryOperationKind::FloatDiv),
        GwBasicToken::EqlTok => Some(GwBinaryOperationKind::Equal),
        GwBasicToken::DifferentTok => Some(GwBinaryOperationKind::Different),
        GwBasicToken::PowOperatorTok => Some(GwBinaryOperationKind::Exponent),
        GwBasicToken::LtTok => Some(GwBinaryOperationKind::LessThan),
        GwBasicToken::GtTok => Some(GwBinaryOperationKind::GreaterThan),
        GwBasicToken::LteTok => Some(GwBinaryOperationKind::LessEqualThan),
        GwBasicToken::GteTok => Some(GwBinaryOperationKind::GreaterEqualThan),
        _ => None,
    }
}

/// The keyword of `token` when it is `t1` or `t2`.
pub fn one_kw_token_of(token: &GwToken, t1: &GwBasicToken, t2: &GwBasicToken) -> (r: Option<
    GwBasicToken,
>)
    ensures
        r == (if token@ is Keyword && (token@->Keyword_0 == *t1 || token@->Keyword_0 == *t2) {
            Some(token@->Keyword_0)
        } else {
            None
        }),
{
    match token {
        GwToken::Keyword(tok) => if *tok == *t1 || *tok == *t2 {
            Some(*tok)
        } else {
            None
        },
        _ => None,
    }
}

/// The keyword of `token` when it is `t1`, `t2` or `t3`.
pub fn one_kw_token_of3(
    token: &GwToken,
    t1: &GwBasicToken,
    t2: &GwBasicToken,
    t3: &GwBasicToken,
) -> (r: Option<GwBasicToken>)
    ensures
        r == (if token@ is Keyword && (token@->Keyword_0 == *t1 || token@->Keyword_0 == *t2
            || token@->Keyword_0 == *t3) {
            Some(token@->Keyword_0)
        } else {
            None
        }),
{
    match token {
        GwToken::Keyword(tok) => if *tok == *t1 || *tok == *t2 || *tok == *t3 {
            Some(*tok)
        } else {
            None
        },
        _ => None,
    }
}

/// The comparison operator of `token`, if it is one.
pub fn is_comparison_operation_token(token: &GwToken) -> (r: Option<GwBasicToken>)
    ensures
        r == (if token@ is Keyword && is_comparison_token(token@->Keyword_0) {
            Some(token@->Keyword_0)
        } else {
            None
        }),
{
    match token {
        GwToken::Keyword(tok) => match tok {
            GwBasicToken::EqlTok | GwBasicToken::DifferentTok | GwBasicToken::LtTok
            | GwBasicToken::GtTok | GwBasicToken::LteTok | GwBasicToken::GteTok => Some(*tok),
            _ => None,
        },
        _ => None,
    }
}

/// Whether a token is the keyword `k`.
fn is_keyword(token: &GwToken, k: GwBasicToken) -> (r: bool)
    ensures
        r == (token@ == TokenValue::Keyword(k)),
{
    match token {
        GwToken::Keyword(tok) => *tok == k,
        _ => false,
    }
}

/// An expression.
pub fn parse_expression(iterator: &mut PushbackTokensIterator) -> (r: ParserResult<GwExpression>)
    requires
        old(iterator).wf(),
        !(p_expr(state_of(*old(iterator))) is Panic),
    ensures
        final(iterator).wf(),
        pr_of(r, |e: GwExpression| e@, state_of(*final(iterator))) == p_expr(
            state_of(*old(iterator)),
        ),
{
    match try_parse_expression(iterator) {
        Some(r) => r,
        None => ParserResult::Nothing,
    }
}

/// An expression.
/// `None` where parsing stops abnormally (`PR::Panic` in the model).
fn try_parse_expression(iterator: &mut PushbackTokensIterator) -> (r: Option<ParserResult<GwExpression>>)
    requires
        old(iterator).wf(),
    ensures
        final(iterator).wf(),
        r is Some ==> pmeasure(state_of(*final(iterator))) <= pmeasure(state_of(*old(iterator))),
        r is Some && r->0 is Success ==> pmeasure(state_of(*final(iterator))) < pmeasure(
            state_of(*old(iterator)),
        ),
        opt_pr_of(r, |e: GwExpression| e@, state_of(*final(iterator))) == p_expr(
            state_of(*old(iterator)),
        ),
    decreases pmeasure(state_of(*old(iterator))), 10int,
{
    try_parse_comparison_expression(iterator)
}

/// Additive expressions joined by comparison operators.
pub fn parse_comparison_expression(iterator: &mut PushbackTokensIterator) -> (r: ParserResult<
    GwExpression,
>)
    requires
        old(iterator).wf(),
        !(p_cmp(state_of(*old(iterator))) is Panic),
    ensures
        final(iterator).wf(),
        pr_of(r, |e: GwExpression| e@, state_of(*final(iterator))) == p_cmp(
            state_of(*old(iterator)),
        ),
{
    match try_parse_comparison_expression(iterator) {
        Some(r) => r,
        None => ParserResult::Nothing,
    }
}

/// Additive expressions joined by comparison operators.
/// `None` where parsing stops abnormally (`PR::Panic` in the model).
fn try_parse_comparison_expression(iterator: &mut PushbackTokensIterator) -> (r: Option<ParserResult<
    GwExpression,
>>)
    requires
        old(iterator).wf(),
    ensures
        final(iterator).wf(),
        r is Some ==> pmeasure(state_of(*final(iterator))) <= pmeasure(state_of(*old(iterator))),
        r is Some && r->0 is Success ==> pmeasure(state_of(*final(iterator))) < pmeasure(
            state_of(*old(iterator)),
        ),
        opt_pr_of(r, |e: GwExpression| e@, state_of(*final(iterator))) == p_cmp(
            state_of(*old(iterator)),
        ),
    decreases pmeasure(state_of(*old(iterator))), 9int,
{
    match try_parse_additive_expression(iterator)? {
        ParserResult::Success(left) => try_parse_comparison_expressions(iterator, left),
        ParserResult::Nothing => Some(ParserResult::Nothing),
        ParserResult::Error(msg) => Some(ParserResult::Error(msg)),
    }
}

/// The rest of a comparison chain after `current`.
pub fn parse_comparison_expressions(
    iterator: &mut PushbackTokensIterator,
    current: GwExpression,
) -> (r: ParserResult<GwExpression>)
    requires
        old(iterator).wf(),
        !(p_cmps(state_of(*old(iterator)), current@) is Panic),
    ensures
        final(iterator).wf(),
        pr_of(r, |e: GwExpression| e@, state_of(*final(iterator))) == p_cmps(
            state_of(*old(iterator)),
            current@,
        ),
{
    match try_parse_comparison_expressions(iterator, current) {
        Some(r) => r,
        None => ParserResult::Nothing,
    }
}

/// The rest of a comparison chain after `current`.
/// `None` where parsing stops abnormally (`PR::Panic` in the model).
fn try_parse_comparison_expressions(
    iterator: &mut PushbackTokensIterator,
    current: GwExpression,
) -> (r: Option<ParserResult<GwExpression>>)
    requires
        old(iterator).wf(),
    ensures
        final(iterator).wf(),
        r is Some ==> pmeasure(state_of(*final(iterator))) <= pmeasure(state_of(*old(iterator))),
        opt_pr_of(r, |e: GwExpression| e@, state_of(*final(iterator))) == p_cmps(
            state_of(*old(iterator)),
            current@,
        ),
    decreases pmeasure(state_of(*old(iterator))), 8int,
{
    let ghost st0 = state_of(*iterator);
    let mut current_expr = current;
    loop
        invariant
            iterator.wf(),
            p_cmps(state_of(*iterator), current_expr@) == p_cmps(st0, current@),
            pmeasure(state_of(*iterator)) <= pmeasure(st0),
            st0 == state_of(*old(iterator)),
        decreases pmeasure(state_of(*iterator)),
    {
        let ghost cur_v = current_expr@;
        if let Some(next_token) = read_token(iterator)? {
            if let Some(tok) = is_comparison_operation_token(&next_token) {
                match try_parse_additive_expression(iterator)? {
                    ParserResult::Success(right) => {
                        let kind = match get_operation_kind_from_token(&tok) {
                            Some(k) => k,
                            None => GwBinaryOperationKind::Equal,
                        };
                        current_expr = GwExpression::Binary(
                            GwBinaryOperation::new(kind, current_expr, right),
                        );
                        assert(current_expr@ == binary(tok, cur_v, right@));
                    },
                    _ => {
                        return Some(error(
                            "Error parsing comparison expression, expecting right side operand ",
                        ));
                    },
                }
            } else {
                unread(iterator, next_token);
                return Some(ParserResult::Success(current_expr));
            }
        } else {
            return Some(ParserResult::Success(current_expr));
        }
    }
}

/// Multiplicative expressions joined by `+` and `-`.
pub fn parse_additive_expression(iterator: &mut PushbackTokensIterator) -> (r: ParserResult<GwExpression>)
    requires
        old(iterator).wf(),
        !(p_add(state_of(*old(iterator))) is Panic),
    ensures
        final(iterator).wf(),
        pr_of(r, |e: GwExpression| e@, state_of(*final(iterator))) == p_add(
            state_of(*old(iterator)),
        ),
{
    match try_parse_additive_expression(iterator) {
        Some(r) => r,
        None => ParserResult::Nothing,
    }
}

/// Multiplicative expressions joined by `+` and `-`.
/// `None` where parsing stops abnormally (`PR::Panic` in the model).
fn try_parse_additive_expression(iterator: &mut PushbackTokensIterator) -> (r: Option<ParserResult<GwExpression>>)
    requires
        old(iterator).wf(),
    ensures
        final(iterator).wf(),
        r is Some ==> pmeasure(state_of(*final(iterator))) <= pmeasure(state_of(*old(iterator))),
        r is Some && r->0 is Success ==> pmeasure(state_of(*final(iterator))) < pmeasure(
            state_of(*old(iterator)),
        ),
        opt_pr_of(r, |e: GwExpression| e@, state_of(*final(iterator))) == p_add(
            state_of(*old(iterator)),
        ),
    decreases pmeasure(state_of(*old(iterator))), 7int,
{
    match try_parse_multiplicative_expression(iterator)? {
        ParserResult::Success(left) => try_parse_additive_expressions(iterator, left),
        ParserResult::Nothing => Some(ParserResult::Nothing),
        ParserResult::Error(msg) => Some(ParserResult::Error(msg)),
    }
}

/// The rest of an additive chain after `current`.
pub fn parse_additive_expressions(
    iterator: &mut PushbackTokensIterator,
    current: GwExpression,
) -> (r: ParserResult<GwExpression>)
    requires
        old(iterator).wf(),
        !(p_adds(state_of(*old(iterator)), current@) is Panic),
    ensures
        final(iterator).wf(),
        pr_of(r, |e: GwExpression| e@, state_of(*final(iterator))) == p_adds(
            state_of(*old(iterator)),
            current@,
        ),
{
    match try_parse_additive_expressions(iterator, current) {
        Some(r) => r,
        None => ParserResult::Nothing,
    }
}

/// The rest of an additive chain after `current`.
/// `None` where parsing stops abnormally (`PR::Panic` in the model).
fn try_parse_additive_expressions(
    iterator: &mut PushbackTokensIterator,
    current: GwExpression,
) -> (r: Option<ParserResult<GwExpression>>)
    requires
        old(iterator).wf(),
    ensures
        final(iterator).wf(),
        r is Some ==> pmeasure(state_of(*final(iterator))) <= pmeasure(state_of(*old(iterator))),
        opt_pr_of(r, |e: GwExpression| e@, state_of(*final(iterator))) == p_adds(
            state_of(*old(iterator)),
            current@,
        ),
    decreases pmeasure(state_of(*old(iterator))), 6int,
{
    let ghost st0 = state_of(*iterator);
    let mut current_expr = current;
    loop
        invariant
            iterator.wf(),
            p_adds(state_of(*iterator), current_expr@) == p_adds(st0, current@),
            pmeasure(state_of(*iterator)) <= pmeasure(st0),
            st0 == state_of(*old(iterator)),
        decreases pmeasure(state_of(*iterator)),
    {
        let ghost cur_v = current_expr@;
        if let Some(next_token) = read_token(iterator)? {
            if let Some(tok) = one_kw_token_of(&next_token, &GwBasicToken::PlusTok, &GwBasicToken::MinusTok) {
                match try_parse_multiplicative_expression(iterator)? {
                    ParserResult::Success(right) => {
                        let kind = match get_operation_kind_from_token(&tok) {
                            Some(k) => k,
                            None => GwBinaryOperationKind::Equal,
                        };
                        current_expr = GwExpression::Binary(
                            GwBinaryOperation::new(kind, current_expr, right),
                        );
                        assert(current_expr@ == binary(tok, cur_v, right@));
                    },
                    _ => {
                        return Some(error(
                            "Error parsing additive expression, expecting right side operand ",
                        ));
                    },
                }
            } else {
                unread(iterator, next_token);
                return Some(ParserResult::Success(current_expr));
            }
        } else {
            return Some(ParserResult::Success(current_expr));
        }
    }
}

/// Exponential expressions joined by `*`, `/` and `^`.
pub fn parse_multiplicative_expression(iterator: &mut PushbackTokensIterator) -> (r: ParserResult<GwExpression>)
    requires
        old(iterator).wf(),
        !(p_mul(state_of(*old(iterator))) is Panic),
    ensures
        final(iterator).wf(),
        pr_of(r, |e: GwExpression| e@, state_of(*final(iterator))) == p_mul(
            state_of(*old(iterator)),
        ),
{
    match try_parse_multiplicative_expression(iterator) {
        Some(r) => r,
        None => ParserResult::Nothing,
    }
}

/// Exponential expressions joined by `*`, `/` and `^`.
/// `None` where parsing stops abnormally (`PR::Panic` in the model).
fn try_parse_multiplicative_expression(iterator: &mut PushbackTokensIterator) -> (r: Option<ParserResult<GwExpression>>)
    requires
        old(iterator).wf(),
    ensures
        final(iterator).wf(),
        r is Some ==> pmeasure(state_of(*final(iterator))) <= pmeasure(state_of(*old(iterator))),
        r is Some && r->0 is Success ==> pmeasure(state_of(*final(iterator))) < pmeasure(
            state_of(*old(iterator)),
        ),
        opt_pr_of(r, |e: GwExpression| e@, state_of(*final(iterator))) == p_mul(
            state_of(*old(iterator)),
        ),
    decreases pmeasure(state_of(*old(iterator))), 5int,
{
    match try_parse_exponential_expression(iterator)? {
        ParserResult::Success(left) => try_parse_multiplicative_expressions(iterator, left),
        ParserResult::Nothing => Some(ParserResult::Nothing),
        ParserResult::Error(msg) => Some(ParserResult::Error(msg)),
    }
}

/// The rest of a multiplicative chain after `current`.
pub fn parse_multiplicative_expressions(
    iterator: &mut PushbackTokensIterator,
    current: GwExpression,
) -> (r: ParserResult<GwExpression>)
    requires
        old(iterator).wf(),
        !(p_muls(state_of(*old(iterator)), current@) is Panic),
    ensures
        final(iterator).wf(),
        pr_of(r, |e: GwExpression| e@, state_of(*final(iterator))) == p_muls(
            state_of(*old(iterator)),
            current@,
        ),
{
    match try_parse_multiplicative_expressions(iterator, current) {
        Some(r) => r,
        None => ParserResult::Nothing,
    }
}

/// The rest of a multiplicative chain after `current`.
/// `None` where parsing stops abnormally (`PR::Panic` in the model).
fn try_parse_multiplicative_expressions(
    iterator: &mut PushbackTokensIterator,
    current: GwExpression,
) -> (r: Option<ParserResult<GwExpression>>)
    requires
        old(iterator).wf(),
    ensures
        final(iterator).wf(),
        r is Some ==> pmeasure(state_of(*final(iterator))) <= pmeasure(state_of(*old(iterator))),
        opt_pr_of(r, |e: GwExpression| e@, state_of(*final(iterator))) == p_muls(
            state_of(*old(iterator)),
            current@,
        ),
    decreases pmeasure(state_of(*old(iterator))), 4int,
{
    let ghost st0 = state_of(*iterator);
    let mut current_expr = current;
    loop
        invariant
            iterator.wf(),
            p_muls(state_of(*iterator), current_expr@) == p_muls(st0, current@),
            pmeasure(state_of(*iterator)) <= pmeasure(st0),
            st0 == state_of(*old(iterator)),
        decreases pmeasure(state_of(*iterator)),
    {
        let ghost cur_v = current_expr@;
        if let Some(next_token) = read_token(iterator)? {
            if let Some(tok) = one_kw_token_of3(&next_token, &GwBasicToken::DivTok, &GwBasicToken::TimesTok, &GwBasicToken::PowOperatorTok) {
                match try_parse_exponential_expression(iterator)? {
                    ParserResult::Success(right) => {
                        let kind = match get_operation_kind_from_token(&tok) {
                            Some(k) => k,
                            None => GwBinaryOperationKind::Equal,
                        };
                        current_expr = GwExpression::Binary(
                            GwBinaryOperation::new(kind, current_expr, right),
                        );
                        assert(current_expr@ == binary(tok, cur_v, right@));
                    },
                    _ => {
                        return Some(error(
                            "Error parsing additive expression, expecting right side operand ",
                        ));
                    },
                }
            } else {
                unread(iterator, next_token);
                return Some(ParserResult::Success(current_expr));
            }
        } else {
            return Some(ParserResult::Success(current_expr));
        }
    }
}

/// Single expressions joined by `^`.
pub fn parse_exponential_expression(iterator: &mut PushbackTokensIterator) -> (r: ParserResult<GwExpression>)
    requires
        old(iterator).wf(),
        !(p_exp(state_of(*old(iterator))) is Panic),
    ensures
        final(iterator).wf(),
        pr_of(r, |e: GwExpression| e@, state_of(*final(iterator))) == p_exp(
            state_of(*old(iterator)),
        ),
{
    match try_parse_exponential_expression(iterator) {
        Some(r) => r,
        None => ParserResult::Nothing,
    }
}

/// Single expressions joined by `^`.
/// `None` where parsing stops abnormally (`PR::Panic` in the model).
fn try_parse_exponential_expression(iterator: &mut PushbackTokensIterator) -> (r: Option<ParserResult<GwExpression>>)
    requires
        old(iterator).wf(),
    ensures
        final(iterator).wf(),
        r is Some ==> pmeasure(state_of(*final(iterator))) <= pmeasure(state_of(*old(iterator))),
        r is Some && r->0 is Success ==> pmeasure(state_of(*final(iterator))) < pmeasure(
            state_of(*old(iterator)),
        ),
        opt_pr_of(r, |e: GwExpression| e@, state_of(*final(iterator))) == p_exp(
            state_of(*old(iterator)),
        ),
    decreases pmeasure(state_of(*old(iterator))), 3int,
{
    match try_parse_single_expression(iterator)? {
        ParserResult::Success(left) => try_parse_exponential_expressions(iterator, left),
        ParserResult::Nothing => Some(ParserResult::Nothing),
        ParserResult::Error(msg) => Some(ParserResult::Error(msg)),
    }
}

/// The rest of an exponential chain after `current`.
pub fn parse_exponential_expressions(
    iterator: &mut PushbackTokensIterator,
    current: GwExpression,
) -> (r: ParserResult<GwExpression>)
    requires
        old(iterator).wf(),
        !(p_exps(state_of(*old(iterator)), current@) is Panic),
    ensures
        final(iterator).wf(),
        pr_of(r, |e: GwExpression| e@, state_of(*final(iterator))) == p_exps(
            state_of(*old(iterator)),
            current@,
        ),
{
    match try_parse_exponential_expressions(iterator, current) {
        Some(r) => r,
        None => ParserResult::Nothing,
    }
}

/// The rest of an exponential chain after `current`.
/// `None` where parsing stops abnormally (`PR::Panic` in the model).
fn try_parse_exponential_expressions(
    iterator: &mut PushbackTokensIterator,
    current: GwExpression,
) -> (r: Option<ParserResult<GwExpression>>)
    requires
        old(iterator).wf(),
    ensures
        final(iterator).wf(),
        r is Some ==> pmeasure(state_of(*final(iterator))) <= pmeasure(state_of(*old(iterator))),
        opt_pr_of(r, |e: GwExpression| e@, state_of(*final(iterator))) == p_exps(
            state_of(*old(iterator)),
            current@,
        ),
    decreases pmeasure(state_of(*old(iterator))), 2int,
{
    let ghost st0 = state_of(*iterator);
    let mut current_expr = current;
    loop
        invariant
            iterator.wf(),
            p_exps(state_of(*iterator), current_expr@) == p_exps(st0, current@),
            pmeasure(state_of(*iterator)) <= pmeasure(st0),
            st0 == state_of(*old(iterator)),
        decreases pmeasure(state_of(*iterator)),
    {
        let ghost cur_v = current_expr@;
        if let Some(next_token) = read_token(iterator)? {
            if let Some(tok) = (if is_keyword(&next_token, GwBasicToken::PowOperatorTok) { Some(GwBasicToken::PowOperatorTok) } else { None }) {
                match try_parse_single_expression(iterator)? {
                    ParserResult::Success(right) => {
                        let kind = GwBinaryOperationKind::Exponent;
                        current_expr = GwExpression::Binary(
                            GwBinaryOperation::new(kind, current_expr, right),
                        );
                        assert(current_expr@ == ExprV::Binary(GwBinaryOperationKind::Exponent, Box::new(cur_v), Box::new(right@)));
                    },
                    _ => {
                        return Some(error(
                            "Error parsing additive expression, expecting right side operand ",
                        ));
                    },
                }
            } else {
                unread(iterator, next_token);
                return Some(ParserResult::Success(current_expr));
            }
        } else {
            return Some(ParserResult::Success(current_expr));
        }
    }
}

/// A literal, a name, a parenthesized or negated expression, or `INKEY$`.
pub fn parse_single_expression(iterator: &mut PushbackTokensIterator) -> (r: ParserResult<
    GwExpression,
>)
    requires
        old(iterator).wf(),
        !(p_single(state_of(*old(iterator))) is Panic),
    ensures
        final(iterator).wf(),
        pr_of(r, |e: GwExpression| e@, state_of(*final(iterator))) == p_single(
            state_of(*old(iterator)),
        ),
{
    match try_parse_single_expression(iterator) {
        Some(r) => r,
        None => ParserResult::Nothing,
    }
}

/// A literal, a name, a parenthesized or negated expression, or `INKEY$`.
/// `None` where parsing stops abnormally (`PR::Panic` in the model).
fn try_parse_single_expression(iterator: &mut PushbackTokensIterator) -> (r: Option<ParserResult<
    GwExpression,
>>)
    requires
        old(iterator).wf(),
    ensures
        final(iterator).wf(),
        r is Some ==> pmeasure(state_of(*final(iterator))) <= pmeasure(state_of(*old(iterator))),
        r is Some && r->0 is Success ==> pmeasure(state_of(*final(iterator))) < pmeasure(
            state_of(*old(iterator)),
        ),
        opt_pr_of(r, |e: GwExpression| e@, state_of(*final(iterator))) == p_single(
            state_of(*old(iterator)),
        ),
    decreases pmeasure(state_of(*old(iterator))), 1int,
{
    Some(if let Some(next_token) = read_token(iterator)? {
        match next_token {
            GwToken::Identifier(id) => parse_id_expression(iterator, id)?,
            GwToken::Integer(i_val) => ParserResult::Success(
                GwExpression::IntegerLiteral(GwIntegerLiteral::with_value(i_val)),
            ),
            GwToken::Double(d_val) => ParserResult::Success(
                GwExpression::DoubleLiteral(GwDoubleLiteral::with_value(d_val)),
            ),
            GwToken::String(str_val) => ParserResult::Success(
                GwExpression::StringLiteral(GwStringLiteral::with_value(str_val)),
            ),
            GwToken::Keyword(GwBasicToken::LparTok) => parse_parenthesized_expression(iterator)?,
            GwToken::Keyword(GwBasicToken::MinusTok) => parse_negation_expression(iterator)?,
            GwToken::Keyword(GwBasicToken::InkeyDTok) => ParserResult::Success(
                GwExpression::Inkey(GwInkey {}),
            ),
            other => {
                unread(iterator, other);
                ParserResult::Nothing
            },
        }
    } else {
        ParserResult::Nothing
    })
}

/// An expression in parentheses, after the `(`.
pub fn parse_parenthesized_expression(iterator: &mut PushbackTokensIterator) -> (r: Option<ParserResult<
    GwExpression,
>>)
    requires
        old(iterator).wf(),
    ensures
        final(iterator).wf(),
        r is Some ==> pmeasure(state_of(*final(iterator))) <= pmeasure(state_of(*old(iterator))),
        opt_pr_of(r, |e: GwExpression| e@, state_of(*final(iterator))) == p_paren(
            state_of(*old(iterator)),
        ),
    decreases pmeasure(state_of(*old(iterator))), 20int,
{
    Some(if let ParserResult::Success(inner_expr) = try_parse_expression(iterator)? {
        if let Some(GwToken::Keyword(GwBasicToken::RparTok)) = read_token(iterator)? {
            ParserResult::Success(GwExpression::Parenthesized(GwParenthesizedExpr::new(inner_expr)))
        } else {
            error("Expecting right side parenthesis")
        }
    } else {
        error("Expecting expression on parenthesized expression")
    })
}

/// A negated single expression, after the `-`.
pub fn parse_negation_expression(iterator: &mut PushbackTokensIterator) -> (r: Option<ParserResult<
    GwExpression,
>>)
    requires
        old(iterator).wf(),
    ensures
        final(iterator).wf(),
        r is Some ==> pmeasure(state_of(*final(iterator))) <= pmeasure(state_of(*old(iterator))),
        opt_pr_of(r, |e: GwExpression| e@, state_of(*final(iterator))) == p_neg(
            state_of(*old(iterator)),
        ),
    decreases pmeasure(state_of(*old(iterator))), 20int,
{
    Some(if let ParserResult::Success(inner_expr) = try_parse_single_expression(iterator)? {
        ParserResult::Success(GwExpression::Neg(GwNegExpr { expr: Box::new(inner_expr) }))
    } else {
        error("Expecting single expression on negation")
    })
}

/// What follows an identifier `id`: an argument list (an array element, a
/// call or a built-in function) or nothing (a variable).
pub fn parse_id_expression_aux(iterator: &mut PushbackTokensIterator, id: String) -> (r:
    Option<IdExpressionResult>)
    requires
        old(iterator).wf(),
    ensures
        final(iterator).wf(),
        r is Some ==> pmeasure(state_of(*final(iterator))) <= pmeasure(state_of(*old(iterator))),
        r is None <==> p_id_aux(state_of(*old(iterator)), id@) is Panic,
        r is Some ==> id_result_view(r->0, state_of(*final(iterator))) == p_id_aux(
            state_of(*old(iterator)),
            id@,
        ),
    decreases pmeasure(state_of(*old(iterator))), 20int,
{
    Some(if let Some(next_token) = read_token(iterator)? {
        if is_keyword(&next_token, GwBasicToken::LparTok) {
            let array_indices_result = parse_exprs_with_separator(iterator)?;
            if let ParserResult::Success(array) = array_indices_result {
                proof {
                    lemma_exprs_view(array@);
                }
                if let Some(GwToken::Keyword(GwBasicToken::RparTok)) = read_token(iterator)? {
                    if is_builtin_function(&id) {
                        IdExpressionResult::Builtin(create_builtin_function(&id, array)?)
                    } else {
                        IdExpressionResult::Arr(GwCall { array_or_function: id, arguments: array })
                    }
                } else {
                    IdExpressionResult::Error("Right parenthesis expected".to_owned())
                }
            } else {
                IdExpressionResult::Error("Error parsing  array indices".to_owned())
            }
        } else {
            unread(iterator, next_token);
            IdExpressionResult::Var(GwVariableExpression::with_name(id))
        }
    } else {
        IdExpressionResult::Var(GwVariableExpression::with_name(id))
    })
}

/// An expression that starts with the identifier `id`.
pub fn parse_id_expression(iterator: &mut PushbackTokensIterator, id: String) -> (r: Option<ParserResult<
    GwExpression,
>>)
    requires
        old(iterator).wf(),
    ensures
        final(iterator).wf(),
        r is Some ==> pmeasure(state_of(*final(iterator))) <= pmeasure(state_of(*old(iterator))),
        opt_pr_of(r, |e: GwExpression| e@, state_of(*final(iterator))) == p_id_expr(
            state_of(*old(iterator)),
            id@,
        ),
    decreases pmeasure(state_of(*old(iterator))), 21int,
{
    Some(match parse_id_expression_aux(iterator, id)? {
        IdExpressionResult::Var(variable) => ParserResult::Success(GwExpression::Variable(variable)),
        IdExpressionResult::Arr(arr_access) => ParserResult::Success(GwExpression::Call(arr_access)),
        IdExpressionResult::Builtin(builtin) => ParserResult::Success(builtin),
        IdExpressionResult::Error(err) => ParserResult::Error(err),
    })
}

/// Expressions separated by `,`.
pub fn parse_exprs_with_separator(iterator: &mut PushbackTokensIterator) -> (r: Option<ParserResult<
    Vec<GwExpression>,
>>)
    requires
        old(iterator).wf(),
    ensures
        final(iterator).wf(),
        r is Some ==> pmeasure(state_of(*final(iterator))) <= pmeasure(state_of(*old(iterator))),
        opt_pr_of(r, |v: Vec<GwExpression>| exprs_view(v@), state_of(*final(iterator)))
            == p_sep_exprs(state_of(*old(iterator)), seq![]),
    decreases pmeasure(state_of(*old(iterator))), 20int,
{
    let ghost st0 = state_of(*iterator);
    let mut result: Vec<GwExpression> = Vec::new();
    assert(exprs_view(result@) == Seq::<ExprV>::empty());
    loop
        invariant
            iterator.wf(),
            p_sep_exprs(state_of(*iterator), exprs_view(result@)) == p_sep_exprs(st0, seq![]),
            pmeasure(state_of(*iterator)) <= pmeasure(st0),
            st0 == state_of(*old(iterator)),
        decreases pmeasure(state_of(*iterator)),
    {
        let ghost acc = exprs_view(result@);
        let item_result = try_parse_expression(iterator)?;
        if let ParserResult::Success(item) = item_result {
            proof {
                lemma_exprs_view_push(result@, item);
            }
            result.push(item);
        } else {
            return Some(error("error parsing sequence"));
        }
        let next_token = read_token(iterator)?;
        match next_token {
            Some(GwToken::Keyword(kw_tok)) if kw_tok == GwBasicToken::CommaSeparatorTok => {},
            Some(token_result) => {
                unread(iterator, token_result);
                return Some(ParserResult::Success(result));
            },
            None => {
                return Some(ParserResult::Success(result));
            },
        }
    }
}

/// An expression that can be assigned to: a variable or an array element.
pub fn parse_restrict_identifier_expression(iterator: &mut PushbackTokensIterator) -> (r: Option<ParserResult<GwAssignableExpression>>)
    requires
        old(iterator).wf(),
    ensures
        final(iterator).wf(),
        r is Some ==> pmeasure(state_of(*final(iterator))) <= pmeasure(state_of(*old(iterator))),
        opt_pr_of(r, |a: GwAssignableExpression| a@, state_of(*final(iterator))) == p_restrict_id(
            state_of(*old(iterator)),
        ),
{
    Some(if let Some(GwToken::Identifier(id)) = read_token(iterator)? {
        match parse_id_expression_aux(iterator, id)? {
            IdExpressionResult::Var(variable) => ParserResult::Success(
                GwAssignableExpression::Variable(variable),
            ),
            IdExpressionResult::Arr(arr_access) => ParserResult::Success(
                GwAssignableExpression::Call(arr_access),
            ),
            IdExpressionResult::Builtin(_) => error("Cannot assign to builtin function"),
            IdExpressionResult::Error(err) => ParserResult::Error(err),
        }
    } else {
        ParserResult::Nothing
    })
}

/// An integer literal.
pub fn parse_single_int(iterator: &mut PushbackTokensIterator) -> (r: Option<ParserResult<i16>>)
    requires
        old(iterator).wf(),
    ensures
        final(iterator).wf(),
        r is Some ==> pmeasure(state_of(*final(iterator))) <= pmeasure(state_of(*old(iterator))),
        opt_pr_of(r, |i: i16| i, state_of(*final(iterator))) == p_single_int(state_of(*old(iterator))),
{
    if let Some(next_token) = read_token(iterator)? {
        if let GwToken::Integer(i_val) = next_token {
            return Some(ParserResult::Success(i_val));
        }
        unread(iterator, next_token);
    }
    Some(ParserResult::Nothing)
}

/// Integer literals separated by `,`.
pub fn parse_ints_with_separator(iterator: &mut PushbackTokensIterator) -> (r: Option<ParserResult<Vec<i16>>>)
    requires
        old(iterator).wf(),
    ensures
        final(iterator).wf(),
        r is Some ==> pmeasure(state_of(*final(iterator))) <= pmeasure(state_of(*old(iterator))),
        opt_pr_of(r, |v: Vec<i16>| v@, state_of(*final(iterator)))
            == p_sep_ints(state_of(*old(iterator)), seq![]),
{
    let ghost st0 = state_of(*iterator);
    let mut result: Vec<i16> = Vec::new();
    assert(result@ =~= seq![]);
    loop
        invariant
            iterator.wf(),
            p_sep_ints(state_of(*iterator), result@) == p_sep_ints(st0, seq![]),
            pmeasure(state_of(*iterator)) <= pmeasure(st0),
            st0 == state_of(*old(iterator)),
        decreases pmeasure(state_of(*iterator)),
    {
        let item_result = parse_single_int(iterator)?;
        if let ParserResult::Success(item) = item_result {
            let ghost before = result@;
            result.push(item);
            assert(result@ =~= before.push(item));
        } else {
            return Some(error("error parsing sequence"));
        }
        let next_token = read_token(iterator)?;
        match next_token {
            Some(GwToken::Keyword(kw_tok)) if kw_tok == GwBasicToken::CommaSeparatorTok => {},
            Some(token_result) => {
                unread(iterator, token_result);
                return Some(ParserResult::Success(result));
            },
            None => {
                return Some(ParserResult::Success(result));
            },
        }
    }
}

/// Assignable expressions separated by `,`.
pub fn parse_assignables_with_separator(iterator: &mut PushbackTokensIterator) -> (r: Option<ParserResult<Vec<GwAssignableExpression>>>)
    requires
        old(iterator).wf(),
    ensures
        final(iterator).wf(),
        r is Some ==> pmeasure(state_of(*final(iterator))) <= pmeasure(state_of(*old(iterator))),
        opt_pr_of(r, |v: Vec<GwAssignableExpression>| assignables_view(v@), state_of(*final(iterator)))
            == p_sep_assignables(state_of(*old(iterator)), seq![]),
{
    let ghost st0 = state_of(*iterator);
    let mut result: Vec<GwAssignableExpression> = Vec::new();
    assert(assignables_view(result@) =~= seq![]);
    loop
        invariant
            iterator.wf(),
            p_sep_assignables(state_of(*iterator), assignables_view(result@)) == p_sep_assignables(st0, seq![]),
            pmeasure(state_of(*iterator)) <= pmeasure(st0),
            st0 == state_of(*old(iterator)),
        decreases pmeasure(state_of(*iterator)),
    {
        let item_result = parse_restrict_identifier_expression(iterator)?;
        if let ParserResult::Success(item) = item_result {
            let ghost before = result@;
            result.push(item);
            assert(assignables_view(result@) =~= assignables_view(before).push(item@));
        } else {
            return Some(error("error parsing sequence"));
        }
        let next_token = read_token(iterator)?;
        match next_token {
            Some(GwToken::Keyword(kw_tok)) if kw_tok == GwBasicToken::CommaSeparatorTok => {},
            Some(token_result) => {
                unread(iterator, token_result);
                return Some(ParserResult::Success(result));
            },
            None => {
                return Some(ParserResult::Success(result));
            },
        }
    }
}

/// `DIM` declarations separated by `,`.
pub fn parse_dims_with_separator(iterator: &mut PushbackTokensIterator) -> (r: Option<ParserResult<Vec<GwDimDecl>>>)
    requires
        old(iterator).wf(),
    ensures
        final(iterator).wf(),
        r is Some ==> pmeasure(state_of(*final(iterator))) <= pmeasure(state_of(*old(iterator))),
        opt_pr_of(r, |v: Vec<GwDimDecl>| dim_decls_view(v@), state_of(*final(iterator)))
            == p_sep_dims(state_of(*old(iterator)), seq![]),
{
    let ghost st0 = state_of(*iterator);
    let mut result: Vec<GwDimDecl> = Vec::new();
    assert(dim_decls_view(result@) =~= seq![]);
    loop
        invariant
            iterator.wf(),
            p_sep_dims(state_of(*iterator), dim_decls_view(result@)) == p_sep_dims(st0, seq![]),
            pmeasure(state_of(*iterator)) <= pmeasure(st0),
            st0 == state_of(*old(iterator)),
        decreases pmeasure(state_of(*iterator)),
    {
        let item_result = parse_dim_decl(iterator)?;
        if let ParserResult::Success(item) = item_result {
            let ghost before = result@;
            result.push(item);
            assert(dim_decls_view(result@) =~= dim_decls_view(before).push(dim_decl_view(item)));
        } else {
            return Some(error("error parsing sequence"));
        }
        let next_token = read_token(iterator)?;
        match next_token {
            Some(GwToken::Keyword(kw_tok)) if kw_tok == GwBasicToken::CommaSeparatorTok => {},
            Some(token_result) => {
                unread(iterator, token_result);
                return Some(ParserResult::Success(result));
            },
            None => {
                return Some(ParserResult::Success(result));
            },
        }
    }
}

/// Letter ranges separated by `,`.
pub fn parse_ranges_with_separator(iterator: &mut PushbackTokensIterator) -> (r: Option<ParserResult<Vec<DefVarRange>>>)
    requires
        old(iterator).wf(),
    ensures
        final(iterator).wf(),
        r is Some ==> pmeasure(state_of(*final(iterator))) <= pmeasure(state_of(*old(iterator))),
        opt_pr_of(r, |v: Vec<DefVarRange>| v@, state_of(*final(iterator)))
            == p_sep_ranges(state_of(*old(iterator)), seq![]),
{
    let ghost st0 = state_of(*iterator);
    let mut result: Vec<DefVarRange> = Vec::new();
    assert(result@ =~= seq![]);
    loop
        invariant
            iterator.wf(),
            p_sep_ranges(state_of(*iterator), result@) == p_sep_ranges(st0, seq![]),
            pmeasure(state_of(*iterator)) <= pmeasure(st0),
            st0 == state_of(*old(iterator)),
        decreases pmeasure(state_of(*iterator)),
    {
        let item_result = parse_var_range(iterator)?;
        if let ParserResult::Success(item) = item_result {
            let ghost before = result@;
            result.push(item);
            assert(result@ =~= before.push(item));
        } else {
            return Some(error("error parsing sequence"));
        }
        let next_token = read_token(iterator)?;
        match next_token {
            Some(GwToken::Keyword(kw_tok)) if kw_tok == GwBasicToken::CommaSeparatorTok => {},
            Some(token_result) => {
                unread(iterator, token_result);
                return Some(ParserResult::Success(result));
            },
            None => {
                return Some(ParserResult::Success(result));
            },
        }
    }
}

/// One declaration of a `DIM` statement: `name(dimensions)`.
pub fn parse_dim_decl(iterator: &mut PushbackTokensIterator) -> (r: Option<ParserResult<GwDimDecl>>)
    requires
        old(iterator).wf(),
    ensures
        final(iterator).wf(),
        r is Some ==> pmeasure(state_of(*final(iterator))) <= pmeasure(state_of(*old(iterator))),
        opt_pr_of(r, |d: GwDimDecl| dim_decl_view(d), state_of(*final(iterator))) == p_dim_decl(
            state_of(*old(iterator)),
        ),
{
    let name = match read_token(iterator)? {
        Some(GwToken::Identifier(name)) => name,
        _ => {
            return Some(error("Expecting declaration name"));
        },
    };
    match read_token(iterator)? {
        Some(GwToken::Keyword(GwBasicToken::LparTok)) => {},
        _ => {
            return Some(error("Expecting left parenthesis"));
        },
    }
    let dimensions = match parse_exprs_with_separator(iterator)? {
        ParserResult::Success(dimensions) => dimensions,
        ParserResult::Error(e) => {
            return Some(ParserResult::Error(e));
        },
        ParserResult::Nothing => {
            return Some(error("Nothing!"));
        },
    };
    match read_token(iterator)? {
        Some(GwToken::Keyword(GwBasicToken::RparTok)) => {},
        _ => {
            return Some(error("Expecting right parenthesis"));
        },
    }
    Some(ParserResult::Success(GwDimDecl::new(name, dimensions)))
}

/// The rest of a letter range after its first letter `start`.
pub fn parse_var_range_fragment(iterator: &mut PushbackTokensIterator, start: char) -> (r: Option<ParserResult<DefVarRange>>)
    requires
        old(iterator).wf(),
    ensures
        final(iterator).wf(),
        r is Some ==> pmeasure(state_of(*final(iterator))) <= pmeasure(state_of(*old(iterator))),
        opt_pr_of(r, |d: DefVarRange| d, state_of(*final(iterator))) == p_var_range_fragment(
            state_of(*old(iterator)),
            start,
        ),
{
    Some(if let Some(tok) = read_token(iterator)? {
        match tok {
            GwToken::Keyword(GwBasicToken::MinusTok) => {
                if let Some(GwToken::Identifier(end)) = read_token(iterator)? {
                    let c = first_char(&end)?;
                    ParserResult::Success(DefVarRange::Range(start, c))
                } else {
                    error("Expecting end of range ")
                }
            },
            _ => {
                unread(iterator, tok);
                ParserResult::Success(DefVarRange::Single(start))
            },
        }
    } else {
        ParserResult::Success(DefVarRange::Single(start))
    })
}

/// The first character of a string, if it has one.
fn first_char(s: &String) -> (c: Option<char>)
    ensures
        c is Some <==> s@.len() > 0,
        c is Some ==> c->0 == s@[0],
{
    let cs = crate::text::chars_of(s.as_str());
    if cs.len() > 0 {
        Some(cs[0])
    } else {
        None
    }
}

/// A letter or a range of letters.
pub fn parse_var_range(iterator: &mut PushbackTokensIterator) -> (r: Option<ParserResult<DefVarRange>>)
    requires
        old(iterator).wf(),
    ensures
        final(iterator).wf(),
        r is Some ==> pmeasure(state_of(*final(iterator))) <= pmeasure(state_of(*old(iterator))),
        opt_pr_of(r, |d: DefVarRange| d, state_of(*final(iterator))) == p_var_range(
            state_of(*old(iterator)),
        ),
{
    Some(if let Some(tok) = read_token(iterator)? {
        match tok {
            GwToken::Identifier(start) => {
                let c = first_char(&start)?;
                parse_var_range_fragment(iterator, c)?
            },
            _ => {
                unread(iterator, tok);
                ParserResult::Nothing
            },
        }
    } else {
        ParserResult::Nothing
    })
}

/// `TAB(expression)`, or nothing.
pub fn parse_optional_tab(iterator: &mut PushbackTokensIterator) -> (r: Option<ParserResult<
    PrintElementWrapper,
>>)
    requires
        old(iterator).wf(),
    ensures
        final(iterator).wf(),
        r is Some ==> pmeasure(state_of(*final(iterator))) <= pmeasure(state_of(*old(iterator))),
        r is Some && r->0 is Success ==> pmeasure(state_of(*final(iterator))) < pmeasure(
            state_of(*old(iterator)),
        ),
        opt_pr_of(r, |p: PrintElementWrapper| print_elem_view(p), state_of(*final(iterator)))
            == p_optional_tab(state_of(*old(iterator))),
{
    if let Some(next_token) = read_token(iterator)? {
        if is_keyword(&next_token, GwBasicToken::TabTok) {
            match read_token(iterator)? {
                Some(GwToken::Keyword(GwBasicToken::LparTok)) => {},
                _ => {
                    return Some(error("Expecting left parenthesis"));
                },
            }
            let tabs = match try_parse_expression(iterator)? {
                ParserResult::Success(tabs) => tabs,
                ParserResult::Error(e) => {
                    return Some(ParserResult::Error(e));
                },
                ParserResult::Nothing => {
                    return Some(error("Nothing!"));
                },
            };
            match read_token(iterator)? {
                Some(GwToken::Keyword(GwBasicToken::RparTok)) => {},
                _ => {
                    return Some(error("Expecting right parenthesis"));
                },
            }
            return Some(ParserResult::Success(PrintElementWrapper::Tab(tabs)));
        } else {
            unread(iterator, next_token);
        }
    }
    Some(ParserResult::Nothing)
}

/// The elements of a `PRINT` list with the separators after them.
pub fn parse_with_flexible_separator(iterator: &mut PushbackTokensIterator) -> (r: Option<ParserResult<
    Vec<(PrintElementWrapper, Option<PrintSeparator>)>,
>>)
    requires
        old(iterator).wf(),
    ensures
        final(iterator).wf(),
        r is Some ==> pmeasure(state_of(*final(iterator))) <= pmeasure(state_of(*old(iterator))),
        opt_pr_of(
            r,
            |v: Vec<(PrintElementWrapper, Option<PrintSeparator>)>| print_items_view(v@),
            state_of(*final(iterator)),
        ) == p_flex(state_of(*old(iterator)), seq![]),
{
    let ghost st0 = state_of(*iterator);
    let mut result: Vec<(PrintElementWrapper, Option<PrintSeparator>)> = Vec::new();
    assert(print_items_view(result@) =~= seq![]);
    loop
        invariant
            iterator.wf(),
            p_flex(state_of(*iterator), print_items_view(result@)) == p_flex(st0, seq![]),
            pmeasure(state_of(*iterator)) <= pmeasure(st0),
            st0 == state_of(*old(iterator)),
        decreases pmeasure(state_of(*iterator)),
    {
        let ghost cur = state_of(*iterator);
        let ghost before = result@;
        let mut item_result: PrintElementWrapper = PrintElementWrapper::Nothing;
        let mut last_nothing = false;
        let tab_parsing = parse_optional_tab(iterator)?;
        if let ParserResult::Success(tab_invocation) = tab_parsing {
            item_result = tab_invocation;
        } else {
            match try_parse_expression(iterator)? {
                ParserResult::Success(item) => {
                    item_result = PrintElementWrapper::Expr(item);
                },
                ParserResult::Error(error) => {
                    return Some(ParserResult::Error(error));
                },
                ParserResult::Nothing => {
                    last_nothing = true;
                },
            }
        }
        assert(p_print_element(cur) == PR::Success(print_elem_view(item_result), state_of(*iterator)));
        assert(last_nothing <==> print_elem_view(item_result) is Nothing);
        let next_token = read_token(iterator)?;
        match next_token {
            Some(GwToken::Keyword(GwBasicToken::SemiColonSeparatorTok)) => {
                result.push((item_result, Some(PrintSeparator::Semicolon)));
                assert(print_items_view(result@) =~= print_items_view(before).push(
                    (print_elem_view(result@.last().0), Some(PrintSeparator::Semicolon)),
                ));
            },
            Some(GwToken::Keyword(GwBasicToken::CommaSeparatorTok)) => {
                result.push((item_result, Some(PrintSeparator::Comma)));
                assert(print_items_view(result@) =~= print_items_view(before).push(
                    (print_elem_view(result@.last().0), Some(PrintSeparator::Comma)),
                ));
            },
            Some(GwToken::Keyword(GwBasicToken::ColonSeparatorTok)) => {
                unread(iterator, GwToken::Keyword(GwBasicToken::ColonSeparatorTok));
                if !last_nothing {
                    result.push((item_result, None));
                    assert(print_items_view(result@) =~= print_items_view(before).push(
                        (print_elem_view(result@.last().0), None),
                    ));
                }
                return Some(ParserResult::Success(result));
            },
            Some(token_result) => {
                unread(iterator, token_result);
                if last_nothing {
                    return Some(ParserResult::Success(result));
                }
                result.push((item_result, None));
                assert(print_items_view(result@) =~= print_items_view(before).push(
                    (print_elem_view(result@.last().0), None),
                ));
            },
            None => {
                if !last_nothing {
                    result.push((item_result, None));
                    assert(print_items_view(result@) =~= print_items_view(before).push(
                        (print_elem_view(result@.last().0), None),
                    ));
                }
                return Some(ParserResult::Success(result));
            },
        }
    }
}

/// The items of a `DATA` statement in `text`: split at `,`, each without
/// its leading blanks.
pub fn split_data_items(text: &String) -> (r: Vec<String>)
    ensures
        strings_view(r@) == data_items(text@),
{
    let cs = chars_of(text.as_str());
    let ghost s = cs@;
    let mut contents: Vec<String> = Vec::new();
    let mut i: usize = 0;
    assert(s.skip(0) =~= s);
    assert(strings_view(contents@) =~= seq![]);
    loop
        invariant
            cs@ == s,
            s == text@,
            i <= cs@.len(),
            strings_view(contents@) + data_items(s.skip(i as int)) == data_items(s),
        decreases cs@.len() - i,
    {
        let ghost u = s.skip(i as int);
        let i0 = i;
        while i < cs.len() && (cs[i] == ' ' || cs[i] == '\t')
            invariant
                cs@ == s,
                i0 <= i <= cs@.len(),
                u == s.skip(i0 as int),
                blank_prefix_len(u) == (i - i0) + blank_prefix_len(s.skip(i as int)),
            decreases cs@.len() - i,
        {
            assert(s.skip(i as int).drop_first() =~= s.skip(i + 1));
            i = i + 1;
        }
        let start = i;
        let ghost t = s.skip(start as int);
        assert(blank_prefix_len(s.skip(i as int)) == 0);
        assert(u.skip(blank_prefix_len(u) as int) =~= t);
        let mut current = String::new();
        while i < cs.len() && cs[i] != ','
            invariant
                cs@ == s,
                start <= i <= cs@.len(),
                t == s.skip(start as int),
                comma_free_prefix_len(t) == (i - start) + comma_free_prefix_len(s.skip(i as int)),
                current@ =~= s.subrange(start as int, i as int),
            decreases cs@.len() - i,
        {
            assert(s.skip(i as int).drop_first() =~= s.skip(i + 1));
            push_char(&mut current, cs[i]);
            i = i + 1;
        }
        assert(comma_free_prefix_len(s.skip(i as int)) == 0);
        let ghost k = comma_free_prefix_len(t);
        assert(k == i - start);
        assert(t.take(k as int) =~= current@);
        let ghost before = contents@;
        contents.push(current);
        assert(strings_view(contents@) =~= strings_view(before).push(t.take(k as int)));
        if i == cs.len() {
            assert(t.take(k as int) =~= t);
            assert(data_items(u) =~= seq![t]);
            return contents;
        }
        assert(t.skip(k + 1 as int) =~= s.skip(i + 1));
        assert(data_items(u) =~= seq![t.take(k as int)] + data_items(s.skip(i + 1)));
        i = i + 1;
    }
}

/// `LIST`.
pub fn parse_list_stat(_iterator: &mut PushbackTokensIterator) -> (r: ParserResult<GwInstruction>)
    ensures
        *final(_iterator) == *old(_iterator),
        r is Success && r->Success_0@ == InstrV::List,
{
    ParserResult::Success(GwInstruction::List(GwListStat {}))
}

/// `RUN`.
pub fn parse_run_stat(_iterator: &mut PushbackTokensIterator) -> (r: ParserResult<GwInstruction>)
    ensures
        *final(_iterator) == *old(_iterator),
        r is Success && r->Success_0@ == InstrV::Run,
{
    ParserResult::Success(GwInstruction::Run(GwRunStat {}))
}

/// `SYSTEM`.
pub fn parse_system_stat(_iterator: &mut PushbackTokensIterator) -> (r: ParserResult<GwInstruction>)
    ensures
        *final(_iterator) == *old(_iterator),
        r is Success && r->Success_0@ == InstrV::System,
{
    ParserResult::Success(GwInstruction::System(GwSystemStat {}))
}

/// `CLS`.
pub fn parse_cls_stat(_iterator: &mut PushbackTokensIterator) -> (r: ParserResult<GwInstruction>)
    ensures
        *final(_iterator) == *old(_iterator),
        r is Success && r->Success_0@ == InstrV::Cls,
{
    ParserResult::Success(GwInstruction::Cls(GwCls {}))
}

/// `END`.
pub fn parse_end_stat(_iterator: &mut PushbackTokensIterator) -> (r: ParserResult<GwInstruction>)
    ensures
        *final(_iterator) == *old(_iterator),
        r is Success && r->Success_0@ == InstrV::End,
{
    ParserResult::Success(GwInstruction::End(GwEnd {}))
}

/// `WEND`.
pub fn parse_wend_stat(_iterator: &mut PushbackTokensIterator) -> (r: ParserResult<GwInstruction>)
    ensures
        *final(_iterator) == *old(_iterator),
        r is Success && r->Success_0@ == InstrV::Wend,
{
    ParserResult::Success(GwInstruction::Wend(GwWend {}))
}

/// `STOP`.
pub fn parse_stop_stat(_iterator: &mut PushbackTokensIterator) -> (r: ParserResult<GwInstruction>)
    ensures
        *final(_iterator) == *old(_iterator),
        r is Success && r->Success_0@ == InstrV::Stop,
{
    ParserResult::Success(GwInstruction::Stop(GwStop {}))
}

/// `RETURN`.
pub fn parse_return_stat(_iterator: &mut PushbackTokensIterator) -> (r: ParserResult<GwInstruction>)
    ensures
        *final(_iterator) == *old(_iterator),
        r is Success && r->Success_0@ == InstrV::Return,
{
    ParserResult::Success(GwInstruction::Return(GwReturn::new()))
}

/// `PRINT [USING] list`, after `PRINT`.
pub fn parse_print_stat(iterator: &mut PushbackTokensIterator) -> (r: Option<ParserResult<GwInstruction>>)
    requires
        old(iterator).wf(),
    ensures
        final(iterator).wf(),
        r is Some ==> pmeasure(state_of(*final(iterator))) <= pmeasure(state_of(*old(iterator))),
        opt_pr_of(r, |i: GwInstruction| i@, state_of(*final(iterator))) == p_print(
            state_of(*old(iterator)),
        ),
{
    let mut is_using = false;
    if let Some(tok) = read_token(iterator)? {
        if is_keyword(&tok, GwBasicToken::UsingTok) {
            is_using = true;
        } else {
            unread(iterator, tok);
        }
    }
    Some(if let ParserResult::Success(exprs) = parse_with_flexible_separator(iterator)? {
        if is_using {
            ParserResult::Success(GwInstruction::PrintUsing(GwPrintUsingStat { expressions: exprs }))
        } else {
            ParserResult::Success(GwInstruction::Print(GwPrintStat { expressions: exprs }))
        }
    } else {
        error("Expecting expression as PRINT argument")
    })
}

/// `LOAD expression`, after `LOAD`.
pub fn parse_load_stat(iterator: &mut PushbackTokensIterator) -> (r: Option<ParserResult<GwInstruction>>)
    requires
        old(iterator).wf(),
    ensures
        final(iterator).wf(),
        r is Some ==> pmeasure(state_of(*final(iterator))) <= pmeasure(state_of(*old(iterator))),
        opt_pr_of(r, |i: GwInstruction| i@, state_of(*final(iterator))) == p_load(
            state_of(*old(iterator)),
        ),
{
    Some(if let ParserResult::Success(expr) = try_parse_expression(iterator)? {
        ParserResult::Success(GwInstruction::Load(GwLoadStat { filename: expr }))
    } else {
        error("Expecting expression as LOAD  argument")
    })
}

/// `WHILE condition`, after `WHILE`.
pub fn parse_while_stat(iterator: &mut PushbackTokensIterator) -> (r: Option<ParserResult<GwInstruction>>)
    requires
        old(iterator).wf(),
    ensures
        final(iterator).wf(),
        r is Some ==> pmeasure(state_of(*final(iterator))) <= pmeasure(state_of(*old(iterator))),
        opt_pr_of(r, |i: GwInstruction| i@, state_of(*final(iterator))) == p_while(
            state_of(*old(iterator)),
        ),
{
    Some(match try_parse_expression(iterator)? {
        ParserResult::Success(condition) => ParserResult::Success(
            GwInstruction::While(GwWhile { condition }),
        ),
        ParserResult::Error(e) => ParserResult::Error(e),
        ParserResult::Nothing => error("Nothing!"),
    })
}

/// `READ variable`, after `READ`.
pub fn parse_read_stat(iterator: &mut PushbackTokensIterator) -> (r: Option<ParserResult<GwInstruction>>)
    requires
        old(iterator).wf(),
    ensures
        final(iterator).wf(),
        r is Some ==> pmeasure(state_of(*final(iterator))) <= pmeasure(state_of(*old(iterator))),
        opt_pr_of(r, |i: GwInstruction| i@, state_of(*final(iterator))) == p_read(
            state_of(*old(iterator)),
        ),
{
    Some(match parse_restrict_identifier_expression(iterator)? {
        ParserResult::Success(variable_expression) => ParserResult::Success(
            GwInstruction::Read(GwRead::new(variable_expression)),
        ),
        ParserResult::Error(e) => ParserResult::Error(e),
        ParserResult::Nothing => error("Nothing!"),
    })
}

/// `ON expression GOTO lines`, after `ON`.
pub fn parse_on_goto_stat(iterator: &mut PushbackTokensIterator) -> (r: Option<ParserResult<GwInstruction>>)
    requires
        old(iterator).wf(),
    ensures
        final(iterator).wf(),
        r is Some ==> pmeasure(state_of(*final(iterator))) <= pmeasure(state_of(*old(iterator))),
        opt_pr_of(r, |i: GwInstruction| i@, state_of(*final(iterator))) == p_on_goto(
            state_of(*old(iterator)),
        ),
{
    let goto_expr = match try_parse_expression(iterator)? {
        ParserResult::Success(e) => e,
        ParserResult::Error(e) => {
            return Some(ParserResult::Error(e));
        },
        ParserResult::Nothing => {
            return Some(error("Nothing!"));
        },
    };
    match read_token(iterator)? {
        Some(GwToken::Keyword(GwBasicToken::GotoTok)) => {},
        _ => {
            return Some(error("Expecting left parenthesis"));
        },
    }
    Some(match parse_ints_with_separator(iterator)? {
        ParserResult::Success(cases) => ParserResult::Success(
            GwInstruction::OnGoto(GwOnGoto::new(goto_expr, cases)),
        ),
        ParserResult::Error(e) => ParserResult::Error(e),
        ParserResult::Nothing => error("Nothing!"),
    })
}

/// `GOSUB line`, after `GOSUB`.
pub fn parse_gosub_stat(iterator: &mut PushbackTokensIterator) -> (r: Option<ParserResult<GwInstruction>>)
    requires
        old(iterator).wf(),
    ensures
        final(iterator).wf(),
        r is Some ==> pmeasure(state_of(*final(iterator))) <= pmeasure(state_of(*old(iterator))),
        opt_pr_of(r, |i: GwInstruction| i@, state_of(*final(iterator))) == p_gosub(
            state_of(*old(iterator)),
        ),
{
    Some(match read_token(iterator)? {
        Some(GwToken::Integer(line_number)) => ParserResult::Success(
            GwInstruction::Gosub(GwGosub::new(line_number)),
        ),
        _ => error("Expecting line number"),
    })
}

/// `SWAP left, right`, after `SWAP`.
pub fn parse_swap_stat(iterator: &mut PushbackTokensIterator) -> (r: Option<ParserResult<GwInstruction>>)
    requires
        old(iterator).wf(),
    ensures
        final(iterator).wf(),
        r is Some ==> pmeasure(state_of(*final(iterator))) <= pmeasure(state_of(*old(iterator))),
        opt_pr_of(r, |i: GwInstruction| i@, state_of(*final(iterator))) == p_swap(
            state_of(*old(iterator)),
        ),
{
    let left = match parse_restrict_identifier_expression(iterator)? {
        ParserResult::Success(e) => e,
        ParserResult::Error(e) => {
            return Some(ParserResult::Error(e));
        },
        ParserResult::Nothing => {
            return Some(error("Nothing!"));
        },
    };
    match read_token(iterator)? {
        Some(GwToken::Keyword(GwBasicToken::CommaSeparatorTok)) => {},
        _ => {
            return Some(error("Expecting left parenthesis"));
        },
    }
    Some(match parse_restrict_identifier_expression(iterator)? {
        ParserResult::Success(right) => ParserResult::Success(
            GwInstruction::Swap(GwSwap::new(left, right)),
        ),
        ParserResult::Error(e) => ParserResult::Error(e),
        ParserResult::Nothing => error("Nothing!"),
    })
}

/// `DATA items`, after `DATA`: the items are the rest of the text.
pub fn parse_data_stat(iterator: &mut PushbackTokensIterator) -> (r: Option<ParserResult<GwInstruction>>)
    requires
        old(iterator).wf(),
    ensures
        final(iterator).wf(),
        r is Some ==> pmeasure(state_of(*final(iterator))) <= pmeasure(state_of(*old(iterator))),
        opt_pr_of(r, |i: GwInstruction| i@, state_of(*final(iterator))) == p_data(
            state_of(*old(iterator)),
        ),
{
    let text = iterator.consume_rest_of_line();
    assert(iterator.text() =~= seq![]);
    let contents = split_data_items(&text);
    Some(ParserResult::Success(GwInstruction::Data(GwData::new(contents))))
}

/// `DIM declarations`, after `DIM`.
pub fn parse_dim_stat(iterator: &mut PushbackTokensIterator) -> (r: Option<ParserResult<GwInstruction>>)
    requires
        old(iterator).wf(),
    ensures
        final(iterator).wf(),
        r is Some ==> pmeasure(state_of(*final(iterator))) <= pmeasure(state_of(*old(iterator))),
        opt_pr_of(r, |i: GwInstruction| i@, state_of(*final(iterator))) == p_dim(
            state_of(*old(iterator)),
        ),
{
    Some(match parse_dims_with_separator(iterator)? {
        ParserResult::Success(decls) => {
            let mut decls = decls;
            let ghost dv = dim_decls_view(decls@);
            if decls.len() > 0 {
                if decls.len() > 1 {
                    let first = decls.remove(0);
                    assert(dim_decls_view(decls@) =~= dv.skip(1));
                    ParserResult::Success(GwInstruction::Dim(GwDim::new(first, Some(decls))))
                } else {
                    let first = decls.remove(0);
                    ParserResult::Success(GwInstruction::Dim(GwDim::new(first, None)))
                }
            } else {
                error("DIM requires at least one declaration")
            }
        },
        ParserResult::Error(err) => ParserResult::Error(err),
        ParserResult::Nothing => error("Dimensions required"),
    })
}

/// `STEP expression`.
pub fn parse_for_step(iterator: &mut PushbackTokensIterator) -> (r: Option<ParserResult<GwExpression>>)
    requires
        old(iterator).wf(),
    ensures
        final(iterator).wf(),
        r is Some ==> pmeasure(state_of(*final(iterator))) <= pmeasure(state_of(*old(iterator))),
        opt_pr_of(r, |e: GwExpression| e@, state_of(*final(iterator))) == p_for_step(
            state_of(*old(iterator)),
        ),
{
    match read_token(iterator)? {
        Some(GwToken::Keyword(GwBasicToken::StepTok)) => {},
        _ => {
            return Some(error("Expecting STEP"));
        },
    }
    Some(match try_parse_expression(iterator)? {
        ParserResult::Success(step_expr) => ParserResult::Success(step_expr),
        ParserResult::Error(e) => ParserResult::Error(e),
        ParserResult::Nothing => error("Nothing!"),
    })
}

/// `FOR variable = from TO to [STEP step]`, after `FOR`.
pub fn parse_for_stat(iterator: &mut PushbackTokensIterator) -> (r: Option<ParserResult<GwInstruction>>)
    requires
        old(iterator).wf(),
    ensures
        final(iterator).wf(),
        r is Some ==> pmeasure(state_of(*final(iterator))) <= pmeasure(state_of(*old(iterator))),
        opt_pr_of(r, |i: GwInstruction| i@, state_of(*final(iterator))) == p_for(
            state_of(*old(iterator)),
        ),
{
    let variable = match read_token(iterator)? {
        Some(GwToken::Identifier(v)) => v,
        _ => {
            return Some(error("Expecting identifier"));
        },
    };
    match read_token(iterator)? {
        Some(GwToken::Keyword(GwBasicToken::EqlTok)) => {},
        _ => {
            return Some(error("Expecting equal (=)"));
        },
    }
    let from = match try_parse_expression(iterator)? {
        ParserResult::Success(e) => e,
        ParserResult::Error(e) => {
            return Some(ParserResult::Error(e));
        },
        ParserResult::Nothing => {
            return Some(error("Nothing!"));
        },
    };
    match read_token(iterator)? {
        Some(GwToken::Keyword(GwBasicToken::ToTok)) => {},
        _ => {
            return Some(error("Expecting 'to'"));
        },
    }
    let to_expr = match try_parse_expression(iterator)? {
        ParserResult::Success(e) => e,
        ParserResult::Error(e) => {
            return Some(ParserResult::Error(e));
        },
        ParserResult::Nothing => {
            return Some(error("Nothing!"));
        },
    };
    let step_expr = match parse_for_step(iterator)? {
        ParserResult::Success(res) => Some(res),
        _ => None,
    };
    Some(ParserResult::Success(GwInstruction::For(GwFor { variable, from, to: to_expr, step: step_expr })))
}

/// `NEXT [variable]`, after `NEXT`.
pub fn parse_next_stat(iterator: &mut PushbackTokensIterator) -> (r: Option<ParserResult<GwInstruction>>)
    requires
        old(iterator).wf(),
    ensures
        final(iterator).wf(),
        r is Some ==> pmeasure(state_of(*final(iterator))) <= pmeasure(state_of(*old(iterator))),
        opt_pr_of(r, |i: GwInstruction| i@, state_of(*final(iterator))) == p_next(
            state_of(*old(iterator)),
        ),
{
    let mut next_var: Option<String> = None;
    let next_tok = read_token(iterator)?;
    if let Some(GwToken::Identifier(id)) = next_tok {
        next_var = Some(id);
    } else if let Some(tok) = next_tok {
        unread(iterator, tok);
    }
    Some(ParserResult::Success(GwInstruction::Next(GwNext { variable: next_var })))
}

/// `INPUT ["prompt"][,][;] variables`, after `INPUT`.
pub fn parse_input_stat(iterator: &mut PushbackTokensIterator) -> (r: Option<ParserResult<GwInstruction>>)
    requires
        old(iterator).wf(),
    ensures
        final(iterator).wf(),
        r is Some ==> pmeasure(state_of(*final(iterator))) <= pmeasure(state_of(*old(iterator))),
        opt_pr_of(r, |i: GwInstruction| i@, state_of(*final(iterator))) == p_input(
            state_of(*old(iterator)),
        ),
{
    let mut prompt: Option<String> = None;
    match read_token(iterator)? {
        Some(GwToken::String(prompt_txt)) => {
            prompt = Some(prompt_txt);
        },
        Some(token) => unread(iterator, token),
        None => {},
    }
    match read_token(iterator)? {
        Some(token) => if !is_keyword(&token, GwBasicToken::CommaSeparatorTok) {
            unread(iterator, token);
        },
        None => {},
    }
    match read_token(iterator)? {
        Some(token) => if !is_keyword(&token, GwBasicToken::SemiColonSeparatorTok) {
            unread(iterator, token);
        },
        None => {},
    }
    Some(match parse_assignables_with_separator(iterator)? {
        ParserResult::Success(input_vars) => ParserResult::Success(
            GwInstruction::Input(GwInputStat { prompt, variables: input_vars }),
        ),
        ParserResult::Error(e) => ParserResult::Error(e),
        ParserResult::Nothing => error("Nothing!"),
    })
}

/// `DEFDBL`-like statements, after the keyword.
pub fn parse_deftype_stat(iterator: &mut PushbackTokensIterator, definition_type: ExpressionType) -> (r: Option<ParserResult<GwInstruction>>)
    requires
        old(iterator).wf(),
    ensures
        final(iterator).wf(),
        r is Some ==> pmeasure(state_of(*final(iterator))) <= pmeasure(state_of(*old(iterator))),
        opt_pr_of(r, |i: GwInstruction| i@, state_of(*final(iterator))) == p_deftype(
            state_of(*old(iterator)), definition_type,
        ),
{
    Some(match parse_ranges_with_separator(iterator)? {
        ParserResult::Success(ranges_vector) => ParserResult::Success(
            GwInstruction::DefType(GwDefType::with_var_range(ranges_vector, definition_type)),
        ),
        ParserResult::Error(error) => ParserResult::Error(error),
        ParserResult::Nothing => ParserResult::Nothing,
    })
}

/// `REM comment`, after `REM`: the comment is the rest of the text.
pub fn parse_rem_stat(iterator: &mut PushbackTokensIterator) -> (r: Option<ParserResult<GwInstruction>>)
    requires
        old(iterator).wf(),
    ensures
        final(iterator).wf(),
        r is Some ==> pmeasure(state_of(*final(iterator))) <= pmeasure(state_of(*old(iterator))),
        opt_pr_of(r, |i: GwInstruction| i@, state_of(*final(iterator))) == p_rem(
            state_of(*old(iterator)),
        ),
{
    let comment = iterator.consume_rest_of_line();
    assert(iterator.text() =~= seq![]);
    Some(ParserResult::Success(GwInstruction::Rem(GwRem { comment })))
}

/// `KEY ON` or `KEY OFF`, after `KEY`.
pub fn parse_key_stat(iterator: &mut PushbackTokensIterator) -> (r: Option<ParserResult<GwInstruction>>)
    requires
        old(iterator).wf(),
    ensures
        final(iterator).wf(),
        r is Some ==> pmeasure(state_of(*final(iterator))) <= pmeasure(state_of(*old(iterator))),
        opt_pr_of(r, |i: GwInstruction| i@, state_of(*final(iterator))) == p_key(
            state_of(*old(iterator)),
        ),
{
    Some(match read_token(iterator)? {
        Some(GwToken::Keyword(GwBasicToken::OnTok)) => ParserResult::Success(
            GwInstruction::Key(GwKeyStat { indicator: SwitchIndicator::On }),
        ),
        Some(GwToken::Keyword(GwBasicToken::OffTok)) => ParserResult::Success(
            GwInstruction::Key(GwKeyStat { indicator: SwitchIndicator::Off }),
        ),
        _ => error("Error parsing Key statement"),
    })
}

/// `COLOR red, green, blue`, after `COLOR`.
pub fn parse_color_stat(iterator: &mut PushbackTokensIterator) -> (r: Option<ParserResult<GwInstruction>>)
    requires
        old(iterator).wf(),
    ensures
        final(iterator).wf(),
        r is Some ==> pmeasure(state_of(*final(iterator))) <= pmeasure(state_of(*old(iterator))),
        opt_pr_of(r, |i: GwInstruction| i@, state_of(*final(iterator))) == p_color(
            state_of(*old(iterator)),
        ),
{
    Some(if let ParserResult::Success(components) = parse_exprs_with_separator(iterator)? {
        proof {
            lemma_exprs_view(components@);
        }
        let mut mut_components = components;
        if mut_components.len() == 3 {
            let red_expr = mut_components.remove(0);
            let green_expr = mut_components.remove(0);
            let blue_expr = mut_components.remove(0);
            ParserResult::Success(
                GwInstruction::Color(GwColor { red: red_expr, green: green_expr, blue: blue_expr }),
            )
        } else {
            error("Error parsing Color color components")
        }
    } else {
        error("Error recognizing colors")
    })
}

/// `GOTO line`, after `GOTO`.
pub fn parse_goto_stat(iterator: &mut PushbackTokensIterator) -> (r: Option<ParserResult<GwInstruction>>)
    requires
        old(iterator).wf(),
    ensures
        final(iterator).wf(),
        r is Some ==> pmeasure(state_of(*final(iterator))) <= pmeasure(state_of(*old(iterator))),
        opt_pr_of(r, |i: GwInstruction| i@, state_of(*final(iterator))) == p_goto(
            state_of(*old(iterator)),
        ),
{
    Some(if let Some(GwToken::Integer(line)) = read_token(iterator)? {
        ParserResult::Success(GwInstruction::Goto(GwGotoStat { line }))
    } else {
        error("Expecting number at GOTO statement")
    })
}

/// `identifier(indices) = expression`, after the `(`.
pub fn parse_array_assignemnt(iterator: &mut PushbackTokensIterator, identifier: String) -> (r: Option<ParserResult<GwInstruction>>)
    requires
        old(iterator).wf(),
    ensures
        final(iterator).wf(),
        r is Some ==> pmeasure(state_of(*final(iterator))) <= pmeasure(state_of(*old(iterator))),
        opt_pr_of(r, |i: GwInstruction| i@, state_of(*final(iterator))) == p_array_assign(
            state_of(*old(iterator)), identifier@,
        ),
{
    Some(if let ParserResult::Success(array) = parse_exprs_with_separator(iterator)? {
        if let Some(GwToken::Keyword(GwBasicToken::RparTok)) = read_token(iterator)? {
            if let Some(GwToken::Keyword(GwBasicToken::EqlTok)) = read_token(iterator)? {
                if let ParserResult::Success(expr) = try_parse_expression(iterator)? {
                    ParserResult::Success(
                        GwInstruction::ArrayAssign(
                            GwArrayAssign {
                                variable: identifier,
                                indices_expressions: array,
                                expression: expr,
                            },
                        ),
                    )
                } else {
                    error("Error expression expected")
                }
            } else {
                error("Equal  expected")
            }
        } else {
            error("Right parenthesis expected")
        }
    } else {
        error("Error parsing  array indices")
    })
}

/// An assignment, after the variable's name `identifier`.
pub fn parse_assignment(iterator: &mut PushbackTokensIterator, identifier: String) -> (r: Option<ParserResult<GwInstruction>>)
    requires
        old(iterator).wf(),
    ensures
        final(iterator).wf(),
        r is Some ==> pmeasure(state_of(*final(iterator))) <= pmeasure(state_of(*old(iterator))),
        opt_pr_of(r, |i: GwInstruction| i@, state_of(*final(iterator))) == p_assign(
            state_of(*old(iterator)), identifier@,
        ),
{
    Some(if let Some(next_token) = read_token(iterator)? {
        if is_keyword(&next_token, GwBasicToken::LparTok) {
            parse_array_assignemnt(iterator, identifier)?
        } else if is_keyword(&next_token, GwBasicToken::EqlTok) {
            if let ParserResult::Success(expr) = try_parse_expression(iterator)? {
                ParserResult::Success(
                    GwInstruction::Assign(GwAssign { variable: identifier, expression: expr }),
                )
            } else {
                error("Error parsing  assignment")
            }
        } else {
            error("Expecting assignment")
        }
    } else {
        error("cannot parse assignment")
    })
}

/// A statement.
pub fn parse_instruction(iterator: &mut PushbackTokensIterator) -> (r: Option<ParserResult<GwInstruction>>)
    requires
        old(iterator).wf(),
    ensures
        final(iterator).wf(),
        r is Some ==> pmeasure(state_of(*final(iterator))) <= pmeasure(state_of(*old(iterator))),
        opt_pr_of(r, |i: GwInstruction| i@, state_of(*final(iterator))) == p_instr(
            state_of(*old(iterator)),
        ),
    decreases pmeasure(state_of(*old(iterator))), 1int,
{
    Some(if let Some(next_tok) = read_token(iterator)? {
        match next_tok {
            GwToken::Keyword(GwBasicToken::GotoTok) => parse_goto_stat(iterator)?,
            GwToken::Keyword(GwBasicToken::ClsTok) => parse_cls_stat(iterator),
            GwToken::Keyword(GwBasicToken::EndTok) => parse_end_stat(iterator),
            GwToken::Keyword(GwBasicToken::RemTok) => parse_rem_stat(iterator)?,
            GwToken::Keyword(GwBasicToken::DefdblTok) => parse_deftype_stat(
                iterator,
                ExpressionType::Double,
            )?,
            GwToken::Keyword(GwBasicToken::DefstrTok) => parse_deftype_stat(
                iterator,
                ExpressionType::String,
            )?,
            GwToken::Keyword(GwBasicToken::DefsngTok) => parse_deftype_stat(
                iterator,
                ExpressionType::Single,
            )?,
            GwToken::Keyword(GwBasicToken::DefintTok) => parse_deftype_stat(
                iterator,
                ExpressionType::Integer,
            )?,
            GwToken::Keyword(GwBasicToken::ColorTok) => parse_color_stat(iterator)?,
            GwToken::Keyword(GwBasicToken::KeyTok) => parse_key_stat(iterator)?,
            GwToken::Keyword(GwBasicToken::PrintTok) => parse_print_stat(iterator)?,
            GwToken::Keyword(GwBasicToken::ListTok) => parse_list_stat(iterator),
            GwToken::Keyword(GwBasicToken::RunTok) => parse_run_stat(iterator),
            GwToken::Keyword(GwBasicToken::LoadTok) => parse_load_stat(iterator)?,
            GwToken::Keyword(GwBasicToken::IfTok) => parse_if_stat(iterator)?,
            GwToken::Keyword(GwBasicToken::SystemTok) => parse_system_stat(iterator),
            GwToken::Keyword(GwBasicToken::InpTok) => parse_input_stat(iterator)?,
            GwToken::Keyword(GwBasicToken::WhileTok) => parse_while_stat(iterator)?,
            GwToken::Keyword(GwBasicToken::WendTok) => parse_wend_stat(iterator),
            GwToken::Keyword(GwBasicToken::StopTok) => parse_stop_stat(iterator),
            GwToken::Keyword(GwBasicToken::ForTok) => parse_for_stat(iterator)?,
            GwToken::Keyword(GwBasicToken::DimTok) => parse_dim_stat(iterator)?,
            GwToken::Keyword(GwBasicToken::SwapTok) => parse_swap_stat(iterator)?,
            GwToken::Keyword(GwBasicToken::GosubTok) => parse_gosub_stat(iterator)?,
            GwToken::Keyword(GwBasicToken::ReturnTok) => parse_return_stat(iterator),
            GwToken::Keyword(GwBasicToken::ReadTok) => parse_read_stat(iterator)?,
            GwToken::Keyword(GwBasicToken::DataTok) => parse_data_stat(iterator)?,
            GwToken::Keyword(GwBasicToken::NextTok) => parse_next_stat(iterator)?,
            GwToken::Keyword(GwBasicToken::OnTok) => parse_on_goto_stat(iterator)?,
            GwToken::Identifier(var_name) => parse_assignment(iterator, var_name)?,
            _ => {
                return None;
            },
        }
    } else {
        ParserResult::Nothing
    })
}

/// `IF condition THEN line` or `IF condition THEN statements`, after `IF`.
pub fn parse_if_stat(iterator: &mut PushbackTokensIterator) -> (r: Option<ParserResult<GwInstruction>>)
    requires
        old(iterator).wf(),
    ensures
        final(iterator).wf(),
        r is Some ==> pmeasure(state_of(*final(iterator))) <= pmeasure(state_of(*old(iterator))),
        opt_pr_of(r, |i: GwInstruction| i@, state_of(*final(iterator))) == p_if(
            state_of(*old(iterator)),
        ),
    decreases pmeasure(state_of(*old(iterator))), 5int,
{
    Some(if let ParserResult::Success(expr) = try_parse_expression(iterator)? {
        if let Some(GwToken::Keyword(GwBasicToken::ThenTok)) = read_token(iterator)? {
            let next_token = read_token(iterator)?;
            match next_token {
                Some(GwToken::Integer(line_number)) => ParserResult::Success(
                    GwInstruction::If(GwIf::new(expr, line_number)),
                ),
                Some(tok) => {
                    unread(iterator, tok);
                    match parse_same_line_instruction_sequence(iterator)? {
                        ParserResult::Success(then_stats) => {
                            let stat = GwIfWithStats::new(expr, then_stats);
                            ParserResult::Success(GwInstruction::IfWithStats(stat))
                        },
                        ParserResult::Error(error) => ParserResult::Error(error),
                        ParserResult::Nothing => {
                            return None;
                        },
                    }
                },
                None => {
                    return None;
                },
            }
        } else {
            error("Expecting THEN keyword")
        }
    } else {
        error("Expecting variable as expression as part of IF statement")
    })
}

/// Statements separated by `:`.
pub fn parse_same_line_instruction_sequence(iterator: &mut PushbackTokensIterator) -> (r: Option<ParserResult<Vec<GwInstruction>>>)
    requires
        old(iterator).wf(),
    ensures
        final(iterator).wf(),
        r is Some ==> pmeasure(state_of(*final(iterator))) <= pmeasure(state_of(*old(iterator))),
        opt_pr_of(r, |v: Vec<GwInstruction>| instrs_view(v@), state_of(*final(iterator)))
            == p_same_line(state_of(*old(iterator))),
    decreases pmeasure(state_of(*old(iterator))), 4int,
{
    let first = match parse_instruction(iterator)? {
        ParserResult::Success(first) => first,
        ParserResult::Error(e) => {
            return Some(ParserResult::Error(e));
        },
        ParserResult::Nothing => {
            return Some(error("Nothing!"));
        },
    };
    Some(match continue_parse_same_line_instruction_sequence(iterator)? {
        ParserResult::Success(rest) => {
            let mut result: Vec<GwInstruction> = Vec::new();
            result.push(first);
            let mut rest = rest;
            let ghost rest_v = rest@;
            result.append(&mut rest);
            proof {
                lemma_instrs_view(result@);
                lemma_instrs_view(rest_v);
                assert(instrs_view(result@) =~= seq![instrs_view(result@)[0]] + instrs_view(rest_v));
            }
            ParserResult::Success(result)
        },
        ParserResult::Nothing => {
            let mut result: Vec<GwInstruction> = Vec::new();
            result.push(first);
            proof {
                lemma_instrs_view(result@);
                assert(instrs_view(result@) =~= seq![instrs_view(result@)[0]]);
            }
            ParserResult::Success(result)
        },
        ParserResult::Error(err) => ParserResult::Error(err),
    })
}

/// The statements after a first one: nothing at the end of the text, else
/// `:`-prefixed statements.
pub fn continue_parse_same_line_instruction_sequence(iterator: &mut PushbackTokensIterator) -> (r: Option<ParserResult<Vec<GwInstruction>>>)
    requires
        old(iterator).wf(),
    ensures
        final(iterator).wf(),
        r is Some ==> pmeasure(state_of(*final(iterator))) <= pmeasure(state_of(*old(iterator))),
        opt_pr_of(r, |v: Vec<GwInstruction>| instrs_view(v@), state_of(*final(iterator)))
            == p_continue(state_of(*old(iterator))),
    decreases pmeasure(state_of(*old(iterator))), 3int,
{
    Some(if let Some(next_tok) = read_token(iterator)? {
        if is_keyword(&next_tok, GwBasicToken::ColonSeparatorTok) {
            unread(iterator, next_tok);
            parsing_same_line_instruction_sequence(iterator)?
        } else {
            error("Expecting colon")
        }
    } else {
        ParserResult::Nothing
    })
}

/// `:`-prefixed statements up to the end of the text.
pub fn parsing_same_line_instruction_sequence(iterator: &mut PushbackTokensIterator) -> (r: Option<ParserResult<Vec<GwInstruction>>>)
    requires
        old(iterator).wf(),
    ensures
        final(iterator).wf(),
        r is Some ==> pmeasure(state_of(*final(iterator))) <= pmeasure(state_of(*old(iterator))),
        opt_pr_of(r, |v: Vec<GwInstruction>| instrs_view(v@), state_of(*final(iterator)))
            == p_colon_stats(state_of(*old(iterator)), seq![]),
    decreases pmeasure(state_of(*old(iterator))), 2int,
{
    let ghost st0 = state_of(*iterator);
    let mut results: Vec<GwInstruction> = Vec::new();
    assert(instrs_view(results@) =~= seq![]);
    loop
        invariant
            iterator.wf(),
            p_colon_stats(state_of(*iterator), instrs_view(results@)) == p_colon_stats(
                st0,
                seq![],
            ),
            pmeasure(state_of(*iterator)) <= pmeasure(st0),
            st0 == state_of(*old(iterator)),
        decreases pmeasure(state_of(*iterator)),
    {
        if let Some(next_tok) = read_token(iterator)? {
            if is_keyword(&next_tok, GwBasicToken::ColonSeparatorTok) {
                let instr_result = parse_instruction(iterator)?;
                if let ParserResult::Success(parsed_instruction) = instr_result {
                    proof {
                        lemma_instrs_view_push(results@, parsed_instruction);
                    }
                    results.push(parsed_instruction);
                } else {
                    return Some(error("Error parsing same line statement"));
                }
            } else {
                return Some(error("Expecting colon"));
            }
        } else {
            return Some(ParserResult::Success(results));
        }
    }
}

/// A numbered program line.
pub fn parse_instruction_line(iterator: &mut PushbackTokensIterator) -> (r: ParserResult<
    ProgramLine,
>)
    requires
        old(iterator).wf(),
        !(p_line(state_of(*old(iterator))) is Panic),
    ensures
        final(iterator).wf(),
        pr_of(r, |l: ProgramLine| l@, state_of(*final(iterator))) == p_line(
            state_of(*old(iterator)),
        ),
{
    match try_parse_instruction_line(iterator) {
        Some(r) => r,
        None => ParserResult::Nothing,
    }
}

/// A numbered program line.
/// `None` where parsing stops abnormally (`PR::Panic` in the model).
fn try_parse_instruction_line(iterator: &mut PushbackTokensIterator) -> (r: Option<ParserResult<
    ProgramLine,
>>)
    requires
        old(iterator).wf(),
    ensures
        final(iterator).wf(),
        r is Some ==> pmeasure(state_of(*final(iterator))) <= pmeasure(state_of(*old(iterator))),
        opt_pr_of(r, |l: ProgramLine| l@, state_of(*final(iterator))) == p_line(
            state_of(*old(iterator)),
        ),
{
    Some(if let Some(next_tok) = read_token(iterator)? {
        if let GwToken::Integer(line_number) = next_tok {
            let parse_result = parse_instruction(iterator)?;
            match parse_result {
                ParserResult::Success(instr) => {
                    match continue_parse_same_line_instruction_sequence(iterator)? {
                        ParserResult::Success(rest_inst) => ParserResult::Success(
                            ProgramLine {
                                line: line_number,
                                instruction: instr,
                                rest_instructions: Some(rest_inst),
                            },
                        ),
                        ParserResult::Nothing => ParserResult::Success(
                            ProgramLine {
                                line: line_number,
                                instruction: instr,
                                rest_instructions: None,
                            },
                        ),
                        ParserResult::Error(err) => ParserResult::Error(err),
                    }
                },
                ParserResult::Error(msg) => ParserResult::Error(msg),
                ParserResult::Nothing => error("Error parsing line"),
            }
        } else {
            error("line number expected")
        }
    } else {
        ParserResult::Nothing
    })
}

/// The statement written in `line` (a line typed without a number);
/// `None` where the text cannot be parsed to the end of a statement.
pub fn try_parse_repl_instruction_string(line: String) -> (r: Option<ParserResult<GwInstruction>>)
    ensures
        pr_outcome(opt_pr_of(r, |i: GwInstruction| i@, PState { pushed: None, text: seq![] }))
            == pr_outcome(p_instr(PState { pushed: None, text: line@ })),
{
    let pb = PushbackCharsIterator::new(line.as_str());
    let mut tokens_iterator = PushbackTokensIterator::create(pb);
    parse_instruction(&mut tokens_iterator)
}

/// The statement written in `line` (a line typed without a number).
pub fn parse_repl_instruction_string(line: String) -> (r: ParserResult<GwInstruction>)
    requires
        !(p_instr(PState { pushed: None, text: line@ }) is Panic),
    ensures
        pr_outcome(pr_of(r, |i: GwInstruction| i@, PState { pushed: None, text: seq![] }))
            == pr_outcome(p_instr(PState { pushed: None, text: line@ })),
{
    match try_parse_repl_instruction_string(line) {
        Some(r) => r,
        None => ParserResult::Nothing,
    }
}

/// The numbered program line written in `line`; `None` where the text
/// cannot be parsed to the end of a line.
pub fn try_parse_instruction_line_from_string(line: String) -> (r: Option<ParserResult<ProgramLine>>)
    ensures
        pr_outcome(opt_pr_of(r, |l: ProgramLine| l@, PState { pushed: None, text: seq![] }))
            == pr_outcome(p_line(PState { pushed: None, text: line@ })),
{
    let pb = PushbackCharsIterator::new(line.as_str());
    let mut tokens_iterator = PushbackTokensIterator::create(pb);
    try_parse_instruction_line(&mut tokens_iterator)
}

/// The numbered program line written in `line`.
pub fn parse_instruction_line_from_string(line: String) -> (r: ParserResult<ProgramLine>)
    requires
        !(p_line(PState { pushed: None, text: line@ }) is Panic),
    ensures
        pr_outcome(pr_of(r, |l: ProgramLine| l@, PState { pushed: None, text: seq![] }))
            == pr_outcome(p_line(PState { pushed: None, text: line@ })),
{
    match try_parse_instruction_line_from_string(line) {
        Some(r) => r,
        None => ParserResult::Nothing,
    }
}

/// Whether a line typed at the prompt is a program line: it starts with
/// a digit (a line number); any other line is a command.
pub fn is_numbered_line(line: &String) -> (r: bool)
    ensures
        r == (line@.len() > 0 && '0' <= line@[0] && line@[0] <= '9'),
{
    let cs = chars_of(line.as_str());
    cs.len() > 0 && '0' <= cs[0] && cs[0] <= '9'
}

} // verus!
