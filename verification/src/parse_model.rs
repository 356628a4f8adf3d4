//! The meaning of the GW-BASIC parser: for each parsing function, what it
//! yields and where it leaves the token stream, written over the stream's
//! state (a pushed-back token and the text not yet tokenized).
//!
//! `PR::Panic` marks the inputs on which parsing stops abnormally (a
//! character that starts no token, a statement keyword without a parser,
//! a built-in function called with a wrong number of arguments, `THEN`
//! at the end of the text).

use vstd::prelude::*;
use crate::ast::{BuiltinFunction, ExprV, GwBinaryOperationKind};
use crate::lexer::{lex_step, LexStep, TokenValue};
use crate::statements::{DefVarRange, ExpressionType, InstrV, LineV, PrintElemV, PrintSeparator, SwitchIndicator};
use crate::tokens::GwBasicToken;

verus! {

/// The state of a token stream: the pushed-back token, if any, and the
/// text not yet tokenized.
#[verifier::ext_equal]
pub struct PState {
    pub pushed: Option<TokenValue>,
    pub text: Seq<char>,
}

/// A measure that every token read lowers.
pub open spec fn pmeasure(st: PState) -> nat {
    (2 * st.text.len() + if st.pushed is Some {
        1int
    } else {
        0int
    }) as nat
}

/// The outcome of reading one token.
pub enum NextTok {
    Tok(TokenValue, PState),
    Eof(PState),
    Stuck,
}

/// Reading one token: the pushed-back one, else the next one of the text.
#[verifier::opaque]
pub open spec fn next_tok(st: PState) -> NextTok {
    match st.pushed {
        Some(t) => NextTok::Tok(t, PState { pushed: None, text: st.text }),
        None => match lex_step(st.text) {
            LexStep::Token(t, rest) => if rest.len() < st.text.len() {
                NextTok::Tok(t, PState { pushed: None, text: rest })
            } else {
                NextTok::Stuck
            },
            LexStep::End(rest) => if rest.len() <= st.text.len() {
                NextTok::Eof(PState { pushed: None, text: rest })
            } else {
                NextTok::Stuck
            },
            LexStep::Unrecognized => NextTok::Stuck,
        },
    }
}

/// The state after pushing `t` back.
pub open spec fn push_state(t: TokenValue, s: PState) -> PState {
    PState { pushed: Some(t), text: s.text }
}

/// The outcome of a parsing function.
#[verifier::ext_equal]
pub enum PR<T> {
    Success(T, PState),
    Error(Seq<char>, PState),
    Nothing(PState),
    Panic,
}

/// The state a parsing outcome leaves.
pub open spec fn pr_state<T>(r: PR<T>) -> PState {
    match r {
        PR::Success(_, s) => s,
        PR::Error(_, s) => s,
        PR::Nothing(s) => s,
        PR::Panic => PState { pushed: None, text: seq![] },
    }
}

/// The outcome without the state it leaves.
pub open spec fn pr_outcome<T>(r: PR<T>) -> PR<T> {
    let dummy = PState { pushed: None, text: seq![] };
    match r {
        PR::Success(v, _) => PR::Success(v, dummy),
        PR::Error(m, _) => PR::Error(m, dummy),
        PR::Nothing(_) => PR::Nothing(dummy),
        PR::Panic => PR::Panic,
    }
}

/// The outcome of reading an identifier and what follows it.
pub enum IdR {
    Var(Seq<char>, PState),
    Arr(Seq<char>, Seq<ExprV>, PState),
    Builtin(BuiltinFunction, ExprV, PState),
    Error(Seq<char>, PState),
    Panic,
}

/// The built-in function of a name.
pub open spec fn builtin_of(name: Seq<char>) -> Option<BuiltinFunction> {
    if name == "ABS"@ {
        Some(BuiltinFunction::Abs)
    } else if name == "LOG"@ {
        Some(BuiltinFunction::Log)
    } else if name == "INT"@ {
        Some(BuiltinFunction::Int)
    } else if name == "COS"@ {
        Some(BuiltinFunction::Cos)
    } else if name == "SIN"@ {
        Some(BuiltinFunction::Sin)
    } else if name == "RND"@ {
        Some(BuiltinFunction::Rnd)
    } else {
        None
    }
}

/// The operation of an operator token.
pub open spec fn operation_of(k: GwBasicToken) -> Option<GwBinaryOperationKind> {
    match k {
        GwBasicToken::PlusTok => Some(GwBinaryOperationKind::Plus),
        GwBasicToken::MinusTok => Some(GwBinaryOperationKind::Minus),
        GwBasicToken::TimesTok => Some(GwBinaryOperationKind::Times),
        GwBasicToken::DivTok => Some(GwBinaryOperationKind::FloatDiv),
        GwBasicToken::EqlTok => Some(GwBinaryOperationKind::Equal),
        GwBasicToken::DifferentTok => Some(GwBinaryOperationKind::Different),
        GwBasicToken::PowOperatorTok => Some(GwBinaryOperationKind::Exponent),
        GwBasicToken::LtTok => Some(GwBinaryOperationKind::LessThan),
        GwBasicToken::GtTok => Some(GwBinaryOperationKind::GreaterThan),
        GwBasicToken::LteTok => Some(GwBinaryOperationKind::LessEqualThan),
        GwBasicToken::GteTok => Some(GwBinaryOperationKind::GreaterEqualThan),
        _ => None,
    }
}

pub open spec fn is_comparison_token(k: GwBasicToken) -> bool {
    k == GwBasicToken::EqlTok || k == GwBasicToken::DifferentTok || k == GwBasicToken::LtTok
        || k == GwBasicToken::GtTok || k == GwBasicToken::LteTok || k == GwBasicToken::GteTok
}

pub open spec fn is_additive_token(k: GwBasicToken) -> bool {
    k == GwBasicToken::PlusTok || k == GwBasicToken::MinusTok
}

pub open spec fn is_multiplicative_token(k: GwBasicToken) -> bool {
    k == GwBasicToken::DivTok || k == GwBasicToken::TimesTok || k == GwBasicToken::PowOperatorTok
}

pub open spec fn binary(k: GwBasicToken, l: ExprV, r: ExprV) -> ExprV {
    ExprV::Binary(operation_of(k)->0, Box::new(l), Box::new(r))
}

// ----- expressions -----

/// An expression: a comparison chain.
pub open spec fn p_expr(st: PState) -> PR<ExprV>
    decreases pmeasure(st), 10int,
{
    p_cmp(st)
}

/// Additive expressions joined by comparison operators, left to right.
pub open spec fn p_cmp(st: PState) -> PR<ExprV>
    decreases pmeasure(st), 9int,
{
    match p_add(st) {
        PR::Success(e, s1) => if pmeasure(s1) <= pmeasure(st) {
            p_cmps(s1, e)
        } else {
            PR::Panic
        },
        other => other,
    }
}

/// The rest of a comparison chain after `cur`.
pub open spec fn p_cmps(st: PState, cur: ExprV) -> PR<ExprV>
    decreases pmeasure(st), 8int,
{
    match next_tok(st) {
        NextTok::Stuck => PR::Panic,
        NextTok::Eof(s) => PR::Success(cur, s),
        NextTok::Tok(t, s) => if t is Keyword && is_comparison_token(t->Keyword_0) {
            if pmeasure(s) < pmeasure(st) {
                match p_add(s) {
                    PR::Success(r, s2) => if pmeasure(s2) < pmeasure(st) {
                        p_cmps(s2, binary(t->Keyword_0, cur, r))
                    } else {
                        PR::Panic
                    },
                    PR::Panic => PR::Panic,
                    other => PR::Error(
                        "Error parsing comparison expression, expecting right side operand "@,
                        pr_state(other),
                    ),
                }
            } else {
                PR::Panic
            }
        } else {
            PR::Success(cur, push_state(t, s))
        },
    }
}

/// Multiplicative expressions joined by `+` and `-`, left to right.
pub open spec fn p_add(st: PState) -> PR<ExprV>
    decreases pmeasure(st), 7int,
{
    match p_mul(st) {
        PR::Success(e, s1) => if pmeasure(s1) <= pmeasure(st) {
            p_adds(s1, e)
        } else {
            PR::Panic
        },
        other => other,
    }
}

/// The rest of an additive chain after `cur`.
pub open spec fn p_adds(st: PState, cur: ExprV) -> PR<ExprV>
    decreases pmeasure(st), 6int,
{
    match next_tok(st) {
        NextTok::Stuck => PR::Panic,
        NextTok::Eof(s) => PR::Success(cur, s),
        NextTok::Tok(t, s) => if t is Keyword && is_additive_token(t->Keyword_0) {
            if pmeasure(s) < pmeasure(st) {
                match p_mul(s) {
                    PR::Success(r, s2) => if pmeasure(s2) < pmeasure(st) {
                        p_adds(s2, binary(t->Keyword_0, cur, r))
                    } else {
                        PR::Panic
                    },
                    PR::Panic => PR::Panic,
                    other => PR::Error(
                        "Error parsing additive expression, expecting right side operand "@,
                        pr_state(other),
                    ),
                }
            } else {
                PR::Panic
            }
        } else {
            PR::Success(cur, push_state(t, s))
        },
    }
}

/// Exponential expressions joined by `*`, `/` and `^`, left to right.
pub open spec fn p_mul(st: PState) -> PR<ExprV>
    decreases pmeasure(st), 5int,
{
    match p_exp(st) {
        PR::Success(e, s1) => if pmeasure(s1) <= pmeasure(st) {
            p_muls(s1, e)
        } else {
            PR::Panic
        },
        other => other,
    }
}

/// The rest of a multiplicative chain after `cur`.
pub open spec fn p_muls(st: PState, cur: ExprV) -> PR<ExprV>
    decreases pmeasure(st), 4int,
{
    match next_tok(st) {
        NextTok::Stuck => PR::Panic,
        NextTok::Eof(s) => PR::Success(cur, s),
        NextTok::Tok(t, s) => if t is Keyword && is_multiplicative_token(t->Keyword_0) {
            if pmeasure(s) < pmeasure(st) {
                match p_exp(s) {
                    PR::Success(r, s2) => if pmeasure(s2) < pmeasure(st) {
                        p_muls(s2, binary(t->Keyword_0, cur, r))
                    } else {
                        PR::Panic
                    },
                    PR::Panic => PR::Panic,
                    other => PR::Error(
                        "Error parsing additive expression, expecting right side operand "@,
                        pr_state(other),
                    ),
                }
            } else {
                PR::Panic
            }
        } else {
            PR::Success(cur, push_state(t, s))
        },
    }
}

/// Single expressions joined by `^`, left to right.
pub open spec fn p_exp(st: PState) -> PR<ExprV>
    decreases pmeasure(st), 3int,
{
    match p_single(st) {
        PR::Success(e, s1) => if pmeasure(s1) <= pmeasure(st) {
            p_exps(s1, e)
        } else {
            PR::Panic
        },
        other => other,
    }
}

/// The rest of an exponential chain after `cur`.
pub open spec fn p_exps(st: PState, cur: ExprV) -> PR<ExprV>
    decreases pmeasure(st), 2int,
{
    match next_tok(st) {
        NextTok::Stuck => PR::Panic,
        NextTok::Eof(s) => PR::Success(cur, s),
        NextTok::Tok(t, s) => if t == TokenValue::Keyword(GwBasicToken::PowOperatorTok) {
            if pmeasure(s) < pmeasure(st) {
                match p_single(s) {
                    PR::Success(r, s2) => if pmeasure(s2) < pmeasure(st) {
                        p_exps(
                            s2,
                            ExprV::Binary(
                                GwBinaryOperationKind::Exponent,
                                Box::new(cur),
                                Box::new(r),
                            ),
                        )
                    } else {
                        PR::Panic
                    },
                    PR::Panic => PR::Panic,
                    other => PR::Error(
                        "Error parsing additive expression, expecting right side operand "@,
                        pr_state(other),
                    ),
                }
            } else {
                PR::Panic
            }
        } else {
            PR::Success(cur, push_state(t, s))
        },
    }
}

/// A literal, a name, a parenthesized or negated expression, or `INKEY$`.
pub open spec fn p_single(st: PState) -> PR<ExprV>
    decreases pmeasure(st), 1int,
{
    match next_tok(st) {
        NextTok::Stuck => PR::Panic,
        NextTok::Eof(s) => PR::Nothing(s),
        NextTok::Tok(t, s) => if pmeasure(s) < pmeasure(st) {
            match t {
                TokenValue::Identifier(id) => p_id_expr(s, id),
                TokenValue::Integer(i) => PR::Success(ExprV::IntegerLiteral(i), s),
                TokenValue::Double(d) => PR::Success(ExprV::DoubleLiteral(d), s),
                TokenValue::String(v) => PR::Success(ExprV::StringLiteral(v), s),
                TokenValue::Keyword(GwBasicToken::LparTok) => p_paren(s),
                TokenValue::Keyword(GwBasicToken::MinusTok) => p_neg(s),
                TokenValue::Keyword(GwBasicToken::InkeyDTok) => PR::Success(ExprV::Inkey, s),
                _ => PR::Nothing(push_state(t, s)),
            }
        } else {
            PR::Panic
        },
    }
}

/// An expression in parentheses, after the `(`.
pub open spec fn p_paren(st: PState) -> PR<ExprV>
    decreases pmeasure(st), 20int,
{
    match p_expr(st) {
        PR::Success(e, s1) => match next_tok(s1) {
            NextTok::Tok(TokenValue::Keyword(GwBasicToken::RparTok), s2) => PR::Success(
                ExprV::Parenthesized(Box::new(e)),
                s2,
            ),
            NextTok::Tok(_, s2) => PR::Error("Expecting right side parenthesis"@, s2),
            NextTok::Eof(s2) => PR::Error("Expecting right side parenthesis"@, s2),
            NextTok::Stuck => PR::Panic,
        },
        PR::Panic => PR::Panic,
        other => PR::Error("Expecting expression on parenthesized expression"@, pr_state(other)),
    }
}

/// A negated single expression, after the `-`.
pub open spec fn p_neg(st: PState) -> PR<ExprV>
    decreases pmeasure(st), 20int,
{
    match p_single(st) {
        PR::Success(e, s1) => PR::Success(ExprV::Neg(Box::new(e)), s1),
        PR::Panic => PR::Panic,
        other => PR::Error("Expecting single expression on negation"@, pr_state(other)),
    }
}

/// What follows an identifier: an argument list in parentheses (an array
/// element, a call, or a built-in function), or nothing (a variable).
pub open spec fn p_id_aux(st: PState, id: Seq<char>) -> IdR
    decreases pmeasure(st), 20int,
{
    match next_tok(st) {
        NextTok::Stuck => IdR::Panic,
        NextTok::Eof(s) => IdR::Var(id, s),
        NextTok::Tok(t, s) => if t == TokenValue::Keyword(GwBasicToken::LparTok) {
            if pmeasure(s) < pmeasure(st) {
                match p_sep_exprs(s, seq![]) {
                    PR::Success(args, s1) => match next_tok(s1) {
                        NextTok::Tok(TokenValue::Keyword(GwBasicToken::RparTok), s2) => {
                            match builtin_of(id) {
                                Some(f) => if args.len() == 1 {
                                    IdR::Builtin(f, args[0], s2)
                                } else {
                                    IdR::Panic
                                },
                                None => IdR::Arr(id, args, s2),
                            }
                        },
                        NextTok::Tok(_, s2) => IdR::Error("Right parenthesis expected"@, s2),
                        NextTok::Eof(s2) => IdR::Error("Right parenthesis expected"@, s2),
                        NextTok::Stuck => IdR::Panic,
                    },
                    PR::Panic => IdR::Panic,
                    other => IdR::Error("Error parsing  array indices"@, pr_state(other)),
                }
            } else {
                IdR::Panic
            }
        } else {
            IdR::Var(id, push_state(t, s))
        },
    }
}

/// An expression that starts with an identifier.
pub open spec fn p_id_expr(st: PState, id: Seq<char>) -> PR<ExprV>
    decreases pmeasure(st), 21int,
{
    match p_id_aux(st, id) {
        IdR::Var(n, s) => PR::Success(ExprV::Variable(n), s),
        IdR::Arr(n, args, s) => PR::Success(ExprV::Call(n, args), s),
        IdR::Builtin(f, a, s) => PR::Success(ExprV::Builtin(f, Box::new(a)), s),
        IdR::Error(m, s) => PR::Error(m, s),
        IdR::Panic => PR::Panic,
    }
}

/// Expressions separated by `,`, after the ones in `acc`.
pub open spec fn p_sep_exprs(st: PState, acc: Seq<ExprV>) -> PR<Seq<ExprV>>
    decreases pmeasure(st), 20int,
{
    match p_expr(st) {
        PR::Success(e, s1) => match next_tok(s1) {
            NextTok::Tok(t, s2) => if t == TokenValue::Keyword(GwBasicToken::CommaSeparatorTok) {
                if pmeasure(s2) < pmeasure(st) {
                    p_sep_exprs(s2, acc.push(e))
                } else {
                    PR::Panic
                }
            } else {
                PR::Success(acc.push(e), push_state(t, s2))
            },
            NextTok::Eof(s2) => PR::Success(acc.push(e), s2),
            NextTok::Stuck => PR::Panic,
        },
        PR::Panic => PR::Panic,
        other => PR::Error("error parsing sequence"@, pr_state(other)),
    }
}

// ----- pieces of statements -----

/// An expression that can be assigned to: a variable or an array element.
pub open spec fn p_restrict_id(st: PState) -> PR<ExprV> {
    match next_tok(st) {
        NextTok::Stuck => PR::Panic,
        NextTok::Eof(s) => PR::Nothing(s),
        NextTok::Tok(TokenValue::Identifier(id), s) => match p_id_aux(s, id) {
            IdR::Var(n, s2) => PR::Success(ExprV::Variable(n), s2),
            IdR::Arr(n, args, s2) => PR::Success(ExprV::Call(n, args), s2),
            IdR::Builtin(_, _, s2) => PR::Error("Cannot assign to builtin function"@, s2),
            IdR::Error(m, s2) => PR::Error(m, s2),
            IdR::Panic => PR::Panic,
        },
        NextTok::Tok(_, s) => PR::Nothing(s),
    }
}

/// An integer literal.
pub open spec fn p_single_int(st: PState) -> PR<i16> {
    match next_tok(st) {
        NextTok::Stuck => PR::Panic,
        NextTok::Eof(s) => PR::Nothing(s),
        NextTok::Tok(TokenValue::Integer(i), s) => PR::Success(i, s),
        NextTok::Tok(t, s) => PR::Nothing(push_state(t, s)),
    }
}

/// Integer literals separated by `,`, after the ones in `acc`.
pub open spec fn p_sep_ints(st: PState, acc: Seq<i16>) -> PR<Seq<i16>>
    decreases pmeasure(st),
{
    match p_single_int(st) {
        PR::Success(e, s1) => match next_tok(s1) {
            NextTok::Tok(t, s2) => if t == TokenValue::Keyword(GwBasicToken::CommaSeparatorTok) {
                if pmeasure(s2) < pmeasure(st) {
                    p_sep_ints(s2, acc.push(e))
                } else {
                    PR::Panic
                }
            } else {
                PR::Success(acc.push(e), push_state(t, s2))
            },
            NextTok::Eof(s2) => PR::Success(acc.push(e), s2),
            NextTok::Stuck => PR::Panic,
        },
        PR::Panic => PR::Panic,
        other => PR::Error("error parsing sequence"@, pr_state(other)),
    }
}

/// Assignable expressions separated by `,`, after the ones in `acc`.
pub open spec fn p_sep_assignables(st: PState, acc: Seq<ExprV>) -> PR<Seq<ExprV>>
    decreases pmeasure(st),
{
    match p_restrict_id(st) {
        PR::Success(e, s1) => match next_tok(s1) {
            NextTok::Tok(t, s2) => if t == TokenValue::Keyword(GwBasicToken::CommaSeparatorTok) {
                if pmeasure(s2) < pmeasure(st) {
                    p_sep_assignables(s2, acc.push(e))
                } else {
                    PR::Panic
                }
            } else {
                PR::Success(acc.push(e), push_state(t, s2))
            },
            NextTok::Eof(s2) => PR::Success(acc.push(e), s2),
            NextTok::Stuck => PR::Panic,
        },
        PR::Panic => PR::Panic,
        other => PR::Error("error parsing sequence"@, pr_state(other)),
    }
}

/// One declaration of a `DIM` statement: `name(dimensions)`.
pub open spec fn p_dim_decl(st: PState) -> PR<(Seq<char>, Seq<ExprV>)> {
    match next_tok(st) {
        NextTok::Stuck => PR::Panic,
        NextTok::Tok(TokenValue::Identifier(name), s1) => match next_tok(s1) {
            NextTok::Stuck => PR::Panic,
            NextTok::Tok(TokenValue::Keyword(GwBasicToken::LparTok), s2) => match p_sep_exprs(
                s2,
                seq![],
            ) {
                PR::Success(dims, s3) => match next_tok(s3) {
                    NextTok::Stuck => PR::Panic,
                    NextTok::Tok(TokenValue::Keyword(GwBasicToken::RparTok), s4) => PR::Success(
                        (name, dims),
                        s4,
                    ),
                    other => PR::Error("Expecting right parenthesis"@, next_state(other)),
                },
                PR::Error(m, s3) => PR::Error(m, s3),
                PR::Nothing(s3) => PR::Error("Nothing!"@, s3),
                PR::Panic => PR::Panic,
            },
            other => PR::Error("Expecting left parenthesis"@, next_state(other)),
        },
        other => PR::Error("Expecting declaration name"@, next_state(other)),
    }
}

/// The state after a token read (of a read that did not get stuck).
pub open spec fn next_state(n: NextTok) -> PState {
    match n {
        NextTok::Tok(_, s) => s,
        NextTok::Eof(s) => s,
        NextTok::Stuck => PState { pushed: None, text: seq![] },
    }
}

/// `DIM` declarations separated by `,`, after the ones in `acc`.
pub open spec fn p_sep_dims(st: PState, acc: Seq<(Seq<char>, Seq<ExprV>)>) -> PR<
    Seq<(Seq<char>, Seq<ExprV>)>,
>
    decreases pmeasure(st),
{
    match p_dim_decl(st) {
        PR::Success(e, s1) => match next_tok(s1) {
            NextTok::Tok(t, s2) => if t == TokenValue::Keyword(GwBasicToken::CommaSeparatorTok) {
                if pmeasure(s2) < pmeasure(st) {
                    p_sep_dims(s2, acc.push(e))
                } else {
                    PR::Panic
                }
            } else {
                PR::Success(acc.push(e), push_state(t, s2))
            },
            NextTok::Eof(s2) => PR::Success(acc.push(e), s2),
            NextTok::Stuck => PR::Panic,
        },
        PR::Panic => PR::Panic,
        other => PR::Error("error parsing sequence"@, pr_state(other)),
    }
}

/// The rest of a letter range after its first letter `start`.
pub open spec fn p_var_range_fragment(st: PState, start: char) -> PR<DefVarRange> {
    match next_tok(st) {
        NextTok::Stuck => PR::Panic,
        NextTok::Eof(s) => PR::Success(DefVarRange::Single(start), s),
        NextTok::Tok(TokenValue::Keyword(GwBasicToken::MinusTok), s) => match next_tok(s) {
            NextTok::Stuck => PR::Panic,
            NextTok::Tok(TokenValue::Identifier(end), s2) => if end.len() > 0 {
                PR::Success(DefVarRange::Range(start, end[0]), s2)
            } else {
                PR::Panic
            },
            other => PR::Error("Expecting end of range "@, next_state(other)),
        },
        NextTok::Tok(t, s) => PR::Success(DefVarRange::Single(start), push_state(t, s)),
    }
}

/// A letter or a range of letters.
pub open spec fn p_var_range(st: PState) -> PR<DefVarRange> {
    match next_tok(st) {
        NextTok::Stuck => PR::Panic,
        NextTok::Eof(s) => PR::Nothing(s),
        NextTok::Tok(TokenValue::Identifier(start), s) => if start.len() > 0 {
            p_var_range_fragment(s, start[0])
        } else {
            PR::Panic
        },
        NextTok::Tok(t, s) => PR::Nothing(push_state(t, s)),
    }
}

/// Letter ranges separated by `,`, after the ones in `acc`.
pub open spec fn p_sep_ranges(st: PState, acc: Seq<DefVarRange>) -> PR<Seq<DefVarRange>>
    decreases pmeasure(st),
{
    match p_var_range(st) {
        PR::Success(e, s1) => match next_tok(s1) {
            NextTok::Tok(t, s2) => if t == TokenValue::Keyword(GwBasicToken::CommaSeparatorTok) {
                if pmeasure(s2) < pmeasure(st) {
                    p_sep_ranges(s2, acc.push(e))
                } else {
                    PR::Panic
                }
            } else {
                PR::Success(acc.push(e), push_state(t, s2))
            },
            NextTok::Eof(s2) => PR::Success(acc.push(e), s2),
            NextTok::Stuck => PR::Panic,
        },
        PR::Panic => PR::Panic,
        other => PR::Error("error parsing sequence"@, pr_state(other)),
    }
}

/// `TAB(expression)`, or nothing.
pub open spec fn p_optional_tab(st: PState) -> PR<PrintElemV> {
    match next_tok(st) {
        NextTok::Stuck => PR::Panic,
        NextTok::Eof(s) => PR::Nothing(s),
        NextTok::Tok(TokenValue::Keyword(GwBasicToken::TabTok), s) => match next_tok(s) {
            NextTok::Stuck => PR::Panic,
            NextTok::Tok(TokenValue::Keyword(GwBasicToken::LparTok), s1) => match p_expr(s1) {
                PR::Success(e, s2) => match next_tok(s2) {
                    NextTok::Stuck => PR::Panic,
                    NextTok::Tok(TokenValue::Keyword(GwBasicToken::RparTok), s3) => PR::Success(
                        PrintElemV::Tab(e),
                        s3,
                    ),
                    other => PR::Error("Expecting right parenthesis"@, next_state(other)),
                },
                PR::Error(m, s2) => PR::Error(m, s2),
                PR::Nothing(s2) => PR::Error("Nothing!"@, s2),
                PR::Panic => PR::Panic,
            },
            other => PR::Error("Expecting left parenthesis"@, next_state(other)),
        },
        NextTok::Tok(t, s) => PR::Nothing(push_state(t, s)),
    }
}

/// One element of a `PRINT` list: a `TAB(...)`, an expression, or nothing,
/// with the state after it.
pub open spec fn p_print_element(st: PState) -> PR<PrintElemV> {
    match p_optional_tab(st) {
        PR::Success(tab, s) => PR::Success(tab, s),
        PR::Panic => PR::Panic,
        other => match p_expr(pr_state(other)) {
            PR::Success(e, s) => PR::Success(PrintElemV::Expr(e), s),
            PR::Error(m, s) => PR::Error(m, s),
            PR::Nothing(s) => PR::Success(PrintElemV::Nothing, s),
            PR::Panic => PR::Panic,
        },
    }
}

/// The elements of a `PRINT` list with their separators, after the ones in
/// `acc`.
pub open spec fn p_flex(st: PState, acc: Seq<(PrintElemV, Option<PrintSeparator>)>) -> PR<
    Seq<(PrintElemV, Option<PrintSeparator>)>,
>
    decreases pmeasure(st),
{
    match p_print_element(st) {
        PR::Success(item, s1) => match next_tok(s1) {
            NextTok::Stuck => PR::Panic,
            NextTok::Eof(s2) => if item is Nothing {
                PR::Success(acc, s2)
            } else {
                PR::Success(acc.push((item, None)), s2)
            },
            NextTok::Tok(t, s2) => if t == TokenValue::Keyword(
                GwBasicToken::SemiColonSeparatorTok,
            ) {
                if pmeasure(s2) < pmeasure(st) {
                    p_flex(s2, acc.push((item, Some(PrintSeparator::Semicolon))))
                } else {
                    PR::Panic
                }
            } else if t == TokenValue::Keyword(GwBasicToken::CommaSeparatorTok) {
                if pmeasure(s2) < pmeasure(st) {
                    p_flex(s2, acc.push((item, Some(PrintSeparator::Comma))))
                } else {
                    PR::Panic
                }
            } else if t == TokenValue::Keyword(GwBasicToken::ColonSeparatorTok) {
                if item is Nothing {
                    PR::Success(acc, push_state(t, s2))
                } else {
                    PR::Success(acc.push((item, None)), push_state(t, s2))
                }
            } else if item is Nothing {
                PR::Success(acc, push_state(t, s2))
            } else if pmeasure(push_state(t, s2)) < pmeasure(st) {
                p_flex(push_state(t, s2), acc.push((item, None)))
            } else {
                PR::Panic
            },
        },
        PR::Error(m, s) => PR::Error(m, s),
        PR::Nothing(s) => PR::Nothing(s),
        PR::Panic => PR::Panic,
    }
}

/// The items of a `DATA` statement in `s`: split at `,`, each without its
/// leading blanks (spaces and tabs).
pub open spec fn data_items(s: Seq<char>) -> Seq<Seq<char>>
    decreases s.len(),
{
    let t = s.skip(blank_prefix_len(s) as int);
    let k = comma_free_prefix_len(t);
    if k < t.len() {
        proof {
            lemma_blank_prefix_len_bound(s);
        }
        seq![t.take(k as int)] + data_items(t.skip(k + 1 as int))
    } else {
        seq![t]
    }
}

/// Number of leading spaces and tabs of `s`.
pub open spec fn blank_prefix_len(s: Seq<char>) -> nat
    decreases s.len(),
{
    if s.len() > 0 && (s[0] == ' ' || s[0] == '\t') {
        1 + blank_prefix_len(s.drop_first())
    } else {
        0
    }
}

/// The leading blanks are no more than the text.
pub proof fn lemma_blank_prefix_len_bound(s: Seq<char>)
    ensures
        blank_prefix_len(s) <= s.len(),
    decreases s.len(),
{
    if s.len() > 0 && (s[0] == ' ' || s[0] == '\t') {
        lemma_blank_prefix_len_bound(s.drop_first());
    }
}

/// Number of leading characters of `s` that are not `,`.
pub open spec fn comma_free_prefix_len(s: Seq<char>) -> nat
    decreases s.len(),
{
    if s.len() > 0 && s[0] != ',' {
        1 + comma_free_prefix_len(s.drop_first())
    } else {
        0
    }
}

// ----- statements -----

/// `PRINT [USING] list`, after `PRINT`.
pub open spec fn p_print(st: PState) -> PR<InstrV> {
    let (using, s1) = match next_tok(st) {
        NextTok::Tok(t, s) => if t == TokenValue::Keyword(GwBasicToken::UsingTok) {
            (true, s)
        } else {
            (false, push_state(t, s))
        },
        NextTok::Eof(s) => (false, s),
        NextTok::Stuck => (false, st),
    };
    if next_tok(st) is Stuck {
        PR::Panic
    } else {
        match p_flex(s1, seq![]) {
            PR::Success(items, s2) => PR::Success(
                if using {
                    InstrV::PrintUsing(items)
                } else {
                    InstrV::Print(items)
                },
                s2,
            ),
            PR::Panic => PR::Panic,
            other => PR::Error("Expecting expression as PRINT argument"@, pr_state(other)),
        }
    }
}

/// `LOAD expression`, after `LOAD`.
pub open spec fn p_load(st: PState) -> PR<InstrV> {
    match p_expr(st) {
        PR::Success(e, s) => PR::Success(InstrV::Load(e), s),
        PR::Panic => PR::Panic,
        other => PR::Error("Expecting expression as LOAD  argument"@, pr_state(other)),
    }
}

/// `WHILE condition`, after `WHILE`.
pub open spec fn p_while(st: PState) -> PR<InstrV> {
    match p_expr(st) {
        PR::Success(e, s) => PR::Success(InstrV::While(e), s),
        PR::Error(m, s) => PR::Error(m, s),
        PR::Nothing(s) => PR::Error("Nothing!"@, s),
        PR::Panic => PR::Panic,
    }
}

/// `READ variable`, after `READ`.
pub open spec fn p_read(st: PState) -> PR<InstrV> {
    match p_restrict_id(st) {
        PR::Success(e, s) => PR::Success(InstrV::Read(e), s),
        PR::Error(m, s) => PR::Error(m, s),
        PR::Nothing(s) => PR::Error("Nothing!"@, s),
        PR::Panic => PR::Panic,
    }
}

/// `ON expression GOTO lines`, after `ON`.
pub open spec fn p_on_goto(st: PState) -> PR<InstrV> {
    match p_expr(st) {
        PR::Success(e, s1) => match next_tok(s1) {
            NextTok::Stuck => PR::Panic,
            NextTok::Tok(TokenValue::Keyword(GwBasicToken::GotoTok), s2) => match p_sep_ints(
                s2,
                seq![],
            ) {
                PR::Success(cases, s3) => PR::Success(InstrV::OnGoto(e, cases), s3),
                PR::Error(m, s3) => PR::Error(m, s3),
                PR::Nothing(s3) => PR::Error("Nothing!"@, s3),
                PR::Panic => PR::Panic,
            },
            other => PR::Error("Expecting left parenthesis"@, next_state(other)),
        },
        PR::Error(m, s) => PR::Error(m, s),
        PR::Nothing(s) => PR::Error("Nothing!"@, s),
        PR::Panic => PR::Panic,
    }
}

/// `GOSUB line`, after `GOSUB`.
pub open spec fn p_gosub(st: PState) -> PR<InstrV> {
    match next_tok(st) {
        NextTok::Stuck => PR::Panic,
        NextTok::Tok(TokenValue::Integer(l), s) => PR::Success(InstrV::Gosub(l), s),
        other => PR::Error("Expecting line number"@, next_state(other)),
    }
}

/// `SWAP left, right`, after `SWAP`.
pub open spec fn p_swap(st: PState) -> PR<InstrV> {
    match p_restrict_id(st) {
        PR::Success(l, s1) => match next_tok(s1) {
            NextTok::Stuck => PR::Panic,
            NextTok::Tok(TokenValue::Keyword(GwBasicToken::CommaSeparatorTok), s2) => {
                match p_restrict_id(s2) {
                    PR::Success(r, s3) => PR::Success(InstrV::Swap(l, r), s3),
                    PR::Error(m, s3) => PR::Error(m, s3),
                    PR::Nothing(s3) => PR::Error("Nothing!"@, s3),
                    PR::Panic => PR::Panic,
                }
            },
            other => PR::Error("Expecting left parenthesis"@, next_state(other)),
        },
        PR::Error(m, s) => PR::Error(m, s),
        PR::Nothing(s) => PR::Error("Nothing!"@, s),
        PR::Panic => PR::Panic,
    }
}

/// `DATA items`, after `DATA`: the rest of the text.
pub open spec fn p_data(st: PState) -> PR<InstrV> {
    PR::Success(InstrV::Data(data_items(st.text)), PState { pushed: st.pushed, text: seq![] })
}

/// `DIM declarations`, after `DIM`.
pub open spec fn p_dim(st: PState) -> PR<InstrV> {
    match p_sep_dims(st, seq![]) {
        PR::Success(decls, s) => if decls.len() > 1 {
            PR::Success(InstrV::Dim(decls[0], Some(decls.skip(1))), s)
        } else if decls.len() == 1 {
            PR::Success(InstrV::Dim(decls[0], None), s)
        } else {
            PR::Error("DIM requires at least one declaration"@, s)
        },
        PR::Error(m, s) => PR::Error(m, s),
        PR::Nothing(s) => PR::Error("Dimensions required"@, s),
        PR::Panic => PR::Panic,
    }
}

/// `STEP expression`.
pub open spec fn p_for_step(st: PState) -> PR<ExprV> {
    match next_tok(st) {
        NextTok::Stuck => PR::Panic,
        NextTok::Tok(TokenValue::Keyword(GwBasicToken::StepTok), s) => match p_expr(s) {
            PR::Success(e, s2) => PR::Success(e, s2),
            PR::Error(m, s2) => PR::Error(m, s2),
            PR::Nothing(s2) => PR::Error("Nothing!"@, s2),
            PR::Panic => PR::Panic,
        },
        other => PR::Error("Expecting STEP"@, next_state(other)),
    }
}

/// `FOR variable = from TO to [STEP step]`, after `FOR`.
pub open spec fn p_for(st: PState) -> PR<InstrV> {
    match next_tok(st) {
        NextTok::Stuck => PR::Panic,
        NextTok::Tok(TokenValue::Identifier(v), s1) => match next_tok(s1) {
            NextTok::Stuck => PR::Panic,
            NextTok::Tok(TokenValue::Keyword(GwBasicToken::EqlTok), s2) => match p_expr(s2) {
                PR::Success(from, s3) => match next_tok(s3) {
                    NextTok::Stuck => PR::Panic,
                    NextTok::Tok(TokenValue::Keyword(GwBasicToken::ToTok), s4) => match p_expr(
                        s4,
                    ) {
                        PR::Success(to, s5) => match p_for_step(s5) {
                            PR::Success(step, s6) => PR::Success(
                                InstrV::For(v, from, to, Some(step)),
                                s6,
                            ),
                            PR::Panic => PR::Panic,
                            other => PR::Success(InstrV::For(v, from, to, None), pr_state(other)),
                        },
                        PR::Error(m, s5) => PR::Error(m, s5),
                        PR::Nothing(s5) => PR::Error("Nothing!"@, s5),
                        PR::Panic => PR::Panic,
                    },
                    other => PR::Error("Expecting 'to'"@, next_state(other)),
                },
                PR::Error(m, s3) => PR::Error(m, s3),
                PR::Nothing(s3) => PR::Error("Nothing!"@, s3),
                PR::Panic => PR::Panic,
            },
            other => PR::Error("Expecting equal (=)"@, next_state(other)),
        },
        other => PR::Error("Expecting identifier"@, next_state(other)),
    }
}

/// `NEXT [variable]`, after `NEXT`.
pub open spec fn p_next(st: PState) -> PR<InstrV> {
    match next_tok(st) {
        NextTok::Stuck => PR::Panic,
        NextTok::Eof(s) => PR::Success(InstrV::Next(None), s),
        NextTok::Tok(TokenValue::Identifier(id), s) => PR::Success(InstrV::Next(Some(id)), s),
        NextTok::Tok(t, s) => PR::Success(InstrV::Next(None), push_state(t, s)),
    }
}

/// An optional token: whether the next token is `want`, and the state
/// after it (the token pushed back when it is another one).
pub open spec fn opt_token(st: PState, want: TokenValue) -> (bool, PState) {
    match next_tok(st) {
        NextTok::Tok(t, s) => if t == want {
            (true, s)
        } else {
            (false, push_state(t, s))
        },
        NextTok::Eof(s) => (false, s),
        NextTok::Stuck => (false, st),
    }
}

/// `INPUT ["prompt"][,][;] variables`, after `INPUT`.
pub open spec fn p_input(st: PState) -> PR<InstrV> {
    match next_tok(st) {
        NextTok::Stuck => PR::Panic,
        n0 => {
            let (prompt, s1) = match n0 {
                NextTok::Tok(TokenValue::String(p), s) => (Some(p), s),
                NextTok::Tok(t, s) => (None, push_state(t, s)),
                _ => (None, next_state(n0)),
            };
            if next_tok(s1) is Stuck {
                PR::Panic
            } else {
                let s2 = opt_token(s1, TokenValue::Keyword(GwBasicToken::CommaSeparatorTok)).1;
                if next_tok(s2) is Stuck {
                    PR::Panic
                } else {
                    let s3 = opt_token(
                        s2,
                        TokenValue::Keyword(GwBasicToken::SemiColonSeparatorTok),
                    ).1;
                    match p_sep_assignables(s3, seq![]) {
                        PR::Success(vars, s4) => PR::Success(InstrV::Input(prompt, vars), s4),
                        PR::Error(m, s4) => PR::Error(m, s4),
                        PR::Nothing(s4) => PR::Error("Nothing!"@, s4),
                        PR::Panic => PR::Panic,
                    }
                }
            }
        },
    }
}

/// `DEFDBL`-like statements, after the keyword.
pub open spec fn p_deftype(st: PState, t: ExpressionType) -> PR<InstrV> {
    match p_sep_ranges(st, seq![]) {
        PR::Success(rs, s) => PR::Success(InstrV::DefType(rs, t), s),
        PR::Error(m, s) => PR::Error(m, s),
        PR::Nothing(s) => PR::Nothing(s),
        PR::Panic => PR::Panic,
    }
}

/// `REM comment`, after `REM`: the rest of the text.
pub open spec fn p_rem(st: PState) -> PR<InstrV> {
    PR::Success(InstrV::Rem(st.text), PState { pushed: st.pushed, text: seq![] })
}

/// `KEY ON` or `KEY OFF`, after `KEY`.
pub open spec fn p_key(st: PState) -> PR<InstrV> {
    match next_tok(st) {
        NextTok::Stuck => PR::Panic,
        NextTok::Tok(TokenValue::Keyword(GwBasicToken::OnTok), s) => PR::Success(
            InstrV::Key(SwitchIndicator::On),
            s,
        ),
        NextTok::Tok(TokenValue::Keyword(GwBasicToken::OffTok), s) => PR::Success(
            InstrV::Key(SwitchIndicator::Off),
            s,
        ),
        other => PR::Error("Error parsing Key statement"@, next_state(other)),
    }
}

/// `COLOR red, green, blue`, after `COLOR`.
pub open spec fn p_color(st: PState) -> PR<InstrV> {
    match p_sep_exprs(st, seq![]) {
        PR::Success(cs, s) => if cs.len() == 3 {
            PR::Success(InstrV::Color(cs[0], cs[1], cs[2]), s)
        } else {
            PR::Error("Error parsing Color color components"@, s)
        },
        PR::Panic => PR::Panic,
        other => PR::Error("Error recognizing colors"@, pr_state(other)),
    }
}

/// `GOTO line`, after `GOTO`.
pub open spec fn p_goto(st: PState) -> PR<InstrV> {
    match next_tok(st) {
        NextTok::Stuck => PR::Panic,
        NextTok::Tok(TokenValue::Integer(l), s) => PR::Success(InstrV::Goto(l), s),
        other => PR::Error("Expecting number at GOTO statement"@, next_state(other)),
    }
}

/// `name(indices) = expression`, after the `(`.
pub open spec fn p_array_assign(st: PState, id: Seq<char>) -> PR<InstrV> {
    match p_sep_exprs(st, seq![]) {
        PR::Success(idx, s1) => match next_tok(s1) {
            NextTok::Stuck => PR::Panic,
            NextTok::Tok(TokenValue::Keyword(GwBasicToken::RparTok), s2) => match next_tok(s2) {
                NextTok::Stuck => PR::Panic,
                NextTok::Tok(TokenValue::Keyword(GwBasicToken::EqlTok), s3) => match p_expr(s3) {
                    PR::Success(e, s4) => PR::Success(InstrV::ArrayAssign(id, idx, e), s4),
                    PR::Panic => PR::Panic,
                    other => PR::Error("Error expression expected"@, pr_state(other)),
                },
                other => PR::Error("Equal  expected"@, next_state(other)),
            },
            other => PR::Error("Right parenthesis expected"@, next_state(other)),
        },
        PR::Panic => PR::Panic,
        other => PR::Error("Error parsing  array indices"@, pr_state(other)),
    }
}

/// An assignment, after the variable's name.
pub open spec fn p_assign(st: PState, id: Seq<char>) -> PR<InstrV> {
    match next_tok(st) {
        NextTok::Stuck => PR::Panic,
        NextTok::Eof(s) => PR::Error("cannot parse assignment"@, s),
        NextTok::Tok(TokenValue::Keyword(GwBasicToken::LparTok), s) => p_array_assign(s, id),
        NextTok::Tok(TokenValue::Keyword(GwBasicToken::EqlTok), s) => match p_expr(s) {
            PR::Success(e, s2) => PR::Success(InstrV::Assign(id, e), s2),
            PR::Panic => PR::Panic,
            other => PR::Error("Error parsing  assignment"@, pr_state(other)),
        },
        NextTok::Tok(_, s) => PR::Error("Expecting assignment"@, s),
    }
}

/// The statement that a keyword (or an identifier) starts, after it;
/// `PR::Panic` for a token that starts no statement.
pub open spec fn p_statement(t: TokenValue, s: PState) -> PR<InstrV> {
    match t {
        TokenValue::Keyword(k) => match k {
            GwBasicToken::GotoTok => p_goto(s),
            GwBasicToken::ClsTok => PR::Success(InstrV::Cls, s),
            GwBasicToken::EndTok => PR::Success(InstrV::End, s),
            GwBasicToken::RemTok => p_rem(s),
            GwBasicToken::DefdblTok => p_deftype(s, ExpressionType::Double),
            GwBasicToken::DefstrTok => p_deftype(s, ExpressionType::String),
            GwBasicToken::DefsngTok => p_deftype(s, ExpressionType::Single),
            GwBasicToken::DefintTok => p_deftype(s, ExpressionType::Integer),
            GwBasicToken::ColorTok => p_color(s),
            GwBasicToken::KeyTok => p_key(s),
            GwBasicToken::PrintTok => p_print(s),
            GwBasicToken::ListTok => PR::Success(InstrV::List, s),
            GwBasicToken::RunTok => PR::Success(InstrV::Run, s),
            GwBasicToken::LoadTok => p_load(s),
            GwBasicToken::SystemTok => PR::Success(InstrV::System, s),
            GwBasicToken::InpTok => p_input(s),
            GwBasicToken::WhileTok => p_while(s),
            GwBasicToken::WendTok => PR::Success(InstrV::Wend, s),
            GwBasicToken::StopTok => PR::Success(InstrV::Stop, s),
            GwBasicToken::ForTok => p_for(s),
            GwBasicToken::DimTok => p_dim(s),
            GwBasicToken::SwapTok => p_swap(s),
            GwBasicToken::GosubTok => p_gosub(s),
            GwBasicToken::ReturnTok => PR::Success(InstrV::Return, s),
            GwBasicToken::ReadTok => p_read(s),
            GwBasicToken::DataTok => p_data(s),
            GwBasicToken::NextTok => p_next(s),
            GwBasicToken::OnTok => p_on_goto(s),
            _ => PR::Panic,
        },
        TokenValue::Identifier(v) => p_assign(s, v),
        _ => PR::Panic,
    }
}

/// A statement.
pub open spec fn p_instr(st: PState) -> PR<InstrV>
    decreases pmeasure(st), 1int,
{
    match next_tok(st) {
        NextTok::Stuck => PR::Panic,
        NextTok::Eof(s) => PR::Nothing(s),
        NextTok::Tok(t, s) => if t == TokenValue::Keyword(GwBasicToken::IfTok) {
            if pmeasure(s) < pmeasure(st) {
                p_if(s)
            } else {
                PR::Panic
            }
        } else {
            p_statement(t, s)
        },
    }
}

/// `IF condition THEN line` or `IF condition THEN statements`, after `IF`.
pub open spec fn p_if(st: PState) -> PR<InstrV>
    decreases pmeasure(st), 5int,
{
    match p_expr(st) {
        PR::Success(c, s1) => match next_tok(s1) {
            NextTok::Stuck => PR::Panic,
            NextTok::Tok(TokenValue::Keyword(GwBasicToken::ThenTok), s2) => match next_tok(s2) {
                NextTok::Stuck => PR::Panic,
                NextTok::Eof(_) => PR::Panic,
                NextTok::Tok(TokenValue::Integer(l), s3) => PR::Success(InstrV::If(c, l), s3),
                NextTok::Tok(t, s3) => if pmeasure(push_state(t, s3)) < pmeasure(st) {
                    match p_same_line(push_state(t, s3)) {
                        PR::Success(stats, s4) => PR::Success(InstrV::IfWithStats(c, stats), s4),
                        PR::Error(m, s4) => PR::Error(m, s4),
                        _ => PR::Panic,
                    }
                } else {
                    PR::Panic
                },
            },
            other => PR::Error("Expecting THEN keyword"@, next_state(other)),
        },
        PR::Panic => PR::Panic,
        other => PR::Error(
            "Expecting variable as expression as part of IF statement"@,
            pr_state(other),
        ),
    }
}

/// Statements separated by `:`.
pub open spec fn p_same_line(st: PState) -> PR<Seq<InstrV>>
    decreases pmeasure(st), 4int,
{
    match p_instr(st) {
        PR::Success(first, s1) => if pmeasure(s1) <= pmeasure(st) {
            match p_continue(s1) {
                PR::Success(rest, s2) => PR::Success(seq![first] + rest, s2),
                PR::Nothing(s2) => PR::Success(seq![first], s2),
                PR::Error(m, s2) => PR::Error(m, s2),
                PR::Panic => PR::Panic,
            }
        } else {
            PR::Panic
        },
        PR::Error(m, s1) => PR::Error(m, s1),
        PR::Nothing(s1) => PR::Error("Nothing!"@, s1),
        PR::Panic => PR::Panic,
    }
}

/// The statements after a first one: nothing at the end of the text, else
/// `:`-prefixed statements.
pub open spec fn p_continue(st: PState) -> PR<Seq<InstrV>>
    decreases pmeasure(st), 3int,
{
    match next_tok(st) {
        NextTok::Stuck => PR::Panic,
        NextTok::Eof(s) => PR::Nothing(s),
        NextTok::Tok(t, s) => if t == TokenValue::Keyword(GwBasicToken::ColonSeparatorTok) {
            if pmeasure(push_state(t, s)) <= pmeasure(st) {
                p_colon_stats(push_state(t, s), seq![])
            } else {
                PR::Panic
            }
        } else {
            PR::Error("Expecting colon"@, s)
        },
    }
}

/// `:`-prefixed statements up to the end of the text, after the ones in
/// `acc`.
pub open spec fn p_colon_stats(st: PState, acc: Seq<InstrV>) -> PR<Seq<InstrV>>
    decreases pmeasure(st), 2int,
{
    match next_tok(st) {
        NextTok::Stuck => PR::Panic,
        NextTok::Eof(s) => PR::Success(acc, s),
        NextTok::Tok(t, s) => if t == TokenValue::Keyword(GwBasicToken::ColonSeparatorTok) {
            if pmeasure(s) < pmeasure(st) {
                match p_instr(s) {
                    PR::Success(i, s2) => if pmeasure(s2) < pmeasure(st) {
                        p_colon_stats(s2, acc.push(i))
                    } else {
                        PR::Panic
                    },
                    PR::Panic => PR::Panic,
                    other => PR::Error("Error parsing same line statement"@, pr_state(other)),
                }
            } else {
                PR::Panic
            }
        } else {
            PR::Error("Expecting colon"@, s)
        },
    }
}

/// A numbered program line.
pub open spec fn p_line(st: PState) -> PR<LineV> {
    match next_tok(st) {
        NextTok::Stuck => PR::Panic,
        NextTok::Eof(s) => PR::Nothing(s),
        NextTok::Tok(TokenValue::Integer(n), s) => match p_instr(s) {
            PR::Success(i, s2) => match p_continue(s2) {
                PR::Success(rest, s3) => PR::Success(LineV { line: n, instr: i, rest: Some(rest) }, s3),
                PR::Nothing(s3) => PR::Success(LineV { line: n, instr: i, rest: None }, s3),
                PR::Error(m, s3) => PR::Error(m, s3),
                PR::Panic => PR::Panic,
            },
            PR::Error(m, s2) => PR::Error(m, s2),
            PR::Nothing(s2) => PR::Error("Error parsing line"@, s2),
            PR::Panic => PR::Panic,
        },
        NextTok::Tok(_, s) => PR::Error("line number expected"@, s),
    }
}

/// A token pushed back is the next token read, and reading it leaves the
/// text as it was.
pub proof fn lemma_read_after_push_back(t: TokenValue, s: PState)
    ensures
        next_tok(push_state(t, s)) == NextTok::Tok(t, PState { pushed: None, text: s.text }),
{
    reveal(next_tok);
}

/// `FOR v = from TO to STEP e` keeps its step: when the `TO` expression is
/// followed by the keyword `STEP` and an expression `e`, the statement's
/// step is `e`.
pub proof fn lemma_for_keeps_step(
    st: PState,
    v: Seq<char>,
    s1: PState,
    s2: PState,
    from: ExprV,
    s3: PState,
    s4: PState,
    to: ExprV,
    s5: PState,
    s6: PState,
    e: ExprV,
    s7: PState,
)
    requires
        next_tok(st) == NextTok::Tok(TokenValue::Identifier(v), s1),
        next_tok(s1) == NextTok::Tok(TokenValue::Keyword(GwBasicToken::EqlTok), s2),
        p_expr(s2) == PR::Success(from, s3),
        next_tok(s3) == NextTok::Tok(TokenValue::Keyword(GwBasicToken::ToTok), s4),
        p_expr(s4) == PR::Success(to, s5),
        next_tok(s5) == NextTok::Tok(TokenValue::Keyword(GwBasicToken::StepTok), s6),
        p_expr(s6) == PR::Success(e, s7),
    ensures
        p_for(st) == PR::Success(InstrV::For(v, from, to, Some(e)), s7),
{
}

/// `FOR v = from TO to` with no `STEP` after the `TO` expression (the
/// text ends, or another token follows) has no step.
pub proof fn lemma_for_without_step(
    st: PState,
    v: Seq<char>,
    s1: PState,
    s2: PState,
    from: ExprV,
    s3: PState,
    s4: PState,
    to: ExprV,
    s5: PState,
)
    requires
        next_tok(st) == NextTok::Tok(TokenValue::Identifier(v), s1),
        next_tok(s1) == NextTok::Tok(TokenValue::Keyword(GwBasicToken::EqlTok), s2),
        p_expr(s2) == PR::Success(from, s3),
        next_tok(s3) == NextTok::Tok(TokenValue::Keyword(GwBasicToken::ToTok), s4),
        p_expr(s4) == PR::Success(to, s5),
        !(next_tok(s5) is Stuck),
        !(next_tok(s5) matches NextTok::Tok(TokenValue::Keyword(GwBasicToken::StepTok), _)),
    ensures
        p_for(st) is Success,
        p_for(st)->Success_0 == InstrV::For(v, from, to, None),
{
}

} // verus!
