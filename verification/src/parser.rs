//! The parser: precedence-climbing over one token of lookahead, with a
//! dynamic table of binary-operator precedences that `binary` prototypes
//! extend at parse time.
//!
//! The `sp_*` spec functions are the mathematical definition of parsing:
//! each takes the source bytes, a position and the precedence table, and
//! gives the parse result and the position after it.  The executable
//! parser is proved to follow them exactly, entry points included.

use vstd::prelude::*;

use crate::ast::{BinaryOp, Declaration, DeclarationS, Expr, ExprS, Function, FunctionS, Prototype,
    PrototypeS, view_names, view_exprs, view_decls, lemma_view_names_push, lemma_view_exprs_push,
    lemma_view_decls_push};
use crate::error::{Error, ErrorS, Expected};
use crate::lexer::{Lexer, Token, TokenS, lex_step, clone_bytes};

verus! {

/// The operator byte a token stands for, if it is an operator token.
pub open spec fn op_char_of(t: TokenS) -> Option<u8> {
    match t {
        TokenS::LessThan => Some(60u8),
        TokenS::Minus => Some(45u8),
        TokenS::Plus => Some(43u8),
        TokenS::Star => Some(42u8),
        TokenS::Equal => Some(61u8),
        TokenS::Exclamation => Some(33u8),
        TokenS::GreaterThan => Some(62u8),
        TokenS::Pipe => Some(124u8),
        TokenS::Ampersand => Some(38u8),
        TokenS::Colon => Some(58u8),
        _ => None,
    }
}

/// The binary operator a token stands for, if any: the five builtins keep
/// their own tags, every other operator byte is a custom operator.
pub open spec fn bin_op_of(t: TokenS) -> Option<BinaryOp> {
    match t {
        TokenS::Equal => Some(BinaryOp::Equal),
        TokenS::LessThan => Some(BinaryOp::LessThan),
        TokenS::Minus => Some(BinaryOp::Minus),
        TokenS::Plus => Some(BinaryOp::Plus),
        TokenS::Star => Some(BinaryOp::Times),
        _ => match op_char_of(t) {
            Some(c) => Some(BinaryOp::Custom(c)),
            None => None,
        },
    }
}

/// The precedences every fresh parser starts from.
pub open spec fn builtin_precedences() -> Map<BinaryOp, int> {
    Map::empty().insert(BinaryOp::Equal, 2).insert(BinaryOp::LessThan, 10).insert(
        BinaryOp::Plus,
        20,
    ).insert(BinaryOp::Minus, 20).insert(BinaryOp::Times, 40)
}

/// The numeric value of a digit string, most significant digit first.
pub open spec fn digits_value(d: Seq<u8>) -> int
    decreases d,
{
    if d.len() == 0 {
        0
    } else {
        digits_value(d.drop_last()) * 10 + (d.last() - 48)
    }
}

/// A digit string's value is not negative.
pub proof fn lemma_digits_value_nonneg(d: Seq<u8>)
    requires
        forall|i: int| 0 <= i < d.len() ==> #[trigger] d[i] >= 48,
    ensures
        digits_value(d) >= 0,
    decreases d,
{
    if d.len() > 0 {
        lemma_digits_value_nonneg(d.drop_last());
    }
}

/// The precedence a numeric literal sets: the value of its digits before
/// the dot, saturated to the largest 32-bit value (the literal is truncated
/// toward zero, as a float-to-integer conversion would).
pub open spec fn num_prec(text: Seq<u8>) -> int {
    let v = digits_value(text.subrange(0, crate::lexer::digits_end(text, 0)));
    if v > 2147483647 {
        2147483647
    } else {
        v
    }
}

/// The input remaining after a position; the measure parsing recursion
/// shrinks.
pub open spec fn rem(s: Seq<u8>, pos: int) -> int {
    if pos <= s.len() {
        s.len() - pos
    } else {
        0
    }
}

/// One parsing step: the value parsed (or the error met) and the position
/// after it.
pub struct Step<T> {
    pub r: Result<T, ErrorS>,
    pub next: int,
}

/// Clamps a step of a parse function that consumes at least one token on
/// success: `next` lands in `pos + 1 ..= len` on success and stays at `pos`
/// on an error.
pub open spec fn consuming<T>(pos: int, len: int, st: Step<T>) -> Step<T> {
    match st.r {
        Ok(_) => Step {
            r: st.r,
            next: if st.next > len {
                len
            } else if st.next < pos + 1 {
                pos + 1
            } else {
                st.next
            },
        },
        Err(_) => Step { r: st.r, next: pos },
    }
}

/// Clamps a step of a parse function that may succeed without consuming:
/// `next` lands in `pos ..= len` on success and stays at `pos` on an error.
pub open spec fn bounded<T>(pos: int, len: int, st: Step<T>) -> Step<T> {
    match st.r {
        Ok(_) => Step {
            r: st.r,
            next: if st.next > len {
                len
            } else if st.next < pos {
                pos
            } else {
                st.next
            },
        },
        Err(_) => Step { r: st.r, next: pos },
    }
}

/// A full expression: a unary operand, then its binary continuations.
#[verifier::opaque]
pub open spec fn sp_expr(s: Seq<u8>, pos: int, tbl: Map<BinaryOp, int>) -> Step<ExprS>
    decreases rem(s, pos), 4int,
{
    {
        let len = s.len() as int;
        let raw =
        {
            let u = consuming(pos, len, sp_unary(s, pos, tbl));
            match u.r {
                Err(e) => Step { r: Err(e), next: pos },
                Ok(left) => sp_binary_right(s, u.next, tbl, 0, left),
            }
        };
        consuming(pos, len, raw)
    }
}

/// A unary prefix: an operator byte followed by a full expression, or a
/// primary.
#[verifier::opaque]
pub open spec fn sp_unary(s: Seq<u8>, pos: int, tbl: Map<BinaryOp, int>) -> Step<ExprS>
    decreases rem(s, pos), 2int,
{
    {
        let len = s.len() as int;
        let raw =
        if pos >= s.len() {
            Step { r: Err(ErrorS::Unexpected(Expected::Expression)), next: pos }
        } else {
            let st = lex_step(s, pos);
            match st.r {
                Err(e) => Step { r: Err(e), next: pos },
                Ok(t) => match op_char_of(t) {
                    Some(op) => {
                        let operand = sp_expr(s, st.next, tbl);
                        match operand.r {
                            Err(e) => Step { r: Err(e), next: pos },
                            Ok(e) => Step {
                                r: Ok(ExprS::Unary(op, Box::new(e))),
                                next: operand.next,
                            },
                        }
                    },
                    None => sp_primary(s, pos, tbl),
                },
            }
        };
        consuming(pos, len, raw)
    }
}

/// The binary continuation: while the next token is an operator whose
/// precedence reaches the threshold, consume it, parse its right operand
/// (extended greedily while the following operator binds tighter), and fold
/// the pair into the left operand.
#[verifier::opaque]
pub open spec fn sp_binary_right(
    s: Seq<u8>,
    pos: int,
    tbl: Map<BinaryOp, int>,
    min_prec: int,
    left: ExprS,
) -> Step<ExprS>
    decreases rem(s, pos), 3int,
{
    {
        let len = s.len() as int;
        let raw =
        {
            let st = lex_step(s, pos);
            match st.r {
                Err(e) => Step { r: Err(e), next: pos },
                Ok(t) => match bin_op_of(t) {
                    None => Step { r: Ok(left), next: pos },
                    Some(op) => if !tbl.contains_key(op) {
                        Step { r: Err(ErrorS::UndefinedOperator), next: pos }
                    } else if tbl[op] < min_prec {
                        Step { r: Ok(left), next: pos }
                    } else {
                        let u = consuming(st.next, len, sp_unary(s, st.next, tbl));
                        match u.r {
                            Err(e) => Step { r: Err(e), next: pos },
                            Ok(right0) => {
                                let st2 = lex_step(s, u.next);
                                match st2.r {
                                    Err(e) => Step { r: Err(e), next: pos },
                                    Ok(t2) => {
                                        let more = match bin_op_of(t2) {
                                            Some(op2) => if !tbl.contains_key(op2) {
                                                Step { r: Err(ErrorS::UndefinedOperator), next: pos }
                                            } else if tbl[op] < tbl[op2] {
                                                bounded(
                                                    u.next,
                                                    len,
                                                    sp_binary_right(s, u.next, tbl, tbl[op] + 1, right0),
                                                )
                                            } else {
                                                Step { r: Ok(right0), next: u.next }
                                            },
                                            None => Step { r: Ok(right0), next: u.next },
                                        };
                                        match more.r {
                                            Err(e) => Step { r: Err(e), next: pos },
                                            Ok(right) => sp_binary_right(
                                                s,
                                                more.next,
                                                tbl,
                                                min_prec,
                                                ExprS::Binary(op, Box::new(left), Box::new(right)),
                                            ),
                                        }
                                    },
                                }
                            },
                        }
                    },
                },
            }
        };
        bounded(pos, len, raw)
    }
}

/// Call arguments: one expression, then the comma-led rest.
#[verifier::opaque]
pub open spec fn sp_args(s: Seq<u8>, pos: int, tbl: Map<BinaryOp, int>) -> Step<Seq<ExprS>>
    decreases rem(s, pos), 5int,
{
    {
        let len = s.len() as int;
        let raw =
        {
            let a = consuming(pos, len, sp_expr(s, pos, tbl));
            match a.r {
                Err(e) => Step { r: Err(e), next: pos },
                Ok(first) => {
                    let rest = sp_args_tail(s, a.next, tbl);
                    match rest.r {
                        Err(e) => Step { r: Err(e), next: pos },
                        Ok(more) => Step { r: Ok(seq![first] + more), next: rest.next },
                    }
                },
            }
        };
        consuming(pos, len, raw)
    }
}

/// The rest of an argument list: as long as a comma follows, one more
/// expression.
#[verifier::opaque]
pub open spec fn sp_args_tail(s: Seq<u8>, pos: int, tbl: Map<BinaryOp, int>) -> Step<Seq<ExprS>>
    decreases rem(s, pos), 2int,
{
    {
        let len = s.len() as int;
        let raw =
        {
            let st = lex_step(s, pos);
            match st.r {
                Err(e) => Step { r: Err(e), next: pos },
                Ok(t) => if t is Comma {
                    let a = consuming(st.next, len, sp_expr(s, st.next, tbl));
                    match a.r {
                        Err(e) => Step { r: Err(e), next: pos },
                        Ok(arg) => {
                            let rest = sp_args_tail(s, a.next, tbl);
                            match rest.r {
                                Err(e) => Step { r: Err(e), next: pos },
                                Ok(more) => Step { r: Ok(seq![arg] + more), next: rest.next },
                            }
                        },
                    }
                } else {
                    Step { r: Ok(Seq::empty()), next: pos }
                },
            }
        };
        bounded(pos, len, raw)
    }
}

/// The tail of a call, after the callee's name and `(`: the arguments and
/// the closing parenthesis.
#[verifier::opaque]
pub open spec fn sp_call_rest(s: Seq<u8>, pos: int, tbl: Map<BinaryOp, int>, name: Seq<u8>) -> Step<
    ExprS,
>
    decreases rem(s, pos), 6int,
{
    {
        let len = s.len() as int;
        let raw =
        {
            let args = consuming(pos, len, sp_args(s, pos, tbl));
            match args.r {
                Err(e) => Step { r: Err(e), next: pos },
                Ok(list) => {
                    let st2 = lex_step(s, args.next);
                    match st2.r {
                        Err(e) => Step { r: Err(e), next: pos },
                        Ok(t2) => if t2 is CloseParen {
                            Step { r: Ok(ExprS::Call(name, list)), next: st2.next }
                        } else {
                            Step { r: Err(ErrorS::Unexpected(Expected::Token)), next: pos }
                        },
                    }
                },
            }
        };
        bounded(pos, len, raw)
    }
}

/// The rest of a parenthesized expression, after `(`: the inner expression
/// and the closing parenthesis.
#[verifier::opaque]
pub open spec fn sp_paren_rest(s: Seq<u8>, pos: int, tbl: Map<BinaryOp, int>) -> Step<ExprS>
    decreases rem(s, pos), 5int,
{
    {
        let len = s.len() as int;
        let raw =
        {
            let e = consuming(pos, len, sp_expr(s, pos, tbl));
            match e.r {
                Err(er) => Step { r: Err(er), next: pos },
                Ok(inner) => {
                    let st1 = lex_step(s, e.next);
                    match st1.r {
                        Err(er) => Step { r: Err(er), next: pos },
                        Ok(t1) => if t1 is CloseParen {
                            Step { r: Ok(inner), next: st1.next }
                        } else {
                            Step { r: Err(ErrorS::Unexpected(Expected::Token)), next: pos }
                        },
                    }
                },
            }
        };
        bounded(pos, len, raw)
    }
}

/// A bare name or a call of it.
#[verifier::opaque]
pub open spec fn sp_ident_expr(s: Seq<u8>, pos: int, tbl: Map<BinaryOp, int>) -> Step<ExprS>
    decreases rem(s, pos), 0int,
{
    {
        let len = s.len() as int;
        let raw =
        {
            let st = lex_step(s, pos);
            match st.r {
                Err(e) => Step { r: Err(e), next: pos },
                Ok(t) => match t {
                    TokenS::Identifier(name) => {
                        let st1 = lex_step(s, st.next);
                        match st1.r {
                            Err(e) => Step { r: Err(e), next: pos },
                            Ok(t1) => if t1 is OpenParen {
                                let f = sp_call_rest(s, st1.next, tbl, name);
                                match f.r {
                                    Err(e) => Step { r: Err(e), next: pos },
                                    Ok(v) => Step { r: Ok(v), next: f.next },
                                }
                            } else {
                                Step { r: Ok(ExprS::Variable(name)), next: st.next }
                            },
                        }
                    },
                    _ => Step { r: Err(ErrorS::Unexpected(Expected::Identifier)), next: pos },
                },
            }
        };
        consuming(pos, len, raw)
    }
}

/// The declarations of a `var` construct: names with optional `=`
/// initializers, separated by commas.
#[verifier::opaque]
pub open spec fn sp_var_decls(s: Seq<u8>, pos: int, tbl: Map<BinaryOp, int>) -> Step<
    Seq<DeclarationS>,
>
    decreases rem(s, pos), 5int,
{
    {
        let len = s.len() as int;
        let raw =
        {
            let st = lex_step(s, pos);
            match st.r {
                Err(e) => Step { r: Err(e), next: pos },
                Ok(t) => match t {
                    TokenS::Identifier(name) => {
                        let st1 = lex_step(s, st.next);
                        match st1.r {
                            Err(e) => Step { r: Err(e), next: pos },
                            Ok(t1) => {
                                let init = if t1 is Equal {
                                    let e = consuming(st1.next, s.len() as int, sp_expr(s, st1.next, tbl));
                                    match e.r {
                                        Err(er) => Step { r: Err(er), next: pos },
                                        Ok(x) => Step { r: Ok(Some(Box::new(x))), next: e.next },
                                    }
                                } else {
                                    Step { r: Ok(None), next: st.next }
                                };
                                match init.r {
                                    Err(e) => Step { r: Err(e), next: pos },
                                    Ok(iv) => {
                                        let decl = DeclarationS { name: name, init_value: iv };
                                        let st2 = lex_step(s, init.next);
                                        match st2.r {
                                            Err(e) => Step { r: Err(e), next: pos },
                                            Ok(t2) => if t2 is Comma {
                                                let rest = sp_var_decls(s, st2.next, tbl);
                                                match rest.r {
                                                    Err(e) => Step { r: Err(e), next: pos },
                                                    Ok(more) => Step {
                                                        r: Ok(seq![decl] + more),
                                                        next: rest.next,
                                                    },
                                                }
                                            } else {
                                                Step { r: Ok(seq![decl]), next: init.next }
                                            },
                                        }
                                    },
                                }
                            },
                        }
                    },
                    _ => Step { r: Err(ErrorS::Unexpected(Expected::Identifier)), next: pos },
                },
            }
        };
        consuming(pos, len, raw)
    }
}

/// The rest of an `if` construct, after its keyword: the condition,
/// `then`, the then-branch, `else`, the else-branch (mandatory).
#[verifier::opaque]
pub open spec fn sp_if_rest(s: Seq<u8>, pos: int, tbl: Map<BinaryOp, int>) -> Step<ExprS>
    decreases rem(s, pos), 5int,
{
    {
        let len = s.len() as int;
        let raw =
        {
            let c = consuming(pos, len, sp_expr(s, pos, tbl));
            match c.r {
                Err(er) => Step { r: Err(er), next: pos },
                Ok(condition) => {
                    let stt = lex_step(s, c.next);
                    match stt.r {
                        Err(er) => Step { r: Err(er), next: pos },
                        Ok(tt) => if !(tt is Then) {
                            Step { r: Err(ErrorS::Unexpected(Expected::Token)), next: pos }
                        } else {
                            let th = consuming(stt.next, len, sp_expr(s, stt.next, tbl));
                            match th.r {
                                Err(er) => Step { r: Err(er), next: pos },
                                Ok(then) => {
                                    let ste = lex_step(s, th.next);
                                    match ste.r {
                                        Err(er) => Step { r: Err(er), next: pos },
                                        Ok(te) => if !(te is Else) {
                                            Step {
                                                r: Err(ErrorS::Unexpected(Expected::Token)),
                                                next: pos,
                                            }
                                        } else {
                                            let el = sp_expr(s, ste.next, tbl);
                                            match el.r {
                                                Err(er) => Step { r: Err(er), next: pos },
                                                Ok(else_) => Step {
                                                    r: Ok(
                                                        ExprS::If {
                                                            condition: Box::new(condition),
                                                            then: Box::new(then),
                                                            else_: Box::new(else_),
                                                        },
                                                    ),
                                                    next: el.next,
                                                },
                                            }
                                        },
                                    }
                                },
                            }
                        },
                    }
                },
            }
        };
        consuming(pos, len, raw)
    }
}

/// The rest of a `var` construct, after its keyword: the declarations,
/// `in`, then the body.
#[verifier::opaque]
pub open spec fn sp_var_rest(s: Seq<u8>, pos: int, tbl: Map<BinaryOp, int>) -> Step<ExprS>
    decreases rem(s, pos), 6int,
{
    {
        let len = s.len() as int;
        let raw =
        {
            let ds = consuming(pos, len, sp_var_decls(s, pos, tbl));
            match ds.r {
                Err(er) => Step { r: Err(er), next: pos },
                Ok(decls) => {
                    let sti = lex_step(s, ds.next);
                    match sti.r {
                        Err(er) => Step { r: Err(er), next: pos },
                        Ok(ti) => if !(ti is In) {
                            Step { r: Err(ErrorS::Unexpected(Expected::Token)), next: pos }
                        } else {
                            let b = sp_expr(s, sti.next, tbl);
                            match b.r {
                                Err(er) => Step { r: Err(er), next: pos },
                                Ok(body) => Step {
                                    r: Ok(
                                        ExprS::VariableDeclaration {
                                            declarations: decls,
                                            body: Box::new(body),
                                        },
                                    ),
                                    next: b.next,
                                },
                            }
                        },
                    }
                },
            }
        };
        consuming(pos, len, raw)
    }
}

/// A primary expression: a literal, a parenthesized expression, a name or
/// call, or an `if`, `for` or `var` construct.
#[verifier::rlimit(60)]
#[verifier::opaque]
pub open spec fn sp_primary(s: Seq<u8>, pos: int, tbl: Map<BinaryOp, int>) -> Step<ExprS>
    decreases rem(s, pos), 1int,
{
    {
        let len = s.len() as int;
        let raw =
        if pos >= s.len() {
            Step { r: Err(ErrorS::Unexpected(Expected::Expression)), next: pos }
        } else {
            let st = lex_step(s, pos);
            match st.r {
                Err(e) => Step { r: Err(e), next: pos },
                Ok(t) => match t {
                    TokenS::Number(text) => Step { r: Ok(ExprS::Number(text)), next: st.next },
                    TokenS::OpenParen => {
                        let f = sp_paren_rest(s, st.next, tbl);
                        match f.r {
                            Err(er) => Step { r: Err(er), next: pos },
                            Ok(v) => Step { r: Ok(v), next: f.next },
                        }
                    },
                    TokenS::Identifier(_) => sp_ident_expr(s, pos, tbl),
                    TokenS::If => {
                        let f = sp_if_rest(s, st.next, tbl);
                        match f.r {
                            Err(er) => Step { r: Err(er), next: pos },
                            Ok(v) => Step { r: Ok(v), next: f.next },
                        }
                    },
                    TokenS::For => {
                        let f = sp_for_rest(s, st.next, tbl);
                        match f.r {
                            Err(er) => Step { r: Err(er), next: pos },
                            Ok(body) => Step { r: Ok(body), next: f.next },
                        }
                    },
                    TokenS::Var => {
                        let f = sp_var_rest(s, st.next, tbl);
                        match f.r {
                            Err(er) => Step { r: Err(er), next: pos },
                            Ok(v) => Step { r: Ok(v), next: f.next },
                        }
                    },
                    _ => Step { r: Err(ErrorS::Unexpected(Expected::Expression)), next: pos },
                },
            }
        };
        consuming(pos, len, raw)
    }
}

/// The rest of a `for` construct, after its keyword: a name, `=`, the
/// initial value, a comma, the condition, an optional `, step`, then `in`
/// and the body.
#[verifier::rlimit(60)]
#[verifier::opaque]
pub open spec fn sp_for_rest(s: Seq<u8>, pos: int, tbl: Map<BinaryOp, int>) -> Step<ExprS>
    decreases rem(s, pos), 0int,
{
    let st = lex_step(s, pos);
    match st.r {
        Err(e) => Step { r: Err(e), next: pos },
        Ok(t) => match t {
            TokenS::Identifier(name) => {
                let ste = lex_step(s, st.next);
                match ste.r {
                    Err(e) => Step { r: Err(e), next: pos },
                    Ok(te) => if !(te is Equal) {
                        Step { r: Err(ErrorS::Unexpected(Expected::Token)), next: pos }
                    } else {
                        let iv = consuming(ste.next, s.len() as int, sp_expr(s, ste.next, tbl));
                        match iv.r {
                            Err(e) => Step { r: Err(e), next: pos },
                            Ok(init_value) => {
                                let stc = lex_step(s, iv.next);
                                match stc.r {
                                    Err(e) => Step { r: Err(e), next: pos },
                                    Ok(tc) => if !(tc is Comma) {
                                        Step {
                                            r: Err(ErrorS::Unexpected(Expected::Token)),
                                            next: pos,
                                        }
                                    } else {
                                        let cond = consuming(stc.next, s.len() as int, sp_expr(s, stc.next, tbl));
                                        match cond.r {
                                            Err(e) => Step { r: Err(e), next: pos },
                                            Ok(condition) => {
                                                let sts = lex_step(s, cond.next);
                                                match sts.r {
                                                    Err(e) => Step { r: Err(e), next: pos },
                                                    Ok(ts) => {
                                                        let stp = if ts is Comma {
                                                            let se = consuming(sts.next, s.len() as int, sp_expr(s, sts.next, tbl));
                                                            match se.r {
                                                                Err(e) => Step {
                                                                    r: Err(e),
                                                                    next: pos,
                                                                },
                                                                Ok(x) => Step {
                                                                    r: Ok(Some(Box::new(x))),
                                                                    next: se.next,
                                                                },
                                                            }
                                                        } else {
                                                            Step { r: Ok(None), next: cond.next }
                                                        };
                                                        match stp.r {
                                                            Err(e) => Step {
                                                                r: Err(e),
                                                                next: pos,
                                                            },
                                                            Ok(step) => {
                                                                let sti = lex_step(s, stp.next);
                                                                match sti.r {
                                                                    Err(e) => Step {
                                                                        r: Err(e),
                                                                        next: pos,
                                                                    },
                                                                    Ok(ti) => if !(ti is In) {
                                                                        Step {
                                                                            r: Err(
                                                                                ErrorS::Unexpected(
                                                                                    Expected::Token,
                                                                                ),
                                                                            ),
                                                                            next: pos,
                                                                        }
                                                                    } else {
                                                                        let b = sp_expr(
                                                                            s,
                                                                            sti.next,
                                                                            tbl,
                                                                        );
                                                                        match b.r {
                                                                            Err(e) => Step {
                                                                                r: Err(e),
                                                                                next: pos,
                                                                            },
                                                                            Ok(body) => Step {
                                                                                r: Ok(
                                                                                    ExprS::For {
                                                                                        body:
                                                                                            Box::new(
                                                                                            body,
                                                                                        ),
                                                                                        variable_name:
                                                                                            name,
                                                                                        init_value:
                                                                                            Box::new(
                                                                                            init_value,
                                                                                        ),
                                                                                        condition:
                                                                                            Box::new(
                                                                                            condition,
                                                                                        ),
                                                                                        step: step,
                                                                                    },
                                                                                ),
                                                                                next: b.next,
                                                                            },
                                                                        }
                                                                    },
                                                                }
                                                            },
                                                        }
                                                    },
                                                }
                                            },
                                        }
                                    },
                                }
                            },
                        }
                    },
                }
            },
            _ => Step { r: Err(ErrorS::Unexpected(Expected::Identifier)), next: pos },
        },
    }
}

/// A parameter list: consecutive identifiers up to the first non-identifier
/// token (parameters are not comma-separated).
#[verifier::opaque]
pub open spec fn sp_parameters(s: Seq<u8>, pos: int) -> Step<Seq<Seq<u8>>>
    decreases rem(s, pos), 0int,
{
    {
        let len = s.len() as int;
        let raw =
        {
            let st = lex_step(s, pos);
            match st.r {
                Err(e) => Step { r: Err(e), next: pos },
                Ok(t) => match t {
                    TokenS::Identifier(w) => {
                        let rest = sp_parameters(s, st.next);
                        match rest.r {
                            Err(e) => Step { r: Err(e), next: pos },
                            Ok(ws) => Step { r: Ok(seq![w] + ws), next: rest.next },
                        }
                    },
                    _ => Step { r: Ok(Seq::empty()), next: pos },
                },
            }
        };
        bounded(pos, len, raw)
    }
}

/// A prototype-parsing step: the signature parsed (or the error met), the
/// position after it, and the precedence table, which a `binary` prototype
/// extends.
pub struct ProtoStep {
    pub r: Result<PrototypeS, ErrorS>,
    pub next: int,
    pub table: Map<BinaryOp, int>,
}

/// A definition- or toplevel-parsing step.
pub struct DefStep {
    pub r: Result<FunctionS, ErrorS>,
    pub next: int,
    pub table: Map<BinaryOp, int>,
}

/// The bytes of the name base `binary`.
pub open spec fn binary_base() -> Seq<u8> {
    seq![98u8, 105u8, 110u8, 97u8, 114u8, 121u8]
}

/// The bytes of the name base `unary`.
pub open spec fn unary_base() -> Seq<u8> {
    seq![117u8, 110u8, 97u8, 114u8, 121u8]
}

/// The decimal digits of a number, most significant first.
pub open spec fn dec_digits(n: int) -> Seq<u8>
    decreases n,
{
    if n < 10 {
        seq![(48 + if n < 0 { 0 } else { n }) as u8]
    } else {
        dec_digits(n / 10).push((48 + n % 10) as u8)
    }
}

/// The synthetic name of the nth anonymous toplevel function.
pub open spec fn anon_name(n: int) -> Seq<u8> {
    seq![95u8, 95u8, 97u8, 110u8, 111u8, 110u8, 95u8] + dec_digits(n)
}

/// The tail of a prototype: `(`, the parameters, `)`; on success the new
/// operator precedence, if any, is put into the table.  An error leaves the
/// step at `start`.
#[verifier::opaque]
pub open spec fn sp_proto_tail(
    s: Seq<u8>,
    pos: int,
    tbl: Map<BinaryOp, int>,
    name: Seq<u8>,
    reg: Option<(u8, int)>,
    start: int,
) -> ProtoStep {
    let st = lex_step(s, pos);
    match st.r {
        Err(e) => ProtoStep { r: Err(e), next: pos, table: tbl },
        Ok(t) => if !(t is OpenParen) {
            ProtoStep { r: Err(ErrorS::Unexpected(Expected::Token)), next: pos, table: tbl }
        } else {
            let ps = sp_parameters(s, st.next);
            match ps.r {
                Err(e) => ProtoStep { r: Err(e), next: pos, table: tbl },
                Ok(params) => {
                    let st2 = lex_step(s, ps.next);
                    match st2.r {
                        Err(e) => ProtoStep { r: Err(e), next: pos, table: tbl },
                        Ok(t2) => if t2 is CloseParen {
                            let table = match reg {
                                Some((c, p)) => tbl.insert(BinaryOp::Custom(c), p),
                                None => tbl,
                            };
                            ProtoStep {
                                r: Ok(PrototypeS { function_name: name, parameters: params }),
                                next: st2.next,
                                table,
                            }
                        } else {
                            ProtoStep {
                                r: Err(ErrorS::Unexpected(Expected::Token)),
                                next: pos,
                                table: tbl,
                            }
                        },
                    }
                },
            }
        },
    }
}

/// The operator part of a `binary` or `unary` prototype: the operator byte
/// (mangled into the name) and an optional precedence literal, then the
/// common tail.
#[verifier::opaque]
pub open spec fn sp_proto_op(
    s: Seq<u8>,
    pos: int,
    tbl: Map<BinaryOp, int>,
    base: Seq<u8>,
    is_binary: bool,
    start: int,
) -> ProtoStep {
    let st = lex_step(s, pos);
    match st.r {
        Err(e) => ProtoStep { r: Err(e), next: pos, table: tbl },
        Ok(t) => match op_char_of(t) {
            None => ProtoStep {
                r: Err(ErrorS::Unexpected(Expected::Operator)),
                next: pos,
                table: tbl,
            },
            Some(c) => {
                let name = base.push(c);
                let stn = lex_step(s, st.next);
                match stn.r {
                    Err(e) => ProtoStep { r: Err(e), next: pos, table: tbl },
                    Ok(tn) => match tn {
                        TokenS::Number(text) => sp_proto_tail(
                            s,
                            stn.next,
                            tbl,
                            name,
                            if is_binary {
                                Some((c, num_prec(text)))
                            } else {
                                None
                            },
                            start,
                        ),
                        _ => sp_proto_tail(
                            s,
                            st.next,
                            tbl,
                            name,
                            if is_binary {
                                Some((c, 30))
                            } else {
                                None
                            },
                            start,
                        ),
                    },
                }
            },
        },
    }
}

/// A prototype: a plain name, or `binary`/`unary` with an operator byte and
/// optional precedence, then the parenthesized parameter names.
#[verifier::opaque]
pub open spec fn sp_prototype(s: Seq<u8>, pos: int, tbl: Map<BinaryOp, int>) -> ProtoStep {
    let st = lex_step(s, pos);
    match st.r {
        Err(e) => ProtoStep { r: Err(e), next: pos, table: tbl },
        Ok(t) => match t {
            TokenS::Identifier(name) => sp_proto_tail(s, st.next, tbl, name, None, pos),
            TokenS::Binary => sp_proto_op(s, st.next, tbl, binary_base(), true, pos),
            TokenS::Unary => sp_proto_op(s, st.next, tbl, unary_base(), false, pos),
            _ => ProtoStep {
                r: Err(ErrorS::Unexpected(Expected::FunctionName)),
                next: pos,
                table: tbl,
            },
        },
    }
}

/// A `def`: the keyword, a prototype, then the body expression, parsed with
/// the table the prototype may just have extended.
#[verifier::opaque]
pub open spec fn sp_definition(s: Seq<u8>, pos: int, tbl: Map<BinaryOp, int>) -> DefStep {
    let st = lex_step(s, pos);
    match st.r {
        Err(e) => DefStep { r: Err(e), next: pos, table: tbl },
        Ok(t) => if !(t is Def) {
            DefStep { r: Err(ErrorS::Unexpected(Expected::Token)), next: pos, table: tbl }
        } else {
            let pr = sp_prototype(s, st.next, tbl);
            match pr.r {
                Err(e) => DefStep { r: Err(e), next: pos, table: pr.table },
                Ok(proto) => {
                    let b = sp_expr(s, pr.next, pr.table);
                    match b.r {
                        Err(e) => DefStep { r: Err(e), next: pos, table: pr.table },
                        Ok(body) => DefStep {
                            r: Ok(FunctionS { prototype: proto, body }),
                            next: b.next,
                            table: pr.table,
                        },
                    }
                },
            }
        },
    }
}

/// An `extern` declaration: the keyword, then a prototype.
#[verifier::opaque]
pub open spec fn sp_extern(s: Seq<u8>, pos: int, tbl: Map<BinaryOp, int>) -> ProtoStep {
    let st = lex_step(s, pos);
    match st.r {
        Err(e) => ProtoStep { r: Err(e), next: pos, table: tbl },
        Ok(t) => if !(t is Extern) {
            ProtoStep { r: Err(ErrorS::Unexpected(Expected::Token)), next: pos, table: tbl }
        } else {
            sp_prototype(s, st.next, tbl)
        },
    }
}

/// A bare toplevel expression, wrapped into a zero-parameter function under
/// the next synthetic name (`idx` is the count of anonymous functions made
/// so far; it saturates at the machine limit).
#[verifier::opaque]
pub open spec fn sp_toplevel(s: Seq<u8>, pos: int, tbl: Map<BinaryOp, int>, idx: int) -> DefStep {
    let b = sp_expr(s, pos, tbl);
    match b.r {
        Err(e) => DefStep { r: Err(e), next: pos, table: tbl },
        Ok(body) => DefStep {
            r: Ok(
                FunctionS {
                    prototype: PrototypeS {
                        function_name: anon_name(sat_inc(idx)),
                        parameters: Seq::empty(),
                    },
                    body,
                },
            ),
            next: b.next,
            table: tbl,
        },
    }
}

/// One more anonymous function, stopping at the machine limit.
pub open spec fn sat_inc(i: int) -> int {
    if i < usize::MAX {
        i + 1
    } else {
        i
    }
}

/// The precedence table a vector of pairs stands for: later entries win.
pub open spec fn assoc_map(v: Seq<(BinaryOp, i32)>) -> Map<BinaryOp, int>
    decreases v,
{
    if v.len() == 0 {
        Map::empty()
    } else {
        assoc_map(v.drop_last()).insert(v.last().0, v.last().1 as int)
    }
}

/// Appending a pair updates the table at its key.
pub proof fn lemma_assoc_map_push(v: Seq<(BinaryOp, i32)>, p: (BinaryOp, i32))
    ensures
        assoc_map(v.push(p)) == assoc_map(v).insert(p.0, p.1 as int),
{
    assert(v.push(p).drop_last() =~= v);
    assert(v.push(p).last() == p);
}

/// One identifier token, or the error met instead.
pub open spec fn sp_ident(s: Seq<u8>, pos: int) -> Step<Seq<u8>> {
    let st = lex_step(s, pos);
    match st.r {
        Err(e) => Step { r: Err(e), next: pos },
        Ok(t) => match t {
            TokenS::Identifier(w) => Step { r: Ok(w), next: st.next },
            _ => Step { r: Err(ErrorS::Unexpected(Expected::Identifier)), next: pos },
        },
    }
}

/// The tokens `eat` may be asked for: the payload-free kinds.
pub open spec fn simple_token(t: TokenS) -> bool {
    match t {
        TokenS::Def => true,
        TokenS::Extern => true,
        TokenS::If => true,
        TokenS::Then => true,
        TokenS::Else => true,
        TokenS::For => true,
        TokenS::In => true,
        TokenS::Var => true,
        TokenS::OpenParen => true,
        TokenS::CloseParen => true,
        TokenS::Comma => true,
        TokenS::SemiColon => true,
        TokenS::Equal => true,
        _ => false,
    }
}

/// The parser: a lexer, the table of binary-operator precedences, and the
/// counter naming anonymous toplevel functions.
pub struct Parser {
    bin_precedence: Vec<(BinaryOp, i32)>,
    index: usize,
    pub lexer: Lexer,
}

impl Parser {
    /// The whole source text.
    pub closed spec fn src(&self) -> Seq<u8> {
        self.lexer.src()
    }

    /// The position of the next token to be read.
    pub closed spec fn cur(&self) -> int {
        self.lexer.cur()
    }

    /// The precedence table as a map.
    pub closed spec fn table(&self) -> Map<BinaryOp, int> {
        assoc_map(self.bin_precedence@)
    }

    /// How many anonymous toplevel functions have been named so far.
    pub closed spec fn index(&self) -> int {
        self.index as int
    }

    /// The lexer's lookahead buffer is sound.
    pub closed spec fn wf(&self) -> bool {
        self.lexer.wf()
    }

    /// A fresh parser over the given lexer, with the builtin precedences.
    pub fn new(lexer: Lexer) -> (p: Parser)
        requires
            lexer.wf(),
        ensures
            p.wf(),
            p.src() == lexer.src(),
            p.cur() == lexer.cur(),
            p.table() == builtin_precedences(),
            p.index() == 0,
    {
        let mut bin_precedence: Vec<(BinaryOp, i32)> = Vec::new();
        bin_precedence.push((BinaryOp::Equal, 2));
        bin_precedence.push((BinaryOp::LessThan, 10));
        bin_precedence.push((BinaryOp::Plus, 20));
        bin_precedence.push((BinaryOp::Minus, 20));
        bin_precedence.push((BinaryOp::Times, 40));
        proof {
            let e = Seq::<(BinaryOp, i32)>::empty();
            let v1 = e.push((BinaryOp::Equal, 2i32));
            let v2 = v1.push((BinaryOp::LessThan, 10i32));
            let v3 = v2.push((BinaryOp::Plus, 20i32));
            let v4 = v3.push((BinaryOp::Minus, 20i32));
            let v5 = v4.push((BinaryOp::Times, 40i32));
            lemma_assoc_map_push(e, (BinaryOp::Equal, 2i32));
            lemma_assoc_map_push(v1, (BinaryOp::LessThan, 10i32));
            lemma_assoc_map_push(v2, (BinaryOp::Plus, 20i32));
            lemma_assoc_map_push(v3, (BinaryOp::Minus, 20i32));
            lemma_assoc_map_push(v4, (BinaryOp::Times, 40i32));
            assert(bin_precedence@ == v5);
            assert(assoc_map(v5) =~= builtin_precedences());
        }
        Parser { bin_precedence, index: 0, lexer }
    }

    /// The precedence registered for an operator, or the undefined-operator
    /// error if none ever was.
    fn precedence(&self, op: BinaryOp) -> (r: Result<i32, Error>)
        ensures
            match r {
                Ok(p) => self.table().contains_key(op) && p as int == self.table()[op],
                Err(e) => !self.table().contains_key(op) && e@ == ErrorS::UndefinedOperator,
            },
    {
        let ghost whole = self.bin_precedence@;
        let mut found: Option<i32> = None;
        let mut i: usize = 0;
        while i < self.bin_precedence.len()
            invariant
                i <= whole.len(),
                self.bin_precedence@ == whole,
                match found {
                    Some(p) => assoc_map(whole.subrange(0, i as int)).contains_key(op)
                        && p as int == assoc_map(whole.subrange(0, i as int))[op],
                    None => !assoc_map(whole.subrange(0, i as int)).contains_key(op),
                },
            decreases whole.len() - i,
        {
            let (k, v) = self.bin_precedence[i];
            proof {
                assert(whole.subrange(0, i + 1) =~= whole.subrange(0, i as int).push(whole[i as int]));
                lemma_assoc_map_push(whole.subrange(0, i as int), whole[i as int]);
            }
            if binop_eq(k, op) {
                found = Some(v);
            }
            i += 1;
        }
        proof {
            assert(whole.subrange(0, whole.len() as int) =~= whole);
        }
        match found {
            Some(p) => Ok(p),
            None => Err(Error::UndefinedOperator),
        }
    }

    /// Registers a precedence for an operator, shadowing any earlier entry.
    fn register_precedence(&mut self, op: BinaryOp, p: i32)
        ensures
            final(self).table() == old(self).table().insert(op, p as int),
            final(self).wf() == old(self).wf(),
            final(self).src() == old(self).src(),
            final(self).cur() == old(self).cur(),
            final(self).index() == old(self).index(),
    {
        proof {
            lemma_assoc_map_push(self.bin_precedence@, (op, p));
        }
        self.bin_precedence.push((op, p));
    }

    /// Peeks the next token and reads it as a binary operator, if it is one.
    fn binary_op(&mut self) -> (r: Result<Option<BinaryOp>, Error>)
        requires
            old(self).wf(),
        ensures
            final(self).wf(),
            final(self).src() == old(self).src(),
            final(self).cur() == old(self).cur(),
            final(self).table() == old(self).table(),
            final(self).index() == old(self).index(),
            match r {
                Ok(o) => lex_step(old(self).src(), old(self).cur()).r matches Ok(t) && o
                    == bin_op_of(t),
                Err(e) => lex_step(old(self).src(), old(self).cur()).r == Err::<TokenS, ErrorS>(e@),
            },
    {
        let t = self.lexer.peek()?;
        match t {
            Token::Equal => Ok(Some(BinaryOp::Equal)),
            Token::LessThan => Ok(Some(BinaryOp::LessThan)),
            Token::Minus => Ok(Some(BinaryOp::Minus)),
            Token::Plus => Ok(Some(BinaryOp::Plus)),
            Token::Star => Ok(Some(BinaryOp::Times)),
            token => match operator_token(&token) {
                Some(c) => Ok(Some(BinaryOp::Custom(c))),
                None => Ok(None),
            },
        }
    }

    /// Consumes one token and demands that it be the expected one.
    fn eat(&mut self, token: Token) -> (r: Result<(), Error>)
        requires
            old(self).wf(),
            simple_token(token@),
        ensures
            final(self).wf(),
            final(self).src() == old(self).src(),
            final(self).table() == old(self).table(),
            final(self).index() == old(self).index(),
            match r {
                Ok(_) => lex_step(old(self).src(), old(self).cur()).r == Ok::<TokenS, ErrorS>(
                    token@,
                ) && final(self).cur() == lex_step(old(self).src(), old(self).cur()).next,
                Err(e) => e@ == match lex_step(old(self).src(), old(self).cur()).r {
                    Err(le) => le,
                    Ok(_) => ErrorS::Unexpected(Expected::Token),
                } && lex_step(old(self).src(), old(self).cur()).r != Ok::<TokenS, ErrorS>(token@),
            },
    {
        let current_token = self.lexer.next_token()?;
        if !token_matches(&current_token, &token) {
            return Err(Error::Unexpected(Expected::Token));
        }
        Ok(())
    }

    /// Consumes one token and demands that it be an identifier.
    fn ident(&mut self) -> (r: Result<Vec<u8>, Error>)
        requires
            old(self).wf(),
        ensures
            final(self).wf(),
            final(self).src() == old(self).src(),
            final(self).table() == old(self).table(),
            final(self).index() == old(self).index(),
            ({
                let st = sp_ident(old(self).src(), old(self).cur());
                match r {
                    Ok(w) => st.r == Ok::<Seq<u8>, ErrorS>(w@) && final(self).cur() == st.next,
                    Err(e) => st.r == Err::<Seq<u8>, ErrorS>(e@),
                }
            }),
    {
        match self.lexer.next_token()? {
            Token::Identifier(ident) => Ok(ident),
            _ => Err(Error::Unexpected(Expected::Identifier)),
        }
    }
}

/// The operator byte a token stands for, if it is an operator token.
fn operator_token(token: &Token) -> (r: Option<u8>)
    ensures
        r == op_char_of(token@),
{
    match token {
        Token::LessThan => Some(60),
        Token::Minus => Some(45),
        Token::Plus => Some(43),
        Token::Star => Some(42),
        Token::Equal => Some(61),
        Token::Exclamation => Some(33),
        Token::GreaterThan => Some(62),
        Token::Pipe => Some(124),
        Token::Ampersand => Some(38),
        Token::Colon => Some(58),
        _ => None,
    }
}

/// Whether two operators are the same.
fn binop_eq(a: BinaryOp, b: BinaryOp) -> (r: bool)
    ensures
        r == (a == b),
{
    match (a, b) {
        (BinaryOp::Equal, BinaryOp::Equal) => true,
        (BinaryOp::LessThan, BinaryOp::LessThan) => true,
        (BinaryOp::Minus, BinaryOp::Minus) => true,
        (BinaryOp::Plus, BinaryOp::Plus) => true,
        (BinaryOp::Times, BinaryOp::Times) => true,
        (BinaryOp::Custom(x), BinaryOp::Custom(y)) => x == y,
        _ => false,
    }
}

/// Whether a token is the expected payload-free token.
fn token_matches(got: &Token, expected: &Token) -> (r: bool)
    requires
        simple_token(expected@),
    ensures
        r == (got@ == expected@),
{
    match (got, expected) {
        (Token::Def, Token::Def) => true,
        (Token::Extern, Token::Extern) => true,
        (Token::If, Token::If) => true,
        (Token::Then, Token::Then) => true,
        (Token::Else, Token::Else) => true,
        (Token::For, Token::For) => true,
        (Token::In, Token::In) => true,
        (Token::Var, Token::Var) => true,
        (Token::OpenParen, Token::OpenParen) => true,
        (Token::CloseParen, Token::CloseParen) => true,
        (Token::Comma, Token::Comma) => true,
        (Token::SemiColon, Token::SemiColon) => true,
        (Token::Equal, Token::Equal) => true,
        _ => false,
    }
}

impl Parser {
    /// The parameter names of a prototype: consecutive identifiers.
    #[verifier::rlimit(60)]
    fn parameters(&mut self) -> (r: Result<Vec<Vec<u8>>, Error>)
        requires
            old(self).wf(),
        ensures
            final(self).wf(),
            final(self).src() == old(self).src(),
            final(self).table() == old(self).table(),
            final(self).index() == old(self).index(),
            r is Ok ==> final(self).cur() >= old(self).cur() && final(self).cur() <= old(self).src().len(),
            ({
                let st = sp_parameters(old(self).src(), old(self).cur());
                match r {
                    Ok(ws) => st.r == Ok::<Seq<Seq<u8>>, ErrorS>(view_names(ws@))
                        && final(self).cur() == st.next,
                    Err(e) => st.r == Err::<Seq<Seq<u8>>, ErrorS>(e@),
                }
            }),
    {
        reveal(sp_parameters);
        let ghost s = self.src();
        let ghost cur0 = self.cur();
        let ghost tbl0 = self.table();
        let mut params: Vec<Vec<u8>> = Vec::new();
        proof {
            crate::lexer::lemma_cur_in_bounds(&self.lexer);
            assert(view_names(params@) =~= Seq::<Seq<u8>>::empty());
        }
        loop
            invariant
                self.wf(),
                s == old(self).src(),
                cur0 == old(self).cur(),
                tbl0 == old(self).table(),
                self.src() == s,
                self.table() == tbl0,
                self.index() == old(self).index(),
                cur0 <= self.cur() <= s.len(),
                ({
                    let st0 = sp_parameters(s, cur0);
                    let stc = sp_parameters(s, self.cur());
                    match stc.r {
                        Ok(ws) => st0.r == Ok::<Seq<Seq<u8>>, ErrorS>(view_names(params@) + ws)
                            && st0.next == stc.next,
                        Err(e) => st0.r == Err::<Seq<Seq<u8>>, ErrorS>(e),
                    }
                }),
            decreases rem(s, self.cur()),
        {
            reveal(sp_parameters);
            proof {
                crate::lexer::lemma_cur_in_bounds(&self.lexer);
            }
            let t = self.lexer.peek()?;
            match t {
                Token::Identifier(_) => {
                    let t2 = self.lexer.next_token()?;
                    match t2 {
                        Token::Identifier(w) => {
                            let ghost ws_pre = params@;
                            params.push(w);
                            proof {
                                lemma_view_names_push(ws_pre, params@.last());
                                let stc = sp_parameters(s, self.cur());
                                if stc.r is Ok {
                                    assert(view_names(ws_pre) + (seq![params@.last()@]
                                        + stc.r->Ok_0) =~= view_names(params@) + stc.r->Ok_0);
                                }
                            }
                        },
                        _ => {
                            return Err(Error::Unexpected(Expected::Identifier));
                        },
                    }
                },
                _ => {
                    proof {
                        assert(view_names(params@) + Seq::<Seq<u8>>::empty() =~= view_names(
                            params@,
                        ));
                    }
                    return Ok(params);
                },
            }
        }
    }
}

/// The bytes of the name base `binary`.
fn binary_base_bytes() -> (v: Vec<u8>)
    ensures
        v@ == binary_base(),
{
    let mut v: Vec<u8> = Vec::new();
    v.push(98);
    v.push(105);
    v.push(110);
    v.push(97);
    v.push(114);
    v.push(121);
    proof {
        assert(v@ =~= binary_base());
    }
    v
}

/// The bytes of the name base `unary`.
fn unary_base_bytes() -> (v: Vec<u8>)
    ensures
        v@ == unary_base(),
{
    let mut v: Vec<u8> = Vec::new();
    v.push(117);
    v.push(110);
    v.push(97);
    v.push(114);
    v.push(121);
    proof {
        assert(v@ =~= unary_base());
    }
    v
}

/// The decimal digits of a number, most significant first.
fn dec_bytes(n: usize) -> (v: Vec<u8>)
    ensures
        v@ == dec_digits(n as int),
    decreases n,
{
    if n < 10 {
        let mut v: Vec<u8> = Vec::new();
        v.push(48 + n as u8);
        proof {
            assert(v@ =~= dec_digits(n as int));
        }
        v
    } else {
        let mut v = dec_bytes(n / 10);
        v.push(48 + (n % 10) as u8);
        v
    }
}

/// The synthetic name of the nth anonymous toplevel function.
fn anon_name_bytes(n: usize) -> (v: Vec<u8>)
    ensures
        v@ == anon_name(n as int),
{
    let mut v: Vec<u8> = Vec::new();
    v.push(95);
    v.push(95);
    v.push(97);
    v.push(110);
    v.push(111);
    v.push(110);
    v.push(95);
    let digits = dec_bytes(n);
    let mut i: usize = 0;
    let ghost prefix = v@;
    while i < digits.len()
        invariant
            i <= digits@.len(),
            v@ == prefix + digits@.subrange(0, i as int),
        decreases digits@.len() - i,
    {
        v.push(digits[i]);
        i += 1;
        proof {
            assert(v@ =~= prefix + digits@.subrange(0, i as int));
        }
    }
    proof {
        assert(digits@.subrange(0, digits@.len() as int) =~= digits@);
        assert(prefix =~= seq![95u8, 95u8, 97u8, 110u8, 111u8, 110u8, 95u8]);
        assert(v@ =~= anon_name(n as int));
    }
    v
}

/// The value of a numeric literal's integer part, saturated to the largest
/// 32-bit value.
fn num_to_prec(text: &Vec<u8>) -> (p: i32)
    ensures
        p as int == num_prec(text@),
{
    let ghost s = text@;
    let mut acc: i64 = 0;
    let mut i: usize = 0;
    while i < text.len() && 48 <= text[i] && text[i] <= 57
        invariant
            0 <= i <= s.len(),
            text@ == s,
            crate::lexer::digits_end(s, 0) == crate::lexer::digits_end(s, i as int),
            forall|j: int| 0 <= j < i ==> crate::lexer::is_digit(#[trigger] s[j]),
            0 <= acc <= 2147483648,
            ({
                let v = digits_value(s.subrange(0, i as int));
                if v <= 2147483647 {
                    acc == v
                } else {
                    acc == 2147483648
                }
            }),
        decreases s.len() - i,
    {
        let d = text[i];
        proof {
            let pref = s.subrange(0, i as int);
            let pref2 = s.subrange(0, i + 1);
            assert(pref2 =~= pref.push(s[i as int]));
            assert(pref2.drop_last() =~= pref);
            lemma_digits_value_nonneg(pref);
        }
        acc = acc * 10 + (d - 48) as i64;
        if acc > 2147483647 {
            acc = 2147483648;
        }
        i += 1;
    }
    proof {
        assert(s.subrange(0, i as int) == s.subrange(0, crate::lexer::digits_end(s, 0)));
    }
    if acc > 2147483647 {
        2147483647
    } else {
        acc as i32
    }
}

impl Parser {
    /// A prototype: a plain name, or `binary`/`unary` with an operator byte
    /// and optional precedence literal, then the parenthesized parameters.
    /// A successful `binary` prototype registers its operator's precedence,
    /// before any body is parsed.
    #[verifier::rlimit(100)]
    pub fn prototype(&mut self) -> (r: Result<Prototype, Error>)
        requires
            old(self).wf(),
        ensures
            final(self).wf(),
            final(self).src() == old(self).src(),
            final(self).index() == old(self).index(),
            ({
                let st = sp_prototype(old(self).src(), old(self).cur(), old(self).table());
                &&& final(self).table() == st.table
                &&& match r {
                    Ok(p) => st.r == Ok::<PrototypeS, ErrorS>(p@) && final(self).cur() == st.next,
                    Err(e) => st.r == Err::<PrototypeS, ErrorS>(e@),
                }
            }),
    {
        reveal(sp_prototype);
        reveal(sp_proto_op);
        reveal(sp_proto_tail);
        let t = self.lexer.next_token()?;
        let (mut function_name, is_op, is_binary): (Vec<u8>, bool, bool) = match t {
            Token::Identifier(ident) => (ident, false, false),
            Token::Binary => (binary_base_bytes(), true, true),
            Token::Unary => (unary_base_bytes(), true, false),
            _ => {
                return Err(Error::Unexpected(Expected::FunctionName));
            },
        };
        let mut reg: Option<(u8, i32)> = None;
        if is_op {
            let pt = self.lexer.peek()?;
            let op = match operator_token(&pt) {
                Some(op) => {
                    let _ = self.lexer.next_token()?;
                    function_name.push(op);
                    op
                },
                None => {
                    return Err(Error::Unexpected(Expected::Operator));
                },
            };
            let pn = self.lexer.peek()?;
            let prec: i32 = match pn {
                Token::Number(text) => {
                    let _ = self.lexer.next_token()?;
                    num_to_prec(&text)
                },
                _ => 30,
            };
            if is_binary {
                reg = Some((op, prec));
            }
        }
        self.eat(Token::OpenParen)?;
        let parameters = self.parameters()?;
        self.eat(Token::CloseParen)?;
        if is_binary {
            match reg {
                Some((op, prec)) => {
                    self.register_precedence(BinaryOp::Custom(op), prec);
                },
                None => {},
            }
        }
        Ok(Prototype { function_name, parameters })
    }

    /// An `extern` declaration: the keyword, then a prototype.
    pub fn extern_(&mut self) -> (r: Result<Prototype, Error>)
        requires
            old(self).wf(),
        ensures
            final(self).wf(),
            final(self).src() == old(self).src(),
            final(self).index() == old(self).index(),
            ({
                let st = sp_extern(old(self).src(), old(self).cur(), old(self).table());
                &&& final(self).table() == st.table
                &&& match r {
                    Ok(p) => st.r == Ok::<PrototypeS, ErrorS>(p@) && final(self).cur() == st.next,
                    Err(e) => st.r == Err::<PrototypeS, ErrorS>(e@),
                }
            }),
    {
        reveal(sp_extern);
        self.eat(Token::Extern)?;
        self.prototype()
    }
}

/// Re-clamping an expression step changes nothing: the step already sits in
/// bounds.
pub proof fn lemma_absorb_expr(s: Seq<u8>, pos: int, tbl: Map<BinaryOp, int>)
    ensures
        consuming(pos, s.len() as int, sp_expr(s, pos, tbl)) == sp_expr(s, pos, tbl),
{
    reveal(sp_expr);
}

/// Re-clamping a unary step changes nothing.
pub proof fn lemma_absorb_unary(s: Seq<u8>, pos: int, tbl: Map<BinaryOp, int>)
    ensures
        consuming(pos, s.len() as int, sp_unary(s, pos, tbl)) == sp_unary(s, pos, tbl),
{
    reveal(sp_unary);
}

/// Re-clamping a binary-continuation step changes nothing.
pub proof fn lemma_absorb_binary_right(
    s: Seq<u8>,
    pos: int,
    tbl: Map<BinaryOp, int>,
    min_prec: int,
    left: ExprS,
)
    requires
        pos <= s.len(),
    ensures
        bounded(pos, s.len() as int, sp_binary_right(s, pos, tbl, min_prec, left))
            == sp_binary_right(s, pos, tbl, min_prec, left),
{
    reveal(sp_binary_right);
}

/// Re-clamping an argument-list step changes nothing.
pub proof fn lemma_absorb_args(s: Seq<u8>, pos: int, tbl: Map<BinaryOp, int>)
    ensures
        consuming(pos, s.len() as int, sp_args(s, pos, tbl)) == sp_args(s, pos, tbl),
{
    reveal(sp_args);
}

/// Re-clamping an argument-tail step changes nothing.
pub proof fn lemma_absorb_args_tail(s: Seq<u8>, pos: int, tbl: Map<BinaryOp, int>)
    requires
        pos <= s.len(),
    ensures
        bounded(pos, s.len() as int, sp_args_tail(s, pos, tbl)) == sp_args_tail(s, pos, tbl),
{
    reveal(sp_args_tail);
}

/// Re-clamping a declaration-list step changes nothing.
pub proof fn lemma_absorb_var_decls(s: Seq<u8>, pos: int, tbl: Map<BinaryOp, int>)
    ensures
        consuming(pos, s.len() as int, sp_var_decls(s, pos, tbl)) == sp_var_decls(s, pos, tbl),
{
    reveal(sp_var_decls);
}

impl Parser {
    /// A full expression.
    #[verifier::rlimit(100)]
    #[verifier::spinoff_prover]
    fn expr(&mut self) -> (r: Result<Expr, Error>)
        requires
            old(self).wf(),
        ensures
            final(self).wf(),
            final(self).src() == old(self).src(),
            final(self).table() == old(self).table(),
            final(self).index() == old(self).index(),
            r is Ok ==> final(self).cur() > old(self).cur() && final(self).cur() <= old(self).src().len(),
            ({
                let st = sp_expr(old(self).src(), old(self).cur(), old(self).table());
                match r {
                    Ok(v) => st.r == Ok::<ExprS, ErrorS>(v@) && final(self).cur() == st.next,
                    Err(e) => st.r == Err::<ExprS, ErrorS>(e@),
                }
            }),
        decreases rem(self.src(), self.cur()), 4int,
    {
        reveal_with_fuel(sp_expr, 2);
        let ghost s = self.src();
        let ghost tbl = self.table();
        proof {
            crate::lexer::lemma_cur_in_bounds(&self.lexer);
            lemma_absorb_unary(s, self.cur(), tbl);
        }
        let left = self.unary()?;
        proof {
            crate::lexer::lemma_cur_in_bounds(&self.lexer);
            lemma_absorb_binary_right(s, self.cur(), tbl, 0, left@);
        }
        self.binary_right(0, left)
    }

    /// A unary prefix, or a primary.
    #[verifier::rlimit(100)]
    #[verifier::spinoff_prover]
    fn unary(&mut self) -> (r: Result<Expr, Error>)
        requires
            old(self).wf(),
        ensures
            final(self).wf(),
            final(self).src() == old(self).src(),
            final(self).table() == old(self).table(),
            final(self).index() == old(self).index(),
            r is Ok ==> final(self).cur() > old(self).cur() && final(self).cur() <= old(self).src().len(),
            ({
                let st = sp_unary(old(self).src(), old(self).cur(), old(self).table());
                match r {
                    Ok(v) => st.r == Ok::<ExprS, ErrorS>(v@) && final(self).cur() == st.next,
                    Err(e) => st.r == Err::<ExprS, ErrorS>(e@),
                }
            }),
        decreases rem(self.src(), self.cur()), 2int,
    {
        reveal_with_fuel(sp_unary, 2);
        reveal(sp_expr);
        reveal(sp_primary);
        proof {
            crate::lexer::lemma_cur_in_bounds(&self.lexer);
        }
        let t = self.lexer.peek()?;
        match operator_token(&t) {
            Some(op) => {
                let _ = self.lexer.next_token()?;
                proof {
                    crate::lexer::lemma_cur_in_bounds(&self.lexer);
                }
                let operand = self.expr()?;
                Ok(Expr::Unary(op, Box::new(operand)))
            },
            None => self.primary(),
        }
    }

    /// The binary continuation of an expression.
    #[verifier::rlimit(100)]
    #[verifier::spinoff_prover]
    fn binary_right(&mut self, expr_precedence: i64, left: Expr) -> (r: Result<Expr, Error>)
        requires
            old(self).wf(),
        ensures
            final(self).wf(),
            final(self).src() == old(self).src(),
            final(self).table() == old(self).table(),
            final(self).index() == old(self).index(),
            r is Ok ==> final(self).cur() >= old(self).cur() && final(self).cur() <= old(self).src().len(),
            ({
                let st = sp_binary_right(
                    old(self).src(),
                    old(self).cur(),
                    old(self).table(),
                    expr_precedence as int,
                    left@,
                );
                match r {
                    Ok(v) => st.r == Ok::<ExprS, ErrorS>(v@) && final(self).cur() == st.next,
                    Err(e) => st.r == Err::<ExprS, ErrorS>(e@),
                }
            }),
        decreases rem(self.src(), self.cur()), 3int,
    {
        reveal_with_fuel(sp_binary_right, 2);
        let ghost s = self.src();
        let ghost cur0 = self.cur();
        let ghost tbl = self.table();
        proof {
            crate::lexer::lemma_cur_in_bounds(&self.lexer);
        }
        match self.binary_op()? {
            Some(op) => {
                let token_precedence = self.precedence(op)?;
                if (token_precedence as i64) < expr_precedence {
                    Ok(left)
                } else {
                    let _ = self.lexer.next_token()?;
                    proof {
                        crate::lexer::lemma_cur_in_bounds(&self.lexer);
                        lemma_absorb_unary(s, self.cur(), tbl);
                    }
                    let right = self.unary()?;
                    proof {
                        crate::lexer::lemma_cur_in_bounds(&self.lexer);
                    }
                    let right = match self.binary_op()? {
                        Some(op2) => {
                            let next_precedence = self.precedence(op2)?;
                            if token_precedence < next_precedence {
                                proof {
                                    lemma_absorb_binary_right(
                                        s,
                                        self.cur(),
                                        tbl,
                                        token_precedence as int + 1,
                                        right@,
                                    );
                                }
                                self.binary_right(token_precedence as i64 + 1, right)?
                            } else {
                                right
                            }
                        },
                        None => right,
                    };
                    let left = Expr::Binary(op, Box::new(left), Box::new(right));
                    proof {
                        crate::lexer::lemma_cur_in_bounds(&self.lexer);
                        lemma_absorb_binary_right(s, self.cur(), tbl, expr_precedence as int, left@);
                    }
                    self.binary_right(expr_precedence, left)
                }
            },
            None => Ok(left),
        }
    }

    /// A bare name or a call of it.
    #[verifier::rlimit(100)]
    #[verifier::spinoff_prover]
    fn ident_expr(&mut self) -> (r: Result<Expr, Error>)
        requires
            old(self).wf(),
        ensures
            final(self).wf(),
            final(self).src() == old(self).src(),
            final(self).table() == old(self).table(),
            final(self).index() == old(self).index(),
            r is Ok ==> final(self).cur() > old(self).cur() && final(self).cur() <= old(self).src().len(),
            ({
                let st = sp_ident_expr(old(self).src(), old(self).cur(), old(self).table());
                match r {
                    Ok(v) => st.r == Ok::<ExprS, ErrorS>(v@) && final(self).cur() == st.next,
                    Err(e) => st.r == Err::<ExprS, ErrorS>(e@),
                }
            }),
        decreases rem(self.src(), self.cur()), 0int,
    {
        reveal(sp_ident_expr);
        proof {
            crate::lexer::lemma_cur_in_bounds(&self.lexer);
        }
        let name = self.ident()?;
        proof {
            crate::lexer::lemma_cur_in_bounds(&self.lexer);
        }
        let t = self.lexer.peek()?;
        match t {
            Token::OpenParen => {
                self.eat(Token::OpenParen)?;
                self.call_rest(name)
            },
            _ => Ok(Expr::Variable(name)),
        }
    }

    /// The tail of a call, after the callee's name and `(`.
    #[verifier::rlimit(100)]
    #[verifier::spinoff_prover]
    fn call_rest(&mut self, name: Vec<u8>) -> (r: Result<Expr, Error>)
        requires
            old(self).wf(),
        ensures
            final(self).wf(),
            final(self).src() == old(self).src(),
            final(self).table() == old(self).table(),
            final(self).index() == old(self).index(),
            r is Ok ==> final(self).cur() > old(self).cur() && final(self).cur() <= old(self).src().len(),
            ({
                let st = sp_call_rest(old(self).src(), old(self).cur(), old(self).table(), name@);
                match r {
                    Ok(v) => st.r == Ok::<ExprS, ErrorS>(v@) && final(self).cur() == st.next,
                    Err(e) => st.r == Err::<ExprS, ErrorS>(e@),
                }
            }),
        decreases rem(self.src(), self.cur()), 6int,
    {
        reveal_with_fuel(sp_call_rest, 2);
        let ghost s = self.src();
        let ghost tbl = self.table();
        proof {
            crate::lexer::lemma_cur_in_bounds(&self.lexer);
            lemma_absorb_args(s, self.cur(), tbl);
        }
        let args = self.args()?;
        self.eat(Token::CloseParen)?;
        Ok(Expr::Call(name, args))
    }

    /// Call arguments: expressions separated by commas.
    #[verifier::rlimit(100)]
    #[verifier::spinoff_prover]
    fn args(&mut self) -> (r: Result<Vec<Expr>, Error>)
        requires
            old(self).wf(),
        ensures
            final(self).wf(),
            final(self).src() == old(self).src(),
            final(self).table() == old(self).table(),
            final(self).index() == old(self).index(),
            r is Ok ==> final(self).cur() > old(self).cur() && final(self).cur() <= old(self).src().len(),
            ({
                let st = sp_args(old(self).src(), old(self).cur(), old(self).table());
                match r {
                    Ok(v) => st.r == Ok::<Seq<ExprS>, ErrorS>(view_exprs(v@)) && final(self).cur() == st.next,
                    Err(e) => st.r == Err::<Seq<ExprS>, ErrorS>(e@),
                }
            }),
        decreases rem(self.src(), self.cur()), 5int,
    {
        reveal_with_fuel(sp_args, 2);
        reveal(sp_expr);
        reveal(sp_args_tail);
        let ghost s = self.src();
        let ghost cur0 = self.cur();
        let ghost tbl = self.table();
        proof {
            crate::lexer::lemma_cur_in_bounds(&self.lexer);
            lemma_absorb_expr(s, cur0, tbl);
        }
        let first = self.expr()?;
        let mut args_v: Vec<Expr> = Vec::new();
        args_v.push(first);
        proof {
            crate::lexer::lemma_cur_in_bounds(&self.lexer);
            lemma_absorb_args_tail(s, self.cur(), tbl);
            assert(args_v@.drop_last() =~= Seq::<Expr>::empty());
            assert(view_exprs(args_v@) =~= seq![args_v@[0]@]) by {
                reveal_with_fuel(view_exprs, 2);
            }
        }
        loop
            invariant
                self.wf(),
                s == old(self).src(),
                cur0 == old(self).cur(),
                tbl == old(self).table(),
                self.src() == s,
                self.table() == tbl,
                self.index() == old(self).index(),
                cur0 < self.cur() <= s.len(),
                args_v@.len() >= 1,
                ({
                    let st0 = sp_args(s, cur0, tbl);
                    let stc = sp_args_tail(s, self.cur(), tbl);
                    match stc.r {
                        Ok(es) => st0.r == Ok::<Seq<ExprS>, ErrorS>(view_exprs(args_v@) + es)
                            && st0.next == stc.next,
                        Err(e) => st0.r == Err::<Seq<ExprS>, ErrorS>(e),
                    }
                }),
            decreases rem(s, self.cur()), 5int,
        {
            reveal_with_fuel(sp_args_tail, 2);
            reveal(sp_args);
            reveal(sp_expr);
            proof {
                crate::lexer::lemma_cur_in_bounds(&self.lexer);
            }
            let t = self.lexer.peek()?;
            match t {
                Token::Comma => {
                    let ghost cur_it = self.cur();
                    self.eat(Token::Comma)?;
                    proof {
                        crate::lexer::lemma_cur_in_bounds(&self.lexer);
                        lemma_absorb_expr(s, self.cur(), tbl);
                        assert(crate::lexer::skip_blanks(s, cur_it, false) <= s.len());
                        assert(self.cur() > cur_it);
                    }
                    let arg = self.expr()?;
                    let ghost pre = args_v@;
                    args_v.push(arg);
                    proof {
                        crate::lexer::lemma_cur_in_bounds(&self.lexer);
                        lemma_absorb_args_tail(s, self.cur(), tbl);
                        lemma_view_exprs_push(pre, args_v@.last());
                        let stc = sp_args_tail(s, self.cur(), tbl);
                        if stc.r is Ok {
                            assert(view_exprs(pre) + (seq![args_v@.last()@] + stc.r->Ok_0)
                                =~= view_exprs(args_v@) + stc.r->Ok_0);
                        }
                    }
                },
                _ => {
                    proof {
                        assert(view_exprs(args_v@) + Seq::<ExprS>::empty() =~= view_exprs(
                            args_v@,
                        ));
                    }
                    return Ok(args_v);
                },
            }
        }
    }
}

impl Parser {
    /// A primary expression: a literal, a parenthesized expression, a name
    /// or call, or an `if`, `for` or `var` construct.
    #[verifier::rlimit(100)]
    #[verifier::spinoff_prover]
    fn primary(&mut self) -> (r: Result<Expr, Error>)
        requires
            old(self).wf(),
        ensures
            final(self).wf(),
            final(self).src() == old(self).src(),
            final(self).table() == old(self).table(),
            final(self).index() == old(self).index(),
            r is Ok ==> final(self).cur() > old(self).cur() && final(self).cur() <= old(self).src().len(),
            ({
                let st = sp_primary(old(self).src(), old(self).cur(), old(self).table());
                match r {
                    Ok(v) => st.r == Ok::<ExprS, ErrorS>(v@) && final(self).cur() == st.next,
                    Err(e) => st.r == Err::<ExprS, ErrorS>(e@),
                }
            }),
        decreases rem(self.src(), self.cur()), 1int,
    {
        reveal_with_fuel(sp_primary, 2);
        let ghost s = self.src();
        let ghost cur0 = self.cur();
        let ghost tbl = self.table();
        proof {
            crate::lexer::lemma_cur_in_bounds(&self.lexer);
        }
        let t = self.lexer.peek()?;
        match t {
            Token::Number(_) => {
                let t2 = self.lexer.next_token()?;
                match t2 {
                    Token::Number(text) => Ok(Expr::Number(text)),
                    _ => Err(Error::Unexpected(Expected::Expression)),
                }
            },
            Token::OpenParen => {
                self.eat(Token::OpenParen)?;
                self.paren_expression()
            },
            Token::Identifier(_) => self.ident_expr(),
            Token::If => {
                self.eat(Token::If)?;
                self.if_expression()
            },
            Token::For => {
                self.eat(Token::For)?;
                self.for_expression()
            },
            Token::Var => {
                self.eat(Token::Var)?;
                self.var_expression()
            },
            _ => Err(Error::Unexpected(Expected::Expression)),
        }
    }


    /// The rest of a parenthesized expression, after `(`.
    #[verifier::rlimit(100)]
    #[verifier::spinoff_prover]
    fn paren_expression(&mut self) -> (r: Result<Expr, Error>)
        requires
            old(self).wf(),
        ensures
            final(self).wf(),
            final(self).src() == old(self).src(),
            final(self).table() == old(self).table(),
            final(self).index() == old(self).index(),
            r is Ok ==> final(self).cur() > old(self).cur() && final(self).cur() <= old(self).src().len(),
            ({
                let st = sp_paren_rest(old(self).src(), old(self).cur(), old(self).table());
                match r {
                    Ok(v) => st.r == Ok::<ExprS, ErrorS>(v@) && final(self).cur() == st.next,
                    Err(e) => st.r == Err::<ExprS, ErrorS>(e@),
                }
            }),
        decreases rem(self.src(), self.cur()), 5int,
    {
        reveal_with_fuel(sp_paren_rest, 2);
        let ghost s = self.src();
        let ghost tbl = self.table();
        proof {
            crate::lexer::lemma_cur_in_bounds(&self.lexer);
            lemma_absorb_expr(s, self.cur(), tbl);
        }
        let expr = self.expr()?;
        self.eat(Token::CloseParen)?;
        Ok(expr)
    }

    /// The rest of an `if` construct, after its keyword.
    #[verifier::rlimit(100)]
    #[verifier::spinoff_prover]
    fn if_expression(&mut self) -> (r: Result<Expr, Error>)
        requires
            old(self).wf(),
        ensures
            final(self).wf(),
            final(self).src() == old(self).src(),
            final(self).table() == old(self).table(),
            final(self).index() == old(self).index(),
            r is Ok ==> final(self).cur() > old(self).cur() && final(self).cur() <= old(self).src().len(),
            ({
                let st = sp_if_rest(old(self).src(), old(self).cur(), old(self).table());
                match r {
                    Ok(v) => st.r == Ok::<ExprS, ErrorS>(v@) && final(self).cur() == st.next,
                    Err(e) => st.r == Err::<ExprS, ErrorS>(e@),
                }
            }),
        decreases rem(self.src(), self.cur()), 5int,
    {
        reveal_with_fuel(sp_if_rest, 2);
        let ghost s = self.src();
        let ghost tbl = self.table();
        proof {
            crate::lexer::lemma_cur_in_bounds(&self.lexer);
            lemma_absorb_expr(s, self.cur(), tbl);
        }
        let condition = Box::new(self.expr()?);
        self.eat(Token::Then)?;
        proof {
            crate::lexer::lemma_cur_in_bounds(&self.lexer);
            lemma_absorb_expr(s, self.cur(), tbl);
        }
        let then = Box::new(self.expr()?);
        self.eat(Token::Else)?;
        proof {
            crate::lexer::lemma_cur_in_bounds(&self.lexer);
        }
        let else_ = Box::new(self.expr()?);
        Ok(Expr::If { condition, then, else_ })
    }

    /// The rest of a `var` construct, after its keyword.
    #[verifier::rlimit(100)]
    #[verifier::spinoff_prover]
    fn var_expression(&mut self) -> (r: Result<Expr, Error>)
        requires
            old(self).wf(),
        ensures
            final(self).wf(),
            final(self).src() == old(self).src(),
            final(self).table() == old(self).table(),
            final(self).index() == old(self).index(),
            r is Ok ==> final(self).cur() > old(self).cur() && final(self).cur() <= old(self).src().len(),
            ({
                let st = sp_var_rest(old(self).src(), old(self).cur(), old(self).table());
                match r {
                    Ok(v) => st.r == Ok::<ExprS, ErrorS>(v@) && final(self).cur() == st.next,
                    Err(e) => st.r == Err::<ExprS, ErrorS>(e@),
                }
            }),
        decreases rem(self.src(), self.cur()), 6int,
    {
        reveal_with_fuel(sp_var_rest, 2);
        let ghost s = self.src();
        let ghost tbl = self.table();
        proof {
            crate::lexer::lemma_cur_in_bounds(&self.lexer);
            lemma_absorb_var_decls(s, self.cur(), tbl);
        }
        let declarations = self.var_declarations()?;
        self.eat(Token::In)?;
        proof {
            crate::lexer::lemma_cur_in_bounds(&self.lexer);
        }
        let body = Box::new(self.expr()?);
        Ok(Expr::VariableDeclaration { declarations, body })
    }

    /// The rest of a `for` construct, after its keyword.
    #[verifier::rlimit(100)]
    #[verifier::spinoff_prover]
    fn for_expression(&mut self) -> (r: Result<Expr, Error>)
        requires
            old(self).wf(),
        ensures
            final(self).wf(),
            final(self).src() == old(self).src(),
            final(self).table() == old(self).table(),
            final(self).index() == old(self).index(),
            r is Ok ==> final(self).cur() > old(self).cur() && final(self).cur() <= old(self).src().len(),
            ({
                let st = sp_for_rest(old(self).src(), old(self).cur(), old(self).table());
                match r {
                    Ok(v) => st.r == Ok::<ExprS, ErrorS>(v@) && final(self).cur() == st.next,
                    Err(e) => st.r == Err::<ExprS, ErrorS>(e@),
                }
            }),
        decreases rem(self.src(), self.cur()), 0int,
    {
        reveal_with_fuel(sp_for_rest, 2);
        let ghost s = self.src();
        let ghost tbl = self.table();
        let variable_name = self.ident()?;
        self.eat(Token::Equal)?;
        proof {
            crate::lexer::lemma_cur_in_bounds(&self.lexer);
            lemma_absorb_expr(s, self.cur(), tbl);
        }
        let init_value = Box::new(self.expr()?);
        self.eat(Token::Comma)?;
        proof {
            crate::lexer::lemma_cur_in_bounds(&self.lexer);
            lemma_absorb_expr(s, self.cur(), tbl);
        }
        let condition = Box::new(self.expr()?);
        proof {
            crate::lexer::lemma_cur_in_bounds(&self.lexer);
        }
        let pt = self.lexer.peek()?;
        let step = match pt {
            Token::Comma => {
                let _ = self.lexer.next_token()?;
                proof {
                    crate::lexer::lemma_cur_in_bounds(&self.lexer);
                    lemma_absorb_expr(s, self.cur(), tbl);
                }
                Some(Box::new(self.expr()?))
            },
            _ => None,
        };
        self.eat(Token::In)?;
        proof {
            crate::lexer::lemma_cur_in_bounds(&self.lexer);
        }
        let body = Box::new(self.expr()?);
        Ok(Expr::For { body, variable_name, init_value, condition, step })
    }

    /// The declarations of a `var` construct.
    #[verifier::rlimit(100)]
    #[verifier::spinoff_prover]
    fn var_declarations(&mut self) -> (r: Result<Vec<Declaration>, Error>)
        requires
            old(self).wf(),
        ensures
            final(self).wf(),
            final(self).src() == old(self).src(),
            final(self).table() == old(self).table(),
            final(self).index() == old(self).index(),
            r is Ok ==> final(self).cur() > old(self).cur() && final(self).cur() <= old(self).src().len(),
            ({
                let st = sp_var_decls(old(self).src(), old(self).cur(), old(self).table());
                match r {
                    Ok(v) => st.r == Ok::<Seq<DeclarationS>, ErrorS>(view_decls(v@)) && final(self).cur() == st.next,
                    Err(e) => st.r == Err::<Seq<DeclarationS>, ErrorS>(e@),
                }
            }),
        decreases rem(self.src(), self.cur()), 5int,
    {
        reveal_with_fuel(sp_var_decls, 2);
        let ghost s = self.src();
        let ghost cur0 = self.cur();
        let ghost tbl = self.table();
        let mut declarations: Vec<Declaration> = Vec::new();
        proof {
            crate::lexer::lemma_cur_in_bounds(&self.lexer);
            assert(view_decls(declarations@) =~= Seq::<DeclarationS>::empty());
        }
        loop
            invariant
                self.wf(),
                s == old(self).src(),
                cur0 == old(self).cur(),
                tbl == old(self).table(),
                self.src() == s,
                self.table() == tbl,
                self.index() == old(self).index(),
                cur0 <= self.cur() <= s.len(),
                ({
                    let st0 = sp_var_decls(s, cur0, tbl);
                    let stc = sp_var_decls(s, self.cur(), tbl);
                    match stc.r {
                        Ok(ds) => st0.r == Ok::<Seq<DeclarationS>, ErrorS>(view_decls(
                            declarations@,
                        ) + ds) && st0.next == stc.next,
                        Err(e) => st0.r == Err::<Seq<DeclarationS>, ErrorS>(e),
                    }
                }),
            decreases rem(s, self.cur()), 5int,
        {
            reveal_with_fuel(sp_var_decls, 2);
            proof {
                crate::lexer::lemma_cur_in_bounds(&self.lexer);
            }
            let name = self.ident()?;
            proof {
                crate::lexer::lemma_cur_in_bounds(&self.lexer);
            }
            let pt = self.lexer.peek()?;
            let init_value = match pt {
                Token::Equal => {
                    self.eat(Token::Equal)?;
                    proof {
                        crate::lexer::lemma_cur_in_bounds(&self.lexer);
                        lemma_absorb_expr(s, self.cur(), tbl);
                    }
                    Some(Box::new(self.expr()?))
                },
                _ => None,
            };
            let ghost pre = declarations@;
            declarations.push(Declaration { name, init_value });
            proof {
                lemma_view_decls_push(pre, declarations@.last());
            }
            proof {
                crate::lexer::lemma_cur_in_bounds(&self.lexer);
            }
            let pt2 = self.lexer.peek()?;
            match pt2 {
                Token::Comma => {
                    self.eat(Token::Comma)?;
                    proof {
                        crate::lexer::lemma_cur_in_bounds(&self.lexer);
                        lemma_absorb_var_decls(s, self.cur(), tbl);
                        let stc = sp_var_decls(s, self.cur(), tbl);
                        if stc.r is Ok {
                            assert(view_decls(pre) + (seq![declarations@.last()@] + stc.r->Ok_0)
                                =~= view_decls(declarations@) + stc.r->Ok_0);
                        }
                    }
                },
                _ => {
                    proof {
                        assert(view_decls(pre) + seq![declarations@.last()@] =~= view_decls(
                            declarations@,
                        ));
                        assert(view_decls(declarations@) + Seq::<DeclarationS>::empty()
                            =~= view_decls(declarations@));
                    }
                    return Ok(declarations);
                },
            }
        }
    }
}

impl Parser {
    /// A `def`: the keyword, a prototype, then one body expression.  A
    /// `binary` prototype registers its operator's precedence before the
    /// body is parsed, so the body may already use the new operator.
    #[verifier::rlimit(100)]
    pub fn definition(&mut self) -> (r: Result<Function, Error>)
        requires
            old(self).wf(),
        ensures
            final(self).wf(),
            final(self).src() == old(self).src(),
            final(self).index() == old(self).index(),
            r is Ok ==> final(self).cur() <= old(self).src().len(),
            ({
                let st = sp_definition(old(self).src(), old(self).cur(), old(self).table());
                &&& final(self).table() == st.table
                &&& match r {
                    Ok(f) => st.r == Ok::<FunctionS, ErrorS>(f@) && final(self).cur() == st.next,
                    Err(e) => st.r == Err::<FunctionS, ErrorS>(e@),
                }
            }),
    {
        reveal(sp_definition);
        self.eat(Token::Def)?;
        let prototype = self.prototype()?;
        let body = self.expr()?;
        Ok(Function { prototype, body })
    }

    /// A bare toplevel expression, wrapped into a synthetic zero-parameter
    /// function whose name comes from the parser's anonymous counter, so
    /// that repeated toplevel expressions get distinct names.
    #[verifier::rlimit(100)]
    pub fn toplevel(&mut self) -> (r: Result<Function, Error>)
        requires
            old(self).wf(),
        ensures
            final(self).wf(),
            final(self).src() == old(self).src(),
            final(self).table() == old(self).table(),
            ({
                let st = sp_toplevel(
                    old(self).src(),
                    old(self).cur(),
                    old(self).table(),
                    old(self).index(),
                );
                match r {
                    Ok(f) => {
                        &&& st.r == Ok::<FunctionS, ErrorS>(f@)
                        &&& final(self).cur() == st.next
                        &&& final(self).index() == sat_inc(old(self).index())
                    },
                    Err(e) => st.r == Err::<FunctionS, ErrorS>(e@) && final(self).index() == old(
                        self,
                    ).index(),
                }
            }),
    {
        reveal(sp_toplevel);
        let body = self.expr()?;
        if self.index < usize::MAX {
            self.index = self.index + 1;
        }
        let function_name = anon_name_bytes(self.index);
        let prototype = Prototype { function_name, parameters: Vec::new() };
        proof {
            assert(view_names(prototype.parameters@) =~= Seq::<Seq<u8>>::empty());
        }
        Ok(Function { prototype, body })
    }
}

} // verus!
