//! The grammar, written down as mathematics.
//!
//! Every parsing operation of [`crate::parser`] is specified here by a spec
//! function over the token values. Each one takes the whole token sequence and
//! the position of the first token it may read, and yields a [`PartView`]: the
//! parsed value with the position right after the last token consumed, or the
//! signal that the tokens ran out before the construct could be judged, or a
//! syntax failure. A failure aborts the whole parse; running out of tokens
//! consumes nothing, so a caller can supply more tokens and try again.

use vstd::prelude::*;
use crate::tokens::{TokenView, one_value};
use crate::ast::{ExprView, FnTypeView, NodeView, ProtoView};

verus! {

/// The outcome of one parsing operation, at the level of values.
#[verifier::ext_equal]
pub enum PartView<T> {
    /// The construct was parsed: its value, and the position right after the
    /// tokens it consumed.
    Good(T, int),
    /// The tokens ran out before the construct was complete or malformed.
    /// Nothing counts as consumed.
    NotComplete,
    /// The tokens cannot form the construct.
    Bad,
}

/// Clamps the position a sub-parse returned to the open-closed interval
/// `(from, len]`. Every parsing operation only moves forward and stays within
/// the input, so the clamp never changes a position a sub-parse actually
/// returned; it only makes the termination of the definitions below evident
/// from their text alone.
pub open spec fn step_pos(from: int, to: int, len: int) -> int {
    if from < to && to <= len {
        to
    } else {
        from + 1
    }
}

/// Whether the token at `pos` is an operator that the table knows at
/// `min_prec` or above: exactly then does precedence climbing consume tokens.
pub open spec fn takes_op(t: Seq<TokenView>, pos: int, tbl: Map<Seq<char>, int>, min_prec: int) -> bool {
    &&& 0 <= pos < t.len()
    &&& t[pos] matches TokenView::Operator(op) && tbl.contains_key(op) && tbl[op] >= min_prec
}

/// A literal expression: one number token.
pub open spec fn sp_literal(t: Seq<TokenView>, pos: int) -> PartView<ExprView> {
    if pos >= t.len() {
        PartView::NotComplete
    } else {
        match t[pos] {
            TokenView::Number(value) => PartView::Good(ExprView::LiteralExpr(value), pos + 1),
            _ => PartView::Bad,
        }
    }
}

/// A variable reference or a call: an identifier, and, if an opening
/// parenthesis follows directly, the call's argument list.
pub open spec fn sp_ident_expr(t: Seq<TokenView>, pos: int, tbl: Map<Seq<char>, int>) -> PartView<
    ExprView,
>
    decreases t.len() - pos, 1int,
{
    if pos >= t.len() {
        PartView::NotComplete
    } else {
        match t[pos] {
            TokenView::Ident(name) => {
                if pos + 1 < t.len() && t[pos + 1] is OpeningParenthesis {
                    match sp_call_args(t, pos + 2, tbl, Seq::empty()) {
                        PartView::Good(args, q) => PartView::Good(
                            ExprView::CallExpr(name, args),
                            q,
                        ),
                        PartView::NotComplete => PartView::NotComplete,
                        PartView::Bad => PartView::Bad,
                    }
                } else {
                    PartView::Good(ExprView::VariableExpr(name), pos + 1)
                }
            },
            _ => PartView::Bad,
        }
    }
}

/// The arguments of a call, read until the closing parenthesis. A comma
/// between arguments is consumed and ignored; anything else starts the next
/// argument expression.
pub open spec fn sp_call_args(
    t: Seq<TokenView>,
    pos: int,
    tbl: Map<Seq<char>, int>,
    acc: Seq<ExprView>,
) -> PartView<Seq<ExprView>>
    decreases t.len() - pos, 4int,
{
    if pos >= t.len() {
        PartView::NotComplete
    } else {
        match t[pos] {
            TokenView::ClosingParenthesis => PartView::Good(acc, pos + 1),
            TokenView::Comma => sp_call_args(t, pos + 1, tbl, acc),
            _ => match sp_expr(t, pos, tbl) {
                PartView::Good(e, q) => sp_call_args(t, step_pos(pos, q, t.len() as int), tbl, acc.push(e)),
                PartView::NotComplete => PartView::NotComplete,
                PartView::Bad => PartView::Bad,
            },
        }
    }
}

/// A parenthesized expression: the token at `pos` is the opening parenthesis;
/// the inner expression must be followed by the closing one.
pub open spec fn sp_paren_expr(t: Seq<TokenView>, pos: int, tbl: Map<Seq<char>, int>) -> PartView<
    ExprView,
>
    decreases t.len() - pos, 1int,
{
    if pos >= t.len() {
        PartView::NotComplete
    } else {
        match sp_expr(t, pos + 1, tbl) {
            PartView::Good(e, qx) => {
                let q = step_pos(pos, qx, t.len() as int);
                if q >= t.len() {
                    PartView::NotComplete
                } else if t[q] is ClosingParenthesis {
                    PartView::Good(e, q + 1)
                } else {
                    PartView::Bad
                }
            },
            PartView::NotComplete => PartView::NotComplete,
            PartView::Bad => PartView::Bad,
        }
    }
}

/// A unary expression: an operator symbol applied to the primary expression
/// after it.
pub open spec fn sp_unary_expr(t: Seq<TokenView>, pos: int, tbl: Map<Seq<char>, int>) -> PartView<
    ExprView,
>
    decreases t.len() - pos, 1int,
{
    if pos >= t.len() {
        PartView::NotComplete
    } else {
        match t[pos] {
            TokenView::Operator(name) => match sp_primary_expr(t, pos + 1, tbl) {
                PartView::Good(operand, q) => PartView::Good(
                    ExprView::UnaryExpr(name, Box::new(operand)),
                    q,
                ),
                PartView::NotComplete => PartView::NotComplete,
                PartView::Bad => PartView::Bad,
            },
            _ => PartView::Bad,
        }
    }
}

/// A conditional: `if` condition `then` consequence `else` alternative, each
/// keyword required in that order. The token at `pos` is the `if`.
pub open spec fn sp_conditional_expr(
    t: Seq<TokenView>,
    pos: int,
    tbl: Map<Seq<char>, int>,
) -> PartView<ExprView>
    decreases t.len() - pos, 1int,
{
    let len = t.len() as int;
    if pos >= len {
        PartView::NotComplete
    } else {
        match sp_expr(t, pos + 1, tbl) {
            PartView::Good(cond, q1x) => {
                let q1 = step_pos(pos, q1x, len);
                if q1 >= len {
                    PartView::NotComplete
                } else if !(t[q1] is Then) {
                    PartView::Bad
                } else {
                    match sp_expr(t, q1 + 1, tbl) {
                        PartView::Good(cons, q2x) => {
                            let q2 = step_pos(q1, q2x, len);
                            if q2 >= len {
                                PartView::NotComplete
                            } else if !(t[q2] is Else) {
                                PartView::Bad
                            } else {
                                match sp_expr(t, q2 + 1, tbl) {
                                    PartView::Good(alt, q3) => PartView::Good(
                                        ExprView::ConditionalExpr {
                                            cond_expr: Box::new(cond),
                                            then_expr: Box::new(cons),
                                            else_expr: Box::new(alt),
                                        },
                                        q3,
                                    ),
                                    PartView::NotComplete => PartView::NotComplete,
                                    PartView::Bad => PartView::Bad,
                                }
                            }
                        },
                        PartView::NotComplete => PartView::NotComplete,
                        PartView::Bad => PartView::Bad,
                    }
                }
            },
            PartView::NotComplete => PartView::NotComplete,
            PartView::Bad => PartView::Bad,
        }
    }
}

/// A loop: `for` name `=` start, then an optional comma-introduced step, the
/// end expression, `in`, and the body. The token at `pos` is the `for`; the
/// `=` must be exactly that operator symbol; a missing step is the literal
/// one.
pub open spec fn sp_loop_expr(t: Seq<TokenView>, pos: int, tbl: Map<Seq<char>, int>) -> PartView<
    ExprView,
>
    decreases t.len() - pos, 1int,
{
    let len = t.len() as int;
    if pos >= len {
        PartView::NotComplete
    } else if pos + 1 >= len {
        PartView::NotComplete
    } else {
        match t[pos + 1] {
            TokenView::Ident(var_name) => {
                if pos + 2 >= len {
                    PartView::NotComplete
                } else {
                    match t[pos + 2] {
                        TokenView::Operator(op) => {
                            if op != "="@ {
                                PartView::Bad
                            } else {
                                match sp_expr(t, pos + 3, tbl) {
                                    PartView::Good(start, q1x) => {
                                        let q1 = step_pos(pos + 2, q1x, len);
                                        sp_loop_tail(t, q1, tbl, var_name, start)
                                    },
                                    PartView::NotComplete => PartView::NotComplete,
                                    PartView::Bad => PartView::Bad,
                                }
                            }
                        },
                        _ => PartView::Bad,
                    }
                }
            },
            _ => PartView::Bad,
        }
    }
}

/// Keeps the position a sub-parse returned inside `[from, len]`. Like
/// [`step_pos`], but for sub-parses that may consume nothing.
pub open spec fn stay_pos(from: int, to: int, len: int) -> int {
    if from <= to && to <= len {
        to
    } else {
        from
    }
}

/// The rest of a loop after its start expression, which ended at `q1`: the
/// optional step, the end expression, `in`, and the body.
pub open spec fn sp_loop_tail(
    t: Seq<TokenView>,
    q1: int,
    tbl: Map<Seq<char>, int>,
    var_name: Seq<char>,
    start: ExprView,
) -> PartView<ExprView>
    decreases t.len() - q1, 5int,
{
    let len = t.len() as int;
    if !(0 <= q1 <= len) {
        PartView::Bad  // unreachable: q1 comes clamped into [0, len]
    } else {
        match sp_loop_step(t, q1, tbl) {
            PartView::Good(step, q2x) => sp_loop_end(
                t,
                stay_pos(q1, q2x, len),
                tbl,
                var_name,
                start,
                step,
            ),
            PartView::NotComplete => PartView::NotComplete,
            PartView::Bad => PartView::Bad,
        }
    }
}

/// The optional step of a loop: a comma introduces it; anything else leaves
/// the literal one and consumes nothing.
pub open spec fn sp_loop_step(t: Seq<TokenView>, q1: int, tbl: Map<Seq<char>, int>) -> PartView<
    ExprView,
>
    decreases t.len() - q1, 0int,
{
    let len = t.len() as int;
    if q1 < len && t[q1] is Comma {
        match sp_expr(t, q1 + 1, tbl) {
            PartView::Good(step, q2x) => PartView::Good(step, step_pos(q1, q2x, len)),
            PartView::NotComplete => PartView::NotComplete,
            PartView::Bad => PartView::Bad,
        }
    } else {
        PartView::Good(ExprView::LiteralExpr(one_value()), q1)
    }
}

/// The end of a loop, starting right after the step at `q2`: the end
/// expression, `in`, and the body.
pub open spec fn sp_loop_end(
    t: Seq<TokenView>,
    q2: int,
    tbl: Map<Seq<char>, int>,
    var_name: Seq<char>,
    start: ExprView,
    step: ExprView,
) -> PartView<ExprView>
    decreases t.len() - q2, 4int,
{
    let len = t.len() as int;
    if !(0 <= q2 <= len) {
        PartView::Bad  // unreachable: q2 comes clamped into [0, len]
    } else {
        match sp_expr(t, q2, tbl) {
            PartView::Good(end, q3x) => {
                let q3 = step_pos(q2 - 1, q3x, len);
                if q3 >= len {
                    PartView::NotComplete
                } else if !(t[q3] is In) {
                    PartView::Bad
                } else {
                    match sp_expr(t, q3 + 1, tbl) {
                        PartView::Good(body, q4) => PartView::Good(
                            ExprView::LoopExpr {
                                var_name: var_name,
                                start_expr: Box::new(start),
                                end_expr: Box::new(end),
                                step_expr: Box::new(step),
                                body_expr: Box::new(body),
                            },
                            q4,
                        ),
                        PartView::NotComplete => PartView::NotComplete,
                        PartView::Bad => PartView::Bad,
                    }
                }
            },
            PartView::NotComplete => PartView::NotComplete,
            PartView::Bad => PartView::Bad,
        }
    }
}

/// The bindings of a `let`: one or more `name [= initializer]`, separated by
/// commas. A missing initializer is the literal one.
pub open spec fn sp_let_bindings(
    t: Seq<TokenView>,
    pos: int,
    tbl: Map<Seq<char>, int>,
    acc: Seq<(Seq<char>, ExprView)>,
) -> PartView<Seq<(Seq<char>, ExprView)>>
    decreases t.len() - pos, 4int,
{
    let len = t.len() as int;
    if pos >= len {
        PartView::NotComplete
    } else {
        match t[pos] {
            TokenView::Ident(name) => {
                if pos + 1 < len && t[pos + 1] is Operator {
                    match t[pos + 1] {
                        TokenView::Operator(op) => {
                            if op != "="@ {
                                PartView::Bad
                            } else {
                                match sp_expr(t, pos + 2, tbl) {
                                    PartView::Good(init, qx) => {
                                        let q = step_pos(pos + 1, qx, len);
                                        let acc2 = acc.push((name, init));
                                        if q < len && t[q] is Comma {
                                            sp_let_bindings(t, q + 1, tbl, acc2)
                                        } else {
                                            PartView::Good(acc2, q)
                                        }
                                    },
                                    PartView::NotComplete => PartView::NotComplete,
                                    PartView::Bad => PartView::Bad,
                                }
                            }
                        },
                        _ => PartView::Bad,  // unreachable
                    }
                } else {
                    let acc2 = acc.push((name, ExprView::LiteralExpr(one_value())));
                    if pos + 1 < len && t[pos + 1] is Comma {
                        sp_let_bindings(t, pos + 2, tbl, acc2)
                    } else {
                        PartView::Good(acc2, pos + 1)
                    }
                }
            },
            _ => PartView::Bad,
        }
    }
}

/// A `let` binding expression: `let`, the bindings, `in`, and the body. The
/// token at `pos` is the `let`.
pub open spec fn sp_let_expr(t: Seq<TokenView>, pos: int, tbl: Map<Seq<char>, int>) -> PartView<
    ExprView,
>
    decreases t.len() - pos, 1int,
{
    let len = t.len() as int;
    if pos >= len {
        PartView::NotComplete
    } else {
        match sp_let_bindings(t, pos + 1, tbl, Seq::empty()) {
            PartView::Good(vars, qx) => {
                let q = step_pos(pos, qx, len);
                if q >= len {
                    PartView::NotComplete
                } else if !(t[q] is In) {
                    PartView::Bad
                } else {
                    match sp_expr(t, q + 1, tbl) {
                        PartView::Good(body, q2) => PartView::Good(
                            ExprView::VarExpr { vars: vars, body_expr: Box::new(body) },
                            q2,
                        ),
                        PartView::NotComplete => PartView::NotComplete,
                        PartView::Bad => PartView::Bad,
                    }
                }
            },
            PartView::NotComplete => PartView::NotComplete,
            PartView::Bad => PartView::Bad,
        }
    }
}

/// A primary expression, dispatched on the kind of the next token. Running
/// out of tokens here is never a failure, only incompleteness; a token kind
/// that cannot begin an expression is a failure.
pub open spec fn sp_primary_expr(t: Seq<TokenView>, pos: int, tbl: Map<Seq<char>, int>) -> PartView<
    ExprView,
>
    decreases t.len() - pos, 2int,
{
    if pos >= t.len() {
        PartView::NotComplete
    } else {
        match t[pos] {
            TokenView::Ident(_) => sp_ident_expr(t, pos, tbl),
            TokenView::Number(_) => sp_literal(t, pos),
            TokenView::If => sp_conditional_expr(t, pos, tbl),
            TokenView::For => sp_loop_expr(t, pos, tbl),
            TokenView::Let => sp_let_expr(t, pos, tbl),
            TokenView::Operator(_) => sp_unary_expr(t, pos, tbl),
            TokenView::OpeningParenthesis => sp_paren_expr(t, pos, tbl),
            _ => PartView::Bad,
        }
    }
}

/// Precedence climbing over an already-parsed left operand. While the next
/// token is an operator the table knows at `min_prec` or above, the operator
/// and its right operand are folded onto the accumulated expression; an
/// operator the table does not know is a failure; anything else ends the
/// expression. Operators of equal precedence associate to the left.
pub open spec fn sp_binary_expr(
    t: Seq<TokenView>,
    pos: int,
    tbl: Map<Seq<char>, int>,
    min_prec: int,
    lhs: ExprView,
) -> PartView<ExprView>
    decreases t.len() - pos, 0int,
{
    let len = t.len() as int;
    if pos >= len {
        PartView::Good(lhs, pos)
    } else {
        match t[pos] {
            TokenView::Operator(op) => {
                if !tbl.contains_key(op) {
                    PartView::Bad
                } else if tbl[op] >= min_prec {
                    match sp_primary_expr(t, pos + 1, tbl) {
                        PartView::Good(rhs0, q1x) => {
                            let q1 = step_pos(pos, q1x, len);
                            match sp_climb(t, q1, tbl, tbl[op], rhs0) {
                                PartView::Good(rhs, q2x) => {
                                    let q2 = step_pos(pos, q2x, len);
                                    sp_binary_expr(
                                        t,
                                        q2,
                                        tbl,
                                        min_prec,
                                        ExprView::BinaryExpr(op, Box::new(lhs), Box::new(rhs)),
                                    )
                                },
                                PartView::NotComplete => PartView::NotComplete,
                                PartView::Bad => PartView::Bad,
                            }
                        },
                        PartView::NotComplete => PartView::NotComplete,
                        PartView::Bad => PartView::Bad,
                    }
                } else {
                    PartView::Good(lhs, pos)
                }
            },
            _ => PartView::Good(lhs, pos),
        }
    }
}

/// Resolves operators to the right of a freshly parsed right operand: as long
/// as the next operator binds strictly tighter than `prec`, it is folded into
/// the right operand first.
pub open spec fn sp_climb(
    t: Seq<TokenView>,
    pos: int,
    tbl: Map<Seq<char>, int>,
    prec: int,
    rhs: ExprView,
) -> PartView<ExprView>
    decreases t.len() - pos, 1int,
{
    let len = t.len() as int;
    if pos >= len {
        PartView::Good(rhs, pos)
    } else {
        match t[pos] {
            TokenView::Operator(op) => {
                if !tbl.contains_key(op) {
                    PartView::Bad
                } else if tbl[op] > prec {
                    match sp_binary_expr(t, pos, tbl, tbl[op], rhs) {
                        PartView::Good(rhs2, qx) => sp_climb(
                            t,
                            step_pos(pos, qx, len),
                            tbl,
                            prec,
                            rhs2,
                        ),
                        PartView::NotComplete => PartView::NotComplete,
                        PartView::Bad => PartView::Bad,
                    }
                } else {
                    PartView::Good(rhs, pos)
                }
            },
            _ => PartView::Good(rhs, pos),
        }
    }
}

/// A whole expression: a primary followed by precedence climbing from the
/// lowest threshold.
pub open spec fn sp_expr(t: Seq<TokenView>, pos: int, tbl: Map<Seq<char>, int>) -> PartView<
    ExprView,
>
    decreases t.len() - pos, 3int,
{
    if pos >= t.len() {
        PartView::NotComplete
    } else {
        match sp_primary_expr(t, pos, tbl) {
            PartView::Good(lhs, qx) => sp_binary_expr(
                t,
                step_pos(pos, qx, t.len() as int),
                tbl,
                0,
                lhs,
            ),
            PartView::NotComplete => PartView::NotComplete,
            PartView::Bad => PartView::Bad,
        }
    }
}

/// The parameter list of a prototype, read until the closing parenthesis:
/// identifiers are collected, commas are consumed and ignored, anything else
/// is a failure.
pub open spec fn sp_proto_args(t: Seq<TokenView>, pos: int, acc: Seq<Seq<char>>) -> PartView<
    Seq<Seq<char>>,
>
    decreases t.len() - pos, 0int,
{
    if pos >= t.len() {
        PartView::NotComplete
    } else {
        match t[pos] {
            TokenView::Ident(arg) => sp_proto_args(t, pos + 1, acc.push(arg)),
            TokenView::Comma => sp_proto_args(t, pos + 1, acc),
            TokenView::ClosingParenthesis => PartView::Good(acc, pos + 1),
            _ => PartView::Bad,
        }
    }
}

/// The name part of a prototype: a plain identifier, or `unary` with one
/// operator symbol, or `binary` with one operator symbol and an optional
/// precedence (30 when omitted, a failure outside 1 to 100). Yields the
/// name, the kind, and the position after the tokens read.
pub open spec fn sp_proto_name(t: Seq<TokenView>, pos: int) -> PartView<(Seq<char>, FnTypeView)> {
    let len = t.len() as int;
    if pos >= len {
        PartView::NotComplete
    } else {
        match t[pos] {
            TokenView::Ident(name) => PartView::Good((name, FnTypeView::Normal), pos + 1),
            TokenView::Unary => {
                if pos + 1 >= len {
                    PartView::NotComplete
                } else {
                    match t[pos + 1] {
                        TokenView::Operator(op) => PartView::Good(
                            ("unary"@ + op, FnTypeView::UnaryOp(op)),
                            pos + 2,
                        ),
                        _ => PartView::Bad,
                    }
                }
            },
            TokenView::Binary => {
                if pos + 1 >= len {
                    PartView::NotComplete
                } else {
                    match t[pos + 1] {
                        TokenView::Operator(op) => {
                            let (prec, k): (int, int) = if pos + 2 < len && t[pos + 2] is Number {
                                (t[pos + 2]->Number_0.whole as int, pos + 3)
                            } else {
                                (30, pos + 2)
                            };
                            if prec < 1 || prec > 100 {
                                PartView::Bad
                            } else {
                                PartView::Good(
                                    ("binary"@ + op, FnTypeView::BinaryOp(op, prec)),
                                    k,
                                )
                            }
                        },
                        _ => PartView::Bad,
                    }
                }
            },
            _ => PartView::Bad,
        }
    }
}

/// The parameter part of a prototype, starting at the expected opening
/// parenthesis: the parameter list, then the arity check of the kind. A unary
/// operator must take exactly one parameter, a binary operator exactly two.
pub open spec fn sp_proto_params(
    t: Seq<TokenView>,
    k: int,
    name: Seq<char>,
    fn_type: FnTypeView,
) -> PartView<ProtoView>
    decreases t.len() - k, 1int,
{
    let len = t.len() as int;
    if k >= len {
        PartView::NotComplete
    } else if !(t[k] is OpeningParenthesis) {
        PartView::Bad
    } else {
        match sp_proto_args(t, k + 1, Seq::empty()) {
            PartView::Good(args, q) => {
                let arity_ok = match fn_type {
                    FnTypeView::UnaryOp(_) => args.len() == 1,
                    FnTypeView::BinaryOp(_, _) => args.len() == 2,
                    FnTypeView::Normal => true,
                };
                if arity_ok {
                    PartView::Good(ProtoView { name, fn_type, args }, q)
                } else {
                    PartView::Bad
                }
            },
            PartView::NotComplete => PartView::NotComplete,
            PartView::Bad => PartView::Bad,
        }
    }
}

/// A prototype: its name part, then its parenthesized parameter list.
pub open spec fn sp_prototype(t: Seq<TokenView>, pos: int) -> PartView<ProtoView>
    decreases t.len() - pos, 2int,
{
    let len = t.len() as int;
    if pos >= len {
        PartView::NotComplete
    } else {
        match sp_proto_name(t, pos) {
            PartView::Good((name, fn_type), kx) => sp_proto_params(
                t,
                step_pos(pos, kx, len),
                name,
                fn_type,
            ),
            PartView::NotComplete => PartView::NotComplete,
            PartView::Bad => PartView::Bad,
        }
    }
}

/// An `extern` declaration: the keyword at `pos`, then a prototype.
pub open spec fn sp_extern(t: Seq<TokenView>, pos: int) -> PartView<NodeView>
    decreases t.len() - pos, 2int,
{
    if pos >= t.len() {
        PartView::NotComplete
    } else {
        match sp_prototype(t, pos + 1) {
            PartView::Good(proto, q) => PartView::Good(NodeView::ExternNode(proto), q),
            PartView::NotComplete => PartView::NotComplete,
            PartView::Bad => PartView::Bad,
        }
    }
}

/// A function definition: the `function` keyword at `pos`, a prototype, and a
/// body expression. A prototype declaring a binary operator extends the
/// operator table before the body is parsed, so the operator is usable inside
/// its own definition; the second component is the table after the attempt,
/// whatever its outcome.
pub open spec fn sp_function(t: Seq<TokenView>, pos: int, tbl: Map<Seq<char>, int>) -> (PartView<
    NodeView,
>, Map<Seq<char>, int>)
    decreases t.len() - pos, 4int,
{
    let len = t.len() as int;
    if pos >= len {
        (PartView::NotComplete, tbl)
    } else {
        match sp_prototype(t, pos + 1) {
            PartView::Good(proto, qx) => {
                let tbl2 = match proto.fn_type {
                    FnTypeView::BinaryOp(op, prec) => tbl.insert(op, prec),
                    _ => tbl,
                };
                let q = step_pos(pos, qx, len);
                match sp_expr(t, q, tbl2) {
                    PartView::Good(body, q2) => (
                        PartView::Good(NodeView::FunctionsNode(proto, body), q2),
                        tbl2,
                    ),
                    PartView::NotComplete => (PartView::NotComplete, tbl2),
                    PartView::Bad => (PartView::Bad, tbl2),
                }
            },
            PartView::NotComplete => (PartView::NotComplete, tbl),
            PartView::Bad => (PartView::Bad, tbl),
        }
    }
}

/// A bare top-level expression, wrapped into an anonymous definition: a
/// function with an empty name, no parameters and an ordinary prototype.
pub open spec fn sp_expression(t: Seq<TokenView>, pos: int, tbl: Map<Seq<char>, int>) -> PartView<
    NodeView,
>
    decreases t.len() - pos, 4int,
{
    match sp_expr(t, pos, tbl) {
        PartView::Good(body, q) => PartView::Good(
            NodeView::FunctionsNode(
                ProtoView {
                    name: Seq::empty(),
                    fn_type: FnTypeView::Normal,
                    args: Seq::empty(),
                },
                body,
            ),
            q,
        ),
        PartView::NotComplete => PartView::NotComplete,
        PartView::Bad => PartView::Bad,
    }
}

/// What one whole run of the top-level driver amounts to.
#[verifier::ext_equal]
pub struct DriveView {
    /// A construct failed: the run reports the message and hands back no
    /// items.
    pub failed: bool,
    /// The items accumulated, the given ones first. Meaningful when the run
    /// did not fail.
    pub nodes: Seq<NodeView>,
    /// Where the unconsumed remainder of the input starts. Meaningful when
    /// the run did not fail.
    pub pos: int,
    /// The operator table after the run, also after a failed one.
    pub ops: Map<Seq<char>, int>,
}

/// The top-level driver: statement delimiters are discarded; `function` and
/// `extern` dispatch to their parsers; anything else is a bare expression.
/// The driver stops at the end of the input or at the first incomplete
/// construct, which it leaves unconsumed in its entirety; a failure aborts
/// the run.
pub open spec fn sp_top(
    t: Seq<TokenView>,
    pos: int,
    tbl: Map<Seq<char>, int>,
    acc: Seq<NodeView>,
) -> DriveView
    decreases t.len() - pos, 5int,
{
    let len = t.len() as int;
    if pos >= len {
        DriveView { failed: false, nodes: acc, pos, ops: tbl }
    } else {
        match t[pos] {
            TokenView::Delimiter => sp_top(t, pos + 1, tbl, acc),
            TokenView::Function => {
                let (r, tbl2) = sp_function(t, pos, tbl);
                match r {
                    PartView::Good(node, qx) => sp_top(
                        t,
                        step_pos(pos, qx, len),
                        tbl2,
                        acc.push(node),
                    ),
                    PartView::NotComplete => DriveView { failed: false, nodes: acc, pos, ops: tbl2 },
                    PartView::Bad => DriveView { failed: true, nodes: acc, pos, ops: tbl2 },
                }
            },
            TokenView::Extern => {
                match sp_extern(t, pos) {
                    PartView::Good(node, qx) => sp_top(
                        t,
                        step_pos(pos, qx, len),
                        tbl,
                        acc.push(node),
                    ),
                    PartView::NotComplete => DriveView { failed: false, nodes: acc, pos, ops: tbl },
                    PartView::Bad => DriveView { failed: true, nodes: acc, pos, ops: tbl },
                }
            },
            _ => {
                match sp_expression(t, pos, tbl) {
                    PartView::Good(node, qx) => sp_top(
                        t,
                        step_pos(pos, qx, len),
                        tbl,
                        acc.push(node),
                    ),
                    PartView::NotComplete => DriveView { failed: false, nodes: acc, pos, ops: tbl },
                    PartView::Bad => DriveView { failed: true, nodes: acc, pos, ops: tbl },
                }
            },
        }
    }
}

/// The top-level driver only appends, and never reaches back: when a run
/// ends cleanly, the items it yields start with exactly the items it was
/// given, in their order, and the position of the unconsumed remainder lies
/// between where the run started and the end of the input. Together with the
/// contract of [`crate::parser::parse`], whose leftover tokens are the suffix
/// at that position, this says that a run hands back the given items, then
/// the newly finished ones, then the leftover suffix.
pub proof fn lemma_driver_appends(
    t: Seq<TokenView>,
    pos: int,
    tbl: Map<Seq<char>, int>,
    acc: Seq<NodeView>,
)
    requires
        0 <= pos <= t.len(),
    ensures
        ({
            let g = sp_top(t, pos, tbl, acc);
            !g.failed ==> {
                &&& pos <= g.pos <= t.len()
                &&& acc.len() <= g.nodes.len()
                &&& g.nodes.subrange(0, acc.len() as int) == acc
            }
        }),
    decreases t.len() - pos, 0int,
{
    let len = t.len() as int;
    let g = sp_top(t, pos, tbl, acc);
    if pos < len {
        match t[pos] {
            TokenView::Delimiter => {
                lemma_driver_appends(t, pos + 1, tbl, acc);
            },
            TokenView::Function => {
                let (r, tbl2) = sp_function(t, pos, tbl);
                match r {
                    PartView::Good(node, qx) => {
                        lemma_drive_push(t, step_pos(pos, qx, len), tbl2, acc, node);
                    },
                    PartView::NotComplete => {},
                    PartView::Bad => {},
                }
            },
            TokenView::Extern => {
                match sp_extern(t, pos) {
                    PartView::Good(node, qx) => {
                        lemma_drive_push(t, step_pos(pos, qx, len), tbl, acc, node);
                    },
                    PartView::NotComplete => {},
                    PartView::Bad => {},
                }
            },
            _ => {
                match sp_expression(t, pos, tbl) {
                    PartView::Good(node, qx) => {
                        lemma_drive_push(t, step_pos(pos, qx, len), tbl, acc, node);
                    },
                    PartView::NotComplete => {},
                    PartView::Bad => {},
                }
            },
        }
    }
}

/// Helper for [`lemma_driver_appends`]: continuing the driver with one more
/// finished item keeps the given items as the front of the result.
proof fn lemma_drive_push(
    t: Seq<TokenView>,
    p2: int,
    tbl: Map<Seq<char>, int>,
    acc: Seq<NodeView>,
    node: NodeView,
)
    requires
        0 <= p2 <= t.len(),
    ensures
        ({
            let g = sp_top(t, p2, tbl, acc.push(node));
            !g.failed ==> {
                &&& p2 <= g.pos <= t.len()
                &&& acc.len() <= g.nodes.len()
                &&& g.nodes.subrange(0, acc.len() as int) == acc
            }
        }),
    decreases t.len() - p2, 1int,
{
    lemma_driver_appends(t, p2, tbl, acc.push(node));
    let g = sp_top(t, p2, tbl, acc.push(node));
    if !g.failed {
        assert(g.nodes.subrange(0, acc.len() as int + 1) == acc.push(node));
        assert forall|i: int| 0 <= i < acc.len() implies g.nodes.subrange(
            0,
            acc.len() as int,
        )[i] == acc[i] by {
            assert(g.nodes.subrange(0, acc.len() as int + 1)[i] == acc.push(node)[i]);
        }
        assert(g.nodes.subrange(0, acc.len() as int) =~= acc);
    }
}

} // verus!
