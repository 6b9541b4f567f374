//! Resumability: what the tri-state protocol promises across retries.
//!
//! A caller that was told `NotComplete` appends the newly arrived tokens to
//! the very tokens it already handed over and parses again. That only makes
//! sense if the extra tokens cannot change what was already decided: a
//! failure stays a failure, and a construct whose last token was not the last
//! token of the buffer is parsed to the same value again. This module proves
//! that for every parsing operation of [`crate::grammar`], and, at the top,
//! for whole driver runs.

use vstd::prelude::*;
use crate::tokens::TokenView;
use crate::ast::{ExprView, NodeView};
use crate::ast::{FnTypeView, ProtoView};
use crate::grammar::{
    PartView, step_pos, stay_pos, sp_literal, sp_ident_expr, sp_call_args, sp_paren_expr,
    sp_unary_expr, sp_conditional_expr, sp_loop_expr, sp_loop_tail, sp_loop_step, sp_loop_end,
    sp_let_bindings, sp_let_expr, sp_primary_expr, sp_binary_expr, sp_climb, sp_expr,
    sp_proto_args, sp_proto_name, sp_proto_params, sp_prototype, sp_extern, sp_function,
    sp_expression, sp_top, DriveView,
};

verus! {

/// A parsing operation starting at `pos` only moves forward and stays within
/// the input.
pub open spec fn bounded<T>(r: PartView<T>, pos: int, len: int) -> bool {
    r matches PartView::Good(_, q) ==> pos <= q && q <= len
}

/// Appending tokens keeps a failure a failure, and keeps the value and extent
/// of a construct that ended before the old end of the input.
pub open spec fn stable_to<T>(r: PartView<T>, r2: PartView<T>, len: int) -> bool {
    &&& (r is Bad ==> r2 is Bad)
    &&& (r matches PartView::Good(v, q) ==> (q < len ==> r2 == PartView::Good(v, q)))
}

/// The appended buffer holds the old one as its prefix.
proof fn lemma_prefix(t: Seq<TokenView>, u: Seq<TokenView>)
    ensures
        (t + u).len() == t.len() + u.len(),
        forall|i: int| 0 <= i < t.len() ==> #[trigger] (t + u)[i] == t[i],
{
}

/// One number token is read the same way in the appended buffer.
proof fn stable_literal(t: Seq<TokenView>, u: Seq<TokenView>, pos: int)
    requires
        0 <= pos <= t.len(),
    ensures
        bounded(sp_literal(t, pos), pos, t.len() as int),
        stable_to(sp_literal(t, pos), sp_literal(t + u, pos), t.len() as int),
{
    lemma_prefix(t, u);
}

/// A variable or call is read the same way in the appended buffer.
proof fn stable_ident(t: Seq<TokenView>, u: Seq<TokenView>, pos: int, tbl: Map<Seq<char>, int>)
    requires
        0 <= pos <= t.len(),
    ensures
        bounded(sp_ident_expr(t, pos, tbl), pos, t.len() as int),
        stable_to(sp_ident_expr(t, pos, tbl), sp_ident_expr(t + u, pos, tbl), t.len() as int),
    decreases t.len() - pos, 1int,
{
    lemma_prefix(t, u);
    let len = t.len() as int;
    if pos < len {
        match t[pos] {
            TokenView::Ident(_) => {
                if pos + 1 < len && t[pos + 1] is OpeningParenthesis {
                    stable_call_args(t, u, pos + 2, tbl, Seq::empty());
                }
            },
            _ => {},
        }
    }
}

/// A call's argument list is read the same way in the appended buffer.
proof fn stable_call_args(
    t: Seq<TokenView>,
    u: Seq<TokenView>,
    pos: int,
    tbl: Map<Seq<char>, int>,
    acc: Seq<ExprView>,
)
    requires
        0 <= pos <= t.len(),
    ensures
        bounded(sp_call_args(t, pos, tbl, acc), pos, t.len() as int),
        stable_to(
            sp_call_args(t, pos, tbl, acc),
            sp_call_args(t + u, pos, tbl, acc),
            t.len() as int,
        ),
    decreases t.len() - pos, 4int,
{
    lemma_prefix(t, u);
    let len = t.len() as int;
    if pos < len {
        match t[pos] {
            TokenView::ClosingParenthesis => {},
            TokenView::Comma => {
                stable_call_args(t, u, pos + 1, tbl, acc);
            },
            _ => {
                stable_expr(t, u, pos, tbl);
                match sp_expr(t, pos, tbl) {
                    PartView::Good(e, q) => {
                        let q2 = step_pos(pos, q, len);
                        stable_call_args(t, u, q2, tbl, acc.push(e));
                        assert(step_pos(pos, q, (t + u).len() as int) == q2);
                    },
                    PartView::NotComplete => {},
                    PartView::Bad => {},
                }
            },
        }
    }
}

/// A parenthesized expression is read the same way in the appended buffer.
proof fn stable_paren(t: Seq<TokenView>, u: Seq<TokenView>, pos: int, tbl: Map<Seq<char>, int>)
    requires
        0 <= pos <= t.len(),
    ensures
        bounded(sp_paren_expr(t, pos, tbl), pos, t.len() as int),
        stable_to(sp_paren_expr(t, pos, tbl), sp_paren_expr(t + u, pos, tbl), t.len() as int),
    decreases t.len() - pos, 1int,
{
    lemma_prefix(t, u);
    let len = t.len() as int;
    if pos < len {
        stable_expr(t, u, pos + 1, tbl);
        match sp_expr(t, pos + 1, tbl) {
            PartView::Good(e, qx) => {
                let q = step_pos(pos, qx, len);
                if q < len {
                    assert(step_pos(pos, qx, (t + u).len() as int) == q);
                }
            },
            PartView::NotComplete => {},
            PartView::Bad => {},
        }
    }
}

/// A unary expression is read the same way in the appended buffer.
proof fn stable_unary(t: Seq<TokenView>, u: Seq<TokenView>, pos: int, tbl: Map<Seq<char>, int>)
    requires
        0 <= pos <= t.len(),
    ensures
        bounded(sp_unary_expr(t, pos, tbl), pos, t.len() as int),
        stable_to(sp_unary_expr(t, pos, tbl), sp_unary_expr(t + u, pos, tbl), t.len() as int),
    decreases t.len() - pos, 1int,
{
    lemma_prefix(t, u);
    if pos < t.len() {
        match t[pos] {
            TokenView::Operator(_) => {
                stable_primary(t, u, pos + 1, tbl);
            },
            _ => {},
        }
    }
}

/// A conditional is read the same way in the appended buffer.
proof fn stable_conditional(
    t: Seq<TokenView>,
    u: Seq<TokenView>,
    pos: int,
    tbl: Map<Seq<char>, int>,
)
    requires
        0 <= pos <= t.len(),
    ensures
        bounded(sp_conditional_expr(t, pos, tbl), pos, t.len() as int),
        stable_to(
            sp_conditional_expr(t, pos, tbl),
            sp_conditional_expr(t + u, pos, tbl),
            t.len() as int,
        ),
    decreases t.len() - pos, 1int,
{
    lemma_prefix(t, u);
    let len = t.len() as int;
    if pos < len {
        stable_expr(t, u, pos + 1, tbl);
        match sp_expr(t, pos + 1, tbl) {
            PartView::Good(_, q1x) => {
                let q1 = step_pos(pos, q1x, len);
                if q1 < len {
                    assert(step_pos(pos, q1x, (t + u).len() as int) == q1);
                    if t[q1] is Then {
                        stable_expr(t, u, q1 + 1, tbl);
                        match sp_expr(t, q1 + 1, tbl) {
                            PartView::Good(_, q2x) => {
                                let q2 = step_pos(q1, q2x, len);
                                if q2 < len {
                                    assert(step_pos(q1, q2x, (t + u).len() as int) == q2);
                                    if t[q2] is Else {
                                        stable_expr(t, u, q2 + 1, tbl);
                                    }
                                }
                            },
                            PartView::NotComplete => {},
                            PartView::Bad => {},
                        }
                    }
                }
            },
            PartView::NotComplete => {},
            PartView::Bad => {},
        }
    }
}

/// A loop is read the same way in the appended buffer.
proof fn stable_loop(t: Seq<TokenView>, u: Seq<TokenView>, pos: int, tbl: Map<Seq<char>, int>)
    requires
        0 <= pos <= t.len(),
    ensures
        bounded(sp_loop_expr(t, pos, tbl), pos, t.len() as int),
        stable_to(sp_loop_expr(t, pos, tbl), sp_loop_expr(t + u, pos, tbl), t.len() as int),
    decreases t.len() - pos, 1int,
{
    lemma_prefix(t, u);
    let len = t.len() as int;
    if pos < len && pos + 1 < len && pos + 2 < len {
        match t[pos + 1] {
            TokenView::Ident(vn) => {
                match t[pos + 2] {
                    TokenView::Operator(op) => {
                        if op == "="@ {
                            stable_expr(t, u, pos + 3, tbl);
                            match sp_expr(t, pos + 3, tbl) {
                                PartView::Good(start, q1x) => {
                                    let q1 = step_pos(pos + 2, q1x, len);
                                    stable_loop_tail_lemma(t, u, q1, tbl, vn, start);
                                    if q1x < len {
                                        assert(step_pos(pos + 2, q1x, (t + u).len() as int)
                                            == q1);
                                    } else {
                                        // the start expression reached the end of the
                                        // buffer: the loop is incomplete, whatever the
                                        // appended tokens hold
                                        assert(q1 == len);
                                        assert(sp_loop_step(t, q1, tbl) == PartView::Good(
                                            ExprView::LiteralExpr(crate::tokens::one_value()),
                                            q1,
                                        ));
                                        assert(sp_expr(t, q1, tbl) is NotComplete);
                                        assert(sp_loop_end(t, q1, tbl, vn, start,
                                            ExprView::LiteralExpr(crate::tokens::one_value()))
                                            is NotComplete);
                                        assert(sp_loop_tail(t, q1, tbl, vn, start)
                                            is NotComplete);
                                    }
                                },
                                PartView::NotComplete => {},
                                PartView::Bad => {},
                            }
                        }
                    },
                    _ => {},
                }
            },
            _ => {},
        }
    }
}

/// The rest of a loop is read the same way in the appended buffer.
proof fn stable_loop_tail_lemma(
    t: Seq<TokenView>,
    u: Seq<TokenView>,
    q1: int,
    tbl: Map<Seq<char>, int>,
    vn: Seq<char>,
    start: ExprView,
)
    requires
        0 <= q1 <= t.len(),
    ensures
        bounded(sp_loop_tail(t, q1, tbl, vn, start), q1, t.len() as int),
        stable_to(
            sp_loop_tail(t, q1, tbl, vn, start),
            sp_loop_tail(t + u, q1, tbl, vn, start),
            t.len() as int,
        ),
    decreases t.len() - q1, 6int,
{
    lemma_prefix(t, u);
    let len = t.len() as int;
    stable_loop_step_lemma(t, u, q1, tbl);
    match sp_loop_step(t, q1, tbl) {
        PartView::Good(step, q2x) => {
            let q2 = stay_pos(q1, q2x, len);
            stable_loop_end_lemma(t, u, q2, tbl, vn, start, step);
            assert(q2 == q2x);
            assert(stay_pos(q1, q2x, (t + u).len() as int) == q2);
            // when the step ended at the end of the buffer, the end
            // expression runs out of tokens, so the loop is incomplete
            if q2 == len {
                assert(sp_expr(t, q2, tbl) is NotComplete);
                assert(sp_loop_end(t, q2, tbl, vn, start, step) is NotComplete);
            }
        },
        PartView::NotComplete => {},
        PartView::Bad => {},
    }
}

/// The optional step of a loop is read the same way in the appended buffer;
/// it ends no earlier than it began.
proof fn stable_loop_step_lemma(
    t: Seq<TokenView>,
    u: Seq<TokenView>,
    q1: int,
    tbl: Map<Seq<char>, int>,
)
    requires
        0 <= q1 <= t.len(),
    ensures
        bounded(sp_loop_step(t, q1, tbl), q1, t.len() as int),
        stable_to(sp_loop_step(t, q1, tbl), sp_loop_step(t + u, q1, tbl), t.len() as int),
    decreases t.len() - q1, 1int,
{
    lemma_prefix(t, u);
    let len = t.len() as int;
    if q1 < len && t[q1] is Comma {
        stable_expr(t, u, q1 + 1, tbl);
        match sp_expr(t, q1 + 1, tbl) {
            PartView::Good(_, q2x) => {
                let q2 = step_pos(q1, q2x, len);
                if q2 < len {
                    assert(step_pos(q1, q2x, (t + u).len() as int) == q2);
                }
            },
            PartView::NotComplete => {},
            PartView::Bad => {},
        }
    }
}

/// The end of a loop is read the same way in the appended buffer.
proof fn stable_loop_end_lemma(
    t: Seq<TokenView>,
    u: Seq<TokenView>,
    q2: int,
    tbl: Map<Seq<char>, int>,
    vn: Seq<char>,
    start: ExprView,
    step: ExprView,
)
    requires
        0 <= q2 <= t.len(),
    ensures
        bounded(sp_loop_end(t, q2, tbl, vn, start, step), q2, t.len() as int),
        stable_to(
            sp_loop_end(t, q2, tbl, vn, start, step),
            sp_loop_end(t + u, q2, tbl, vn, start, step),
            t.len() as int,
        ),
    decreases t.len() - q2, 5int,
{
    lemma_prefix(t, u);
    let len = t.len() as int;
    stable_expr(t, u, q2, tbl);
    match sp_expr(t, q2, tbl) {
        PartView::Good(_, q3x) => {
            let q3 = step_pos(q2 - 1, q3x, len);
            if q3 < len {
                assert(step_pos(q2 - 1, q3x, (t + u).len() as int) == q3);
                if t[q3] is In {
                    stable_expr(t, u, q3 + 1, tbl);
                }
            }
        },
        PartView::NotComplete => {},
        PartView::Bad => {},
    }
}

/// The bindings of a `let` are read the same way in the appended buffer.
proof fn stable_let_bindings(
    t: Seq<TokenView>,
    u: Seq<TokenView>,
    pos: int,
    tbl: Map<Seq<char>, int>,
    acc: Seq<(Seq<char>, ExprView)>,
)
    requires
        0 <= pos <= t.len(),
    ensures
        bounded(sp_let_bindings(t, pos, tbl, acc), pos, t.len() as int),
        stable_to(
            sp_let_bindings(t, pos, tbl, acc),
            sp_let_bindings(t + u, pos, tbl, acc),
            t.len() as int,
        ),
    decreases t.len() - pos, 0int,
{
    lemma_prefix(t, u);
    let len = t.len() as int;
    if pos < len {
        match t[pos] {
            TokenView::Ident(name) => {
                if pos + 1 < len && t[pos + 1] is Operator {
                    match t[pos + 1] {
                        TokenView::Operator(op) => {
                            if op == "="@ {
                                stable_expr(t, u, pos + 2, tbl);
                                match sp_expr(t, pos + 2, tbl) {
                                    PartView::Good(init, qx) => {
                                        let q = step_pos(pos + 1, qx, len);
                                        if q < len {
                                            assert(step_pos(pos + 1, qx, (t + u).len() as int)
                                                == q);
                                            if t[q] is Comma {
                                                stable_let_bindings(
                                                    t,
                                                    u,
                                                    q + 1,
                                                    tbl,
                                                    acc.push((name, init)),
                                                );
                                            }
                                        }
                                    },
                                    PartView::NotComplete => {},
                                    PartView::Bad => {},
                                }
                            }
                        },
                        _ => {},
                    }
                } else {
                    if pos + 1 < len && t[pos + 1] is Comma {
                        stable_let_bindings(
                            t,
                            u,
                            pos + 2,
                            tbl,
                            acc.push((name, ExprView::LiteralExpr(crate::tokens::one_value()))),
                        );
                    }
                }
            },
            _ => {},
        }
    }
}

/// A `let` binding expression is read the same way in the appended buffer.
proof fn stable_let(t: Seq<TokenView>, u: Seq<TokenView>, pos: int, tbl: Map<Seq<char>, int>)
    requires
        0 <= pos <= t.len(),
    ensures
        bounded(sp_let_expr(t, pos, tbl), pos, t.len() as int),
        stable_to(sp_let_expr(t, pos, tbl), sp_let_expr(t + u, pos, tbl), t.len() as int),
    decreases t.len() - pos, 1int,
{
    lemma_prefix(t, u);
    let len = t.len() as int;
    if pos < len {
        stable_let_bindings(t, u, pos + 1, tbl, Seq::empty());
        match sp_let_bindings(t, pos + 1, tbl, Seq::empty()) {
            PartView::Good(_, qx) => {
                let q = step_pos(pos, qx, len);
                if q < len {
                    assert(step_pos(pos, qx, (t + u).len() as int) == q);
                    if t[q] is In {
                        stable_expr(t, u, q + 1, tbl);
                    }
                }
            },
            PartView::NotComplete => {},
            PartView::Bad => {},
        }
    }
}

/// A primary expression is read the same way in the appended buffer.
proof fn stable_primary(t: Seq<TokenView>, u: Seq<TokenView>, pos: int, tbl: Map<Seq<char>, int>)
    requires
        0 <= pos <= t.len(),
    ensures
        bounded(sp_primary_expr(t, pos, tbl), pos, t.len() as int),
        stable_to(sp_primary_expr(t, pos, tbl), sp_primary_expr(t + u, pos, tbl), t.len() as int),
    decreases t.len() - pos, 2int,
{
    lemma_prefix(t, u);
    if pos < t.len() {
        match t[pos] {
            TokenView::Ident(_) => stable_ident(t, u, pos, tbl),
            TokenView::Number(_) => stable_literal(t, u, pos),
            TokenView::If => stable_conditional(t, u, pos, tbl),
            TokenView::For => stable_loop(t, u, pos, tbl),
            TokenView::Let => stable_let(t, u, pos, tbl),
            TokenView::Operator(_) => stable_unary(t, u, pos, tbl),
            TokenView::OpeningParenthesis => stable_paren(t, u, pos, tbl),
            _ => {},
        }
    }
}

/// Precedence climbing over a left operand behaves the same in the appended
/// buffer.
proof fn stable_binary(
    t: Seq<TokenView>,
    u: Seq<TokenView>,
    pos: int,
    tbl: Map<Seq<char>, int>,
    min_prec: int,
    lhs: ExprView,
)
    requires
        0 <= pos <= t.len(),
    ensures
        bounded(sp_binary_expr(t, pos, tbl, min_prec, lhs), pos, t.len() as int),
        stable_to(
            sp_binary_expr(t, pos, tbl, min_prec, lhs),
            sp_binary_expr(t + u, pos, tbl, min_prec, lhs),
            t.len() as int,
        ),
    decreases t.len() - pos, 0int,
{
    lemma_prefix(t, u);
    let len = t.len() as int;
    if pos < len {
        match t[pos] {
            TokenView::Operator(op) => {
                if tbl.contains_key(op) && tbl[op] >= min_prec {
                    stable_primary(t, u, pos + 1, tbl);
                    match sp_primary_expr(t, pos + 1, tbl) {
                        PartView::Good(rhs0, q1x) => {
                            let q1 = step_pos(pos, q1x, len);
                            assert(q1 == q1x);
                            stable_climb(t, u, q1, tbl, tbl[op], rhs0);
                            match sp_climb(t, q1, tbl, tbl[op], rhs0) {
                                PartView::Good(rhs, q2x) => {
                                    let q2 = step_pos(pos, q2x, len);
                                    assert(q2 == q2x);
                                    stable_binary(
                                        t,
                                        u,
                                        q2,
                                        tbl,
                                        min_prec,
                                        ExprView::BinaryExpr(op, Box::new(lhs), Box::new(rhs)),
                                    );
                                    if q2 < len {
                                        assert(step_pos(pos, q2x, (t + u).len() as int) == q2);
                                        assert(step_pos(pos, q1x, (t + u).len() as int) == q1);
                                    }
                                },
                                PartView::NotComplete => {},
                                PartView::Bad => {
                                    if q1 < len {
                                        assert(step_pos(pos, q1x, (t + u).len() as int) == q1);
                                    }
                                },
                            }
                        },
                        PartView::NotComplete => {},
                        PartView::Bad => {},
                    }
                }
            },
            _ => {},
        }
    }
}

/// Resolving tighter-binding operators on the right behaves the same in the
/// appended buffer.
proof fn stable_climb(
    t: Seq<TokenView>,
    u: Seq<TokenView>,
    pos: int,
    tbl: Map<Seq<char>, int>,
    prec: int,
    rhs: ExprView,
)
    requires
        0 <= pos <= t.len(),
    ensures
        bounded(sp_climb(t, pos, tbl, prec, rhs), pos, t.len() as int),
        stable_to(
            sp_climb(t, pos, tbl, prec, rhs),
            sp_climb(t + u, pos, tbl, prec, rhs),
            t.len() as int,
        ),
    decreases t.len() - pos, 1int,
{
    lemma_prefix(t, u);
    let len = t.len() as int;
    if pos < len {
        match t[pos] {
            TokenView::Operator(op) => {
                if tbl.contains_key(op) && tbl[op] > prec {
                    stable_binary(t, u, pos, tbl, tbl[op], rhs);
                    match sp_binary_expr(t, pos, tbl, tbl[op], rhs) {
                        PartView::Good(rhs2, qx) => {
                            let q = step_pos(pos, qx, len);
                            stable_climb(t, u, q, tbl, prec, rhs2);
                            if q < len && pos < qx {
                                assert(step_pos(pos, qx, (t + u).len() as int) == q);
                            }
                        },
                        PartView::NotComplete => {},
                        PartView::Bad => {},
                    }
                }
            },
            _ => {},
        }
    }
}

/// A whole expression is read the same way in the appended buffer.
proof fn stable_expr(t: Seq<TokenView>, u: Seq<TokenView>, pos: int, tbl: Map<Seq<char>, int>)
    requires
        0 <= pos <= t.len(),
    ensures
        bounded(sp_expr(t, pos, tbl), pos, t.len() as int),
        stable_to(sp_expr(t, pos, tbl), sp_expr(t + u, pos, tbl), t.len() as int),
    decreases t.len() - pos, 3int,
{
    lemma_prefix(t, u);
    let len = t.len() as int;
    if pos < len {
        stable_primary(t, u, pos, tbl);
        match sp_primary_expr(t, pos, tbl) {
            PartView::Good(lhs, qx) => {
                let q = step_pos(pos, qx, len);
                stable_binary(t, u, q, tbl, 0, lhs);
                if q < len {
                    assert(step_pos(pos, qx, (t + u).len() as int) == q);
                }
            },
            PartView::NotComplete => {},
            PartView::Bad => {},
        }
    }
}

/// Appending tokens cannot change a finished construct at all: stability
/// without the side condition, for constructs that end on a closing token.
pub open spec fn settled_to<T>(r: PartView<T>, r2: PartView<T>) -> bool {
    &&& (r is Bad ==> r2 is Bad)
    &&& (r matches PartView::Good(v, q) ==> r2 == PartView::Good(v, q))
}

/// A parameter list is read the same way in the appended buffer; being closed
/// by its parenthesis, it never depends on where the buffer ends.
proof fn stable_proto_args(t: Seq<TokenView>, u: Seq<TokenView>, pos: int, acc: Seq<Seq<char>>)
    requires
        0 <= pos <= t.len(),
    ensures
        bounded(sp_proto_args(t, pos, acc), pos, t.len() as int),
        settled_to(sp_proto_args(t, pos, acc), sp_proto_args(t + u, pos, acc)),
    decreases t.len() - pos, 0int,
{
    lemma_prefix(t, u);
    let len = t.len() as int;
    if pos < len {
        match t[pos] {
            TokenView::Ident(arg) => {
                stable_proto_args(t, u, pos + 1, acc.push(arg));
            },
            TokenView::Comma => {
                stable_proto_args(t, u, pos + 1, acc);
            },
            _ => {},
        }
    }
}

/// The name part of a prototype is read the same way in the appended buffer.
proof fn stable_proto_name(t: Seq<TokenView>, u: Seq<TokenView>, pos: int)
    requires
        0 <= pos <= t.len(),
    ensures
        ({
            let r = sp_proto_name(t, pos);
            &&& (r matches PartView::Good(_, k) ==> pos < k && k <= t.len())
            &&& stable_to(r, sp_proto_name(t + u, pos), t.len() as int)
        }),
{
    lemma_prefix(t, u);
}

/// The parameter part of a prototype is read the same way in the appended
/// buffer: it is closed by its parenthesis or it is not done.
proof fn stable_proto_params(
    t: Seq<TokenView>,
    u: Seq<TokenView>,
    k: int,
    name: Seq<char>,
    fn_type: FnTypeView,
)
    requires
        0 <= k <= t.len(),
    ensures
        bounded(sp_proto_params(t, k, name, fn_type), k, t.len() as int),
        settled_to(sp_proto_params(t, k, name, fn_type), sp_proto_params(t + u, k, name, fn_type)),
    decreases t.len() - k, 1int,
{
    lemma_prefix(t, u);
    let len = t.len() as int;
    if k < len && t[k] is OpeningParenthesis {
        stable_proto_args(t, u, k + 1, Seq::empty());
    }
}

/// A whole prototype is read the same way in the appended buffer.
proof fn stable_prototype(t: Seq<TokenView>, u: Seq<TokenView>, pos: int)
    requires
        0 <= pos <= t.len(),
    ensures
        bounded(sp_prototype(t, pos), pos, t.len() as int),
        settled_to(sp_prototype(t, pos), sp_prototype(t + u, pos)),
    decreases t.len() - pos, 2int,
{
    lemma_prefix(t, u);
    let len = t.len() as int;
    if pos < len {
        stable_proto_name(t, u, pos);
        match sp_proto_name(t, pos) {
            PartView::Good(named, kx) => {
                let k = step_pos(pos, kx, len);
                assert(k == kx);
                stable_proto_params(t, u, k, named.0, named.1);
                // a prototype that got at least to its opening parenthesis
                // read its whole name part strictly inside the buffer
                if k < len {
                    assert(step_pos(pos, kx, (t + u).len() as int) == k);
                } else {
                    assert(sp_proto_params(t, k, named.0, named.1) is NotComplete);
                }
            },
            PartView::NotComplete => {},
            PartView::Bad => {},
        }
    }
}

/// An `extern` declaration is read the same way in the appended buffer.
proof fn stable_extern_lemma(t: Seq<TokenView>, u: Seq<TokenView>, pos: int)
    requires
        0 <= pos <= t.len(),
    ensures
        bounded(sp_extern(t, pos), pos, t.len() as int),
        settled_to(sp_extern(t, pos), sp_extern(t + u, pos)),
    decreases t.len() - pos, 3int,
{
    lemma_prefix(t, u);
    if pos < t.len() {
        stable_prototype(t, u, pos + 1);
    }
}

/// A function definition is read the same way in the appended buffer, and its
/// effect on the operator table is already settled: re-parsing an incomplete
/// definition from the table it produced produces that same table again.
proof fn stable_function_lemma(
    t: Seq<TokenView>,
    u: Seq<TokenView>,
    pos: int,
    tbl: Map<Seq<char>, int>,
)
    requires
        0 <= pos <= t.len(),
    ensures
        ({
            let (r, tb) = sp_function(t, pos, tbl);
            let (r2, tb2) = sp_function(t + u, pos, tbl);
            &&& bounded(r, pos, t.len() as int)
            &&& (r is Bad ==> r2 is Bad && tb2 == tb)
            &&& (r matches PartView::Good(v, q) ==> (q < t.len() ==> r2 == PartView::Good(v, q)
                && tb2 == tb))
            &&& (r is NotComplete ==> sp_function(t + u, pos, tb) == sp_function(t + u, pos, tbl))
        }),
    decreases t.len() - pos, 4int,
{
    lemma_prefix(t, u);
    let len = t.len() as int;
    if pos < len {
        stable_prototype(t, u, pos + 1);
        match sp_prototype(t, pos + 1) {
            PartView::Good(proto, qx) => {
                let tbl2 = match proto.fn_type {
                    FnTypeView::BinaryOp(op, prec) => tbl.insert(op, prec),
                    _ => tbl,
                };
                let q = step_pos(pos, qx, len);
                stable_expr(t, u, q, tbl2);
                assert(step_pos(pos, qx, (t + u).len() as int) == q);
                // declaring the same operator with the same precedence twice
                // is declaring it once
                match proto.fn_type {
                    FnTypeView::BinaryOp(op, prec) => {
                        assert(tbl2.insert(op, prec) =~= tbl2);
                    },
                    _ => {},
                }
                if q == len {
                    assert(sp_expr(t, q, tbl2) is NotComplete);
                }
            },
            PartView::NotComplete => {},
            PartView::Bad => {},
        }
    }
}

/// A bare top-level expression is read the same way in the appended buffer.
proof fn stable_expression_lemma(
    t: Seq<TokenView>,
    u: Seq<TokenView>,
    pos: int,
    tbl: Map<Seq<char>, int>,
)
    requires
        0 <= pos <= t.len(),
    ensures
        bounded(sp_expression(t, pos, tbl), pos, t.len() as int),
        stable_to(sp_expression(t, pos, tbl), sp_expression(t + u, pos, tbl), t.len() as int),
    decreases t.len() - pos, 4int,
{
    lemma_prefix(t, u);
    stable_expr(t, u, pos, tbl);
}

/// The law of resumability. A driver run over the whole buffer that aborted
/// still aborts when tokens are appended, with the operator table unchanged;
/// and a run that stopped cleanly before the end of the buffer — at an
/// incomplete construct — is, on the appended buffer, exactly a run that
/// starts from the position, table and items where the first run stopped. A
/// caller that keeps the leftover tokens, appends the newly arrived ones and
/// parses again with the same session therefore loses nothing and repeats
/// nothing, except the attempt at the one incomplete construct.
pub proof fn lemma_driver_resumes(
    t: Seq<TokenView>,
    u: Seq<TokenView>,
    pos: int,
    tbl: Map<Seq<char>, int>,
    acc: Seq<NodeView>,
)
    requires
        0 <= pos <= t.len(),
    ensures
        ({
            let g = sp_top(t, pos, tbl, acc);
            let g2 = sp_top(t + u, pos, tbl, acc);
            &&& (g.failed ==> g2.failed && g2.ops == g.ops)
            &&& (!g.failed ==> pos <= g.pos && g.pos <= t.len())
            &&& (!g.failed && g.pos < t.len() ==> g2 == sp_top(t + u, g.pos, g.ops, g.nodes))
        }),
    decreases t.len() - pos, 8int,
{
    lemma_prefix(t, u);
    let len = t.len() as int;
    if pos < len {
        match t[pos] {
            TokenView::Delimiter => {
                lemma_driver_resumes(t, u, pos + 1, tbl, acc);
            },
            TokenView::Function => {
                stable_function_lemma(t, u, pos, tbl);
                let (r, tb) = sp_function(t, pos, tbl);
                match r {
                    PartView::Good(node, qx) => {
                        let q = step_pos(pos, qx, len);
                        lemma_driver_resumes(t, u, q, tb, acc.push(node));
                        if q < len {
                            assert(step_pos(pos, qx, (t + u).len() as int) == q);
                        } else {
                            assert(sp_top(t, q, tb, acc.push(node)) == (DriveView {
                                failed: false,
                                nodes: acc.push(node),
                                pos: q,
                                ops: tb,
                            }));
                        }
                    },
                    PartView::NotComplete => {},
                    PartView::Bad => {},
                }
            },
            TokenView::Extern => {
                stable_extern_lemma(t, u, pos);
                match sp_extern(t, pos) {
                    PartView::Good(node, qx) => {
                        let q = step_pos(pos, qx, len);
                        lemma_driver_resumes(t, u, q, tbl, acc.push(node));
                        assert(step_pos(pos, qx, (t + u).len() as int) == q);
                        if q >= len {
                            assert(sp_top(t, q, tbl, acc.push(node)) == (DriveView {
                                failed: false,
                                nodes: acc.push(node),
                                pos: q,
                                ops: tbl,
                            }));
                        }
                    },
                    PartView::NotComplete => {},
                    PartView::Bad => {},
                }
            },
            _ => {
                stable_expression_lemma(t, u, pos, tbl);
                match sp_expression(t, pos, tbl) {
                    PartView::Good(node, qx) => {
                        let q = step_pos(pos, qx, len);
                        lemma_driver_resumes(t, u, q, tbl, acc.push(node));
                        if q < len {
                            assert(step_pos(pos, qx, (t + u).len() as int) == q);
                        } else {
                            assert(sp_top(t, q, tbl, acc.push(node)) == (DriveView {
                                failed: false,
                                nodes: acc.push(node),
                                pos: q,
                                ops: tbl,
                            }));
                        }
                    },
                    PartView::NotComplete => {},
                    PartView::Bad => {},
                }
            },
        }
    }
}

} // verus!
