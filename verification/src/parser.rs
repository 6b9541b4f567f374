//! The executable parser. Every function here is proved to return exactly
//! what the corresponding spec function of [`crate::grammar`] says.
//!
//! The token buffer is never mutated: each parsing operation receives the
//! position of the first token it may read and reports in its result how far
//! it came. An operation that runs out of tokens reports [`PartParsingResult::NotComplete`]
//! without consuming anything, so the caller can gather more tokens and start
//! over; a syntax failure aborts the whole parse with a message.

use vstd::prelude::*;
use vstd::string::StringExecFns;
use crate::tokens::{Tokens, toks_view, number_one};
use crate::ast::{
    Expression, ExprView, Prototype, FunctionType, ASTNode, exprs_view, bindings_view,
    strings_view,
};
use crate::grammar::{
    PartView, step_pos, stay_pos, sp_literal, sp_ident_expr, sp_call_args, sp_paren_expr,
    sp_unary_expr, sp_conditional_expr, sp_loop_expr, sp_loop_tail, sp_loop_step, sp_loop_end,
    sp_let_bindings, sp_let_expr, sp_primary_expr, sp_binary_expr, sp_climb, sp_expr, takes_op,
    sp_proto_args, sp_prototype, sp_proto_name, sp_proto_params, sp_extern, sp_function,
    sp_expression, sp_top, DriveView,
};
use crate::ast::{Functions, ProtoView, NodeView, nodes_view};
use crate::settings::ParserSettings;

verus! {

/// The outcome of one parsing operation: the parsed value and the position
/// right after the tokens it consumed, or the signal that the tokens ran out
/// before the construct could be judged, or a syntax failure with its
/// message.
pub enum PartParsingResult<T> {
    Good(T, usize),
    NotComplete,
    Bad(String),
}

/// The value of an expression outcome.
pub open spec fn part_expr(r: PartParsingResult<Expression>) -> PartView<ExprView> {
    match r {
        PartParsingResult::Good(v, q) => PartView::Good(v@, q as int),
        PartParsingResult::NotComplete => PartView::NotComplete,
        PartParsingResult::Bad(_) => PartView::Bad,
    }
}

/// The value of a call-argument-list outcome.
pub open spec fn part_exprs(r: PartParsingResult<Vec<Expression>>) -> PartView<Seq<ExprView>> {
    match r {
        PartParsingResult::Good(v, q) => PartView::Good(exprs_view(v@), q as int),
        PartParsingResult::NotComplete => PartView::NotComplete,
        PartParsingResult::Bad(_) => PartView::Bad,
    }
}

/// The value of a binding-list outcome.
pub open spec fn part_bindings(r: PartParsingResult<Vec<(String, Expression)>>) -> PartView<
    Seq<(Seq<char>, ExprView)>,
> {
    match r {
        PartParsingResult::Good(v, q) => PartView::Good(bindings_view(v@), q as int),
        PartParsingResult::NotComplete => PartView::NotComplete,
        PartParsingResult::Bad(_) => PartView::Bad,
    }
}

/// Whether the symbol is the assignment operator `=`.
fn sym_is_assign(op: &String) -> (r: bool)
    ensures
        r == (op@ == "="@),
{
    let e: String = String::from_str("=");
    *op == e
}

/// A literal expression: one number token.
fn parse_literal_expr(tokens: &Vec<Tokens>, pos: usize) -> (r: PartParsingResult<Expression>)
    requires
        pos <= tokens@.len(),
    ensures
        part_expr(r) == sp_literal(toks_view(tokens@), pos as int),
        r matches PartParsingResult::Good(_, q) ==> pos < q && q <= tokens@.len(),
{
    if pos >= tokens.len() {
        return PartParsingResult::NotComplete;
    }
    match &tokens[pos] {
        Tokens::Number(value) => PartParsingResult::Good(
            Expression::LiteralExpr(*value),
            pos + 1,
        ),
        _ => PartParsingResult::Bad(String::from_str("literal expected")),
    }
}

/// A variable reference or a call: an identifier, and, if an opening
/// parenthesis follows directly, the call's argument list.
fn parse_ident_expr(tokens: &Vec<Tokens>, pos: usize, settings: &ParserSettings) -> (r:
    PartParsingResult<Expression>)
    requires
        pos <= tokens@.len(),
    ensures
        part_expr(r) == sp_ident_expr(toks_view(tokens@), pos as int, settings@),
        r matches PartParsingResult::Good(_, q) ==> pos < q && q <= tokens@.len(),
    decreases tokens@.len() - pos, 1int,
{
    if pos >= tokens.len() {
        return PartParsingResult::NotComplete;
    }
    let name: String = match &tokens[pos] {
        Tokens::Ident(name) => name.clone(),
        _ => {
            return PartParsingResult::Bad(String::from_str("identificator expected"));
        },
    };
    if pos + 1 < tokens.len() {
        match &tokens[pos + 1] {
            Tokens::OpeningParenthesis => {
                match parse_call_args(tokens, pos + 2, settings, Vec::new()) {
                    PartParsingResult::Good(args, q) => PartParsingResult::Good(
                        Expression::CallExpr(name, args),
                        q,
                    ),
                    PartParsingResult::NotComplete => PartParsingResult::NotComplete,
                    PartParsingResult::Bad(msg) => PartParsingResult::Bad(msg),
                }
            },
            _ => PartParsingResult::Good(Expression::VariableExpr(name), pos + 1),
        }
    } else {
        PartParsingResult::Good(Expression::VariableExpr(name), pos + 1)
    }
}

/// The arguments of a call, read until the closing parenthesis.
fn parse_call_args(
    tokens: &Vec<Tokens>,
    pos: usize,
    settings: &ParserSettings,
    args: Vec<Expression>,
) -> (r: PartParsingResult<Vec<Expression>>)
    requires
        pos <= tokens@.len(),
    ensures
        part_exprs(r) == sp_call_args(toks_view(tokens@), pos as int, settings@, exprs_view(args@)),
        r matches PartParsingResult::Good(_, q) ==> pos < q && q <= tokens@.len(),
    decreases tokens@.len() - pos, 4int,
{
    if pos >= tokens.len() {
        return PartParsingResult::NotComplete;
    }
    match &tokens[pos] {
        Tokens::ClosingParenthesis => PartParsingResult::Good(args, pos + 1),
        Tokens::Comma => parse_call_args(tokens, pos + 1, settings, args),
        _ => {
            match parse_expr(tokens, pos, settings) {
                PartParsingResult::Good(e, q) => {
                    let ghost old_args = args@;
                    let mut args = args;
                    proof {
                        crate::ast::lemma_exprs_view_push(old_args, e);
                        assert(step_pos(pos as int, q as int, tokens@.len() as int) == q as int);
                    }
                    args.push(e);
                    parse_call_args(tokens, q, settings, args)
                },
                PartParsingResult::NotComplete => PartParsingResult::NotComplete,
                PartParsingResult::Bad(msg) => PartParsingResult::Bad(msg),
            }
        },
    }
}

/// A parenthesized expression: the inner expression must be followed by the
/// closing parenthesis.
fn parse_parenthesis_expr(tokens: &Vec<Tokens>, pos: usize, settings: &ParserSettings) -> (r:
    PartParsingResult<Expression>)
    requires
        pos < tokens@.len(),
    ensures
        part_expr(r) == sp_paren_expr(toks_view(tokens@), pos as int, settings@),
        r matches PartParsingResult::Good(_, q) ==> pos < q && q <= tokens@.len(),
    decreases tokens@.len() - pos, 1int,
{
    let n: usize = tokens.len();
    match parse_expr(tokens, pos + 1, settings) {
        PartParsingResult::Good(e, q) => {
            proof {
                assert(step_pos(pos as int, q as int, tokens@.len() as int) == q as int);
            }
            if q >= n {
                return PartParsingResult::NotComplete;
            }
            match &tokens[q] {
                Tokens::ClosingParenthesis => PartParsingResult::Good(e, q + 1),
                _ => PartParsingResult::Bad(String::from_str("")),
            }
        },
        PartParsingResult::NotComplete => PartParsingResult::NotComplete,
        PartParsingResult::Bad(msg) => PartParsingResult::Bad(msg),
    }
}

/// A unary expression: an operator symbol applied to the primary after it.
fn parse_unary_expr(tokens: &Vec<Tokens>, pos: usize, settings: &ParserSettings) -> (r:
    PartParsingResult<Expression>)
    requires
        pos <= tokens@.len(),
    ensures
        part_expr(r) == sp_unary_expr(toks_view(tokens@), pos as int, settings@),
        r matches PartParsingResult::Good(_, q) ==> pos < q && q <= tokens@.len(),
    decreases tokens@.len() - pos, 1int,
{
    if pos >= tokens.len() {
        return PartParsingResult::NotComplete;
    }
    let name: String = match &tokens[pos] {
        Tokens::Operator(name) => name.clone(),
        _ => {
            return PartParsingResult::Bad(String::from_str("unary operator expected"));
        },
    };
    match parse_primary_expr(tokens, pos + 1, settings) {
        PartParsingResult::Good(operand, q) => PartParsingResult::Good(
            Expression::UnaryExpr(name, Box::new(operand)),
            q,
        ),
        PartParsingResult::NotComplete => PartParsingResult::NotComplete,
        PartParsingResult::Bad(msg) => PartParsingResult::Bad(msg),
    }
}

/// A conditional: `if` condition `then` consequence `else` alternative.
fn parse_conditional_expr(tokens: &Vec<Tokens>, pos: usize, settings: &ParserSettings) -> (r:
    PartParsingResult<Expression>)
    requires
        pos < tokens@.len(),
    ensures
        part_expr(r) == sp_conditional_expr(toks_view(tokens@), pos as int, settings@),
        r matches PartParsingResult::Good(_, q) ==> pos < q && q <= tokens@.len(),
    decreases tokens@.len() - pos, 1int,
{
    let n: usize = tokens.len();
    let cond = match parse_expr(tokens, pos + 1, settings) {
        PartParsingResult::Good(cond, q1) => (cond, q1),
        PartParsingResult::NotComplete => {
            return PartParsingResult::NotComplete;
        },
        PartParsingResult::Bad(msg) => {
            return PartParsingResult::Bad(msg);
        },
    };
    let (cond, q1) = cond;
    proof {
        assert(step_pos(pos as int, q1 as int, tokens@.len() as int) == q1 as int);
    }
    if q1 >= n {
        return PartParsingResult::NotComplete;
    }
    match &tokens[q1] {
        Tokens::Then => {},
        _ => {
            return PartParsingResult::Bad(String::from_str("expected then"));
        },
    }
    let cons = match parse_expr(tokens, q1 + 1, settings) {
        PartParsingResult::Good(cons, q2) => (cons, q2),
        PartParsingResult::NotComplete => {
            return PartParsingResult::NotComplete;
        },
        PartParsingResult::Bad(msg) => {
            return PartParsingResult::Bad(msg);
        },
    };
    let (cons, q2) = cons;
    proof {
        assert(step_pos(q1 as int, q2 as int, tokens@.len() as int) == q2 as int);
    }
    if q2 >= n {
        return PartParsingResult::NotComplete;
    }
    match &tokens[q2] {
        Tokens::Else => {},
        _ => {
            return PartParsingResult::Bad(String::from_str("expected else"));
        },
    }
    match parse_expr(tokens, q2 + 1, settings) {
        PartParsingResult::Good(alt, q3) => PartParsingResult::Good(
            Expression::ConditionalExpr {
                cond_expr: Box::new(cond),
                then_expr: Box::new(cons),
                else_expr: Box::new(alt),
            },
            q3,
        ),
        PartParsingResult::NotComplete => PartParsingResult::NotComplete,
        PartParsingResult::Bad(msg) => PartParsingResult::Bad(msg),
    }
}

/// A loop: `for` name `=` start, an optional comma-introduced step, the end
/// expression, `in`, and the body. A missing step is the literal one.
fn parse_loop_expr(tokens: &Vec<Tokens>, pos: usize, settings: &ParserSettings) -> (r:
    PartParsingResult<Expression>)
    requires
        pos < tokens@.len(),
    ensures
        part_expr(r) == sp_loop_expr(toks_view(tokens@), pos as int, settings@),
        r matches PartParsingResult::Good(_, q) ==> pos < q && q <= tokens@.len(),
    decreases tokens@.len() - pos, 1int,
{
    let n: usize = tokens.len();
    if pos + 1 >= n {
        return PartParsingResult::NotComplete;
    }
    let var_name: String = match &tokens[pos + 1] {
        Tokens::Ident(name) => name.clone(),
        _ => {
            return PartParsingResult::Bad(String::from_str("expected identifier after for"));
        },
    };
    if pos + 2 >= n {
        return PartParsingResult::NotComplete;
    }
    match &tokens[pos + 2] {
        Tokens::Operator(op) => {
            if !sym_is_assign(op) {
                return PartParsingResult::Bad(String::from_str("expected '=' after for"));
            }
        },
        _ => {
            return PartParsingResult::Bad(String::from_str("expected '=' after for"));
        },
    }
    match parse_expr(tokens, pos + 3, settings) {
        PartParsingResult::Good(start, q1) => {
            proof {
                assert(step_pos(pos as int + 2, q1 as int, tokens@.len() as int) == q1 as int);
            }
            parse_loop_tail(tokens, q1, settings, var_name, start)
        },
        PartParsingResult::NotComplete => PartParsingResult::NotComplete,
        PartParsingResult::Bad(msg) => PartParsingResult::Bad(msg),
    }
}

/// The rest of a loop after its start expression, which ended at `q1`: the
/// optional step, the end expression, `in`, and the body.
fn parse_loop_tail(
    tokens: &Vec<Tokens>,
    q1: usize,
    settings: &ParserSettings,
    var_name: String,
    start: Expression,
) -> (r: PartParsingResult<Expression>)
    requires
        q1 <= tokens@.len(),
    ensures
        part_expr(r) == sp_loop_tail(
            toks_view(tokens@),
            q1 as int,
            settings@,
            var_name@,
            start@,
        ),
        r matches PartParsingResult::Good(_, q) ==> q1 < q && q <= tokens@.len(),
    decreases tokens@.len() - q1, 5int,
{
    match parse_loop_step(tokens, q1, settings) {
        PartParsingResult::Good(step, q2) => {
            proof {
                assert(stay_pos(q1 as int, q2 as int, tokens@.len() as int) == q2 as int);
            }
            parse_loop_end(tokens, q2, settings, var_name, start, step)
        },
        PartParsingResult::NotComplete => PartParsingResult::NotComplete,
        PartParsingResult::Bad(msg) => PartParsingResult::Bad(msg),
    }
}

/// The optional step of a loop: a comma introduces it; anything else leaves
/// the literal one and consumes nothing.
fn parse_loop_step(tokens: &Vec<Tokens>, q1: usize, settings: &ParserSettings) -> (r:
    PartParsingResult<Expression>)
    requires
        q1 <= tokens@.len(),
    ensures
        part_expr(r) == sp_loop_step(toks_view(tokens@), q1 as int, settings@),
        r matches PartParsingResult::Good(_, q) ==> q1 <= q && q <= tokens@.len(),
    decreases tokens@.len() - q1, 0int,
{
    if q1 < tokens.len() && matches!(&tokens[q1], Tokens::Comma) {
        match parse_expr(tokens, q1 + 1, settings) {
            PartParsingResult::Good(step, q2) => {
                proof {
                    assert(step_pos(q1 as int, q2 as int, tokens@.len() as int) == q2 as int);
                }
                PartParsingResult::Good(step, q2)
            },
            PartParsingResult::NotComplete => PartParsingResult::NotComplete,
            PartParsingResult::Bad(msg) => PartParsingResult::Bad(msg),
        }
    } else {
        PartParsingResult::Good(Expression::LiteralExpr(number_one()), q1)
    }
}

/// The end of a loop, starting right after the step at `q2`: the end
/// expression, `in`, and the body.
fn parse_loop_end(
    tokens: &Vec<Tokens>,
    q2: usize,
    settings: &ParserSettings,
    var_name: String,
    start: Expression,
    step: Expression,
) -> (r: PartParsingResult<Expression>)
    requires
        q2 <= tokens@.len(),
    ensures
        part_expr(r) == sp_loop_end(
            toks_view(tokens@),
            q2 as int,
            settings@,
            var_name@,
            start@,
            step@,
        ),
        r matches PartParsingResult::Good(_, q) ==> q2 < q && q <= tokens@.len(),
    decreases tokens@.len() - q2, 4int,
{
    let n: usize = tokens.len();
    let end = match parse_expr(tokens, q2, settings) {
        PartParsingResult::Good(end, q3) => {
            proof {
                assert(step_pos(q2 as int - 1, q3 as int, tokens@.len() as int) == q3 as int);
            }
            (end, q3)
        },
        PartParsingResult::NotComplete => {
            return PartParsingResult::NotComplete;
        },
        PartParsingResult::Bad(msg) => {
            return PartParsingResult::Bad(msg);
        },
    };
    let (end, q3) = end;
    if q3 >= n {
        return PartParsingResult::NotComplete;
    }
    match &tokens[q3] {
        Tokens::In => {},
        _ => {
            return PartParsingResult::Bad(String::from_str("expected in after for"));
        },
    }
    match parse_expr(tokens, q3 + 1, settings) {
        PartParsingResult::Good(body, q4) => PartParsingResult::Good(
            Expression::LoopExpr {
                var_name,
                start_expr: Box::new(start),
                end_expr: Box::new(end),
                step_expr: Box::new(step),
                body_expr: Box::new(body),
            },
            q4,
        ),
        PartParsingResult::NotComplete => PartParsingResult::NotComplete,
        PartParsingResult::Bad(msg) => PartParsingResult::Bad(msg),
    }
}

/// The bindings of a `let`: one or more `name [= initializer]`, separated by
/// commas. A missing initializer is the literal one.
fn parse_let_bindings(
    tokens: &Vec<Tokens>,
    pos: usize,
    settings: &ParserSettings,
    vars: Vec<(String, Expression)>,
) -> (r: PartParsingResult<Vec<(String, Expression)>>)
    requires
        pos <= tokens@.len(),
    ensures
        part_bindings(r) == sp_let_bindings(
            toks_view(tokens@),
            pos as int,
            settings@,
            bindings_view(vars@),
        ),
        r matches PartParsingResult::Good(_, q) ==> pos < q && q <= tokens@.len(),
    decreases tokens@.len() - pos, 0int,
{
    if pos >= tokens.len() {
        return PartParsingResult::NotComplete;
    }
    let name: String = match &tokens[pos] {
        Tokens::Ident(name) => name.clone(),
        _ => {
            return PartParsingResult::Bad(String::from_str("expected identifier list after let"));
        },
    };
    let mut vars = vars;
    let ghost old_vars = vars@;
    if pos + 1 < tokens.len() && matches!(&tokens[pos + 1], Tokens::Operator(_)) {
        let op: &String = match &tokens[pos + 1] {
            Tokens::Operator(op) => op,
            _ => {
                return PartParsingResult::Bad(String::from_str(""));  // unreachable
            },
        };
        if !sym_is_assign(op) {
            return PartParsingResult::Bad(
                String::from_str("expected '=' in variable initialization"),
            );
        }
        match parse_expr(tokens, pos + 2, settings) {
            PartParsingResult::Good(init, q) => {
                proof {
                    crate::ast::lemma_bindings_view_push(old_vars, (name, init));
                    assert(step_pos(pos as int + 1, q as int, tokens@.len() as int) == q as int);
                }
                vars.push((name, init));
                if q < tokens.len() && matches!(&tokens[q], Tokens::Comma) {
                    parse_let_bindings(tokens, q + 1, settings, vars)
                } else {
                    PartParsingResult::Good(vars, q)
                }
            },
            PartParsingResult::NotComplete => PartParsingResult::NotComplete,
            PartParsingResult::Bad(msg) => PartParsingResult::Bad(msg),
        }
    } else {
        let init = Expression::LiteralExpr(number_one());
        proof {
            crate::ast::lemma_bindings_view_push(old_vars, (name, init));
        }
        vars.push((name, init));
        if pos + 1 < tokens.len() && matches!(&tokens[pos + 1], Tokens::Comma) {
            parse_let_bindings(tokens, pos + 2, settings, vars)
        } else {
            PartParsingResult::Good(vars, pos + 1)
        }
    }
}

/// A `let` binding expression: `let`, the bindings, `in`, and the body.
fn parse_let_expr(tokens: &Vec<Tokens>, pos: usize, settings: &ParserSettings) -> (r:
    PartParsingResult<Expression>)
    requires
        pos < tokens@.len(),
    ensures
        part_expr(r) == sp_let_expr(toks_view(tokens@), pos as int, settings@),
        r matches PartParsingResult::Good(_, q) ==> pos < q && q <= tokens@.len(),
    decreases tokens@.len() - pos, 1int,
{
    let n: usize = tokens.len();
    let vars = match parse_let_bindings(tokens, pos + 1, settings, Vec::new()) {
        PartParsingResult::Good(vars, q) => (vars, q),
        PartParsingResult::NotComplete => {
            return PartParsingResult::NotComplete;
        },
        PartParsingResult::Bad(msg) => {
            return PartParsingResult::Bad(msg);
        },
    };
    let (vars, q) = vars;
    proof {
        assert(bindings_view(Seq::<(String, Expression)>::empty()) =~= Seq::empty());
        assert(step_pos(pos as int, q as int, tokens@.len() as int) == q as int);
    }
    if q >= n {
        return PartParsingResult::NotComplete;
    }
    match &tokens[q] {
        Tokens::In => {},
        _ => {
            return PartParsingResult::Bad(String::from_str("expected 'in' after var"));
        },
    }
    match parse_expr(tokens, q + 1, settings) {
        PartParsingResult::Good(body, q2) => PartParsingResult::Good(
            Expression::VarExpr { vars, body_expr: Box::new(body) },
            q2,
        ),
        PartParsingResult::NotComplete => PartParsingResult::NotComplete,
        PartParsingResult::Bad(msg) => PartParsingResult::Bad(msg),
    }
}

/// A primary expression, dispatched on the kind of the next token. Running
/// out of tokens is incompleteness, never failure; a token kind that cannot
/// begin an expression is a failure.
fn parse_primary_expr(tokens: &Vec<Tokens>, pos: usize, settings: &ParserSettings) -> (r:
    PartParsingResult<Expression>)
    requires
        pos <= tokens@.len(),
    ensures
        part_expr(r) == sp_primary_expr(toks_view(tokens@), pos as int, settings@),
        r matches PartParsingResult::Good(_, q) ==> pos < q && q <= tokens@.len(),
    decreases tokens@.len() - pos, 2int,
{
    if pos >= tokens.len() {
        return PartParsingResult::NotComplete;
    }
    match &tokens[pos] {
        Tokens::Ident(_) => parse_ident_expr(tokens, pos, settings),
        Tokens::Number(_) => parse_literal_expr(tokens, pos),
        Tokens::If => parse_conditional_expr(tokens, pos, settings),
        Tokens::For => parse_loop_expr(tokens, pos, settings),
        Tokens::Let => parse_let_expr(tokens, pos, settings),
        Tokens::Operator(_) => parse_unary_expr(tokens, pos, settings),
        Tokens::OpeningParenthesis => parse_parenthesis_expr(tokens, pos, settings),
        _ => PartParsingResult::Bad(
            String::from_str("Unexpected token when expecting an expression"),
        ),
    }
}

/// Precedence climbing over an already-parsed left operand: while the next
/// token is an operator the table knows at `min_prec` or above, its right
/// operand is parsed and folded on; an operator the table does not know is a
/// failure; anything else ends the expression.
fn parse_binary_expr(
    tokens: &Vec<Tokens>,
    pos: usize,
    settings: &ParserSettings,
    min_prec: i32,
    lhs: Expression,
) -> (r: PartParsingResult<Expression>)
    requires
        pos <= tokens@.len(),
    ensures
        part_expr(r) == sp_binary_expr(
            toks_view(tokens@),
            pos as int,
            settings@,
            min_prec as int,
            lhs@,
        ),
        r matches PartParsingResult::Good(_, q) ==> pos <= q && q <= tokens@.len(),
        takes_op(toks_view(tokens@), pos as int, settings@, min_prec as int) ==> (r matches
            PartParsingResult::Good(_, q) ==> pos < q),
    decreases tokens@.len() - pos, 0int,
{
    if pos >= tokens.len() {
        return PartParsingResult::Good(lhs, pos);
    }
    match &tokens[pos] {
        Tokens::Operator(op) => {
            match settings.lookup(op) {
                None => PartParsingResult::Bad(String::from_str("unknown operator found")),
                Some(prec) => {
                    if prec >= min_prec {
                        match parse_primary_expr(tokens, pos + 1, settings) {
                            PartParsingResult::Good(rhs0, q1) => {
                                proof {
                                    assert(step_pos(pos as int, q1 as int, tokens@.len() as int)
                                        == q1 as int);
                                }
                                match parse_climb(tokens, q1, settings, prec, rhs0) {
                                    PartParsingResult::Good(rhs, q2) => {
                                        proof {
                                            assert(step_pos(
                                                pos as int,
                                                q2 as int,
                                                tokens@.len() as int,
                                            ) == q2 as int);
                                        }
                                        parse_binary_expr(
                                            tokens,
                                            q2,
                                            settings,
                                            min_prec,
                                            Expression::BinaryExpr(
                                                op.clone(),
                                                Box::new(lhs),
                                                Box::new(rhs),
                                            ),
                                        )
                                    },
                                    PartParsingResult::NotComplete => PartParsingResult::NotComplete,
                                    PartParsingResult::Bad(msg) => PartParsingResult::Bad(msg),
                                }
                            },
                            PartParsingResult::NotComplete => PartParsingResult::NotComplete,
                            PartParsingResult::Bad(msg) => PartParsingResult::Bad(msg),
                        }
                    } else {
                        PartParsingResult::Good(lhs, pos)
                    }
                },
            }
        },
        _ => PartParsingResult::Good(lhs, pos),
    }
}

/// Resolves operators to the right of a freshly parsed right operand: as long
/// as the next operator binds strictly tighter than `prec`, it is folded into
/// the right operand first.
fn parse_climb(
    tokens: &Vec<Tokens>,
    pos: usize,
    settings: &ParserSettings,
    prec: i32,
    rhs: Expression,
) -> (r: PartParsingResult<Expression>)
    requires
        pos <= tokens@.len(),
    ensures
        part_expr(r) == sp_climb(toks_view(tokens@), pos as int, settings@, prec as int, rhs@),
        r matches PartParsingResult::Good(_, q) ==> pos <= q && q <= tokens@.len(),
    decreases tokens@.len() - pos, 1int,
{
    if pos >= tokens.len() {
        return PartParsingResult::Good(rhs, pos);
    }
    match &tokens[pos] {
        Tokens::Operator(op) => {
            match settings.lookup(op) {
                None => PartParsingResult::Bad(String::from_str("unknown operator found")),
                Some(prec2) => {
                    if prec2 > prec {
                        match parse_binary_expr(tokens, pos, settings, prec2, rhs) {
                            PartParsingResult::Good(rhs2, q) => {
                                proof {
                                    assert(takes_op(
                                        toks_view(tokens@),
                                        pos as int,
                                        settings@,
                                        prec2 as int,
                                    ));
                                    assert(step_pos(pos as int, q as int, tokens@.len() as int)
                                        == q as int);
                                }
                                parse_climb(tokens, q, settings, prec, rhs2)
                            },
                            PartParsingResult::NotComplete => PartParsingResult::NotComplete,
                            PartParsingResult::Bad(msg) => PartParsingResult::Bad(msg),
                        }
                    } else {
                        PartParsingResult::Good(rhs, pos)
                    }
                },
            }
        },
        _ => PartParsingResult::Good(rhs, pos),
    }
}

/// A whole expression: a primary followed by precedence climbing from the
/// lowest threshold.
fn parse_expr(tokens: &Vec<Tokens>, pos: usize, settings: &ParserSettings) -> (r:
    PartParsingResult<Expression>)
    requires
        pos <= tokens@.len(),
    ensures
        part_expr(r) == sp_expr(toks_view(tokens@), pos as int, settings@),
        r matches PartParsingResult::Good(_, q) ==> pos < q && q <= tokens@.len(),
    decreases tokens@.len() - pos, 3int,
{
    match parse_primary_expr(tokens, pos, settings) {
        PartParsingResult::Good(lhs, q) => {
            proof {
                assert(step_pos(pos as int, q as int, tokens@.len() as int) == q as int);
            }
            parse_binary_expr(tokens, q, settings, 0, lhs)
        },
        PartParsingResult::NotComplete => PartParsingResult::NotComplete,
        PartParsingResult::Bad(msg) => PartParsingResult::Bad(msg),
    }
}

/// The value of a prototype outcome.
pub open spec fn part_proto(r: PartParsingResult<Prototype>) -> PartView<ProtoView> {
    match r {
        PartParsingResult::Good(v, q) => PartView::Good(v@, q as int),
        PartParsingResult::NotComplete => PartView::NotComplete,
        PartParsingResult::Bad(_) => PartView::Bad,
    }
}

/// The value of a top-level-item outcome.
pub open spec fn part_node(r: PartParsingResult<ASTNode>) -> PartView<NodeView> {
    match r {
        PartParsingResult::Good(v, q) => PartView::Good(v@, q as int),
        PartParsingResult::NotComplete => PartView::NotComplete,
        PartParsingResult::Bad(_) => PartView::Bad,
    }
}

/// The value of a parameter-list outcome.
pub open spec fn part_strs(r: PartParsingResult<Vec<String>>) -> PartView<Seq<Seq<char>>> {
    match r {
        PartParsingResult::Good(v, q) => PartView::Good(strings_view(v@), q as int),
        PartParsingResult::NotComplete => PartView::NotComplete,
        PartParsingResult::Bad(_) => PartView::Bad,
    }
}

/// The parameter list of a prototype, read until the closing parenthesis:
/// identifiers are collected, commas are consumed and ignored, anything else
/// is a failure.
fn parse_proto_args(tokens: &Vec<Tokens>, pos: usize, args: Vec<String>) -> (r: PartParsingResult<
    Vec<String>,
>)
    requires
        pos <= tokens@.len(),
    ensures
        part_strs(r) == sp_proto_args(toks_view(tokens@), pos as int, strings_view(args@)),
        r matches PartParsingResult::Good(_, q) ==> pos < q && q <= tokens@.len(),
    decreases tokens@.len() - pos, 0int,
{
    if pos >= tokens.len() {
        return PartParsingResult::NotComplete;
    }
    match &tokens[pos] {
        Tokens::Ident(arg) => {
            let ghost old_args = args@;
            let mut args = args;
            args.push(arg.clone());
            proof {
                assert(strings_view(args@) =~= strings_view(old_args).push(arg@));
            }
            parse_proto_args(tokens, pos + 1, args)
        },
        Tokens::Comma => parse_proto_args(tokens, pos + 1, args),
        Tokens::ClosingParenthesis => PartParsingResult::Good(args, pos + 1),
        _ => PartParsingResult::Bad(String::from_str("expected ')' in prototype")),
    }
}

/// The name part of a prototype: a plain identifier, or `unary` with one
/// operator symbol, or `binary` with one operator symbol and an optional
/// precedence (30 when omitted, a failure outside 1 to 100).
fn parse_proto_name(tokens: &Vec<Tokens>, pos: usize) -> (r: PartParsingResult<
    (String, FunctionType),
>)
    requires
        pos < tokens@.len(),
    ensures
        ({
            let s = sp_proto_name(toks_view(tokens@), pos as int);
            match r {
                PartParsingResult::Good(v, k) => s == PartView::Good(
                    (v.0@, v.1@),
                    k as int,
                ) && pos < k && k <= tokens@.len(),
                PartParsingResult::NotComplete => s is NotComplete,
                PartParsingResult::Bad(_) => s is Bad,
            }
        }),
{
    let n: usize = tokens.len();
    match &tokens[pos] {
        Tokens::Ident(name) => PartParsingResult::Good(
            (name.clone(), FunctionType::Normal),
            pos + 1,
        ),
        Tokens::Unary => {
            if pos + 1 >= n {
                return PartParsingResult::NotComplete;
            }
            match &tokens[pos + 1] {
                Tokens::Operator(op) => PartParsingResult::Good(
                    (
                        String::from_str("unary").concat(op.as_str()),
                        FunctionType::UnaryOp(op.clone()),
                    ),
                    pos + 2,
                ),
                _ => PartParsingResult::Bad(String::from_str("expected unary operator")),
            }
        },
        Tokens::Binary => {
            if pos + 1 >= n {
                return PartParsingResult::NotComplete;
            }
            match &tokens[pos + 1] {
                Tokens::Operator(op) => {
                    let numbered: (i32, usize) = if pos + 2 < n {
                        match &tokens[pos + 2] {
                            Tokens::Number(value) => (value.whole, pos + 3),
                            _ => (30, pos + 2),
                        }
                    } else {
                        (30, pos + 2)
                    };
                    let (prec, k) = numbered;
                    if prec < 1 || prec > 100 {
                        return PartParsingResult::Bad(
                            String::from_str("invalid precedecnce: must be 1..100"),
                        );
                    }
                    PartParsingResult::Good(
                        (
                            String::from_str("binary").concat(op.as_str()),
                            FunctionType::BinaryOp(op.clone(), prec),
                        ),
                        k,
                    )
                },
                _ => PartParsingResult::Bad(String::from_str("expected binary operator")),
            }
        },
        _ => PartParsingResult::Bad(String::from_str("expected function name in prototype")),
    }
}

/// The parameter part of a prototype, starting at the expected opening
/// parenthesis: the parameter list, then the arity check of the kind.
fn parse_proto_params(tokens: &Vec<Tokens>, k: usize, name: String, fn_type: FunctionType) -> (r:
    PartParsingResult<Prototype>)
    requires
        k <= tokens@.len(),
    ensures
        part_proto(r) == sp_proto_params(toks_view(tokens@), k as int, name@, fn_type@),
        r matches PartParsingResult::Good(_, q) ==> k < q && q <= tokens@.len(),
{
    let n: usize = tokens.len();
    if k >= n {
        return PartParsingResult::NotComplete;
    }
    match &tokens[k] {
        Tokens::OpeningParenthesis => {},
        _ => {
            return PartParsingResult::Bad(String::from_str("expected '(' in prototype"));
        },
    }
    proof {
        assert(strings_view(Seq::<String>::empty()) =~= Seq::<Seq<char>>::empty());
    }
    match parse_proto_args(tokens, k + 1, Vec::new()) {
        PartParsingResult::Good(args, q) => {
            match &fn_type {
                FunctionType::UnaryOp(_) => {
                    if args.len() != 1 {
                        return PartParsingResult::Bad(
                            String::from_str("invalid of operands for unary operator"),
                        );
                    }
                },
                FunctionType::BinaryOp(_, _) => {
                    if args.len() != 2 {
                        return PartParsingResult::Bad(
                            String::from_str("invalid number of operands for binary operator"),
                        );
                    }
                },
                FunctionType::Normal => {},
            }
            PartParsingResult::Good(Prototype { name, fn_type, args }, q)
        },
        PartParsingResult::NotComplete => PartParsingResult::NotComplete,
        PartParsingResult::Bad(msg) => PartParsingResult::Bad(msg),
    }
}

/// A prototype: its name part, then its parenthesized parameter list.
fn parse_prototype(tokens: &Vec<Tokens>, pos: usize) -> (r: PartParsingResult<Prototype>)
    requires
        pos <= tokens@.len(),
    ensures
        part_proto(r) == sp_prototype(toks_view(tokens@), pos as int),
        r matches PartParsingResult::Good(_, q) ==> pos < q && q <= tokens@.len(),
{
    if pos >= tokens.len() {
        return PartParsingResult::NotComplete;
    }
    match parse_proto_name(tokens, pos) {
        PartParsingResult::Good(named, k) => {
            let (name, fn_type) = named;
            proof {
                assert(step_pos(pos as int, k as int, tokens@.len() as int) == k as int);
            }
            parse_proto_params(tokens, k, name, fn_type)
        },
        PartParsingResult::NotComplete => PartParsingResult::NotComplete,
        PartParsingResult::Bad(msg) => PartParsingResult::Bad(msg),
    }
}

/// An `extern` declaration: the keyword, then a prototype.
fn parse_extern(tokens: &Vec<Tokens>, pos: usize) -> (r: PartParsingResult<ASTNode>)
    requires
        pos < tokens@.len(),
    ensures
        part_node(r) == sp_extern(toks_view(tokens@), pos as int),
        r matches PartParsingResult::Good(_, q) ==> pos < q && q <= tokens@.len(),
{
    let _n: usize = tokens.len();
    match parse_prototype(tokens, pos + 1) {
        PartParsingResult::Good(proto, q) => PartParsingResult::Good(
            ASTNode::ExternNode(proto),
            q,
        ),
        PartParsingResult::NotComplete => PartParsingResult::NotComplete,
        PartParsingResult::Bad(msg) => PartParsingResult::Bad(msg),
    }
}

/// A function definition: the `function` keyword, a prototype, and a body
/// expression. A prototype declaring a binary operator extends the operator
/// table before the body is parsed, so the operator is usable inside its own
/// definition; the table keeps that entry whatever the body's outcome.
fn parse_function(tokens: &Vec<Tokens>, pos: usize, settings: &mut ParserSettings) -> (r:
    PartParsingResult<ASTNode>)
    requires
        pos < tokens@.len(),
    ensures
        ({
            let fr = sp_function(toks_view(tokens@), pos as int, old(settings)@);
            part_node(r) == fr.0 && final(settings)@ == fr.1
        }),
        r matches PartParsingResult::Good(_, q) ==> pos < q && q <= tokens@.len(),
{
    let _n: usize = tokens.len();
    match parse_prototype(tokens, pos + 1) {
        PartParsingResult::Good(proto, q1) => {
            match &proto.fn_type {
                FunctionType::BinaryOp(op, prec) => {
                    settings.declare(op, *prec);
                },
                _ => {},
            }
            proof {
                assert(step_pos(pos as int, q1 as int, tokens@.len() as int) == q1 as int);
            }
            match parse_expr(tokens, q1, settings) {
                PartParsingResult::Good(body, q2) => PartParsingResult::Good(
                    ASTNode::FunctionsNode(Functions { prototype: proto, body }),
                    q2,
                ),
                PartParsingResult::NotComplete => PartParsingResult::NotComplete,
                PartParsingResult::Bad(msg) => PartParsingResult::Bad(msg),
            }
        },
        PartParsingResult::NotComplete => PartParsingResult::NotComplete,
        PartParsingResult::Bad(msg) => PartParsingResult::Bad(msg),
    }
}

/// A bare top-level expression, wrapped into an anonymous definition: a
/// function with an empty name, no parameters and an ordinary prototype.
fn parse_expression(tokens: &Vec<Tokens>, pos: usize, settings: &ParserSettings) -> (r:
    PartParsingResult<ASTNode>)
    requires
        pos <= tokens@.len(),
    ensures
        part_node(r) == sp_expression(toks_view(tokens@), pos as int, settings@),
        r matches PartParsingResult::Good(_, q) ==> pos < q && q <= tokens@.len(),
{
    match parse_expr(tokens, pos, settings) {
        PartParsingResult::Good(body, q) => {
            let prototype = Prototype {
                name: String::new(),
                fn_type: FunctionType::Normal,
                args: Vec::new(),
            };
            proof {
                assert(strings_view(Seq::<String>::empty()) =~= Seq::<Seq<char>>::empty());
            }
            PartParsingResult::Good(
                ASTNode::FunctionsNode(Functions { prototype, body }),
                q,
            )
        },
        PartParsingResult::NotComplete => PartParsingResult::NotComplete,
        PartParsingResult::Bad(msg) => PartParsingResult::Bad(msg),
    }
}

/// What one step of the top-level driver did.
enum DriveStep {
    /// A delimiter was discarded or an item was finished: parsing continues
    /// at the position given.
    Advanced(usize),
    /// The construct at hand is incomplete: the run stops cleanly here.
    Stopped,
    /// The construct at hand is malformed: the run aborts with the message.
    Failed(String),
}

/// One step of the top-level driver at `pos`: discards a delimiter, or
/// parses one `function`, `extern` or bare-expression item.
fn drive_one(
    toks: &Vec<Tokens>,
    pos: usize,
    settings: &mut ParserSettings,
    ast: &mut Vec<ASTNode>,
) -> (res: DriveStep)
    requires
        pos < toks@.len(),
    ensures
        ({
            let t = toks_view(toks@);
            let pre = sp_top(t, pos as int, old(settings)@, nodes_view(old(ast)@));
            match res {
                DriveStep::Advanced(p2) => pos < p2 && p2 <= toks@.len() && sp_top(
                    t,
                    p2 as int,
                    final(settings)@,
                    nodes_view(final(ast)@),
                ) == pre,
                DriveStep::Stopped => final(ast)@ == old(ast)@ && pre == (DriveView {
                    failed: false,
                    nodes: nodes_view(old(ast)@),
                    pos: pos as int,
                    ops: final(settings)@,
                }),
                DriveStep::Failed(_) => final(ast)@ == old(ast)@ && pre.failed && pre.ops
                    == final(settings)@,
            }
        }),
{
    let _n: usize = toks.len();
    proof {
        assert(toks_view(toks@)[pos as int] == toks@[pos as int]@);
    }
    match &toks[pos] {
        Tokens::Delimiter => DriveStep::Advanced(pos + 1),
        Tokens::Function => {
            match parse_function(toks, pos, settings) {
                PartParsingResult::Good(node, q) => {
                    proof {
                        assert(step_pos(pos as int, q as int, toks@.len() as int) == q as int);
                        assert(nodes_view(ast@.push(node)) =~= nodes_view(ast@).push(node@));
                    }
                    ast.push(node);
                    DriveStep::Advanced(q)
                },
                PartParsingResult::NotComplete => DriveStep::Stopped,
                PartParsingResult::Bad(msg) => DriveStep::Failed(msg),
            }
        },
        Tokens::Extern => {
            match parse_extern(toks, pos) {
                PartParsingResult::Good(node, q) => {
                    proof {
                        assert(step_pos(pos as int, q as int, toks@.len() as int) == q as int);
                        assert(nodes_view(ast@.push(node)) =~= nodes_view(ast@).push(node@));
                    }
                    ast.push(node);
                    DriveStep::Advanced(q)
                },
                PartParsingResult::NotComplete => DriveStep::Stopped,
                PartParsingResult::Bad(msg) => DriveStep::Failed(msg),
            }
        },
        _ => {
            match parse_expression(toks, pos, settings) {
                PartParsingResult::Good(node, q) => {
                    proof {
                        assert(step_pos(pos as int, q as int, toks@.len() as int) == q as int);
                        assert(nodes_view(ast@.push(node)) =~= nodes_view(ast@).push(node@));
                    }
                    ast.push(node);
                    DriveStep::Advanced(q)
                },
                PartParsingResult::NotComplete => DriveStep::Stopped,
                PartParsingResult::Bad(msg) => DriveStep::Failed(msg),
            }
        },
    }
}

/// What a whole parsing run returns: the finished items with the leftover
/// tokens, or the failure message.
pub type ParsingResult = Result<(Vec<ASTNode>, Vec<Tokens>), String>;

/// Parses a buffer of tokens into top-level items, appended to the already
/// parsed ones. Statement delimiters between items are discarded. The run
/// stops cleanly at the end of the input or at the first incomplete
/// construct, handing back every token of that construct among the leftover
/// tokens, so the caller can append newly arrived tokens to them and call
/// again; a syntax failure aborts the whole run with its message. A `binary`
/// prototype parsed on the way extends the operator table, also when the rest
/// of its definition then fails or is incomplete.
pub fn parse(tokens: &[Tokens], parsed_tree: &[ASTNode], settings: &mut ParserSettings) -> (r:
    ParsingResult)
    ensures
        ({
            let g = sp_top(toks_view(tokens@), 0, old(settings)@, nodes_view(parsed_tree@));
            &&& final(settings)@ == g.ops
            &&& (r matches Ok(out) ==> {
                &&& !g.failed
                &&& nodes_view(out.0@) == g.nodes
                &&& out.0@.len() >= parsed_tree@.len()
                &&& nodes_view(out.0@).subrange(0, parsed_tree@.len() as int) == nodes_view(
                    parsed_tree@,
                )
                &&& 0 <= g.pos <= tokens@.len()
                &&& toks_view(out.1@) == toks_view(tokens@).subrange(g.pos, tokens@.len() as int)
            })
            &&& (r matches Err(_) ==> g.failed)
        }),
{
    let ghost t = toks_view(tokens@);
    let ghost tbl0 = settings@;
    let ghost acc0 = nodes_view(parsed_tree@);
    let ghost goal = sp_top(t, 0, tbl0, acc0);

    // a working copy of the token buffer, token values unchanged
    let mut toks: Vec<Tokens> = Vec::new();
    let mut i: usize = 0;
    while i < tokens.len()
        invariant
            i <= tokens@.len(),
            toks@.len() == i,
            forall|j: int| 0 <= j < i ==> toks@[j]@ == #[trigger] tokens@[j]@,
        decreases tokens@.len() - i,
    {
        toks.push(vstd::slice::slice_index_get(tokens, i).clone());
        i = i + 1;
    }
    proof {
        assert(toks_view(toks@) =~= t);
    }

    // the already finished items, extended below
    let mut ast: Vec<ASTNode> = Vec::new();
    i = 0;
    while i < parsed_tree.len()
        invariant
            i <= parsed_tree@.len(),
            ast@.len() == i,
            forall|j: int| 0 <= j < i ==> ast@[j]@ == #[trigger] parsed_tree@[j]@,
        decreases parsed_tree@.len() - i,
    {
        ast.push(vstd::slice::slice_index_get(parsed_tree, i).clone());
        i = i + 1;
    }
    proof {
        assert(nodes_view(ast@) =~= acc0);
    }

    let mut pos: usize = 0;
    loop
        invariant_except_break
            sp_top(t, pos as int, settings@, nodes_view(ast@)) == goal,
        invariant
            pos <= toks@.len(),
            toks@.len() == tokens@.len(),
            toks_view(toks@) == t,
            t == toks_view(tokens@),
            goal == sp_top(toks_view(tokens@), 0, old(settings)@, nodes_view(parsed_tree@)),
        ensures
            !goal.failed,
            goal.nodes == nodes_view(ast@),
            goal.pos == pos as int,
            goal.ops == settings@,
            pos <= toks@.len(),
            toks@.len() == tokens@.len(),
            toks_view(toks@) == t,
        decreases toks@.len() - pos,
    {
        if pos >= toks.len() {
            break;
        }
        match drive_one(&toks, pos, settings, &mut ast) {
            DriveStep::Advanced(p2) => {
                pos = p2;
            },
            DriveStep::Stopped => {
                break;
            },
            DriveStep::Failed(msg) => {
                return Err(msg);
            },
        }
    }

    // the unconsumed remainder, token values unchanged
    let mut rest: Vec<Tokens> = Vec::new();
    let mut k: usize = pos;
    while k < toks.len()
        invariant
            pos <= k && k <= toks@.len(),
            rest@.len() == k - pos,
            forall|j: int| 0 <= j < k - pos ==> rest@[j]@ == #[trigger] toks@[pos + j]@,
        decreases toks@.len() - k,
    {
        rest.push(toks[k].clone());
        k = k + 1;
    }
    proof {
        crate::grammar::lemma_driver_appends(t, 0, tbl0, acc0);
        let sub = toks_view(tokens@).subrange(pos as int, tokens@.len() as int);
        assert forall|j: int| 0 <= j < rest@.len() implies toks_view(rest@)[j] == sub[j] by {
            assert(rest@[j]@ == toks@[pos + j]@);
            assert(toks_view(toks@)[pos + j] == toks@[pos + j]@);
            assert(toks_view(tokens@)[pos + j] == tokens@[pos + j]@);
        }
        assert(toks_view(rest@) =~= sub);
    }
    Ok((ast, rest))
}

} // verus!
