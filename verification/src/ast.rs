//! The abstract syntax tree that parsing produces.

use vstd::prelude::*;
use crate::tokens::NumberValue;

verus! {

/// The kind of a prototype: an ordinary function, a user-defined unary
/// operator, or a user-defined binary operator with its precedence.
#[derive(PartialEq, Debug)]
pub enum FunctionType {
    Normal,
    UnaryOp(String),
    BinaryOp(String, i32),
}

/// The signature of a function or user-defined operator.
#[derive(PartialEq, Debug)]
pub struct Prototype {
    pub name: String,
    pub fn_type: FunctionType,
    pub args: Vec<String>,
}

/// One expression of the language.
#[derive(PartialEq, Debug)]
pub enum Expression {
    LiteralExpr(NumberValue),
    VariableExpr(String),
    UnaryExpr(String, Box<Expression>),
    BinaryExpr(String, Box<Expression>, Box<Expression>),
    ConditionalExpr {
        cond_expr: Box<Expression>,
        then_expr: Box<Expression>,
        else_expr: Box<Expression>,
    },
    LoopExpr {
        var_name: String,
        start_expr: Box<Expression>,
        end_expr: Box<Expression>,
        step_expr: Box<Expression>,
        body_expr: Box<Expression>,
    },
    VarExpr {
        vars: Vec<(String, Expression)>,
        body_expr: Box<Expression>,
    },
    CallExpr(String, Vec<Expression>),
}

/// A function definition: its prototype and its body.
#[derive(PartialEq, Debug)]
pub struct Functions {
    pub prototype: Prototype,
    pub body: Expression,
}

/// One finished top-level item.
#[derive(PartialEq, Debug)]
pub enum ASTNode {
    ExternNode(Prototype),
    FunctionsNode(Functions),
}

/// The mathematical value of a [`FunctionType`].
#[verifier::ext_equal]
pub enum FnTypeView {
    Normal,
    UnaryOp(Seq<char>),
    BinaryOp(Seq<char>, int),
}

/// The mathematical value of a [`Prototype`].
#[verifier::ext_equal]
pub struct ProtoView {
    pub name: Seq<char>,
    pub fn_type: FnTypeView,
    pub args: Seq<Seq<char>>,
}

/// The mathematical value of an [`Expression`].
#[verifier::ext_equal]
pub enum ExprView {
    LiteralExpr(NumberValue),
    VariableExpr(Seq<char>),
    UnaryExpr(Seq<char>, Box<ExprView>),
    BinaryExpr(Seq<char>, Box<ExprView>, Box<ExprView>),
    ConditionalExpr {
        cond_expr: Box<ExprView>,
        then_expr: Box<ExprView>,
        else_expr: Box<ExprView>,
    },
    LoopExpr {
        var_name: Seq<char>,
        start_expr: Box<ExprView>,
        end_expr: Box<ExprView>,
        step_expr: Box<ExprView>,
        body_expr: Box<ExprView>,
    },
    VarExpr {
        vars: Seq<(Seq<char>, ExprView)>,
        body_expr: Box<ExprView>,
    },
    CallExpr(Seq<char>, Seq<ExprView>),
}

/// The mathematical value of a top-level item.
#[verifier::ext_equal]
pub enum NodeView {
    ExternNode(ProtoView),
    FunctionsNode(ProtoView, ExprView),
}

impl View for FunctionType {
    type V = FnTypeView;

    open spec fn view(&self) -> FnTypeView {
        match self {
            FunctionType::Normal => FnTypeView::Normal,
            FunctionType::UnaryOp(op) => FnTypeView::UnaryOp(op@),
            FunctionType::BinaryOp(op, prec) => FnTypeView::BinaryOp(op@, *prec as int),
        }
    }
}

/// The values of a sequence of parameter names.
pub open spec fn strings_view(ss: Seq<String>) -> Seq<Seq<char>> {
    Seq::new(ss.len(), |i: int| ss[i]@)
}

impl View for Prototype {
    type V = ProtoView;

    open spec fn view(&self) -> ProtoView {
        ProtoView { name: self.name@, fn_type: self.fn_type@, args: strings_view(self.args@) }
    }
}

/// The values of a sequence of expressions, as call arguments hold one.
pub open spec fn exprs_view(es: Seq<Expression>) -> Seq<ExprView>
    decreases es,
{
    if es.len() == 0 {
        Seq::empty()
    } else {
        exprs_view(es.subrange(0, es.len() - 1)).push(es[es.len() - 1]@)
    }
}

/// The values of a sequence of `let` bindings.
pub open spec fn bindings_view(vs: Seq<(String, Expression)>) -> Seq<(Seq<char>, ExprView)>
    decreases vs,
{
    if vs.len() == 0 {
        Seq::empty()
    } else {
        bindings_view(vs.subrange(0, vs.len() - 1)).push(
            (vs[vs.len() - 1].0@, vs[vs.len() - 1].1@),
        )
    }
}

impl View for Expression {
    type V = ExprView;

    open spec fn view(&self) -> ExprView
        decreases self,
    {
        match self {
            Expression::LiteralExpr(value) => ExprView::LiteralExpr(*value),
            Expression::VariableExpr(name) => ExprView::VariableExpr(name@),
            Expression::UnaryExpr(op, operand) => ExprView::UnaryExpr(
                op@,
                Box::new((**operand)@),
            ),
            Expression::BinaryExpr(op, lhs, rhs) => ExprView::BinaryExpr(
                op@,
                Box::new((**lhs)@),
                Box::new((**rhs)@),
            ),
            Expression::ConditionalExpr { cond_expr, then_expr, else_expr } => ExprView::ConditionalExpr {
                cond_expr: Box::new((**cond_expr)@),
                then_expr: Box::new((**then_expr)@),
                else_expr: Box::new((**else_expr)@),
            },
            Expression::LoopExpr { var_name, start_expr, end_expr, step_expr, body_expr } => ExprView::LoopExpr {
                var_name: var_name@,
                start_expr: Box::new((**start_expr)@),
                end_expr: Box::new((**end_expr)@),
                step_expr: Box::new((**step_expr)@),
                body_expr: Box::new((**body_expr)@),
            },
            Expression::VarExpr { vars, body_expr } => ExprView::VarExpr {
                vars: bindings_view(vars@),
                body_expr: Box::new((**body_expr)@),
            },
            Expression::CallExpr(name, args) => ExprView::CallExpr(name@, exprs_view(args@)),
        }
    }
}

impl View for Functions {
    type V = NodeView;

    open spec fn view(&self) -> NodeView {
        NodeView::FunctionsNode(self.prototype@, self.body@)
    }
}

impl View for ASTNode {
    type V = NodeView;

    open spec fn view(&self) -> NodeView {
        match self {
            ASTNode::ExternNode(proto) => NodeView::ExternNode((*proto)@),
            ASTNode::FunctionsNode(f) => (*f)@,
        }
    }
}

/// The values of a whole sequence of top-level items.
pub open spec fn nodes_view(ns: Seq<ASTNode>) -> Seq<NodeView> {
    Seq::new(ns.len(), |i: int| ns[i]@)
}

/// [`exprs_view`] maps the sequence elementwise.
pub proof fn lemma_exprs_view_index(es: Seq<Expression>)
    ensures
        exprs_view(es).len() == es.len(),
        forall|i: int| 0 <= i < es.len() ==> exprs_view(es)[i] == #[trigger] es[i]@,
    decreases es.len(),
{
    if es.len() > 0 {
        let sub = es.subrange(0, es.len() - 1);
        lemma_exprs_view_index(sub);
        assert(exprs_view(es) == exprs_view(sub).push(es[es.len() - 1]@));
        assert forall|i: int| 0 <= i < es.len() implies exprs_view(es)[i] == #[trigger] es[i]@ by {
            if i < es.len() - 1 {
                assert(sub[i] == es[i]);
                assert(exprs_view(es)[i] == exprs_view(sub)[i]);
            }
        }
    }
}

/// [`bindings_view`] maps the sequence elementwise.
pub proof fn lemma_bindings_view_index(vs: Seq<(String, Expression)>)
    ensures
        bindings_view(vs).len() == vs.len(),
        forall|i: int|
            0 <= i < vs.len() ==> bindings_view(vs)[i] == (#[trigger] vs[i].0@, vs[i].1@),
    decreases vs.len(),
{
    if vs.len() > 0 {
        let sub = vs.subrange(0, vs.len() - 1);
        lemma_bindings_view_index(sub);
        assert(bindings_view(vs) == bindings_view(sub).push(
            (vs[vs.len() - 1].0@, vs[vs.len() - 1].1@),
        ));
        assert forall|i: int|
            0 <= i < vs.len() implies bindings_view(vs)[i] == (#[trigger] vs[i].0@, vs[i].1@) by {
            if i < vs.len() - 1 {
                assert(sub[i] == vs[i]);
                assert(bindings_view(vs)[i] == bindings_view(sub)[i]);
            }
        }
    }
}

/// Appending an expression appends its value.
pub proof fn lemma_exprs_view_push(es: Seq<Expression>, e: Expression)
    ensures
        exprs_view(es.push(e)) == exprs_view(es).push(e@),
{
    assert(es.push(e).subrange(0, es.push(e).len() - 1) =~= es);
    assert(es.push(e)[es.push(e).len() - 1] == e);
}

/// Appending a binding appends its value.
pub proof fn lemma_bindings_view_push(vs: Seq<(String, Expression)>, v: (String, Expression))
    ensures
        bindings_view(vs.push(v)) == bindings_view(vs).push((v.0@, v.1@)),
{
    assert(vs.push(v).subrange(0, vs.push(v).len() - 1) =~= vs);
    assert(vs.push(v)[vs.push(v).len() - 1] == v);
}

impl Clone for FunctionType {
    /// A prototype kind clones to one with the same value.
    fn clone(&self) -> (res: Self)
        ensures
            res@ == self@,
    {
        match self {
            FunctionType::Normal => FunctionType::Normal,
            FunctionType::UnaryOp(op) => FunctionType::UnaryOp(op.clone()),
            FunctionType::BinaryOp(op, prec) => FunctionType::BinaryOp(op.clone(), *prec),
        }
    }
}

impl Clone for Prototype {
    /// A prototype clones to one with the same value.
    fn clone(&self) -> (res: Self)
        ensures
            res@ == self@,
    {
        let mut args: Vec<String> = Vec::new();
        let mut i: usize = 0;
        while i < self.args.len()
            invariant
                i <= self.args.len(),
                args@.len() == i,
                forall|j: int| 0 <= j < i ==> args@[j]@ == #[trigger] self.args@[j]@,
            decreases self.args.len() - i,
        {
            args.push(self.args[i].clone());
            i = i + 1;
        }
        let res = Prototype { name: self.name.clone(), fn_type: self.fn_type.clone(), args };
        proof {
            assert(strings_view(res.args@) =~= strings_view(self.args@));
        }
        res
    }
}

/// Clones every expression of a call-argument vector.
fn clone_exprs(v: &Vec<Expression>) -> (res: Vec<Expression>)
    ensures
        exprs_view(res@) == exprs_view(v@),
    decreases v@,
{
    let mut res: Vec<Expression> = Vec::new();
    let mut i: usize = 0;
    while i < v.len()
        invariant
            i <= v@.len(),
            res@.len() == i,
            forall|j: int| 0 <= j < i ==> res@[j]@ == #[trigger] v@[j]@,
        decreases v@.len() - i,
    {
        proof {
            assert(decreases_to!(v@ => v@[i as int]));
        }
        res.push(v[i].clone());
        i = i + 1;
    }
    proof {
        lemma_exprs_view_index(res@);
        lemma_exprs_view_index(v@);
        assert forall|j: int|
            0 <= j < res@.len() implies exprs_view(res@)[j] == exprs_view(v@)[j] by {
            assert(res@[j]@ == v@[j]@);
        }
        assert(exprs_view(res@) =~= exprs_view(v@));
    }
    res
}

/// Clones every binding of a `let` binding vector.
fn clone_bindings(v: &Vec<(String, Expression)>) -> (res: Vec<(String, Expression)>)
    ensures
        bindings_view(res@) == bindings_view(v@),
    decreases v@,
{
    let mut res: Vec<(String, Expression)> = Vec::new();
    let mut i: usize = 0;
    while i < v.len()
        invariant
            i <= v@.len(),
            res@.len() == i,
            forall|j: int|
                0 <= j < i ==> (#[trigger] res@[j]).0@ == v@[j].0@ && res@[j].1@ == v@[j].1@,
        decreases v@.len() - i,
    {
        proof {
            assert(decreases_to!(v@ => v@[i as int]));
            assert(decreases_to!(v@[i as int] => v@[i as int].1));
        }
        let pair = &v[i];
        res.push((pair.0.clone(), pair.1.clone()));
        i = i + 1;
    }
    proof {
        lemma_bindings_view_index(res@);
        lemma_bindings_view_index(v@);
        assert forall|j: int|
            0 <= j < res@.len() implies bindings_view(res@)[j] == bindings_view(v@)[j] by {
            assert(res@[j].0@ == v@[j].0@);
            assert(res@[j].1@ == v@[j].1@);
        }
        assert(bindings_view(res@) =~= bindings_view(v@));
    }
    res
}

impl Clone for Expression {
    /// An expression clones to one with the same value.
    fn clone(&self) -> (res: Self)
        ensures
            res@ == self@,
        decreases self,
    {
        match self {
            Expression::LiteralExpr(value) => Expression::LiteralExpr(*value),
            Expression::VariableExpr(name) => Expression::VariableExpr(name.clone()),
            Expression::UnaryExpr(op, operand) => Expression::UnaryExpr(
                op.clone(),
                Box::new((**operand).clone()),
            ),
            Expression::BinaryExpr(op, lhs, rhs) => Expression::BinaryExpr(
                op.clone(),
                Box::new((**lhs).clone()),
                Box::new((**rhs).clone()),
            ),
            Expression::ConditionalExpr { cond_expr, then_expr, else_expr } => Expression::ConditionalExpr {
                cond_expr: Box::new((**cond_expr).clone()),
                then_expr: Box::new((**then_expr).clone()),
                else_expr: Box::new((**else_expr).clone()),
            },
            Expression::LoopExpr { var_name, start_expr, end_expr, step_expr, body_expr } => Expression::LoopExpr {
                var_name: var_name.clone(),
                start_expr: Box::new((**start_expr).clone()),
                end_expr: Box::new((**end_expr).clone()),
                step_expr: Box::new((**step_expr).clone()),
                body_expr: Box::new((**body_expr).clone()),
            },
            Expression::VarExpr { vars, body_expr } => {
                proof {
                    assert(decreases_to!(*vars => vars@));
                }
                Expression::VarExpr {
                    vars: clone_bindings(vars),
                    body_expr: Box::new((**body_expr).clone()),
                }
            },
            Expression::CallExpr(name, call_args) => {
                proof {
                    assert(decreases_to!(*call_args => call_args@));
                }
                Expression::CallExpr(name.clone(), clone_exprs(call_args))
            },
        }
    }
}

impl Clone for Functions {
    /// A definition clones to one with the same value.
    fn clone(&self) -> (res: Self)
        ensures
            res@ == self@,
    {
        Functions { prototype: self.prototype.clone(), body: self.body.clone() }
    }
}

impl Clone for ASTNode {
    /// A top-level item clones to one with the same value.
    fn clone(&self) -> (res: Self)
        ensures
            res@ == self@,
    {
        match self {
            ASTNode::ExternNode(proto) => ASTNode::ExternNode(proto.clone()),
            ASTNode::FunctionsNode(f) => ASTNode::FunctionsNode(f.clone()),
        }
    }
}

} // verus!
