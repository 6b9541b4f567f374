use kaleido::ast::{ASTNode, Expression, FunctionType, Functions, Prototype};
use kaleido::parser::parse;
use kaleido::settings::default_parser_settings;
use kaleido::tokens::{NumberValue, Tokens};

fn ident(s: &str) -> Tokens {
    Tokens::Ident(s.to_string())
}

fn oper(s: &str) -> Tokens {
    Tokens::Operator(s.to_string())
}

fn num(v: f64) -> Tokens {
    Tokens::Number(NumberValue { bits: v.to_bits(), whole: v as i32 })
}

fn lit(v: f64) -> Expression {
    Expression::LiteralExpr(NumberValue { bits: v.to_bits(), whole: v as i32 })
}

fn var(s: &str) -> Expression {
    Expression::VariableExpr(s.to_string())
}

fn bin(op: &str, l: Expression, r: Expression) -> Expression {
    Expression::BinaryExpr(op.to_string(), Box::new(l), Box::new(r))
}

fn anon(body: Expression) -> ASTNode {
    ASTNode::FunctionsNode(Functions {
        prototype: Prototype {
            name: String::new(),
            fn_type: FunctionType::Normal,
            args: vec![],
        },
        body,
    })
}

#[test]
fn precedence_star_over_plus() {
    // 1 + 2 * 3
    let tokens = vec![num(1.0), oper("+"), num(2.0), oper("*"), num(3.0)];
    let mut settings = default_parser_settings();
    let (ast, rest) = parse(&tokens, &[], &mut settings).unwrap();
    assert!(rest.is_empty());
    assert_eq!(ast, vec![anon(bin("+", lit(1.0), bin("*", lit(2.0), lit(3.0))))]);
}

#[test]
fn left_associativity_of_minus() {
    // 1 - 2 - 3
    let tokens = vec![num(1.0), oper("-"), num(2.0), oper("-"), num(3.0)];
    let mut settings = default_parser_settings();
    let (ast, rest) = parse(&tokens, &[], &mut settings).unwrap();
    assert!(rest.is_empty());
    assert_eq!(ast, vec![anon(bin("-", bin("-", lit(1.0), lit(2.0)), lit(3.0)))]);
}

#[test]
fn operator_redefinition_updates_table() {
    // function binary | 5 (a b) a + b;
    let tokens = vec![
        Tokens::Function,
        Tokens::Binary,
        oper("|"),
        num(5.0),
        Tokens::OpeningParenthesis,
        ident("a"),
        ident("b"),
        Tokens::ClosingParenthesis,
        ident("a"),
        oper("+"),
        ident("b"),
        Tokens::Delimiter,
    ];
    let mut settings = default_parser_settings();
    let (ast, rest) = parse(&tokens, &[], &mut settings).unwrap();
    assert!(rest.is_empty());
    assert_eq!(
        ast,
        vec![ASTNode::FunctionsNode(Functions {
            prototype: Prototype {
                name: "binary|".to_string(),
                fn_type: FunctionType::BinaryOp("|".to_string(), 5),
                args: vec!["a".to_string(), "b".to_string()],
            },
            body: bin("+", var("a"), var("b")),
        })]
    );
    assert_eq!(settings.lookup(&"|".to_string()), Some(5));

    // the new operator is usable afterwards, binding weaker than `*`
    let more = vec![num(1.0), oper("|"), num(2.0), oper("*"), num(3.0)];
    let (ast2, rest2) = parse(&more, &[], &mut settings).unwrap();
    assert!(rest2.is_empty());
    assert_eq!(ast2, vec![anon(bin("|", lit(1.0), bin("*", lit(2.0), lit(3.0))))]);
}

#[test]
fn unary_operator_arity_is_enforced() {
    // extern unary ! (a b)
    let tokens = vec![
        Tokens::Extern,
        Tokens::Unary,
        oper("!"),
        Tokens::OpeningParenthesis,
        ident("a"),
        ident("b"),
        Tokens::ClosingParenthesis,
    ];
    let mut settings = default_parser_settings();
    let err = parse(&tokens, &[], &mut settings).unwrap_err();
    assert_eq!(err, "invalid of operands for unary operator");
}

#[test]
fn binary_operator_arity_is_enforced() {
    // extern binary % (a)
    let tokens = vec![
        Tokens::Extern,
        Tokens::Binary,
        oper("%"),
        Tokens::OpeningParenthesis,
        ident("a"),
        Tokens::ClosingParenthesis,
    ];
    let mut settings = default_parser_settings();
    let err = parse(&tokens, &[], &mut settings).unwrap_err();
    assert_eq!(err, "invalid number of operands for binary operator");
}

#[test]
fn binary_precedence_must_lie_in_range() {
    // extern binary ~ 150 (a b)
    let tokens = vec![
        Tokens::Extern,
        Tokens::Binary,
        oper("~"),
        num(150.0),
        Tokens::OpeningParenthesis,
        ident("a"),
        ident("b"),
        Tokens::ClosingParenthesis,
    ];
    let mut settings = default_parser_settings();
    let err = parse(&tokens, &[], &mut settings).unwrap_err();
    assert_eq!(err, "invalid precedecnce: must be 1..100");
}

#[test]
fn binary_precedence_defaults_to_thirty() {
    // function binary & (a b) a;  -- no precedence given
    let tokens = vec![
        Tokens::Function,
        Tokens::Binary,
        oper("&"),
        Tokens::OpeningParenthesis,
        ident("a"),
        ident("b"),
        Tokens::ClosingParenthesis,
        ident("a"),
    ];
    let mut settings = default_parser_settings();
    let (_, rest) = parse(&tokens, &[], &mut settings).unwrap();
    assert!(rest.is_empty());
    assert_eq!(settings.lookup(&"&".to_string()), Some(30));
}

#[test]
fn incomplete_let_consumes_nothing_and_resumes() {
    // let x = 1 in        -- the body is still missing
    let tokens = vec![Tokens::Let, ident("x"), oper("="), num(1.0), Tokens::In];
    let mut settings = default_parser_settings();
    let (ast, rest) = parse(&tokens, &[], &mut settings).unwrap();
    assert!(ast.is_empty());
    assert_eq!(rest, tokens);

    // the caller appends the newly arrived body token and retries
    let mut resumed = rest;
    resumed.push(ident("x"));
    let (ast2, rest2) = parse(&resumed, &[], &mut settings).unwrap();
    assert!(rest2.is_empty());
    assert_eq!(
        ast2,
        vec![anon(Expression::VarExpr {
            vars: vec![("x".to_string(), lit(1.0))],
            body_expr: Box::new(var("x")),
        })]
    );
}

#[test]
fn complete_program_leaves_no_tokens() {
    // function binary | 5 (a b) a + b; 1 | 2;
    let tokens = vec![
        Tokens::Function,
        Tokens::Binary,
        oper("|"),
        num(5.0),
        Tokens::OpeningParenthesis,
        ident("a"),
        ident("b"),
        Tokens::ClosingParenthesis,
        ident("a"),
        oper("+"),
        ident("b"),
        Tokens::Delimiter,
        num(1.0),
        oper("|"),
        num(2.0),
        Tokens::Delimiter,
    ];
    let mut settings = default_parser_settings();
    let (ast, rest) = parse(&tokens, &[], &mut settings).unwrap();
    assert!(rest.is_empty());
    assert_eq!(ast.len(), 2);
}

#[test]
fn loop_step_defaults_to_literal_one() {
    // for i = 1 2 in i   -- no comma-introduced step
    let tokens = vec![
        Tokens::For,
        ident("i"),
        oper("="),
        num(1.0),
        num(2.0),
        Tokens::In,
        ident("i"),
    ];
    let mut settings = default_parser_settings();
    let (ast, rest) = parse(&tokens, &[], &mut settings).unwrap();
    assert!(rest.is_empty());
    assert_eq!(
        ast,
        vec![anon(Expression::LoopExpr {
            var_name: "i".to_string(),
            start_expr: Box::new(lit(1.0)),
            end_expr: Box::new(lit(2.0)),
            step_expr: Box::new(lit(1.0)),
            body_expr: Box::new(var("i")),
        })]
    );
}

#[test]
fn loop_with_explicit_step() {
    // for i = 1, 5 10 in i
    let tokens = vec![
        Tokens::For,
        ident("i"),
        oper("="),
        num(1.0),
        Tokens::Comma,
        num(5.0),
        num(10.0),
        Tokens::In,
        ident("i"),
    ];
    let mut settings = default_parser_settings();
    let (ast, rest) = parse(&tokens, &[], &mut settings).unwrap();
    assert!(rest.is_empty());
    assert_eq!(
        ast,
        vec![anon(Expression::LoopExpr {
            var_name: "i".to_string(),
            start_expr: Box::new(lit(1.0)),
            end_expr: Box::new(lit(10.0)),
            step_expr: Box::new(lit(5.0)),
            body_expr: Box::new(var("i")),
        })]
    );
}
