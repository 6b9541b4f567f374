use kaleido::ast::{ASTNode, Expression, FunctionType, Functions, Prototype};
use kaleido::parser::parse;
use kaleido::settings::default_parser_settings;
use kaleido::tokens::{number_one, NumberValue, Tokens};

fn ident(s: &str) -> Tokens {
    Tokens::Ident(s.to_string())
}

fn oper(s: &str) -> Tokens {
    Tokens::Operator(s.to_string())
}

fn num(v: f64) -> Tokens {
    Tokens::Number(NumberValue { bits: v.to_bits(), whole: v as i32 })
}

fn lit(v: f64) -> Expression {
    Expression::LiteralExpr(NumberValue { bits: v.to_bits(), whole: v as i32 })
}

fn var(s: &str) -> Expression {
    Expression::VariableExpr(s.to_string())
}

fn parse_err(tokens: Vec<Tokens>) -> String {
    let mut settings = default_parser_settings();
    parse(&tokens, &[], &mut settings).unwrap_err()
}

fn parse_ok(tokens: Vec<Tokens>) -> (Vec<ASTNode>, Vec<Tokens>) {
    let mut settings = default_parser_settings();
    parse(&tokens, &[], &mut settings).unwrap()
}

#[test]
fn empty_input_yields_nothing() {
    let (ast, rest) = parse_ok(vec![]);
    assert!(ast.is_empty());
    assert!(rest.is_empty());
}

#[test]
fn delimiters_alone_are_discarded() {
    let (ast, rest) = parse_ok(vec![Tokens::Delimiter, Tokens::Delimiter]);
    assert!(ast.is_empty());
    assert!(rest.is_empty());
}

#[test]
fn number_one_encodes_one() {
    let one = number_one();
    assert_eq!(one.bits, (1.0f64).to_bits());
    assert_eq!(one.whole, 1);
}

#[test]
fn default_table_holds_builtins() {
    let settings = default_parser_settings();
    assert_eq!(settings.lookup(&"+".to_string()), Some(20));
    assert_eq!(settings.lookup(&"-".to_string()), Some(20));
    assert_eq!(settings.lookup(&"*".to_string()), Some(40));
    assert_eq!(settings.lookup(&"<".to_string()), Some(10));
    assert_eq!(settings.lookup(&"=".to_string()), Some(2));
    assert_eq!(settings.lookup(&"(".to_string()), Some(100));
    assert_eq!(settings.lookup(&")".to_string()), Some(100));
    assert_eq!(settings.lookup(&"?".to_string()), None);
}

#[test]
fn unknown_operator_is_a_failure() {
    // 1 $ 2 with $ never declared
    let err = parse_err(vec![num(1.0), oper("$"), num(2.0)]);
    assert_eq!(err, "unknown operator found");
}

#[test]
fn conditional_requires_its_keywords() {
    // if 1 2  -- `then` missing
    let err = parse_err(vec![Tokens::If, num(1.0), num(2.0)]);
    assert_eq!(err, "expected then");
    // if 1 then 2 3  -- `else` missing
    let err = parse_err(vec![Tokens::If, num(1.0), Tokens::Then, num(2.0), num(3.0)]);
    assert_eq!(err, "expected else");
}

#[test]
fn conditional_parses() {
    // if 1 then 2 else 3
    let tokens = vec![
        Tokens::If,
        num(1.0),
        Tokens::Then,
        num(2.0),
        Tokens::Else,
        num(3.0),
    ];
    let (ast, rest) = parse_ok(tokens);
    assert!(rest.is_empty());
    match &ast[0] {
        ASTNode::FunctionsNode(f) => {
            assert_eq!(
                f.body,
                Expression::ConditionalExpr {
                    cond_expr: Box::new(lit(1.0)),
                    then_expr: Box::new(lit(2.0)),
                    else_expr: Box::new(lit(3.0)),
                }
            );
        },
        other => panic!("expected a definition, got {:?}", other),
    }
}

#[test]
fn loop_requires_name_assignment_and_in() {
    // for 1 ...
    let err = parse_err(vec![Tokens::For, num(1.0), num(2.0)]);
    assert_eq!(err, "expected identifier after for");
    // for i + ...
    let err = parse_err(vec![Tokens::For, ident("i"), oper("+"), num(1.0)]);
    assert_eq!(err, "expected '=' after for");
    // for i = 1 2 2  -- `in` missing
    let err = parse_err(vec![
        Tokens::For,
        ident("i"),
        oper("="),
        num(1.0),
        num(2.0),
        Tokens::Comma,
    ]);
    assert_eq!(err, "expected in after for");
}

#[test]
fn let_requires_in() {
    // let x = 1 1  -- `in` missing, another literal instead
    let err = parse_err(vec![Tokens::Let, ident("x"), oper("="), num(1.0), num(2.0)]);
    assert_eq!(err, "expected 'in' after var");
}

#[test]
fn let_initializer_defaults_to_one() {
    // let x in x
    let tokens = vec![Tokens::Let, ident("x"), Tokens::In, ident("x")];
    let (ast, rest) = parse_ok(tokens);
    assert!(rest.is_empty());
    match &ast[0] {
        ASTNode::FunctionsNode(f) => {
            assert_eq!(
                f.body,
                Expression::VarExpr {
                    vars: vec![("x".to_string(), lit(1.0))],
                    body_expr: Box::new(var("x")),
                }
            );
        },
        other => panic!("expected a definition, got {:?}", other),
    }
}

#[test]
fn prototype_failures() {
    // function 5 ...
    let err = parse_err(vec![Tokens::Function, num(5.0), Tokens::OpeningParenthesis]);
    assert_eq!(err, "expected function name in prototype");
    // extern f 5
    let err = parse_err(vec![Tokens::Extern, ident("f"), num(5.0)]);
    assert_eq!(err, "expected '(' in prototype");
    // extern f ( 5 )
    let err = parse_err(vec![
        Tokens::Extern,
        ident("f"),
        Tokens::OpeningParenthesis,
        num(5.0),
        Tokens::ClosingParenthesis,
    ]);
    assert_eq!(err, "expected ')' in prototype");
    // extern unary 5 ...
    let err = parse_err(vec![Tokens::Extern, Tokens::Unary, num(5.0)]);
    assert_eq!(err, "expected unary operator");
    // extern binary f ...
    let err = parse_err(vec![Tokens::Extern, Tokens::Binary, ident("f")]);
    assert_eq!(err, "expected binary operator");
}

#[test]
fn unexpected_token_in_expression() {
    let err = parse_err(vec![Tokens::ClosingBrackets]);
    assert_eq!(err, "Unexpected token when expecting an expression");
}

#[test]
fn unclosed_parenthesis_fails_or_waits() {
    // ( 1 2 -- the closing parenthesis can never come: 2 is not an operator,
    // so the expression is finished and the next token must close it
    let err = parse_err(vec![Tokens::OpeningParenthesis, num(1.0), num(2.0)]);
    assert_eq!(err, "");
    // ( 1  -- more tokens may still arrive
    let (ast, rest) = parse_ok(vec![Tokens::OpeningParenthesis, num(1.0)]);
    assert!(ast.is_empty());
    assert_eq!(rest, vec![Tokens::OpeningParenthesis, num(1.0)]);
}

#[test]
fn calls_and_variables() {
    // f(1, g(), x) + y
    let tokens = vec![
        ident("f"),
        Tokens::OpeningParenthesis,
        num(1.0),
        Tokens::Comma,
        ident("g"),
        Tokens::OpeningParenthesis,
        Tokens::ClosingParenthesis,
        Tokens::Comma,
        ident("x"),
        Tokens::ClosingParenthesis,
        oper("+"),
        ident("y"),
    ];
    let (ast, rest) = parse_ok(tokens);
    assert!(rest.is_empty());
    match &ast[0] {
        ASTNode::FunctionsNode(f) => {
            assert_eq!(
                f.body,
                Expression::BinaryExpr(
                    "+".to_string(),
                    Box::new(Expression::CallExpr(
                        "f".to_string(),
                        vec![
                            lit(1.0),
                            Expression::CallExpr("g".to_string(), vec![]),
                            var("x"),
                        ],
                    )),
                    Box::new(var("y")),
                )
            );
        },
        other => panic!("expected a definition, got {:?}", other),
    }
}

#[test]
fn unary_expression_parses() {
    // !x
    let (ast, rest) = parse_ok(vec![oper("!"), ident("x")]);
    assert!(rest.is_empty());
    match &ast[0] {
        ASTNode::FunctionsNode(f) => {
            assert_eq!(
                f.body,
                Expression::UnaryExpr("!".to_string(), Box::new(var("x")))
            );
        },
        other => panic!("expected a definition, got {:?}", other),
    }
}

#[test]
fn parentheses_override_precedence() {
    // (1 + 2) * 3
    let tokens = vec![
        Tokens::OpeningParenthesis,
        num(1.0),
        oper("+"),
        num(2.0),
        Tokens::ClosingParenthesis,
        oper("*"),
        num(3.0),
    ];
    let (ast, rest) = parse_ok(tokens);
    assert!(rest.is_empty());
    match &ast[0] {
        ASTNode::FunctionsNode(f) => {
            assert_eq!(
                f.body,
                Expression::BinaryExpr(
                    "*".to_string(),
                    Box::new(Expression::BinaryExpr(
                        "+".to_string(),
                        Box::new(lit(1.0)),
                        Box::new(lit(2.0)),
                    )),
                    Box::new(lit(3.0)),
                )
            );
        },
        other => panic!("expected a definition, got {:?}", other),
    }
}

#[test]
fn extern_declaration_parses() {
    // extern sin(x)
    let tokens = vec![
        Tokens::Extern,
        ident("sin"),
        Tokens::OpeningParenthesis,
        ident("x"),
        Tokens::ClosingParenthesis,
    ];
    let (ast, rest) = parse_ok(tokens);
    assert!(rest.is_empty());
    assert_eq!(
        ast,
        vec![ASTNode::ExternNode(Prototype {
            name: "sin".to_string(),
            fn_type: FunctionType::Normal,
            args: vec!["x".to_string()],
        })]
    );
}

#[test]
fn incomplete_function_still_declares_its_operator() {
    // function binary @ 7 (a b)  -- the body is still missing, yet the
    // operator is already usable, as it must be inside its own definition
    let tokens = vec![
        Tokens::Function,
        Tokens::Binary,
        oper("@"),
        num(7.0),
        Tokens::OpeningParenthesis,
        ident("a"),
        ident("b"),
        Tokens::ClosingParenthesis,
    ];
    let mut settings = default_parser_settings();
    let (ast, rest) = parse(&tokens, &[], &mut settings).unwrap();
    assert!(ast.is_empty());
    assert_eq!(rest, tokens);
    assert_eq!(settings.lookup(&"@".to_string()), Some(7));
}

#[test]
fn parsed_items_are_kept_in_front() {
    let mut settings = default_parser_settings();
    let (first, _) = parse(&[num(1.0), Tokens::Delimiter], &[], &mut settings).unwrap();
    let (both, rest) = parse(&[num(2.0)], &first, &mut settings).unwrap();
    assert!(rest.is_empty());
    assert_eq!(both.len(), 2);
    assert_eq!(both[0], first[0]);
}

#[test]
fn resuming_completes_the_function() {
    // function binary @ 7 (a b)  -- stop, then the body a @ b arrives
    let head = vec![
        Tokens::Function,
        Tokens::Binary,
        oper("@"),
        num(7.0),
        Tokens::OpeningParenthesis,
        ident("a"),
        ident("b"),
        Tokens::ClosingParenthesis,
    ];
    let mut settings = default_parser_settings();
    let (ast, rest) = parse(&head, &[], &mut settings).unwrap();
    assert!(ast.is_empty());
    assert_eq!(rest, head);

    let mut resumed = rest;
    resumed.push(ident("a"));
    resumed.push(oper("@"));
    resumed.push(ident("b"));
    let (ast2, rest2) = parse(&resumed, &ast, &mut settings).unwrap();
    assert!(rest2.is_empty());
    assert_eq!(
        ast2,
        vec![ASTNode::FunctionsNode(Functions {
            prototype: Prototype {
                name: "binary@".to_string(),
                fn_type: FunctionType::BinaryOp("@".to_string(), 7),
                args: vec!["a".to_string(), "b".to_string()],
            },
            body: Expression::BinaryExpr(
                "@".to_string(),
                Box::new(var("a")),
                Box::new(var("b")),
            ),
        })]
    );
    assert_eq!(settings.lookup(&"@".to_string()), Some(7));
}
