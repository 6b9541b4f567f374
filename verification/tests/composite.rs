use kaleido::ast::{ASTNode, Expression, FunctionType, Functions, Prototype};
use kaleido::parser::parse;
use kaleido::settings::default_parser_settings;
use kaleido::tokens::{NumberValue, Tokens};

fn ident(s: &str) -> Tokens {
    Tokens::Ident(s.to_string())
}

fn oper(s: &str) -> Tokens {
    Tokens::Operator(s.to_string())
}

fn num(v: f64) -> Tokens {
    Tokens::Number(NumberValue { bits: v.to_bits(), whole: v as i32 })
}

fn lit(v: f64) -> Expression {
    Expression::LiteralExpr(NumberValue { bits: v.to_bits(), whole: v as i32 })
}

fn var(s: &str) -> Expression {
    Expression::VariableExpr(s.to_string())
}

fn bin(op: &str, l: Expression, r: Expression) -> Expression {
    Expression::BinaryExpr(op.to_string(), Box::new(l), Box::new(r))
}

fn anon(body: Expression) -> ASTNode {
    ASTNode::FunctionsNode(Functions {
        prototype: Prototype {
            name: String::new(),
            fn_type: FunctionType::Normal,
            args: vec![],
        },
        body,
    })
}

/// The token sequence of this program:
///
/// ```text
/// let degisken1 = 1234 in
/// if x = 5 then y = 10 else y = 20
///
/// function ornek_fonksiyon(x, y)
///     x + y;
///
/// ornek_fonksiyon(12,43);
/// ```
fn program() -> Vec<Tokens> {
    vec![
        Tokens::Let,
        ident("degisken1"),
        oper("="),
        num(1234.0),
        Tokens::In,
        Tokens::If,
        ident("x"),
        oper("="),
        num(5.0),
        Tokens::Then,
        ident("y"),
        oper("="),
        num(10.0),
        Tokens::Else,
        ident("y"),
        oper("="),
        num(20.0),
        Tokens::Function,
        ident("ornek_fonksiyon"),
        Tokens::OpeningParenthesis,
        ident("x"),
        Tokens::Comma,
        ident("y"),
        Tokens::ClosingParenthesis,
        ident("x"),
        oper("+"),
        ident("y"),
        Tokens::Delimiter,
        ident("ornek_fonksiyon"),
        Tokens::OpeningParenthesis,
        num(12.0),
        Tokens::Comma,
        num(43.0),
        Tokens::ClosingParenthesis,
        Tokens::Delimiter,
    ]
}

#[test]
fn test_tokenize() {
    let tokens = program();
    let parsed_tree = Vec::<ASTNode>::new();
    let settings = &mut default_parser_settings();

    let (ast, next_token) = parse(&tokens, &parsed_tree, settings).unwrap();
    assert!(next_token.is_empty());
    assert_eq!(ast.len(), 3);

    assert_eq!(
        ast[0],
        anon(Expression::VarExpr {
            vars: vec![("degisken1".to_string(), lit(1234.0))],
            body_expr: Box::new(Expression::ConditionalExpr {
                cond_expr: Box::new(bin("=", var("x"), lit(5.0))),
                then_expr: Box::new(bin("=", var("y"), lit(10.0))),
                else_expr: Box::new(bin("=", var("y"), lit(20.0))),
            }),
        })
    );

    assert_eq!(
        ast[1],
        ASTNode::FunctionsNode(Functions {
            prototype: Prototype {
                name: "ornek_fonksiyon".to_string(),
                fn_type: FunctionType::Normal,
                args: vec!["x".to_string(), "y".to_string()],
            },
            body: bin("+", var("x"), var("y")),
        })
    );

    assert_eq!(
        ast[2],
        anon(Expression::CallExpr(
            "ornek_fonksiyon".to_string(),
            vec![lit(12.0), lit(43.0)],
        ))
    );
}
