use prot::diag::Diagnostic;
use prot::expr::Expr;
use prot::interpreter::interpret_program;
use prot::lexer::Lexer;
use prot::parser::Parser;
use prot::statement::Statement;
use prot::token::Token;
use prot::token::TokenKind;

fn powf_bits(a: u64, b: u64) -> u64 {
    f64::from_bits(a).powf(f64::from_bits(b)).to_bits()
}

fn num(value: f64) -> Token {
    Token::from_kind(TokenKind::Number(value.to_bits()))
}

fn string(text: &str) -> Token {
    Token::new(TokenKind::StringLit(String::from(text)), String::from(text))
}

fn binary(lhs: Expr, op: TokenKind, rhs: Expr) -> Expr {
    Expr::Binary(Box::new(lhs), Token::from_kind(op), Box::new(rhs))
}

fn eval(e: &Expr) -> (Token, Vec<Diagnostic>) {
    let mut diags: Vec<Diagnostic> = Vec::new();
    let v = e.evaluate(&powf_bits, &mut diags);
    (v, diags)
}

#[test]
fn evaluate_number_equality() {
    let e = binary(
        Expr::Literal(num(8.7)),
        TokenKind::EqualEqual,
        Expr::Literal(num(3.14)),
    );
    let (v, diags) = eval(&e);
    assert_eq!(v.kind, TokenKind::Bool(false));
    assert!(diags.is_empty());
}

#[test]
fn evaluate_unary_minus() {
    let e = Expr::Unary(
        Token::from_kind(TokenKind::Minus),
        Box::new(Expr::Literal(num(3.14))),
    );
    let (v, diags) = eval(&e);
    assert_eq!(v.kind, TokenKind::Number((-3.14f64).to_bits()));
    assert!(diags.is_empty());
}

#[test]
fn evaluate_unary_not() {
    let e = Expr::Unary(
        Token::from_kind(TokenKind::Bang),
        Box::new(Expr::Literal(Token::from_kind(TokenKind::Bool(true)))),
    );
    let (v, diags) = eval(&e);
    assert_eq!(v.kind, TokenKind::Bool(false));
    assert!(diags.is_empty());
}

#[test]
fn evaluate_arithmetic_matches_hardware() {
    let cases: Vec<(TokenKind, f64)> = vec![
        (TokenKind::Plus, 8.7 + 3.14),
        (TokenKind::Minus, 8.7 - 3.14),
        (TokenKind::Star, 8.7 * 3.14),
        (TokenKind::Slash, 8.7 / 3.14),
        (TokenKind::Percent, 8.7 % 3.14),
        (TokenKind::Caret, 8.7f64.powf(3.14)),
    ];
    for (op, expected) in cases {
        let e = binary(Expr::Literal(num(8.7)), op, Expr::Literal(num(3.14)));
        let (v, diags) = eval(&e);
        assert_eq!(v.kind, TokenKind::Number(expected.to_bits()));
        assert!(diags.is_empty());
    }
}

#[test]
fn evaluate_comparisons() {
    let cases: Vec<(TokenKind, bool)> = vec![
        (TokenKind::Greater, true),
        (TokenKind::GreaterEqual, true),
        (TokenKind::Less, false),
        (TokenKind::LessEqual, false),
        (TokenKind::EqualEqual, false),
        (TokenKind::BangEqual, true),
    ];
    for (op, expected) in cases {
        let e = binary(Expr::Literal(num(8.7)), op, Expr::Literal(num(3.14)));
        let (v, diags) = eval(&e);
        assert_eq!(v.kind, TokenKind::Bool(expected));
        assert!(diags.is_empty());
    }
}

#[test]
fn evaluate_string_concatenation() {
    let e = binary(
        Expr::Literal(string("foo")),
        TokenKind::Plus,
        Expr::Literal(string("bar")),
    );
    let (v, diags) = eval(&e);
    assert_eq!(v.kind, TokenKind::StringLit(String::from("foobar")));
    assert!(diags.is_empty());
}

#[test]
fn evaluate_mixed_plus_is_unsupported() {
    let e = binary(
        Expr::Literal(num(1.0)),
        TokenKind::Plus,
        Expr::Literal(string("x")),
    );
    let (v, diags) = eval(&e);
    assert_eq!(v.kind, TokenKind::NoneLit);
    assert_eq!(diags.len(), 1);
    assert!(matches!(diags[0], Diagnostic::UnsupportedBinary { .. }));
}

#[test]
fn evaluate_minus_on_string_reports_conversion() {
    let e = Expr::Unary(
        Token::from_kind(TokenKind::Minus),
        Box::new(Expr::Literal(string("x"))),
    );
    let (v, diags) = eval(&e);
    assert_eq!(v.kind, TokenKind::NoneLit);
    assert_eq!(diags.len(), 1);
    assert!(matches!(diags[0], Diagnostic::ExpectedNumber { .. }));
}

#[test]
fn evaluate_not_on_control_token_reports_conversion() {
    let e = Expr::Unary(
        Token::from_kind(TokenKind::Bang),
        Box::new(Expr::Literal(Token::from_kind(TokenKind::Newline))),
    );
    let (v, diags) = eval(&e);
    assert_eq!(v.kind, TokenKind::NoneLit);
    assert_eq!(diags.len(), 1);
    assert!(matches!(diags[0], Diagnostic::ExpectedBool { .. }));
}

#[test]
fn evaluate_unsupported_unary_operator() {
    let e = Expr::Unary(
        Token::from_kind(TokenKind::Star),
        Box::new(Expr::Literal(num(1.0))),
    );
    let (v, diags) = eval(&e);
    assert_eq!(v.kind, TokenKind::NoneLit);
    assert_eq!(diags.len(), 1);
    assert!(matches!(diags[0], Diagnostic::UnsupportedUnary { .. }));
}

#[test]
fn evaluate_grouping_yields_sentinel() {
    let e = Expr::Grouping(
        Token::from_kind(TokenKind::LeftParen),
        Box::new(Expr::Literal(num(1.0))),
        Token::from_kind(TokenKind::RightParen),
    );
    let (v, diags) = eval(&e);
    assert_eq!(v.kind, TokenKind::NoneLit);
    assert!(diags.is_empty());
}

#[test]
fn equality_cascade_bool_and_number() {
    // 1.0 == true: numbers fail, booleans compare: 1.0 is truthy.
    let e = binary(
        Expr::Literal(num(1.0)),
        TokenKind::EqualEqual,
        Expr::Literal(Token::from_kind(TokenKind::Bool(true))),
    );
    let (v, diags) = eval(&e);
    assert_eq!(v.kind, TokenKind::Bool(true));
    assert!(diags.is_empty());
}

#[test]
fn token_coercions() {
    assert_eq!(num(3.14).to_number(), Some(3.14f64.to_bits()));
    assert_eq!(string("x").to_number(), None);
    assert_eq!(num(0.0).to_bool(), Some(false));
    assert_eq!(num(2.0).to_bool(), Some(true));
    assert_eq!(string("").to_bool(), Some(false));
    assert_eq!(string("x").to_bool(), Some(true));
    assert_eq!(
        Token::from_kind(TokenKind::NoneLit).to_string(),
        Some(String::from("none"))
    );
    assert_eq!(
        Token::from_kind(TokenKind::Bool(true)).to_string(),
        Some(String::from("true"))
    );
    assert_eq!(num(3.14).to_string(), Some(String::from("3.1400000000000001")));
    assert_eq!(num(3.0).to_string(), Some(String::from("3")));
    assert_eq!(Token::from_kind(TokenKind::Newline).to_string(), None);
}

#[test]
fn print_statement_writes_line() {
    let statement = Statement::Print(Expr::Literal(string("hi")));
    let mut diags: Vec<Diagnostic> = Vec::new();
    let out = statement.evaluate(&powf_bits, &mut diags);
    assert_eq!(out, Some(String::from("hi")));
    assert!(diags.is_empty());
}

#[test]
fn expression_statement_writes_nothing() {
    let statement = Statement::Expr(Expr::Literal(string("hi")));
    let mut diags: Vec<Diagnostic> = Vec::new();
    let out = statement.evaluate(&powf_bits, &mut diags);
    assert_eq!(out, None);
    assert!(diags.is_empty());
}

#[test]
fn full_pipeline_prints() {
    let mut lexer = Lexer::new(String::from("print 'hi'\nprint 1 + 2\n"));
    let tokens = lexer.collect_tokens();
    assert!(!lexer.contains_errors);
    let mut parser = Parser::new(tokens);
    let statements = parser.parse_tokens();
    assert!(!parser.contains_errors);
    let mut diags: Vec<Diagnostic> = Vec::new();
    let lines = interpret_program(&statements, &powf_bits, &mut diags);
    assert_eq!(lines, vec![String::from("hi"), String::from("3")]);
    assert!(diags.is_empty());
}
