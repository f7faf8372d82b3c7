use prot::expr::Expr;
use prot::parser::Parser;
use prot::statement::Statement;
use prot::token::Token;
use prot::token::TokenKind;

fn parse(tokens: Vec<Token>) -> Expr {
    let mut parser = Parser::new(tokens);
    parser.parse_expression()
}

fn num(value: f64) -> Token {
    Token::from_kind(TokenKind::Number(value.to_bits()))
}

#[test]
fn parse_equality() {
    assert_eq!(
        parse(vec![
            num(8.7),
            Token::from_kind(TokenKind::EqualEqual),
            num(3.14),
        ]),
        Expr::Binary(
            Box::new(Expr::Literal(num(8.7))),
            Token::from_kind(TokenKind::EqualEqual),
            Box::new(Expr::Literal(num(3.14))),
        )
    );
}

#[test]
fn parse_comparison() {
    assert_eq!(
        parse(vec![
            num(8.7),
            Token::from_kind(TokenKind::GreaterEqual),
            num(3.14),
        ]),
        Expr::Binary(
            Box::new(Expr::Literal(num(8.7))),
            Token::from_kind(TokenKind::GreaterEqual),
            Box::new(Expr::Literal(num(3.14))),
        )
    );
}

#[test]
fn parse_term() {
    assert_eq!(
        parse(vec![num(8.7), Token::from_kind(TokenKind::Plus), num(3.14)]),
        Expr::Binary(
            Box::new(Expr::Literal(num(8.7))),
            Token::from_kind(TokenKind::Plus),
            Box::new(Expr::Literal(num(3.14))),
        )
    );
}

#[test]
fn parse_factor() {
    assert_eq!(
        parse(vec![num(8.7), Token::from_kind(TokenKind::Star), num(3.14)]),
        Expr::Binary(
            Box::new(Expr::Literal(num(8.7))),
            Token::from_kind(TokenKind::Star),
            Box::new(Expr::Literal(num(3.14))),
        )
    );
}

#[test]
fn parse_exponent() {
    assert_eq!(
        parse(vec![num(8.7), Token::from_kind(TokenKind::Caret), num(3.14)]),
        Expr::Binary(
            Box::new(Expr::Literal(num(8.7))),
            Token::from_kind(TokenKind::Caret),
            Box::new(Expr::Literal(num(3.14))),
        )
    );
}

#[test]
fn parse_unary() {
    assert_eq!(
        parse(vec![Token::from_kind(TokenKind::Minus), num(3.14)]),
        Expr::Unary(
            Token::from_kind(TokenKind::Minus),
            Box::new(Expr::Literal(num(3.14))),
        )
    );
}

#[test]
fn parse_literal() {
    assert_eq!(parse(vec![num(8.7)]), Expr::Literal(num(8.7)));
}

#[test]
fn parse_grouping() {
    assert_eq!(
        parse(vec![
            Token::from_kind(TokenKind::LeftBracket),
            Token::new(TokenKind::Identifier(String::from("a")), String::from("a")),
            Token::from_kind(TokenKind::Plus),
            num(5.0),
            Token::from_kind(TokenKind::RightBracket),
        ]),
        Expr::Grouping(
            Token::from_kind(TokenKind::LeftBracket),
            Box::new(Expr::Binary(
                Box::new(Expr::Literal(Token::new(
                    TokenKind::Identifier(String::from("a")),
                    String::from("a")
                ))),
                Token::from_kind(TokenKind::Plus),
                Box::new(Expr::Literal(num(5.0)))
            )),
            Token::from_kind(TokenKind::RightBracket),
        )
    );
}

#[test]
fn parse_precedence_term_over_factor() {
    // 1 + 2 * 3 parses as 1 + (2 * 3).
    assert_eq!(
        parse(vec![
            num(1.0),
            Token::from_kind(TokenKind::Plus),
            num(2.0),
            Token::from_kind(TokenKind::Star),
            num(3.0),
        ]),
        Expr::Binary(
            Box::new(Expr::Literal(num(1.0))),
            Token::from_kind(TokenKind::Plus),
            Box::new(Expr::Binary(
                Box::new(Expr::Literal(num(2.0))),
                Token::from_kind(TokenKind::Star),
                Box::new(Expr::Literal(num(3.0))),
            )),
        )
    );
}

#[test]
fn parse_left_associative_term() {
    // 1 - 2 - 3 parses as (1 - 2) - 3.
    assert_eq!(
        parse(vec![
            num(1.0),
            Token::from_kind(TokenKind::Minus),
            num(2.0),
            Token::from_kind(TokenKind::Minus),
            num(3.0),
        ]),
        Expr::Binary(
            Box::new(Expr::Binary(
                Box::new(Expr::Literal(num(1.0))),
                Token::from_kind(TokenKind::Minus),
                Box::new(Expr::Literal(num(2.0))),
            )),
            Token::from_kind(TokenKind::Minus),
            Box::new(Expr::Literal(num(3.0))),
        )
    );
}

#[test]
fn parse_print_statement() {
    let mut parser = Parser::new(vec![
        Token::new(TokenKind::Print, String::from("print")),
        Token::new(TokenKind::StringLit(String::from("hi")), String::from("hi")),
        Token::from_kind(TokenKind::Newline),
    ]);
    let statements = parser.parse_tokens();
    assert!(!parser.contains_errors);
    assert_eq!(
        statements,
        vec![Statement::Print(Expr::Literal(Token::new(
            TokenKind::StringLit(String::from("hi")),
            String::from("hi")
        )))]
    );
}

#[test]
fn parse_missing_closer_is_error() {
    let mut parser = Parser::new(vec![
        Token::from_kind(TokenKind::LeftParen),
        num(1.0),
        Token::from_kind(TokenKind::Newline),
    ]);
    parser.parse_tokens();
    assert!(parser.contains_errors);
}

#[test]
fn parse_missing_print_newline_is_error() {
    let mut parser = Parser::new(vec![
        Token::new(TokenKind::Print, String::from("print")),
        num(1.0),
        Token::from_kind(TokenKind::Eof),
    ]);
    parser.parse_tokens();
    assert!(parser.contains_errors);
}

#[test]
fn parse_unstartable_token_yields_sentinel() {
    assert_eq!(
        parse(vec![Token::from_kind(TokenKind::Newline)]),
        Expr::Literal(Token::from_kind(TokenKind::Eof))
    );
}
