use prot::lexer::Lexer;
use prot::token::Token;
use prot::token::TokenKind;

fn lex(source: &str) -> Vec<Token> {
    let mut lexer = Lexer::new(String::from(source));
    lexer.collect_tokens()
}

#[test]
fn lex_nothing() {
    assert_eq!(lex(""), vec![]);
}

#[test]
fn lex_whitespace() {
    assert_eq!(lex("    "), vec![]);
}

#[test]
fn lex_comment() {
    assert_eq!(lex("# this is a comment"), vec![]);
}

#[test]
fn lex_symbols() {
    assert_eq!(
        lex("[ += ]"),
        vec![
            Token::from_kind(TokenKind::LeftBracket),
            Token::from_kind(TokenKind::PlusEqual),
            Token::from_kind(TokenKind::RightBracket),
            Token::from_kind(TokenKind::Newline),
        ]
    );
}

#[test]
fn lex_keyword() {
    assert_eq!(
        lex("if"),
        vec![
            Token::new(TokenKind::If, String::from("if")),
            Token::from_kind(TokenKind::Newline),
        ]
    );
}

#[test]
fn lex_identifier() {
    assert_eq!(
        lex("foo"),
        vec![
            Token::new(
                TokenKind::Identifier(String::from("foo")),
                String::from("foo")
            ),
            Token::from_kind(TokenKind::Newline),
        ]
    );
}

#[test]
fn lex_number() {
    assert_eq!(
        lex("3.14"),
        vec![
            Token::new(TokenKind::Number(3.14f64.to_bits()), String::from("3.14")),
            Token::from_kind(TokenKind::Newline)
        ]
    );
}

#[test]
fn lex_string() {
    assert_eq!(
        lex("'Hello' \"world\""),
        vec![
            Token::new(
                TokenKind::StringLit(String::from("Hello")),
                String::from("Hello")
            ),
            Token::new(
                TokenKind::StringLit(String::from("world")),
                String::from("world")
            ),
            Token::from_kind(TokenKind::Newline)
        ]
    );
}

#[test]
fn lex_indentation() {
    assert_eq!(
        lex("\nif\n    then\n        "),
        vec![
            Token::new(TokenKind::If, String::from("if")),
            Token::from_kind(TokenKind::Newline),
            Token::from_kind(TokenKind::Indent),
            Token::new(
                TokenKind::Identifier(String::from("then")),
                String::from("then")
            ),
            Token::from_kind(TokenKind::Newline),
            Token::from_kind(TokenKind::Dedent),
        ]
    );
}

#[test]
fn lex_indented_block() {
    assert_eq!(
        lex("if\n    then\n"),
        vec![
            Token::new(TokenKind::If, String::from("if")),
            Token::from_kind(TokenKind::Newline),
            Token::from_kind(TokenKind::Indent),
            Token::new(
                TokenKind::Identifier(String::from("then")),
                String::from("then")
            ),
            Token::from_kind(TokenKind::Newline),
            Token::from_kind(TokenKind::Dedent),
        ]
    );
}

#[test]
fn lex_boolean_keywords() {
    assert_eq!(
        lex("true false none"),
        vec![
            Token::new(TokenKind::Bool(true), String::from("true")),
            Token::new(TokenKind::Bool(false), String::from("false")),
            Token::new(TokenKind::NoneLit, String::from("none")),
            Token::from_kind(TokenKind::Newline),
        ]
    );
}

#[test]
fn lex_string_escapes() {
    assert_eq!(
        lex("'a\\'b\\n\\q'"),
        vec![
            Token::new(
                TokenKind::StringLit(String::from("a'b\n\\q")),
                String::from("a'b\n\\q")
            ),
            Token::from_kind(TokenKind::Newline),
        ]
    );
}

#[test]
fn lex_twice_identical() {
    let source = "print [ 1 + 2 ]\nfoo\n";
    let mut first = Lexer::new(String::from(source));
    let mut second = Lexer::new(String::from(source));
    assert_eq!(first.collect_tokens(), second.collect_tokens());
    // A reused tokenizer rescans from a clean slate as well.
    assert_eq!(first.collect_tokens(), second.collect_tokens());
}

#[test]
fn lex_unterminated_string_is_error() {
    let mut lexer = Lexer::new(String::from("'abc"));
    let tokens = lexer.collect_tokens();
    assert!(lexer.contains_errors);
    assert_eq!(tokens, vec![]);
    assert_eq!(lexer.diagnostics.len(), 1);
}

#[test]
fn lex_unmatched_paren_is_error() {
    let mut lexer = Lexer::new(String::from(")"));
    let tokens = lexer.collect_tokens();
    assert!(lexer.contains_errors);
    assert_eq!(
        tokens,
        vec![
            Token::from_kind(TokenKind::RightParen),
            Token::from_kind(TokenKind::Newline)
        ]
    );
}

#[test]
fn lex_unmatched_bracket_is_error() {
    let mut lexer = Lexer::new(String::from("]"));
    lexer.collect_tokens();
    assert!(lexer.contains_errors);
}

#[test]
fn lex_matched_parens_are_fine() {
    let mut lexer = Lexer::new(String::from("( 1 )"));
    lexer.collect_tokens();
    assert!(!lexer.contains_errors);
}

#[test]
fn lex_unknown_symbol_is_error() {
    let mut lexer = Lexer::new(String::from("@"));
    let tokens = lexer.collect_tokens();
    assert!(lexer.contains_errors);
    assert_eq!(tokens, vec![]);
}

#[test]
fn lex_malformed_number_is_error() {
    let mut lexer = Lexer::new(String::from("1_2"));
    let tokens = lexer.collect_tokens();
    assert!(lexer.contains_errors);
    assert_eq!(tokens, vec![]);
}

#[test]
fn lex_indentation_mismatch_is_error() {
    let mut lexer = Lexer::new(String::from("    a\n  b\n c\n"));
    lexer.collect_tokens();
    assert!(lexer.contains_errors);
}

#[test]
fn lex_nesting_suppresses_indentation() {
    assert_eq!(
        lex("[\n    1\n]"),
        vec![
            Token::from_kind(TokenKind::LeftBracket),
            Token::from_kind(TokenKind::Newline),
            Token::new(TokenKind::Number(1.0f64.to_bits()), String::from("1")),
            Token::from_kind(TokenKind::Newline),
            Token::from_kind(TokenKind::RightBracket),
            Token::from_kind(TokenKind::Newline),
        ]
    );
}
