//! The lexical value model: token categories, tokens, and the coercion
//! helpers (to-number, to-bool, to-string, equality) that the evaluator
//! builds on.
//!
//! The category and token types are generic over the text representation so
//! that the same shape serves both executable code (over `String`) and
//! specifications (over `Seq<char>`).

use vstd::prelude::*;

use crate::numeric::is_zero_b;
use crate::numeric::num_eq_b;
use crate::numeric::num_to_text;
use crate::numeric::number_text_of;

verus! {

/// A token category. Single- and two-character operators each have their own
/// tag; literals carry their payload (numbers as IEEE 754 binary64 bit
/// patterns); keywords have one tag per reserved word; `Newline`, `Indent`,
/// `Dedent` and `Eof` are control tags.
#[derive(Debug, PartialEq)]
pub enum TokenKindG<S> {
    LeftParen,
    RightParen,
    LeftBracket,
    RightBracket,
    Comma,
    Period,
    Colon,
    Plus,
    PlusEqual,
    Minus,
    MinusEqual,
    Star,
    StarEqual,
    Slash,
    SlashEqual,
    Percent,
    PercentEqual,
    Caret,
    CaretEqual,
    Bang,
    BangEqual,
    Equal,
    EqualEqual,
    Greater,
    GreaterEqual,
    Less,
    LessEqual,
    Identifier(S),
    StringLit(S),
    Number(u64),
    Bool(bool),
    Func,
    Define,
    Return,
    Continue,
    Break,
    Print,
    And,
    Or,
    Not,
    If,
    Else,
    For,
    While,
    Loop,
    NoneLit,
    Newline,
    Indent,
    Dedent,
    Eof,
}

/// Executable token categories carry their text payloads as `String`s.
pub type TokenKind = TokenKindG<String>;

/// The mathematical model of a token category: payloads are `Seq<char>`.
pub type TokenKindV = TokenKindG<Seq<char>>;

impl View for TokenKind {
    type V = TokenKindV;

    open spec fn view(&self) -> TokenKindV {
        match self {
            TokenKindG::LeftParen => TokenKindG::LeftParen,
            TokenKindG::RightParen => TokenKindG::RightParen,
            TokenKindG::LeftBracket => TokenKindG::LeftBracket,
            TokenKindG::RightBracket => TokenKindG::RightBracket,
            TokenKindG::Comma => TokenKindG::Comma,
            TokenKindG::Period => TokenKindG::Period,
            TokenKindG::Colon => TokenKindG::Colon,
            TokenKindG::Plus => TokenKindG::Plus,
            TokenKindG::PlusEqual => TokenKindG::PlusEqual,
            TokenKindG::Minus => TokenKindG::Minus,
            TokenKindG::MinusEqual => TokenKindG::MinusEqual,
            TokenKindG::Star => TokenKindG::Star,
            TokenKindG::StarEqual => TokenKindG::StarEqual,
            TokenKindG::Slash => TokenKindG::Slash,
            TokenKindG::SlashEqual => TokenKindG::SlashEqual,
            TokenKindG::Percent => TokenKindG::Percent,
            TokenKindG::PercentEqual => TokenKindG::PercentEqual,
            TokenKindG::Caret => TokenKindG::Caret,
            TokenKindG::CaretEqual => TokenKindG::CaretEqual,
            TokenKindG::Bang => TokenKindG::Bang,
            TokenKindG::BangEqual => TokenKindG::BangEqual,
            TokenKindG::Equal => TokenKindG::Equal,
            TokenKindG::EqualEqual => TokenKindG::EqualEqual,
            TokenKindG::Greater => TokenKindG::Greater,
            TokenKindG::GreaterEqual => TokenKindG::GreaterEqual,
            TokenKindG::Less => TokenKindG::Less,
            TokenKindG::LessEqual => TokenKindG::LessEqual,
            TokenKindG::Identifier(s) => TokenKindG::Identifier(s@),
            TokenKindG::StringLit(s) => TokenKindG::StringLit(s@),
            TokenKindG::Number(b) => TokenKindG::Number(*b),
            TokenKindG::Bool(b) => TokenKindG::Bool(*b),
            TokenKindG::Func => TokenKindG::Func,
            TokenKindG::Define => TokenKindG::Define,
            TokenKindG::Return => TokenKindG::Return,
            TokenKindG::Continue => TokenKindG::Continue,
            TokenKindG::Break => TokenKindG::Break,
            TokenKindG::Print => TokenKindG::Print,
            TokenKindG::And => TokenKindG::And,
            TokenKindG::Or => TokenKindG::Or,
            TokenKindG::Not => TokenKindG::Not,
            TokenKindG::If => TokenKindG::If,
            TokenKindG::Else => TokenKindG::Else,
            TokenKindG::For => TokenKindG::For,
            TokenKindG::While => TokenKindG::While,
            TokenKindG::Loop => TokenKindG::Loop,
            TokenKindG::NoneLit => TokenKindG::NoneLit,
            TokenKindG::Newline => TokenKindG::Newline,
            TokenKindG::Indent => TokenKindG::Indent,
            TokenKindG::Dedent => TokenKindG::Dedent,
            TokenKindG::Eof => TokenKindG::Eof,
        }
    }
}

impl Clone for TokenKind {
    fn clone(&self) -> (r: Self)
        ensures
            r == *self,
    {
        match self {
            TokenKindG::LeftParen => TokenKindG::LeftParen,
            TokenKindG::RightParen => TokenKindG::RightParen,
            TokenKindG::LeftBracket => TokenKindG::LeftBracket,
            TokenKindG::RightBracket => TokenKindG::RightBracket,
            TokenKindG::Comma => TokenKindG::Comma,
            TokenKindG::Period => TokenKindG::Period,
            TokenKindG::Colon => TokenKindG::Colon,
            TokenKindG::Plus => TokenKindG::Plus,
            TokenKindG::PlusEqual => TokenKindG::PlusEqual,
            TokenKindG::Minus => TokenKindG::Minus,
            TokenKindG::MinusEqual => TokenKindG::MinusEqual,
            TokenKindG::Star => TokenKindG::Star,
            TokenKindG::StarEqual => TokenKindG::StarEqual,
            TokenKindG::Slash => TokenKindG::Slash,
            TokenKindG::SlashEqual => TokenKindG::SlashEqual,
            TokenKindG::Percent => TokenKindG::Percent,
            TokenKindG::PercentEqual => TokenKindG::PercentEqual,
            TokenKindG::Caret => TokenKindG::Caret,
            TokenKindG::CaretEqual => TokenKindG::CaretEqual,
            TokenKindG::Bang => TokenKindG::Bang,
            TokenKindG::BangEqual => TokenKindG::BangEqual,
            TokenKindG::Equal => TokenKindG::Equal,
            TokenKindG::EqualEqual => TokenKindG::EqualEqual,
            TokenKindG::Greater => TokenKindG::Greater,
            TokenKindG::GreaterEqual => TokenKindG::GreaterEqual,
            TokenKindG::Less => TokenKindG::Less,
            TokenKindG::LessEqual => TokenKindG::LessEqual,
            TokenKindG::Identifier(s) => TokenKindG::Identifier(s.clone()),
            TokenKindG::StringLit(s) => TokenKindG::StringLit(s.clone()),
            TokenKindG::Number(b) => TokenKindG::Number(*b),
            TokenKindG::Bool(b) => TokenKindG::Bool(*b),
            TokenKindG::Func => TokenKindG::Func,
            TokenKindG::Define => TokenKindG::Define,
            TokenKindG::Return => TokenKindG::Return,
            TokenKindG::Continue => TokenKindG::Continue,
            TokenKindG::Break => TokenKindG::Break,
            TokenKindG::Print => TokenKindG::Print,
            TokenKindG::And => TokenKindG::And,
            TokenKindG::Or => TokenKindG::Or,
            TokenKindG::Not => TokenKindG::Not,
            TokenKindG::If => TokenKindG::If,
            TokenKindG::Else => TokenKindG::Else,
            TokenKindG::For => TokenKindG::For,
            TokenKindG::While => TokenKindG::While,
            TokenKindG::Loop => TokenKindG::Loop,
            TokenKindG::NoneLit => TokenKindG::NoneLit,
            TokenKindG::Newline => TokenKindG::Newline,
            TokenKindG::Indent => TokenKindG::Indent,
            TokenKindG::Dedent => TokenKindG::Dedent,
            TokenKindG::Eof => TokenKindG::Eof,
        }
    }
}

/// A token: its category together with the surface text it was scanned from.
/// Synthesized tokens (`Newline`, `Indent`, `Dedent` inserted by the
/// tokenizer) carry an empty lexeme.
#[derive(Debug, PartialEq)]
pub struct TokenG<S> {
    pub kind: TokenKindG<S>,
    pub lexeme: S,
}

/// Executable tokens carry `String` text.
pub type Token = TokenG<String>;

/// The mathematical model of a token.
pub type TokenV = TokenG<Seq<char>>;

impl View for Token {
    type V = TokenV;

    open spec fn view(&self) -> TokenV {
        TokenG { kind: self.kind@, lexeme: self.lexeme@ }
    }
}

impl DeepView for Token {
    type V = TokenV;

    open spec fn deep_view(&self) -> TokenV {
        self@
    }
}

impl Clone for Token {
    fn clone(&self) -> (r: Self)
        ensures
            r == *self,
    {
        Token { kind: self.kind.clone(), lexeme: self.lexeme.clone() }
    }
}

/// The model of a token synthesized from a bare category: empty lexeme.
pub open spec fn from_kind_v(kind: TokenKindV) -> TokenV {
    TokenG { kind, lexeme: Seq::<char>::empty() }
}

/// The text a token coerces to: defined for string, number, boolean and
/// `none` literals, and nothing else.
pub open spec fn to_string_v(t: TokenV) -> Option<Seq<char>> {
    match t.kind {
        TokenKindG::StringLit(s) => Some(s),
        TokenKindG::Number(b) => Some(number_text_of(b)),
        TokenKindG::Bool(b) => Some(if b { "true"@ } else { "false"@ }),
        TokenKindG::NoneLit => Some("none"@),
        _ => Option::<Seq<char>>::None,
    }
}

/// The number a token coerces to: defined only for number literals.
pub open spec fn to_number_v(t: TokenV) -> Option<u64> {
    match t.kind {
        TokenKindG::Number(b) => Some(b),
        _ => Option::<u64>::None,
    }
}

/// The boolean a token coerces to: identifiers are false (no binding
/// environment exists), strings are true when non-empty, numbers are true
/// when nonzero, booleans pass through, `none` is false; nothing else
/// coerces.
pub open spec fn to_bool_v(t: TokenV) -> Option<bool> {
    match t.kind {
        TokenKindG::Identifier(_) => Some(false),
        TokenKindG::StringLit(s) => Some(s.len() > 0),
        TokenKindG::Number(b) => Some(!is_zero_b(b)),
        TokenKindG::Bool(b) => Some(b),
        TokenKindG::NoneLit => Some(false),
        _ => Option::<bool>::None,
    }
}

/// The equality cascade: numeric comparison when both sides coerce to
/// numbers, else boolean comparison when both coerce to booleans, else text
/// comparison when both coerce to text, else unequal.
pub open spec fn is_equal_v(a: TokenV, b: TokenV) -> bool {
    if to_number_v(a) is Some && to_number_v(b) is Some {
        num_eq_b(to_number_v(a)->Some_0, to_number_v(b)->Some_0)
    } else if to_bool_v(a) is Some && to_bool_v(b) is Some {
        to_bool_v(a)->Some_0 == to_bool_v(b)->Some_0
    } else if to_string_v(a) is Some && to_string_v(b) is Some {
        to_string_v(a)->Some_0 == to_string_v(b)->Some_0
    } else {
        false
    }
}

impl Token {
    pub fn new(kind: TokenKind, lexeme: String) -> (t: Token)
        ensures
            t@ == (TokenG { kind: kind@, lexeme: lexeme@ }),
    {
        Token { kind, lexeme }
    }

    /// A token synthesized from a bare category, with an empty lexeme.
    pub fn from_kind(kind: TokenKind) -> (t: Token)
        ensures
            t@ == from_kind_v(kind@),
    {
        Token { kind, lexeme: String::new() }
    }

    /// Coerce the token to text.
    pub fn to_string(&self) -> (r: Option<String>)
        ensures
            match r {
                Some(s) => to_string_v(self@) == Some(s@),
                None => to_string_v(self@) is None,
            },
    {
        match &self.kind {
            TokenKindG::StringLit(val) => Some(val.clone()),
            TokenKindG::Number(b) => Some(num_to_text(*b)),
            TokenKindG::Bool(b) => {
                if *b {
                    Some(String::from_str("true"))
                } else {
                    Some(String::from_str("false"))
                }
            },
            TokenKindG::NoneLit => Some(String::from_str("none")),
            _ => None,
        }
    }

    /// Coerce the token to a number (its bit pattern).
    pub fn to_number(&self) -> (r: Option<u64>)
        ensures
            r == to_number_v(self@),
    {
        if let TokenKindG::Number(val) = &self.kind {
            Some(*val)
        } else {
            None
        }
    }

    /// Coerce the token to a boolean.
    pub fn to_bool(&self) -> (r: Option<bool>)
        ensures
            r == to_bool_v(self@),
    {
        match &self.kind {
            TokenKindG::Identifier(_) => Some(false),
            TokenKindG::StringLit(val) => Some(!val.as_str().is_empty()),
            TokenKindG::Number(b) => Some(*b & crate::numeric::ABS_MASK != 0),
            TokenKindG::Bool(b) => Some(*b),
            TokenKindG::NoneLit => Some(false),
            _ => None,
        }
    }

    /// Cross-type equality through the coercion cascade: numeric first, then
    /// boolean, then text; unequal when no cascade stage applies to both
    /// sides.
    pub fn is_equal(&self, rhs: Token) -> (r: bool)
        ensures
            r == is_equal_v(self@, rhs@),
    {
        let ln = self.to_number();
        let rn = rhs.to_number();
        if ln.is_some() && rn.is_some() {
            return crate::numeric::num_eq(ln.unwrap(), rn.unwrap());
        }
        let lb = self.to_bool();
        let rb = rhs.to_bool();
        if lb.is_some() && rb.is_some() {
            return lb.unwrap() == rb.unwrap();
        }
        let ls = self.to_string();
        let rs = rhs.to_string();
        if ls.is_some() && rs.is_some() {
            let lv = ls.unwrap();
            return lv == rs.unwrap();
        }
        false
    }
}

/// Structural equality of token categories, payloads included.
#[verifier::rlimit(60)]
pub fn kind_eq(a: &TokenKind, b: &TokenKind) -> (r: bool)
    ensures
        r == (a@ == b@),
{
    match (a, b) {
        (TokenKindG::LeftParen, TokenKindG::LeftParen) => true,
        (TokenKindG::RightParen, TokenKindG::RightParen) => true,
        (TokenKindG::LeftBracket, TokenKindG::LeftBracket) => true,
        (TokenKindG::RightBracket, TokenKindG::RightBracket) => true,
        (TokenKindG::Comma, TokenKindG::Comma) => true,
        (TokenKindG::Period, TokenKindG::Period) => true,
        (TokenKindG::Colon, TokenKindG::Colon) => true,
        (TokenKindG::Plus, TokenKindG::Plus) => true,
        (TokenKindG::PlusEqual, TokenKindG::PlusEqual) => true,
        (TokenKindG::Minus, TokenKindG::Minus) => true,
        (TokenKindG::MinusEqual, TokenKindG::MinusEqual) => true,
        (TokenKindG::Star, TokenKindG::Star) => true,
        (TokenKindG::StarEqual, TokenKindG::StarEqual) => true,
        (TokenKindG::Slash, TokenKindG::Slash) => true,
        (TokenKindG::SlashEqual, TokenKindG::SlashEqual) => true,
        (TokenKindG::Percent, TokenKindG::Percent) => true,
        (TokenKindG::PercentEqual, TokenKindG::PercentEqual) => true,
        (TokenKindG::Caret, TokenKindG::Caret) => true,
        (TokenKindG::CaretEqual, TokenKindG::CaretEqual) => true,
        (TokenKindG::Bang, TokenKindG::Bang) => true,
        (TokenKindG::BangEqual, TokenKindG::BangEqual) => true,
        (TokenKindG::Equal, TokenKindG::Equal) => true,
        (TokenKindG::EqualEqual, TokenKindG::EqualEqual) => true,
        (TokenKindG::Greater, TokenKindG::Greater) => true,
        (TokenKindG::GreaterEqual, TokenKindG::GreaterEqual) => true,
        (TokenKindG::Less, TokenKindG::Less) => true,
        (TokenKindG::LessEqual, TokenKindG::LessEqual) => true,
        (TokenKindG::Identifier(x), TokenKindG::Identifier(y)) => x.eq(y),
        (TokenKindG::StringLit(x), TokenKindG::StringLit(y)) => x.eq(y),
        (TokenKindG::Number(x), TokenKindG::Number(y)) => x == y,
        (TokenKindG::Bool(x), TokenKindG::Bool(y)) => x == y,
        (TokenKindG::Func, TokenKindG::Func) => true,
        (TokenKindG::Define, TokenKindG::Define) => true,
        (TokenKindG::Return, TokenKindG::Return) => true,
        (TokenKindG::Continue, TokenKindG::Continue) => true,
        (TokenKindG::Break, TokenKindG::Break) => true,
        (TokenKindG::Print, TokenKindG::Print) => true,
        (TokenKindG::And, TokenKindG::And) => true,
        (TokenKindG::Or, TokenKindG::Or) => true,
        (TokenKindG::Not, TokenKindG::Not) => true,
        (TokenKindG::If, TokenKindG::If) => true,
        (TokenKindG::Else, TokenKindG::Else) => true,
        (TokenKindG::For, TokenKindG::For) => true,
        (TokenKindG::While, TokenKindG::While) => true,
        (TokenKindG::Loop, TokenKindG::Loop) => true,
        (TokenKindG::NoneLit, TokenKindG::NoneLit) => true,
        (TokenKindG::Newline, TokenKindG::Newline) => true,
        (TokenKindG::Indent, TokenKindG::Indent) => true,
        (TokenKindG::Dedent, TokenKindG::Dedent) => true,
        (TokenKindG::Eof, TokenKindG::Eof) => true,
        _ => false,
    }
}

} // verus!
