//! Structured diagnostics. Every stage accumulates these instead of writing
//! to a stream; the caller renders and prints them. Line numbers are
//! zero-based source lines.

use vstd::prelude::*;

use crate::token::TokenKindG;
use crate::token::TokenKindV;
use crate::token::TokenKind;

verus! {

/// One diagnostic, generic over the text representation of token payloads.
#[derive(Debug)]
pub enum DiagnosticG<S> {
    /// A line's indentation matches no enclosing indentation level.
    IndentationError { line: usize },
    /// End of input inside a string literal.
    UnterminatedString { line: usize },
    /// A closing parenthesis with no opening parenthesis pending.
    UnmatchedParen { line: usize },
    /// A closing bracket with no opening bracket pending.
    UnmatchedBracket { line: usize },
    /// A character that starts no token.
    UnknownSymbol { line: usize, symbol: char },
    /// A numeric lexeme that does not denote a number.
    InvalidNumber { line: usize },
    /// The parser found no token of the expected category in the remaining
    /// stream.
    ExpectedToken { expected: TokenKindG<S> },
    /// An operand did not coerce to a number.
    ExpectedNumber { found: TokenKindG<S> },
    /// An operand did not coerce to a boolean.
    ExpectedBool { found: TokenKindG<S> },
    /// An operator applied to an operand combination it does not support.
    UnsupportedBinary { op: TokenKindG<S>, lhs: TokenKindG<S>, rhs: TokenKindG<S> },
    /// A token that is no unary operator in operator position.
    UnsupportedUnary { op: TokenKindG<S> },
}

/// Executable diagnostics.
pub type Diagnostic = DiagnosticG<String>;

/// The mathematical model of a diagnostic.
pub type DiagnosticV = DiagnosticG<Seq<char>>;

impl View for Diagnostic {
    type V = DiagnosticV;

    open spec fn view(&self) -> DiagnosticV {
        match self {
            DiagnosticG::IndentationError { line } => DiagnosticG::IndentationError {
                line: *line,
            },
            DiagnosticG::UnterminatedString { line } => DiagnosticG::UnterminatedString {
                line: *line,
            },
            DiagnosticG::UnmatchedParen { line } => DiagnosticG::UnmatchedParen { line: *line },
            DiagnosticG::UnmatchedBracket { line } => DiagnosticG::UnmatchedBracket {
                line: *line,
            },
            DiagnosticG::UnknownSymbol { line, symbol } => DiagnosticG::UnknownSymbol {
                line: *line,
                symbol: *symbol,
            },
            DiagnosticG::InvalidNumber { line } => DiagnosticG::InvalidNumber { line: *line },
            DiagnosticG::ExpectedToken { expected } => DiagnosticG::ExpectedToken {
                expected: expected@,
            },
            DiagnosticG::ExpectedNumber { found } => DiagnosticG::ExpectedNumber {
                found: found@,
            },
            DiagnosticG::ExpectedBool { found } => DiagnosticG::ExpectedBool { found: found@ },
            DiagnosticG::UnsupportedBinary { op, lhs, rhs } => DiagnosticG::UnsupportedBinary {
                op: op@,
                lhs: lhs@,
                rhs: rhs@,
            },
            DiagnosticG::UnsupportedUnary { op } => DiagnosticG::UnsupportedUnary { op: op@ },
        }
    }
}

impl DeepView for Diagnostic {
    type V = DiagnosticV;

    open spec fn deep_view(&self) -> DiagnosticV {
        self@
    }
}

impl DeepView for TokenKind {
    type V = TokenKindV;

    open spec fn deep_view(&self) -> TokenKindV {
        self@
    }
}

} // verus!
