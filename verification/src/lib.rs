//! The front end and evaluator of a small indentation-sensitive scripting
//! language: a tokenizer that turns source text into classified tokens, a
//! precedence-climbing recursive-descent parser that builds an expression and
//! statement tree, and a tree-walking evaluator over a dynamically-coerced
//! value model.
//!
//! Numbers are IEEE 754 binary64 values, carried everywhere as their bit
//! patterns (`u64`); the handful of operations that need real floating-point
//! hardware or decimal conversion go through the `numeric` module.

pub mod diag;
pub mod expr;
pub mod interpreter;
pub mod lexer;
pub mod parser;
pub mod statement;
pub mod numeric;
pub mod token;

pub use token::Token;
pub use token::TokenKind;
