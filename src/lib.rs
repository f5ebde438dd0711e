//! The front end of a small general-purpose language: a lexer that turns source text into
//! positioned tokens and lexical errors, and a recursive-descent parser that turns tokens
//! into a syntax tree, recovering from syntax errors so that one pass reports them all.
pub mod ast;
pub mod declaration;
pub mod error;
pub mod expression;
pub mod grammar;
pub mod lexer;
pub mod parser;
pub mod scan;
pub mod statement;
pub mod token;
