//! Lexical analysis: characters to tokens.

pub mod chars;
pub mod lexer;
pub mod source;
pub mod token;
