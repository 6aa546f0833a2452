//! A small interpreter for a subset of Pascal.
//!
//! A program goes through four stages:
//!
//! * `lexing` turns the text into tokens, one per call;
//! * `parsing` builds the tree of the program from the tokens, by recursive
//!   descent, and states the grammar that it follows;
//! * `interpreting::symbol_table` walks the tree and rejects a program that
//!   uses a name it has not declared, or declares a name twice;
//! * `interpreting::interpreter` evaluates expressions and executes
//!   statements, which set the variables of the global scope.
//!
//! Integers have 32 bits. Reals are IEEE 754 doubles, which `reals` holds as
//! bit patterns and computes in software. Names are compared without regard
//! to case.

pub mod interpreting;
pub mod lexing;
pub mod parsing;
pub mod reals;
