//! Syntax: the tree, the grammar, and the parser that builds the tree.

pub mod ast;
pub mod grammar;
pub mod parser;
pub mod shape;
pub mod writing;
