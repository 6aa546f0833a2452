//! Meaning: the symbol table that validates a program, and the interpreter
//! that runs it.

pub mod interpreter;
pub mod misc;
pub mod name_map;
pub mod symbol_table;
pub mod types;
