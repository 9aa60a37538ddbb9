//! Lexical front end of the Silver language.

pub mod lexer;
pub mod source_map;
pub mod span;
pub mod tree;
