//! Reading programs: from text to syntax trees.

pub mod ast;
pub mod laws;
pub mod lexer;
pub mod parser;
pub mod reader_laws;
