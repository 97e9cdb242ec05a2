//! From source text to bytecode: tokens, the syntax tree, the compiler and
//! the dependency extractor.

pub mod ast;
pub mod beautify;
pub mod dependencies;
pub mod number;
pub mod parse;
pub mod to_operator;
pub mod type_ast;
