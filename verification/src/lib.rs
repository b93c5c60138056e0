//! A small Logo-language toolkit: a parser from program text to a syntax
//! tree, and a turtle-graphics interpreter that draws onto an `unsvg` image.

pub mod text;
pub mod logo_syntax;
pub mod logo_grammar;
pub mod logo_parser;
pub mod drawing;
pub mod logo_semantics;
pub mod logo_interpreter;
pub mod logo_reader;
pub mod logo_laws;
pub mod evaluation_laws;
pub mod grammar_laws;
