//! Front end of the language: tokens, syntax tree, macro expansion, the
//! source printer and diagnostics helpers.
pub mod utils;
pub mod rules;
pub mod lexer;
pub mod scanner;
pub mod syntax;
pub mod structs;
pub mod macro_expander;
pub mod printer;
pub mod expansion;
pub mod program;
pub mod validation;
pub mod builder;
