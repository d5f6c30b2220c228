//! Verified core of the Goida language tooling: the source formatter, the
//! lexer's token post-processing, the macro matcher, the pretty-printer of
//! expanded syntax, the built-in name catalog and the package helpers.
pub mod text;
pub mod ast;
pub mod formatter;
pub mod parser;
pub mod builtins;
pub mod shared;
pub mod ffi;
pub mod package;
