//! The names of the built-in functions, classes, methods, macros and types.
pub mod catalog;
pub mod registry;
pub mod text;
pub mod datetime;
pub mod regex;
