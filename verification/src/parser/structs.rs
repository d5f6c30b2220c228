//! Errors produced while parsing or validating source.
use vstd::prelude::*;
use crate::ast::ErrorData;

verus! {

/// Errors produced while parsing or validating source.
#[derive(Debug)]
pub enum ParseError {
    TypeError(ErrorData),
    InvalidSyntax(ErrorData),
    ImportError(ErrorData),
}

} // verus!
