//! Source locations, diagnostics and the primitive vocabulary of types and
//! operators shared by the parser and the runtime.
use vstd::prelude::*;

verus! {

/// A byte range `[start, end)` in the module whose interned name is
/// `file_id`.
#[derive(Debug, Clone, Copy, PartialEq, Eq, Structural)]
pub struct Span {
    pub start: usize,
    pub end: usize,
    pub file_id: usize,
}

impl Span {
    /// A span in the given module.
    pub fn new(start: usize, end: usize, file_id: usize) -> (r: Span)
        ensures
            r.start == start,
            r.end == end,
            r.file_id == file_id,
    {
        Span { start, end, file_id }
    }
}

/// Diagnostic payload shared by parse and runtime errors.
#[derive(Debug)]
pub struct ErrorData {
    pub location: Span,
    pub message: String,
}

impl ErrorData {
    /// A diagnostic at the given source span.
    pub fn new(location: Span, message: String) -> (r: ErrorData)
        ensures
            r.location == location,
            r.message == message,
    {
        ErrorData { location, message }
    }
}

/// The primitive value types.
#[derive(Debug, Clone, Copy, PartialEq, Eq, Structural)]
pub enum PrimitiveType {
    Number,
    Float,
    Text,
    Boolean,
}

/// The name under which a primitive type is shown to users.
pub open spec fn primitive_type_name(t: PrimitiveType) -> Seq<char> {
    match t {
        PrimitiveType::Number => "число"@,
        PrimitiveType::Boolean => "логическое"@,
        PrimitiveType::Text => "строка"@,
        PrimitiveType::Float => "дробь"@,
    }
}

impl PrimitiveType {
    /// The name under which the type is shown to users.
    pub fn to_string(&self) -> (r: String)
        ensures
            r@ == primitive_type_name(*self),
    {
        match self {
            PrimitiveType::Number => String::from_str("число"),
            PrimitiveType::Boolean => String::from_str("логическое"),
            PrimitiveType::Text => String::from_str("строка"),
            PrimitiveType::Float => String::from_str("дробь"),
        }
    }
}

/// The binary operators.
#[derive(Debug, Clone, Copy, PartialEq, Eq, Structural)]
pub enum BinaryOperator {
    Add,
    Sub,
    Mul,
    Div,
    Mod,
    Eq,
    Ne,
    Lt,
    Le,
    Gt,
    Ge,
    And,
    Or,
}

/// The unary operators.
#[derive(Debug, Clone, Copy, PartialEq, Eq, Structural)]
pub enum UnaryOperator {
    Negative,
    Not,
}

} // verus!
