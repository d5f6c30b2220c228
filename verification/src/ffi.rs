//! Tags of the values exchanged with native libraries.
use vstd::prelude::*;

verus! {

/// What a value passed to or from a native library holds.
#[derive(Debug, Clone, Copy, PartialEq, Eq, Structural)]
pub enum GoidaFfiTag {
    Empty,
    Number,
    Float,
    Boolean,
    Boxed,
}

/// The number that stands for a tag on the native side.
pub open spec fn tag_code(t: GoidaFfiTag) -> u32 {
    match t {
        GoidaFfiTag::Empty => 0,
        GoidaFfiTag::Number => 1,
        GoidaFfiTag::Float => 2,
        GoidaFfiTag::Boolean => 3,
        GoidaFfiTag::Boxed => 4,
    }
}

impl GoidaFfiTag {
    /// The number that stands for the tag on the native side.
    pub fn code(self) -> (r: u32)
        ensures
            r == tag_code(self),
    {
        match self {
            GoidaFfiTag::Empty => 0,
            GoidaFfiTag::Number => 1,
            GoidaFfiTag::Float => 2,
            GoidaFfiTag::Boolean => 3,
            GoidaFfiTag::Boxed => 4,
        }
    }

    /// The tag a native number stands for; none for an unknown number.
    pub fn from_code(code: u32) -> (r: Option<GoidaFfiTag>)
        ensures
            match r {
                Some(t) => tag_code(t) == code,
                None => forall|t: GoidaFfiTag| tag_code(t) != code,
            },
    {
        match code {
            0 => Some(GoidaFfiTag::Empty),
            1 => Some(GoidaFfiTag::Number),
            2 => Some(GoidaFfiTag::Float),
            3 => Some(GoidaFfiTag::Boolean),
            4 => Some(GoidaFfiTag::Boxed),
            _ => None,
        }
    }
}

/// Decoding a tag's number gives the tag back.
pub proof fn lemma_tag_code_roundtrip(t: GoidaFfiTag)
    ensures
        tag_code(t) <= 4,
        forall|u: GoidaFfiTag| tag_code(u) == tag_code(t) ==> u == t,
{
}

} // verus!
