use vstd::prelude::*;

pub mod errors;
pub mod parser;
pub mod text;
pub mod typing;

verus! {

/// Half-open byte-offset interval `[start, end)` into the original source
/// text. Every token, statement and diagnostic carries one.
#[derive(Debug, Clone, Copy, PartialEq, Eq, Structural)]
pub struct Span {
    pub start: usize,
    pub end: usize,
}

} // verus!
