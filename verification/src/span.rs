//! Byte ranges of syntax tree nodes.
use vstd::prelude::*;

verus! {

/// A byte offset into the source text.
#[derive(PartialEq, Eq, Debug, Clone, Copy, Structural)]
pub struct BytePos(pub usize);

/// The bytes `start..end` of the source text.
#[derive(PartialEq, Eq, Debug, Clone, Copy, Structural)]
pub struct Span {
    pub start: BytePos,
    pub end: BytePos,
}

} // verus!
