use vstd::prelude::*;

verus! {

/// A half-open range of source positions, `start..end`.
#[derive(Debug, Clone, Copy, PartialEq, Eq, Structural)]
pub struct Span {
    pub start: usize,
    pub end: usize,
}

} // verus!
