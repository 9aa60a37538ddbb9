//! Source regions measured in characters.

use vstd::prelude::*;

verus! {

/// A half-open region `[start_idx, end_idx)` of a source unit, in characters.
#[derive(Clone, Copy, Debug, PartialEq, Eq, Structural)]
pub struct Span {
    pub start_idx: usize,
    pub end_idx: usize,
    pub len: usize,
}

impl Span {
    /// The region is not inverted and `len` is its width.
    pub open spec fn wf(&self) -> bool {
        &&& self.start_idx <= self.end_idx
        &&& self.len == self.end_idx - self.start_idx
    }

    /// The region from `start_idx` up to, not including, `end_idx`.
    pub fn new(start_idx: usize, end_idx: usize) -> (span: Span)
        requires
            start_idx <= end_idx,
        ensures
            span.start_idx == start_idx,
            span.end_idx == end_idx,
            span.len == end_idx - start_idx,
            span.wf(),
    {
        Span { start_idx, end_idx, len: end_idx - start_idx }
    }
}

} // verus!
