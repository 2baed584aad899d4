use vstd::prelude::*;

verus! {

/// Identity of a node of the analysed program.
pub type NodeId = u32;

/// A source extent: the offsets of its first byte and of the byte after its last.
#[derive(Clone, Copy, Debug, PartialEq, Eq, Structural)]
pub struct Span {
    pub lo: u32,
    pub hi: u32,
}

impl Span {
    /// The extent from `lo` up to `hi`.
    pub fn new(lo: u32, hi: u32) -> (s: Span)
        ensures
            s == (Span { lo, hi }),
    {
        Span { lo, hi }
    }
}

} // verus!
