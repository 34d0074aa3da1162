//! Source spans: opaque location handles carried by every type and every
//! typed term.  Equality of types is defined ignoring spans; the span only
//! travels along for diagnostics.

use vstd::prelude::*;

verus! {

/// A half-open byte range into the source text.
#[derive(Debug, Clone, Copy, PartialEq, Eq, Structural)]
pub struct CSpan {
    pub lo: u32,
    pub hi: u32,
}

impl CSpan {
    /// A span for values that have no originating source location, such as
    /// freshly generated type variables.
    pub fn fresh_span() -> (s: CSpan)
        ensures
            s.lo == 0 && s.hi == 0,
    {
        CSpan { lo: 0, hi: 0 }
    }

    pub fn new(lo: u32, hi: u32) -> (s: CSpan)
        ensures
            s.lo == lo && s.hi == hi,
    {
        CSpan { lo, hi }
    }
}

} // verus!
