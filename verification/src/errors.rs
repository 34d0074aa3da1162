//! Structured diagnostics and the emitter that buffers them.
//!
//! Recoverable diagnostics are accumulated and surfaced at the end of a
//! pass; fatal ones (an irreconcilable type error in the unifier's
//! fallthrough, a circular type, a non-converging inference loop) mark the
//! emitter so the driver can flush and stop.  The library itself never
//! prints and never exits; rendering is the binary's concern.

use vstd::prelude::*;

use crate::span::CSpan;
use crate::types::{Type, TypeId};

verus! {

/// A diagnostic record.
#[derive(Debug, PartialEq)]
pub enum Diag {
    /// Two irreconcilable types.
    TypeError(Type, Type),
    /// Two concrete dimensions disagree.
    DimensionMismatch(Type, Type),
    /// Two tensor ranks disagree.
    RankMismatch(Type, Type),
    /// Argument counts disagree.
    ArityMismatch(usize, usize),
    /// An identifier is not bound.
    UnknownIdent(String, CSpan),
    /// The occurs check failed: the variable is bound to a type it occurs
    /// in.
    CircularType(TypeId, Type),
    /// The fixpoint loop exceeded its iteration cap.
    InferenceNonConvergent,
}

/// Buffers diagnostics in the order they were recorded.
#[derive(Debug)]
pub struct Emitter {
    pub diags: Vec<Diag>,
    pub fatal: bool,
}

impl Emitter {
    pub fn new() -> (r: Emitter)
        ensures
            r.diags@ =~= Seq::<Diag>::empty(),
            r.diags@.len() == 0,
            !r.fatal,
    {
        Emitter { diags: Vec::new(), fatal: false }
    }

    /// Records a recoverable diagnostic.
    pub fn add(&mut self, d: Diag)
        ensures
            final(self).diags@ == old(self).diags@.push(d),
            final(self).fatal == old(self).fatal,
    {
        self.diags.push(d);
    }

    /// Records a fatal diagnostic: the pass will be stopped and flushed.
    pub fn add_fatal(&mut self, d: Diag)
        ensures
            final(self).diags@ == old(self).diags@.push(d),
            final(self).fatal,
    {
        self.diags.push(d);
        self.fatal = true;
    }

    pub fn len(&self) -> (n: usize)
        ensures
            n == self.diags@.len(),
    {
        self.diags.len()
    }

    pub fn is_fatal(&self) -> (r: bool)
        ensures
            r == self.fatal,
    {
        self.fatal
    }
}

} // verus!
