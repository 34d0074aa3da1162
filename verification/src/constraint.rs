//! Equality constraints between types, collected in a deterministic
//! insertion order so that diagnostics are reproducible.

use vstd::prelude::*;

use crate::types::{ty_eq, Type, TypeV};

verus! {

/// The views of a sequence of constraints, in order.
pub open spec fn eqs_v(v: Seq<Equals>) -> Seq<(TypeV, TypeV)> {
    Seq::new(v.len(), |i: int| (v[i].0@, v[i].1@))
}

/// Whether the collection already holds a constraint the unifier cannot
/// tell from this one (both sides equal as the unifier sees them, spans
/// ignored).
pub open spec fn contains_equiv(cs: Seq<(TypeV, TypeV)>, p: (TypeV, TypeV)) -> bool {
    exists|i: int|
        0 <= i < cs.len() && (#[trigger] cs[i]).0.equiv(p.0) && cs[i].1.equiv(p.1)
}

/// One equality between two types.
#[derive(Debug, PartialEq)]
pub struct Equals(pub Type, pub Type);

impl View for Equals {
    type V = (TypeV, TypeV);

    open spec fn view(&self) -> (TypeV, TypeV) {
        (self.0@, self.1@)
    }
}

/// An ordered collection of constraints; the order is the insertion order.
#[derive(Debug)]
pub struct Constraints {
    pub set: Vec<Equals>,
}

impl View for Constraints {
    type V = Seq<(TypeV, TypeV)>;

    open spec fn view(&self) -> Seq<(TypeV, TypeV)> {
        eqs_v(self.set@)
    }
}

impl Constraints {
    pub fn new() -> (r: Constraints)
        ensures
            r@ =~= Seq::<(TypeV, TypeV)>::empty(),
            r@.len() == 0,
    {
        Constraints { set: Vec::new() }
    }

    /// Appends a constraint, keeping the collection an ordered set: the
    /// order is the insertion order, and a constraint the unifier could
    /// not tell from one already present is not added again.
    pub fn add(&mut self, eq: Equals)
        ensures
            final(self)@ == if contains_equiv(old(self)@, eq@) {
                old(self)@
            } else {
                old(self)@.push(eq@)
            },
    {
        let ghost pv = eq@;
        let mut i: usize = 0;
        while i < self.set.len()
            invariant
                i <= self.set@.len(),
                self == old(self),
                pv == eq@,
                forall|j: int|
                    0 <= j < i ==> !((#[trigger] self@[j]).0.equiv(pv.0) && self@[j].1.equiv(
                        pv.1,
                    )),
            decreases self.set@.len() - i,
        {
            if ty_eq(&self.set[i].0, &eq.0) && ty_eq(&self.set[i].1, &eq.1) {
                proof {
                    assert(self@[i as int] == (self.set@[i as int].0@, self.set@[i as int].1@));
                    assert(self@[i as int].0.equiv(pv.0) && self@[i as int].1.equiv(pv.1));
                    assert(contains_equiv(self@, pv));
                }
                return ;
            }
            i = i + 1;
        }
        proof {
            assert(!contains_equiv(self@, pv));
        }
        let ghost pre = self@;
        self.set.push(eq);
        proof {
            assert(self@ =~= pre.push(pv));
        }
    }

    pub fn is_empty(&self) -> (r: bool)
        ensures
            r == (self@.len() == 0),
    {
        self.set.len() == 0
    }

    pub fn len(&self) -> (n: usize)
        ensures
            n == self@.len(),
    {
        self.set.len()
    }
}

} // verus!
