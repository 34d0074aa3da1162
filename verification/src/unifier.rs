//! Robinson-style unification extended with dimension arithmetic and
//! deferred module-function resolution.
//!
//! The unifier never throws on type errors: recoverable mismatches are
//! recorded in the emitter and solving continues so that several errors
//! surface in one pass; irreconcilable shapes and circular types mark the
//! emitter fatal and stop the pass.  When a pass records no diagnostic,
//! the returned substitution makes both sides of every constraint
//! equivalent (spans ignored, `INT` compatible with dimension literals).

use vstd::prelude::*;

use crate::constraint::{Constraints, Equals};
use crate::errors::{Diag, Emitter};
use crate::span::CSpan;
use crate::substitution::{
    apply_v, compose_v, cod_idset, cod_mkset, key_matches_exec, lemma_apply_elim,
    lemma_apply_equiv, lemma_apply_id, lemma_apply_lenient, lemma_apply_occurs_free,
    lemma_apply_sets, lemma_compose_apply, lemma_compose_wf, lemma_lookup_char, string_eq,
    wf_subst, SubstV, Substitution,
};
use crate::type_env::TypeEnv;
use crate::typed_term::TypedTerm;
use crate::types::{Type, TypeId, TypeV};

verus! {

/// The variable ids occurring in a constraint list.
pub open spec fn cs_idset(cs: Seq<(TypeV, TypeV)>) -> Set<int>
    decreases cs.len(),
{
    if cs.len() == 0 {
        Set::empty()
    } else {
        cs[0].0.idset().union(cs[0].1.idset()).union(cs_idset(cs.drop_first()))
    }
}

/// The unresolved-module-fun markers occurring in a constraint list.
pub open spec fn cs_mkset(cs: Seq<(TypeV, TypeV)>) -> Set<TypeV>
    decreases cs.len(),
{
    if cs.len() == 0 {
        Set::empty()
    } else {
        cs[0].0.mkset().union(cs[0].1.mkset()).union(cs_mkset(cs.drop_first()))
    }
}

/// The total size of a constraint list.
pub open spec fn cs_size(cs: Seq<(TypeV, TypeV)>) -> nat
    decreases cs.len(),
{
    if cs.len() == 0 {
        0
    } else {
        cs[0].0.tsize() + cs[0].1.tsize() + cs_size(cs.drop_first())
    }
}

/// Whether a key rewrites some node of some side of some constraint.
pub open spec fn key_occurs_cs(k: TypeV, cs: Seq<(TypeV, TypeV)>) -> bool
    decreases cs.len(),
{
    if cs.len() == 0 {
        false
    } else {
        k.key_occurs(cs[0].0) || k.key_occurs(cs[0].1) || key_occurs_cs(k, cs.drop_first())
    }
}

/// The substitution makes the two sides of every constraint equivalent.
pub open spec fn solves(s: SubstV, cs: Seq<(TypeV, TypeV)>) -> bool {
    forall|i: int|
        0 <= i < cs.len() ==> apply_v(s, #[trigger] cs[i].0).equiv(apply_v(s, cs[i].1))
}

/// The substitution makes both sides of every constraint agree up to the
/// residue that non-fatal diagnostics report (dimension values, ranks,
/// argument counts, keyword names); see [`TypeV::lenient`].
pub open spec fn solves_lenient(s: SubstV, cs: Seq<(TypeV, TypeV)>) -> bool {
    forall|i: int|
        0 <= i < cs.len() ==> apply_v(s, #[trigger] cs[i].0).lenient(apply_v(s, cs[i].1))
}

/// The key rewrites no key of the substitution and occurs in none of its
/// codomains: the substitution never touches it.
pub open spec fn foreign_to(k: TypeV, s: SubstV) -> bool {
    forall|i: int|
        0 <= i < s.len() ==> !k.key_matches((#[trigger] s[i]).0) && !k.key_occurs(s[i].1)
}

/// Every type has at least one node.
pub proof fn lemma_tsize_pos(t: TypeV)
    ensures
        t.tsize() >= 1,
{
}

pub proof fn lemma_cs_sets_finite(cs: Seq<(TypeV, TypeV)>)
    ensures
        cs_idset(cs).finite(),
        cs_mkset(cs).finite(),
    decreases cs.len(),
{
    if cs.len() == 0 {
    } else {
        TypeV::lemma_sets_finite(cs[0].0);
        TypeV::lemma_sets_finite(cs[0].1);
        lemma_cs_sets_finite(cs.drop_first());
    }
}

/// Each constraint contributes its sides' sets and sizes.
pub proof fn lemma_cs_elem(cs: Seq<(TypeV, TypeV)>, i: int)
    requires
        0 <= i < cs.len(),
    ensures
        cs[i].0.idset().subset_of(cs_idset(cs)),
        cs[i].1.idset().subset_of(cs_idset(cs)),
        cs[i].0.mkset().subset_of(cs_mkset(cs)),
        cs[i].1.mkset().subset_of(cs_mkset(cs)),
        cs[i].0.tsize() + cs[i].1.tsize() <= cs_size(cs),
    decreases cs.len(),
{
    if i == 0 {
    } else {
        lemma_cs_elem(cs.drop_first(), i - 1);
        assert(cs.drop_first()[i - 1] == cs[i]);
    }
}

/// A key that occurs in neither side of any constraint does not occur in
/// the list.
pub proof fn lemma_cs_occurs_intro(k: TypeV, cs: Seq<(TypeV, TypeV)>)
    requires
        forall|i: int|
            0 <= i < cs.len() ==> !k.key_occurs((#[trigger] cs[i]).0) && !k.key_occurs(cs[i].1),
    ensures
        !key_occurs_cs(k, cs),
    decreases cs.len(),
{
    if cs.len() == 0 {
    } else {
        assert forall|i: int|
            0 <= i < cs.drop_first().len() implies !k.key_occurs(
            (#[trigger] cs.drop_first()[i]).0,
        ) && !k.key_occurs(cs.drop_first()[i].1) by {
            assert(cs.drop_first()[i] == cs[i + 1]);
        }
        lemma_cs_occurs_intro(k, cs.drop_first());
        assert(!k.key_occurs(cs[0].0) && !k.key_occurs(cs[0].1));
    }
}

/// A key that does not occur in the list occurs in neither side of any
/// constraint.
pub proof fn lemma_cs_occurs_elim(k: TypeV, cs: Seq<(TypeV, TypeV)>)
    requires
        !key_occurs_cs(k, cs),
    ensures
        forall|i: int|
            0 <= i < cs.len() ==> !k.key_occurs((#[trigger] cs[i]).0) && !k.key_occurs(cs[i].1),
    decreases cs.len(),
{
    if cs.len() == 0 {
    } else {
        lemma_cs_occurs_elim(k, cs.drop_first());
        assert forall|i: int|
            0 <= i < cs.len() implies !k.key_occurs((#[trigger] cs[i]).0) && !k.key_occurs(
            cs[i].1,
        ) by {
            if i > 0 {
                assert(cs.drop_first()[i - 1] == cs[i]);
            }
        }
    }
}

/// Sets, sizes and occurrences distribute over concatenation.
pub proof fn lemma_cs_concat(a: Seq<(TypeV, TypeV)>, b: Seq<(TypeV, TypeV)>)
    ensures
        cs_idset(a + b) == cs_idset(a).union(cs_idset(b)),
        cs_mkset(a + b) == cs_mkset(a).union(cs_mkset(b)),
        cs_size(a + b) == cs_size(a) + cs_size(b),
        forall|k: TypeV|
            #[trigger] key_occurs_cs(k, a + b) == (key_occurs_cs(k, a) || key_occurs_cs(k, b)),
    decreases a.len(),
{
    if a.len() == 0 {
        assert(a + b =~= b);
        assert(cs_idset(a + b) =~= cs_idset(a).union(cs_idset(b)));
        assert(cs_mkset(a + b) =~= cs_mkset(a).union(cs_mkset(b)));
    } else {
        lemma_cs_concat(a.drop_first(), b);
        assert((a + b).drop_first() =~= a.drop_first() + b);
        assert((a + b)[0] == a[0]);
        assert(cs_idset(a + b) =~= cs_idset(a).union(cs_idset(b)));
        assert(cs_mkset(a + b) =~= cs_mkset(a).union(cs_mkset(b)));
        assert forall|k: TypeV|
            #[trigger] key_occurs_cs(k, a + b) == (key_occurs_cs(k, a) || key_occurs_cs(
                k,
                b,
            )) by {
            assert(key_occurs_cs(k, a.drop_first() + b) == (key_occurs_cs(k, a.drop_first())
                || key_occurs_cs(k, b)));
            assert(key_occurs_cs(k, (a + b).drop_first()) == key_occurs_cs(
                k,
                a.drop_first() + b,
            ));
        }
    }
}

/// Sets, sizes and occurrences after appending one constraint.
pub proof fn lemma_cs_push(cs: Seq<(TypeV, TypeV)>, p: (TypeV, TypeV))
    ensures
        cs_idset(cs.push(p)) == cs_idset(cs).union(p.0.idset()).union(p.1.idset()),
        cs_mkset(cs.push(p)) == cs_mkset(cs).union(p.0.mkset()).union(p.1.mkset()),
        cs_size(cs.push(p)) == cs_size(cs) + p.0.tsize() + p.1.tsize(),
        forall|k: TypeV|
            #[trigger] key_occurs_cs(k, cs.push(p)) == (key_occurs_cs(k, cs) || k.key_occurs(p.0)
                || k.key_occurs(p.1)),
{
    reveal_with_fuel(cs_idset, 3);
    reveal_with_fuel(cs_mkset, 3);
    reveal_with_fuel(cs_size, 3);
    reveal_with_fuel(key_occurs_cs, 3);
    assert(cs.push(p) =~= cs + seq![p]);
    lemma_cs_concat(cs, seq![p]);
    assert(seq![p].drop_first() =~= Seq::<(TypeV, TypeV)>::empty());
    assert(seq![p][0] == p);
    assert(seq![p].len() == 1);
    assert(cs_idset(seq![p]) =~= p.0.idset().union(p.1.idset()));
    assert(cs_mkset(seq![p]) =~= p.0.mkset().union(p.1.mkset()));
    assert forall|k: TypeV|
        #[trigger] key_occurs_cs(k, cs.push(p)) == (key_occurs_cs(k, cs) || k.key_occurs(p.0)
            || k.key_occurs(p.1)) by {
        assert(key_occurs_cs(k, cs + seq![p]) == (key_occurs_cs(k, cs) || key_occurs_cs(
            k,
            seq![p],
        )));
        assert(key_occurs_cs(k, seq![p]) == (k.key_occurs(p.0) || k.key_occurs(p.1)));
        assert(key_occurs_cs(k, cs.push(p)) == key_occurs_cs(k, cs + seq![p]));
    }
    assert(cs_idset(cs.push(p)) =~= cs_idset(cs).union(p.0.idset()).union(p.1.idset()));
    assert(cs_mkset(cs.push(p)) =~= cs_mkset(cs).union(p.0.mkset()).union(p.1.mkset()));
}

/// A finite strict inclusion has a strictly smaller cardinality.
pub proof fn lemma_strict_subset_len<X>(a: Set<X>, b: Set<X>, x: X)
    requires
        b.finite(),
        a.subset_of(b),
        b.contains(x),
        !a.contains(x),
    ensures
        a.finite(),
        a.len() < b.len(),
{
    assert(a.subset_of(b.remove(x)));
    vstd::set_lib::lemma_len_subset(a, b.remove(x));
    assert(b.remove(x).len() == b.len() - 1);
}


/// An element's occurrence lifts to the sequence.
pub proof fn lemma_occurs_seq_elem(k: TypeV, ts: Seq<TypeV>, i: int)
    requires
        0 <= i < ts.len(),
        k.key_occurs(ts[i]),
    ensures
        TypeV::key_occurs_seq(k, ts),
    decreases ts.len(),
{
    if i > 0 {
        assert(ts.drop_first()[i - 1] == ts[i]);
        lemma_occurs_seq_elem(k, ts.drop_first(), i - 1);
    }
}

/// No occurrence in the sequence means none in any element.
pub proof fn lemma_occurs_seq_none(k: TypeV, ts: Seq<TypeV>)
    requires
        !TypeV::key_occurs_seq(k, ts),
    ensures
        forall|i: int| 0 <= i < ts.len() ==> !k.key_occurs(#[trigger] ts[i]),
    decreases ts.len(),
{
    if ts.len() == 0 {
    } else {
        lemma_occurs_seq_none(k, ts.drop_first());
        assert forall|i: int| 0 <= i < ts.len() implies !k.key_occurs(#[trigger] ts[i]) by {
            if i > 0 {
                assert(ts.drop_first()[i - 1] == ts[i]);
            }
        }
    }
}

/// Sizes over a sequence grow by the appended element's size.
pub proof fn lemma_tsize_seq_push(ts: Seq<TypeV>, v: TypeV)
    ensures
        TypeV::tsize_seq(ts.push(v)) == TypeV::tsize_seq(ts) + v.tsize(),
    decreases ts.len(),
{
    if ts.len() == 0 {
        reveal_with_fuel(TypeV::tsize_seq, 3);
        assert(ts.push(v)[0] == v);
        assert(ts.push(v).drop_first() =~= Seq::<TypeV>::empty());
    } else {
        lemma_tsize_seq_push(ts.drop_first(), v);
        assert(ts.push(v).drop_first() =~= ts.drop_first().push(v));
        assert(ts.push(v)[0] == ts[0]);
    }
}

/// Whether the key `k` rewrites some node of `t`: the executable occurs
/// check.  Unresolved-module-fun markers are atomic, as in
/// [`TypeV::key_occurs`].
pub(crate) fn key_occurs_exec(k: &Type, t: &Type) -> (r: bool)
    ensures
        r == k@.key_occurs(t@),
    decreases t,
{
    if key_matches_exec(k, t) {
        return true;
    }
    match t {
        Type::TSR(ds, _) | Type::FnArgs(ds, _) | Type::Tuple(ds, _) => key_occurs_vec(k, ds),
        Type::FnArg(_, inner, _) => key_occurs_exec(k, &**inner),
        Type::FUN(_, _, p, r0, _) => key_occurs_exec(k, &**p) || key_occurs_exec(k, &**r0),
        Type::Module(_, b, _) => match b {
            Some(x) => key_occurs_exec(k, &**x),
            None => false,
        },
        _ => false,
    }
}

fn key_occurs_vec(k: &Type, ds: &Vec<Type>) -> (r: bool)
    ensures
        r == TypeV::key_occurs_seq(k@, Type::vw_seq(ds@)),
    decreases ds@,
{
    let ghost x = Type::vw_seq(ds@);
    proof {
        broadcast use Type::lemma_vw_seq_props;
    }
    let mut i: usize = 0;
    while i < ds.len()
        invariant
            i <= ds@.len(),
            x == Type::vw_seq(ds@),
            x.len() == ds@.len(),
            forall|j: int| 0 <= j < ds@.len() ==> x[j] == ds@[j]@,
            forall|j: int| 0 <= j < i ==> !k@.key_occurs(#[trigger] x[j]),
        decreases ds@.len() - i,
    {
        if key_occurs_exec(k, &ds[i]) {
            proof {
                lemma_occurs_seq_elem(k@, x, i as int);
            }
            return true;
        }
        i = i + 1;
    }
    proof {
        assert forall|j: int| 0 <= j < x.len() implies !k@.key_occurs(#[trigger] x[j]) by {}
        lemma_occurs_seq_none_rev(k@, x);
    }
    false
}

/// No occurrence in any element means none in the sequence.
pub proof fn lemma_occurs_seq_none_rev(k: TypeV, ts: Seq<TypeV>)
    requires
        forall|i: int| 0 <= i < ts.len() ==> !k.key_occurs(#[trigger] ts[i]),
    ensures
        !TypeV::key_occurs_seq(k, ts),
    decreases ts.len(),
{
    if ts.len() == 0 {
    } else {
        assert forall|i: int|
            0 <= i < ts.drop_first().len() implies !k.key_occurs(
            #[trigger] ts.drop_first()[i],
        ) by {
            assert(ts.drop_first()[i] == ts[i + 1]);
        }
        lemma_occurs_seq_none_rev(k, ts.drop_first());
    }
}

/// Builds the pairwise constraints of two argument lists, up to the
/// shorter length.
fn zip_eqs(v1: &Vec<Type>, v2: &Vec<Type>) -> (pairs: Vec<Equals>)
    ensures
        pairs@.len() == if v1@.len() <= v2@.len() {
            v1@.len()
        } else {
            v2@.len()
        },
        forall|i: int|
            0 <= i < pairs@.len() ==> (#[trigger] pairs@[i])@ == (v1@[i]@, v2@[i]@),
{
    let n = if v1.len() <= v2.len() {
        v1.len()
    } else {
        v2.len()
    };
    let mut pairs: Vec<Equals> = Vec::new();
    let mut i: usize = 0;
    while i < n
        invariant
            n <= v1@.len() && n <= v2@.len(),
            i <= n,
            pairs@.len() == i,
            forall|j: int| 0 <= j < i ==> (#[trigger] pairs@[j])@ == (v1@[j]@, v2@[j]@),
        decreases n - i,
    {
        pairs.push(Equals(v1[i].clone(), v2[i].clone()));
        i = i + 1;
    }
    pairs
}


/// Pointwise zip constraints bound their sides' sets and sizes and are
/// foreign to keys foreign to both sides.
proof fn lemma_zip_bounds(ps: Seq<(TypeV, TypeV)>, x: Seq<TypeV>, y: Seq<TypeV>)
    requires
        ps.len() <= x.len(),
        ps.len() <= y.len(),
        forall|i: int| 0 <= i < ps.len() ==> #[trigger] ps[i] == (x[i], y[i]),
    ensures
        cs_idset(ps).subset_of(TypeV::idset_seq(x).union(TypeV::idset_seq(y))),
        cs_mkset(ps).subset_of(TypeV::mkset_seq(x).union(TypeV::mkset_seq(y))),
        cs_size(ps) <= TypeV::tsize_seq(x) + TypeV::tsize_seq(y),
        forall|k: TypeV|
            !TypeV::key_occurs_seq(k, x) && !TypeV::key_occurs_seq(k, y)
                ==> !(#[trigger] key_occurs_cs(k, ps)),
    decreases ps.len(),
{
    if ps.len() == 0 {
    } else {
        assert forall|i: int|
            0 <= i < ps.drop_first().len() implies #[trigger] ps.drop_first()[i] == (
            x.drop_first()[i],
            y.drop_first()[i],
        ) by {
            assert(ps.drop_first()[i] == ps[i + 1]);
            assert(x.drop_first()[i] == x[i + 1]);
            assert(y.drop_first()[i] == y[i + 1]);
        }
        lemma_zip_bounds(ps.drop_first(), x.drop_first(), y.drop_first());
        assert(ps[0] == (x[0], y[0]));
        TypeV::lemma_seq_element_sets(x, 0);
        TypeV::lemma_seq_element_sets(y, 0);
        assert(TypeV::idset_seq(x.drop_first()).subset_of(TypeV::idset_seq(x)));
        assert(TypeV::mkset_seq(x.drop_first()).subset_of(TypeV::mkset_seq(x)));
        assert(TypeV::idset_seq(y.drop_first()).subset_of(TypeV::idset_seq(y)));
        assert(TypeV::mkset_seq(y.drop_first()).subset_of(TypeV::mkset_seq(y)));
        assert forall|k: TypeV|
            !TypeV::key_occurs_seq(k, x) && !TypeV::key_occurs_seq(k, y) implies !(
        #[trigger] key_occurs_cs(k, ps)) by {
            assert(!k.key_occurs(x[0]) && !k.key_occurs(y[0]));
            assert(!TypeV::key_occurs_seq(k, x.drop_first()));
            assert(!TypeV::key_occurs_seq(k, y.drop_first()));
            assert(!key_occurs_cs(k, ps.drop_first()));
        }
    }
}

/// A substitution that solves every zip constraint makes the two sides
/// pointwise equivalent after application.
proof fn lemma_zip_solves(s: SubstV, ps: Seq<(TypeV, TypeV)>, x: Seq<TypeV>, y: Seq<TypeV>)
    requires
        x.len() == y.len(),
        ps.len() == x.len(),
        forall|i: int| 0 <= i < ps.len() ==> #[trigger] ps[i] == (x[i], y[i]),
        solves(s, ps),
    ensures
        TypeV::equiv_seq(crate::substitution::apply_seq_v(s, x), crate::substitution::apply_seq_v(s, y)),
{
    broadcast use crate::substitution::lemma_apply_seq_props;

    let ax = crate::substitution::apply_seq_v(s, x);
    let ay = crate::substitution::apply_seq_v(s, y);
    assert forall|i: int| 0 <= i < ax.len() implies #[trigger] ax[i].equiv(ay[i]) by {
        assert(ps[i] == (x[i], y[i]));
        assert(apply_v(s, ps[i].0).equiv(apply_v(s, ps[i].1)));
    }
    TypeV::lemma_equiv_seq_intro(ax, ay);
}


/// Sets, size and occurrences of a one-constraint list.
proof fn lemma_cs_single(ps: Seq<(TypeV, TypeV)>, p: (TypeV, TypeV))
    requires
        ps == seq![p],
    ensures
        cs_idset(ps) == p.0.idset().union(p.1.idset()),
        cs_mkset(ps) == p.0.mkset().union(p.1.mkset()),
        cs_size(ps) == p.0.tsize() + p.1.tsize(),
        forall|k: TypeV|
            #[trigger] key_occurs_cs(k, ps) == (k.key_occurs(p.0) || k.key_occurs(p.1)),
{
    reveal_with_fuel(cs_idset, 3);
    reveal_with_fuel(cs_mkset, 3);
    reveal_with_fuel(cs_size, 3);
    reveal_with_fuel(key_occurs_cs, 3);
    assert(ps[0] == p);
    assert(ps.drop_first() =~= Seq::<(TypeV, TypeV)>::empty());
    assert(cs_idset(ps) =~= p.0.idset().union(p.1.idset()));
    assert(cs_mkset(ps) =~= p.0.mkset().union(p.1.mkset()));
}

/// Sets, size and occurrences of a two-constraint list.
proof fn lemma_cs_pair(ps: Seq<(TypeV, TypeV)>, p: (TypeV, TypeV), q: (TypeV, TypeV))
    requires
        ps == seq![p, q],
    ensures
        cs_idset(ps) == p.0.idset().union(p.1.idset()).union(q.0.idset().union(q.1.idset())),
        cs_mkset(ps) == p.0.mkset().union(p.1.mkset()).union(q.0.mkset().union(q.1.mkset())),
        cs_size(ps) == p.0.tsize() + p.1.tsize() + q.0.tsize() + q.1.tsize(),
        forall|k: TypeV|
            #[trigger] key_occurs_cs(k, ps) == (k.key_occurs(p.0) || k.key_occurs(p.1)
                || k.key_occurs(q.0) || k.key_occurs(q.1)),
{
    lemma_cs_single(seq![p], p);
    lemma_cs_single(seq![q], q);
    assert(ps =~= seq![p] + seq![q]);
    lemma_cs_concat(seq![p], seq![q]);
    assert(cs_idset(ps) =~= p.0.idset().union(p.1.idset()).union(
        q.0.idset().union(q.1.idset()),
    ));
    assert(cs_mkset(ps) =~= p.0.mkset().union(p.1.mkset()).union(
        q.0.mkset().union(q.1.mkset()),
    ));
    assert forall|k: TypeV|
        #[trigger] key_occurs_cs(k, ps) == (k.key_occurs(p.0) || k.key_occurs(p.1)
            || k.key_occurs(q.0) || k.key_occurs(q.1)) by {
        assert(key_occurs_cs(k, seq![p] + seq![q]) == (key_occurs_cs(k, seq![p])
            || key_occurs_cs(k, seq![q])));
    }
}

/// One dimension pair as the tensor case leaves it: two equal literals,
/// or a constraint recorded in the list.
pub open spec fn dim_ok(x: TypeV, y: TypeV, ps: Seq<(TypeV, TypeV)>) -> bool {
    (x matches TypeV::ResolvedDim(nx, _) && y matches TypeV::ResolvedDim(ny, _) && nx == ny)
        || exists|pi: int| 0 <= pi < ps.len() && #[trigger] ps[pi] == (x, y)
}



/// Whether a key rewrites some node of some codomain of a substitution.
pub open spec fn key_occurs_cods(k: TypeV, s: SubstV) -> bool
    decreases s.len(),
{
    if s.len() == 0 {
        false
    } else {
        k.key_occurs(s[0].1) || key_occurs_cods(k, s.drop_first())
    }
}

proof fn lemma_cods_occurs_elim(k: TypeV, s: SubstV)
    requires
        !key_occurs_cods(k, s),
    ensures
        forall|j: int| 0 <= j < s.len() ==> !k.key_occurs(#[trigger] s[j].1),
    decreases s.len(),
{
    if s.len() == 0 {
    } else {
        lemma_cods_occurs_elim(k, s.drop_first());
        assert forall|j: int| 0 <= j < s.len() implies !k.key_occurs(#[trigger] s[j].1) by {
            if j > 0 {
                assert(s.drop_first()[j - 1] == s[j]);
            }
        }
    }
}

/// Applying a substitution to every constraint keeps variables and markers
/// within the old ones and the codomains, eliminates the substitution's
/// own keys when its codomains are clean of them, and stays clean of any
/// key that was foreign to both.
proof fn lemma_apply_cs_bounds(s0: SubstV, cs: Seq<(TypeV, TypeV)>, cs2: Seq<(TypeV, TypeV)>)
    requires
        cs2.len() == cs.len(),
        forall|j: int|
            0 <= j < cs.len() ==> #[trigger] cs2[j] == (
                apply_v(s0, cs[j].0),
                apply_v(s0, cs[j].1),
            ),
        forall|i: int, j: int|
            0 <= i < s0.len() && 0 <= j < s0.len() ==> !(#[trigger] s0[i].0.key_occurs(
                s0[j].1,
            )),
    ensures
        cs_idset(cs2).subset_of(cs_idset(cs).union(cod_idset(s0))),
        cs_mkset(cs2).subset_of(cs_mkset(cs).union(cod_mkset(s0))),
        forall|ki: int| 0 <= ki < s0.len() ==> !key_occurs_cs(#[trigger] s0[ki].0, cs2),
        forall|kk: TypeV|
            !key_occurs_cs(kk, cs) && !key_occurs_cods(kk, s0) ==> !(#[trigger] key_occurs_cs(
                kk,
                cs2,
            )),
    decreases cs.len(),
{
    if cs.len() == 0 {
    } else {
        assert forall|j: int|
            0 <= j < cs.drop_first().len() implies #[trigger] cs2.drop_first()[j] == (
            apply_v(s0, cs.drop_first()[j].0),
            apply_v(s0, cs.drop_first()[j].1),
        ) by {
            assert(cs.drop_first()[j] == cs[j + 1]);
            assert(cs2.drop_first()[j] == cs2[j + 1]);
        }
        lemma_apply_cs_bounds(s0, cs.drop_first(), cs2.drop_first());
        lemma_apply_sets(s0, cs[0].0);
        lemma_apply_sets(s0, cs[0].1);
        assert(cs2[0] == (apply_v(s0, cs[0].0), apply_v(s0, cs[0].1)));
        assert forall|ki: int| 0 <= ki < s0.len() implies !key_occurs_cs(
            #[trigger] s0[ki].0,
            cs2,
        ) by {
            lemma_apply_elim(s0, cs[0].0, ki);
            lemma_apply_elim(s0, cs[0].1, ki);
        }
        assert forall|kk: TypeV|
            !key_occurs_cs(kk, cs) && !key_occurs_cods(kk, s0) implies !(
        #[trigger] key_occurs_cs(kk, cs2)) by {
            lemma_cods_occurs_elim(kk, s0);
            lemma_apply_occurs_free(s0, cs[0].0, kk);
            lemma_apply_occurs_free(s0, cs[0].1, kk);
            assert(!key_occurs_cs(kk, cs.drop_first()));
            assert(!kk.key_occurs(cs2[0].0));
            assert(!kk.key_occurs(cs2[0].1));
            assert(!key_occurs_cs(kk, cs2.drop_first()));
        }
    }
}


/// A variable key absent from every side of a list is absent from the
/// list's id set.
proof fn lemma_cs_idset_member(k: TypeV, cs: Seq<(TypeV, TypeV)>)
    requires
        k is VAR || k is DIM,
        !key_occurs_cs(k, cs),
    ensures
        !cs_idset(cs).contains(k.key_id() as int),
    decreases cs.len(),
{
    if cs.len() == 0 {
    } else {
        lemma_cs_idset_member(k, cs.drop_first());
        if cs[0].0.idset().contains(k.key_id() as int) {
            TypeV::lemma_idset_member_occurs(k, cs[0].0);
        }
        if cs[0].1.idset().contains(k.key_id() as int) {
            TypeV::lemma_idset_member_occurs(k, cs[0].1);
        }
    }
}

/// A marker a key rewrites and which the key cannot reach is absent from
/// the list's marker set.
proof fn lemma_cs_mkset_member(k: TypeV, m: TypeV, cs: Seq<(TypeV, TypeV)>)
    requires
        k.key_matches(m),
        !key_occurs_cs(k, cs),
    ensures
        !cs_mkset(cs).contains(m),
    decreases cs.len(),
{
    if cs.len() == 0 {
    } else {
        lemma_cs_mkset_member(k, m, cs.drop_first());
        if cs[0].0.mkset().contains(m) {
            TypeV::lemma_mkset_member_occurs(k, cs[0].0, m);
        }
        if cs[0].1.mkset().contains(m) {
            TypeV::lemma_mkset_member_occurs(k, cs[0].1, m);
        }
    }
}

/// Occurrence-freedom carried through an application, keyed by the
/// codomain list.
proof fn lemma_apply_occurs_free_s1(s: SubstV, t: TypeV, k: TypeV)
    requires
        !k.key_occurs(t),
        foreign_to(k, s),
    ensures
        !k.key_occurs(apply_v(s, t)),
{
    assert forall|j: int| 0 <= j < s.len() implies !k.key_occurs(#[trigger] s[j].1) by {
        let ghost pj = s[j];
        assert(!k.key_matches(pj.0) && !k.key_occurs(pj.1));
    }
    lemma_apply_occurs_free(s, t, k);
}

/// A sequence sandwiched between two equal prefixes is that prefix.
proof fn lemma_prefix_sandwich(a: Seq<Diag>, b: Seq<Diag>, c: Seq<Diag>)
    requires
        a.is_prefix_of(b),
        b.is_prefix_of(c),
        c == a,
    ensures
        b == a,
{
    assert(b =~= c.subrange(0, b.len() as int));
    assert(c.subrange(0, c.len() as int) =~= c);
}

/// Two concrete dimension literals that disagree: the one tensor-dimension
/// pair the unifier reports instead of constraining.
pub open spec fn dim_clash(x: TypeV, y: TypeV) -> bool {
    x matches TypeV::ResolvedDim(nx, _) && y matches TypeV::ResolvedDim(ny, _) && nx != ny
}

/// One dimension pair as the tensor case disposes of it, whatever the
/// values: two literals (compared on the spot), or a constraint recorded
/// in the list.
pub open spec fn dim_disposed(x: TypeV, y: TypeV, ps: Seq<(TypeV, TypeV)>) -> bool {
    (x is ResolvedDim && y is ResolvedDim) || exists|pi: int|
        0 <= pi < ps.len() && #[trigger] ps[pi] == (x, y)
}

/// One step of the unifier: a decision about a single constraint.
pub enum UnifyStep {
    /// The constraint needs nothing further (it already holds, or a
    /// diagnostic was recorded for it).
    Solved,
    /// The constraint decomposes into these sub-constraints.
    Decomposed(Vec<Equals>),
    /// The constraint binds a variable to a type that passed the occurs
    /// check.
    Bound(Type, Type),
}

/// The unification engine: carries the emitter for diagnostics, the type
/// environment, and the list of typed terms awaiting module-function
/// resolution.
#[derive(Debug)]
pub struct Unifier {
    pub emitter: Emitter,
    pub tenv: TypeEnv,
    pub unresolved: Vec<TypedTerm>,
}

impl Unifier {
    pub fn new(emitter: Emitter, tenv: TypeEnv, unresolved: Vec<TypedTerm>) -> (r: Unifier)
        ensures
            r.emitter == emitter,
            r.tenv == tenv,
            r.unresolved == unresolved,
    {
        Unifier { emitter, tenv, unresolved }
    }

    /// Decides one constraint: reflexive pairs and compatible literals are
    /// solved, mismatched literals and shapes are reported, compound types
    /// decompose pairwise, and variables bind after the occurs check.
    #[verifier::rlimit(100)]
    fn unify_one(&mut self, eq: Equals) -> (out: UnifyStep)
        ensures
            old(self).emitter.diags@.is_prefix_of(final(self).emitter.diags@),
            old(self).emitter.fatal ==> final(self).emitter.fatal,
            final(self).emitter.diags@ == old(self).emitter.diags@
                ==> final(self).emitter.fatal == old(self).emitter.fatal,
            match out {
                UnifyStep::Solved => (final(self).emitter.diags@ == old(self).emitter.diags@
                    ==> eq@.0.equiv(eq@.1)) && (!final(self).emitter.fatal ==> eq@.0.lenient(
                    eq@.1,
                )),
                UnifyStep::Decomposed(list) => {
                    &&& cs_idset(crate::constraint::eqs_v(list@)).subset_of(
                        eq@.0.idset().union(eq@.1.idset()),
                    )
                    &&& cs_mkset(crate::constraint::eqs_v(list@)).subset_of(
                        eq@.0.mkset().union(eq@.1.mkset()),
                    )
                    &&& cs_size(crate::constraint::eqs_v(list@)) < eq@.0.tsize() + eq@.1.tsize()
                    &&& forall|k: TypeV|
                        !k.key_occurs(eq@.0) && !k.key_occurs(eq@.1) ==> !(
                        #[trigger] key_occurs_cs(k, crate::constraint::eqs_v(list@)))
                    &&& final(self).emitter.diags@ == old(self).emitter.diags@
                        ==> forall|s: SubstV|
                        #[trigger] solves(s, crate::constraint::eqs_v(list@)) ==> apply_v(
                            s,
                            eq@.0,
                        ).equiv(apply_v(s, eq@.1))
                    &&& forall|sv: SubstV|
                        #[trigger] solves_lenient(sv, crate::constraint::eqs_v(list@))
                            ==> apply_v(sv, eq@.0).lenient(apply_v(sv, eq@.1))
                    &&& eq@.0.equiv(eq@.1) ==> forall|j: int|
                        0 <= j < crate::constraint::eqs_v(list@).len() ==> (
                        #[trigger] crate::constraint::eqs_v(list@)[j]).0.equiv(
                            crate::constraint::eqs_v(list@)[j].1,
                        )
                },
                UnifyStep::Bound(k, v) => {
                    &&& final(self).emitter.diags@ == old(self).emitter.diags@
                    &&& final(self).emitter.fatal == old(self).emitter.fatal
                    &&& k@.is_tvar()
                    &&& !k@.key_occurs(v@)
                    &&& (k@ == eq@.0 && v@ == eq@.1) || (k@ == eq@.1 && v@ == eq@.0)
                    &&& !eq@.0.equiv(eq@.1)
                },
            },
            (eq@.0 is INT && eq@.1 is ResolvedDim) || (eq@.0 is ResolvedDim && eq@.1 is INT)
                ==> out is Solved && final(self).emitter.diags@ == old(self).emitter.diags@,
            (eq@.0 is VAR || eq@.0 is DIM) ==> !(out is Decomposed),
            (eq@.1 is VAR || eq@.1 is DIM) ==> !(out is Decomposed),
            eq@.0 is UnresolvedModuleFun ==> !(out is Decomposed),
            eq@.0 matches TypeV::ResolvedDim(n1, _) && eq@.1 matches TypeV::ResolvedDim(n2, _)
                && n1 != n2
                ==> final(self).emitter.diags@
                == old(self).emitter.diags@.push(Diag::DimensionMismatch(eq.0, eq.1))
                && final(self).emitter.fatal == old(self).emitter.fatal,
            eq@.0.equiv(eq@.1) ==> final(self).emitter.diags@ == old(self).emitter.diags@
                && final(self).emitter.fatal == old(self).emitter.fatal,
            (eq@.0 is VAR || eq@.0 is DIM) && !eq@.0.key_occurs(eq@.1)
                ==> final(self).emitter.diags@ == old(self).emitter.diags@
                && final(self).emitter.fatal == old(self).emitter.fatal,
            !(eq@.0 is VAR || eq@.0 is DIM) && (eq@.1 is VAR || eq@.1 is DIM) && !eq@.1.key_occurs(eq@.0)
                ==> final(self).emitter.diags@ == old(self).emitter.diags@
                && final(self).emitter.fatal == old(self).emitter.fatal,
            eq@.0 is UnresolvedModuleFun && !(eq@.1 is VAR || eq@.1 is DIM) && !eq@.0.key_occurs(eq@.1)
                ==> final(self).emitter.diags@ == old(self).emitter.diags@
                && final(self).emitter.fatal == old(self).emitter.fatal,
            (eq@.0 is VAR || eq@.0 is DIM) && eq@.0.key_occurs(eq@.1) && !eq@.0.equiv(eq@.1)
                ==> final(self).emitter.diags@
                == old(self).emitter.diags@.push(Diag::CircularType(eq@.0.key_id(), eq.1))
                && final(self).emitter.fatal,
            !(eq@.0 is VAR || eq@.0 is DIM) && (eq@.1 is VAR || eq@.1 is DIM) && eq@.1.key_occurs(eq@.0)
                && !eq@.1.equiv(eq@.0)
                ==> final(self).emitter.diags@
                == old(self).emitter.diags@.push(Diag::CircularType(eq@.1.key_id(), eq.0))
                && final(self).emitter.fatal,
            eq@.0 is UnresolvedModuleFun && !(eq@.1 is VAR || eq@.1 is DIM) && eq@.0.key_occurs(eq@.1)
                && !eq@.0.equiv(eq@.1)
                ==> final(self).emitter.diags@
                == old(self).emitter.diags@.push(Diag::CircularType(eq@.0.key_id(), eq.1))
                && final(self).emitter.fatal,
            eq@.0 matches TypeV::FnArgs(x, _) && eq@.1 matches TypeV::FnArgs(y, _) && x.len()
                != y.len()
                ==> final(self).emitter.diags@
                == old(self).emitter.diags@.push(
                Diag::ArityMismatch(
                    eq@.0->FnArgs_0.len() as usize,
                    eq@.1->FnArgs_0.len() as usize,
                ),
            ) && final(self).emitter.fatal == old(self).emitter.fatal,
            eq@.0 matches TypeV::Tuple(x, _) && eq@.1 matches TypeV::Tuple(y, _) && x.len()
                != y.len()
                ==> final(self).emitter.diags@
                == old(self).emitter.diags@.push(
                Diag::ArityMismatch(
                    eq@.0->Tuple_0.len() as usize,
                    eq@.1->Tuple_0.len() as usize,
                ),
            ) && final(self).emitter.fatal == old(self).emitter.fatal,
            eq@.0 matches TypeV::TSR(x, _) && eq@.1 matches TypeV::TSR(y, _) && x.len() != y.len()
                ==> final(self).emitter.diags@
                == old(self).emitter.diags@.push(Diag::RankMismatch(eq.0, eq.1))
                && final(self).emitter.fatal == old(self).emitter.fatal,
            eq@.0 matches TypeV::TSR(x, _) && eq@.1 matches TypeV::TSR(y, _) && x.len() == y.len()
                && (forall|j: int| 0 <= j < x.len() ==> !dim_clash(#[trigger] x[j], y[j]))
                ==> final(self).emitter.diags@ == old(self).emitter.diags@
                && final(self).emitter.fatal == old(self).emitter.fatal,
            eq@.0 matches TypeV::FnArg(Some(n1), _, _) && eq@.1 matches TypeV::FnArg(
                Some(n2),
                _,
                _,
            ) && n1 != n2
                ==> final(self).emitter.diags@
                == old(self).emitter.diags@.push(Diag::TypeError(eq.0, eq.1))
                && final(self).emitter.fatal == old(self).emitter.fatal,
            eq@.0 matches TypeV::FUN(_, n1, _, _, _) && eq@.1 matches TypeV::FUN(_, n2, _, _, _)
                && n1.len() > 0 && n2.len() > 0 && n1 != n2
                ==> final(self).emitter.diags@
                == old(self).emitter.diags@.push(Diag::TypeError(eq.0, eq.1))
                && final(self).emitter.fatal,
            eq@.0 matches TypeV::Module(m1, _, _) && eq@.1 matches TypeV::Module(m2, _, _) && m1
                != m2
                ==> final(self).emitter.diags@
                == old(self).emitter.diags@.push(Diag::TypeError(eq.0, eq.1))
                && final(self).emitter.fatal,
            final(self).emitter.fatal && !old(self).emitter.fatal
                ==> final(self).emitter.diags@
                == old(self).emitter.diags@.push(Diag::TypeError(eq.0, eq.1))
                || final(self).emitter.diags@ == old(self).emitter.diags@.push(
                Diag::CircularType(eq@.0.key_id(), eq.1),
            ) || final(self).emitter.diags@ == old(self).emitter.diags@.push(
                Diag::CircularType(eq@.1.key_id(), eq.0),
            ),
    {
        let Equals(a, b) = eq;
        match (a, b) {
            (Type::Unit(_), Type::Unit(_)) => UnifyStep::Solved,
            (Type::INT(_), Type::INT(_)) => UnifyStep::Solved,
            (Type::FLOAT(_), Type::FLOAT(_)) => UnifyStep::Solved,
            (Type::BOOL(_), Type::BOOL(_)) => UnifyStep::Solved,
            (Type::INT(_), Type::ResolvedDim(_, _)) => UnifyStep::Solved,
            (Type::ResolvedDim(_, _), Type::INT(_)) => UnifyStep::Solved,
            (Type::ResolvedDim(n1, sp1), Type::ResolvedDim(n2, sp2)) => {
                if n1 == n2 {
                    UnifyStep::Solved
                } else {
                    self.emitter.add(
                        Diag::DimensionMismatch(
                            Type::ResolvedDim(n1, sp1),
                            Type::ResolvedDim(n2, sp2),
                        ),
                    );
                    UnifyStep::Solved
                }
            },
            (a, b) => self.unify_rest(a, b),
        }
    }

    /// The remaining cases of [`Unifier::unify_one`], for constraints that
    /// are not between scalar literals.
    #[verifier::rlimit(100)]
    #[verifier::spinoff_prover]
    fn unify_rest(&mut self, a: Type, b: Type) -> (out: UnifyStep)
        requires
            !((a@ is INT && b@ is ResolvedDim) || (a@ is ResolvedDim && b@ is INT)),
            !(a@ is Unit && b@ is Unit),
            !(a@ is INT && b@ is INT),
            !(a@ is FLOAT && b@ is FLOAT),
            !(a@ is BOOL && b@ is BOOL),
            !(a@ is ResolvedDim && b@ is ResolvedDim),
        ensures
            old(self).emitter.diags@.is_prefix_of(final(self).emitter.diags@),
            old(self).emitter.fatal ==> final(self).emitter.fatal,
            final(self).emitter.diags@ == old(self).emitter.diags@
                ==> final(self).emitter.fatal == old(self).emitter.fatal,
            match out {
                UnifyStep::Solved => (final(self).emitter.diags@ == old(self).emitter.diags@
                    ==> a@.equiv(b@)) && (!final(self).emitter.fatal ==> a@.lenient(b@)),
                UnifyStep::Decomposed(list) => {
                    &&& cs_idset(crate::constraint::eqs_v(list@)).subset_of(
                        a@.idset().union(b@.idset()),
                    )
                    &&& cs_mkset(crate::constraint::eqs_v(list@)).subset_of(
                        a@.mkset().union(b@.mkset()),
                    )
                    &&& cs_size(crate::constraint::eqs_v(list@)) < a@.tsize() + b@.tsize()
                    &&& forall|k: TypeV|
                        !k.key_occurs(a@) && !k.key_occurs(b@) ==> !(#[trigger] key_occurs_cs(
                            k,
                            crate::constraint::eqs_v(list@),
                        ))
                    &&& final(self).emitter.diags@ == old(self).emitter.diags@
                        ==> forall|s: SubstV|
                        #[trigger] solves(s, crate::constraint::eqs_v(list@)) ==> apply_v(
                            s,
                            a@,
                        ).equiv(apply_v(s, b@))
                    &&& forall|sv: SubstV|
                        #[trigger] solves_lenient(sv, crate::constraint::eqs_v(list@))
                            ==> apply_v(sv, a@).lenient(apply_v(sv, b@))
                    &&& a@.equiv(b@) ==> forall|j: int|
                        0 <= j < crate::constraint::eqs_v(list@).len() ==> (
                        #[trigger] crate::constraint::eqs_v(list@)[j]).0.equiv(
                            crate::constraint::eqs_v(list@)[j].1,
                        )
                },
                UnifyStep::Bound(k, v) => {
                    &&& final(self).emitter.diags@ == old(self).emitter.diags@
                    &&& final(self).emitter.fatal == old(self).emitter.fatal
                    &&& k@.is_tvar()
                    &&& !k@.key_occurs(v@)
                    &&& (k@ == a@ && v@ == b@) || (k@ == b@ && v@ == a@)
                    &&& !a@.equiv(b@)
                },
            },
            (a@ is VAR || a@ is DIM) ==> !(out is Decomposed),
            (b@ is VAR || b@ is DIM) ==> !(out is Decomposed),
            a@ is UnresolvedModuleFun ==> !(out is Decomposed),
            a@.equiv(b@) ==> final(self).emitter.diags@ == old(self).emitter.diags@
                && final(self).emitter.fatal == old(self).emitter.fatal,
            (a@ is VAR || a@ is DIM) && !a@.key_occurs(b@)
                ==> final(self).emitter.diags@ == old(self).emitter.diags@
                && final(self).emitter.fatal == old(self).emitter.fatal,
            !(a@ is VAR || a@ is DIM) && (b@ is VAR || b@ is DIM) && !b@.key_occurs(a@)
                ==> final(self).emitter.diags@ == old(self).emitter.diags@
                && final(self).emitter.fatal == old(self).emitter.fatal,
            a@ is UnresolvedModuleFun && !(b@ is VAR || b@ is DIM) && !a@.key_occurs(b@)
                ==> final(self).emitter.diags@ == old(self).emitter.diags@
                && final(self).emitter.fatal == old(self).emitter.fatal,
            (a@ is VAR || a@ is DIM) && a@.key_occurs(b@) && !a@.equiv(b@)
                ==> final(self).emitter.diags@
                == old(self).emitter.diags@.push(Diag::CircularType(a@.key_id(), b))
                && final(self).emitter.fatal,
            !(a@ is VAR || a@ is DIM) && (b@ is VAR || b@ is DIM) && b@.key_occurs(a@)
                && !b@.equiv(a@)
                ==> final(self).emitter.diags@
                == old(self).emitter.diags@.push(Diag::CircularType(b@.key_id(), a))
                && final(self).emitter.fatal,
            a@ is UnresolvedModuleFun && !(b@ is VAR || b@ is DIM) && a@.key_occurs(b@)
                && !a@.equiv(b@)
                ==> final(self).emitter.diags@
                == old(self).emitter.diags@.push(Diag::CircularType(a@.key_id(), b))
                && final(self).emitter.fatal,
            a@ matches TypeV::FnArgs(x, _) && b@ matches TypeV::FnArgs(y, _) && x.len()
                != y.len()
                ==> final(self).emitter.diags@
                == old(self).emitter.diags@.push(
                Diag::ArityMismatch(
                    a@->FnArgs_0.len() as usize,
                    b@->FnArgs_0.len() as usize,
                ),
            ) && final(self).emitter.fatal == old(self).emitter.fatal,
            a@ matches TypeV::Tuple(x, _) && b@ matches TypeV::Tuple(y, _) && x.len()
                != y.len()
                ==> final(self).emitter.diags@
                == old(self).emitter.diags@.push(
                Diag::ArityMismatch(
                    a@->Tuple_0.len() as usize,
                    b@->Tuple_0.len() as usize,
                ),
            ) && final(self).emitter.fatal == old(self).emitter.fatal,
            a@ matches TypeV::TSR(x, _) && b@ matches TypeV::TSR(y, _) && x.len() != y.len()
                ==> final(self).emitter.diags@
                == old(self).emitter.diags@.push(Diag::RankMismatch(a, b))
                && final(self).emitter.fatal == old(self).emitter.fatal,
            a@ matches TypeV::TSR(x, _) && b@ matches TypeV::TSR(y, _) && x.len() == y.len()
                && (forall|j: int| 0 <= j < x.len() ==> !dim_clash(#[trigger] x[j], y[j]))
                ==> final(self).emitter.diags@ == old(self).emitter.diags@
                && final(self).emitter.fatal == old(self).emitter.fatal,
            a@ matches TypeV::FnArg(Some(n1), _, _) && b@ matches TypeV::FnArg(
                Some(n2),
                _,
                _,
            ) && n1 != n2
                ==> final(self).emitter.diags@
                == old(self).emitter.diags@.push(Diag::TypeError(a, b))
                && final(self).emitter.fatal == old(self).emitter.fatal,
            a@ matches TypeV::FUN(_, n1, _, _, _) && b@ matches TypeV::FUN(_, n2, _, _, _)
                && n1.len() > 0 && n2.len() > 0 && n1 != n2
                ==> final(self).emitter.diags@
                == old(self).emitter.diags@.push(Diag::TypeError(a, b))
                && final(self).emitter.fatal,
            a@ matches TypeV::Module(m1, _, _) && b@ matches TypeV::Module(m2, _, _) && m1
                != m2
                ==> final(self).emitter.diags@
                == old(self).emitter.diags@.push(Diag::TypeError(a, b))
                && final(self).emitter.fatal,
            final(self).emitter.fatal && !old(self).emitter.fatal
                ==> final(self).emitter.diags@
                == old(self).emitter.diags@.push(Diag::TypeError(a, b))
                || final(self).emitter.diags@ == old(self).emitter.diags@.push(
                Diag::CircularType(a@.key_id(), b),
            ) || final(self).emitter.diags@ == old(self).emitter.diags@.push(
                Diag::CircularType(b@.key_id(), a),
            ),
    {
        let ghost a0 = a;
        let ghost b0 = b;
        match (a, b) {
            (Type::VAR(v1, sp1), b) => {
                let r = self.unify_var_step(Type::VAR(v1, sp1), b);
                proof {
                    if !self.emitter.fatal {
                        if a0@.key_occurs(b0@) && !a0@.equiv(b0@) {
                            assert(false);
                        }
                        if a0@.equiv(b0@) {
                            TypeV::lemma_equiv_lenient(a0@, b0@);
                        }
                    }
                    if self.emitter.fatal && !old(self).emitter.fatal {
                        assert(a0@.key_occurs(b0@) && !a0@.equiv(b0@));
                    }
                }
                r
            },
            (Type::DIM(v1, sp1), b) => {
                let r = self.unify_var_step(Type::DIM(v1, sp1), b);
                proof {
                    if !self.emitter.fatal {
                        if a0@.key_occurs(b0@) && !a0@.equiv(b0@) {
                            assert(false);
                        }
                        if a0@.equiv(b0@) {
                            TypeV::lemma_equiv_lenient(a0@, b0@);
                        }
                    }
                    if self.emitter.fatal && !old(self).emitter.fatal {
                        assert(a0@.key_occurs(b0@) && !a0@.equiv(b0@));
                    }
                }
                r
            },
            (a, Type::VAR(v2, sp2)) => {
                proof {
                    if a0@.equiv(b0@) {
                        assert(b0@.equiv(a0@));
                    }
                }
                let r = self.unify_var_step(Type::VAR(v2, sp2), a);
                proof {
                    if !self.emitter.fatal {
                        if b0@.key_occurs(a0@) && !b0@.equiv(a0@) {
                            assert(false);
                        }
                        if b0@.equiv(a0@) {
                            assert(a0@.equiv(b0@));
                            TypeV::lemma_equiv_lenient(a0@, b0@);
                        }
                    }
                    if self.emitter.fatal && !old(self).emitter.fatal {
                        assert(b0@.key_occurs(a0@) && !b0@.equiv(a0@));
                    }
                }
                r
            },
            (a, Type::DIM(v2, sp2)) => {
                proof {
                    if a0@.equiv(b0@) {
                        assert(b0@.equiv(a0@));
                    }
                }
                let r = self.unify_var_step(Type::DIM(v2, sp2), a);
                proof {
                    if !self.emitter.fatal {
                        if b0@.key_occurs(a0@) && !b0@.equiv(a0@) {
                            assert(false);
                        }
                        if b0@.equiv(a0@) {
                            assert(a0@.equiv(b0@));
                            TypeV::lemma_equiv_lenient(a0@, b0@);
                        }
                    }
                    if self.emitter.fatal && !old(self).emitter.fatal {
                        assert(b0@.key_occurs(a0@) && !b0@.equiv(a0@));
                    }
                }
                r
            },
            (Type::FnArgs(v1, sp1), Type::FnArgs(v2, sp2)) => {
                let ghost x = Type::vw_seq(v1@);
                let ghost y = Type::vw_seq(v2@);
                let ghost av = TypeV::FnArgs(x, sp1);
                let ghost bv = TypeV::FnArgs(y, sp2);
                let list = self.decompose_zip(v1, v2);
                proof {
                    broadcast use Type::lemma_vw_seq_props;

                    if a0@.equiv(b0@) {
                        assert(TypeV::equiv_seq(x, y));
                        assert(x.len() == y.len());
                    }
                    let ps = crate::constraint::eqs_v(list@);
                    assert(ps.len() == list@.len());
                    assert forall|i: int| 0 <= i < ps.len() implies #[trigger] ps[i] == (
                        x[i],
                        y[i],
                    ) by {
                        assert(list@[i]@ == (x[i], y[i]));
                    }
                    lemma_zip_bounds(ps, x, y);
                    if a0@.equiv(b0@) {
                        TypeV::lemma_equiv_seq_elim(x, y);
                        assert forall|j: int| 0 <= j < ps.len() implies (
                        #[trigger] ps[j]).0.equiv(ps[j].1) by {
                            assert(ps[j] == (x[j], y[j]));
                            assert(x[j].equiv(y[j]));
                        }
                    }
                    assert(av.idset() == TypeV::idset_seq(x));
                    assert(bv.idset() == TypeV::idset_seq(y));
                    assert forall|k: TypeV|
                        !k.key_occurs(av) && !k.key_occurs(bv) implies !(
                    #[trigger] key_occurs_cs(k, ps)) by {
                        assert(!TypeV::key_occurs_seq(k, x) && !TypeV::key_occurs_seq(k, y));
                    }
                    if self.emitter.diags@ == old(self).emitter.diags@ {
                        assert(x.len() == y.len());
                        assert forall|sv: SubstV| #[trigger] solves(sv, ps) implies apply_v(
                            sv,
                            av,
                        ).equiv(apply_v(sv, bv)) by {
                            lemma_zip_solves(sv, ps, x, y);
                            assert(apply_v(sv, av) == TypeV::FnArgs(
                                crate::substitution::apply_seq_v(sv, x),
                                sp1,
                            ));
                            assert(apply_v(sv, bv) == TypeV::FnArgs(
                                crate::substitution::apply_seq_v(sv, y),
                                sp2,
                            ));
                        }
                    }
                    assert forall|sv: SubstV| #[trigger] solves_lenient(sv, ps) implies apply_v(
                        sv,
                        av,
                    ).lenient(apply_v(sv, bv)) by {
                        broadcast use crate::substitution::lemma_apply_seq_props;

                        let ax = crate::substitution::apply_seq_v(sv, x);
                        let ay = crate::substitution::apply_seq_v(sv, y);
                        assert forall|j: int|
                            0 <= j < ax.len() && j < ay.len() implies #[trigger] ax[j].lenient(
                            ay[j],
                        ) by {
                            assert(ps[j] == (x[j], y[j]));
                            assert(apply_v(sv, ps[j].0).lenient(apply_v(sv, ps[j].1)));
                        }
                        TypeV::lemma_lenient_prefix_intro(ax, ay);
                        assert(apply_v(sv, av) == TypeV::FnArgs(ax, sp1));
                        assert(apply_v(sv, bv) == TypeV::FnArgs(ay, sp2));
                    }
                }
                UnifyStep::Decomposed(list)
            },
            (Type::FnArg(n1, t1, sp1), Type::FnArg(n2, t2, sp2)) => {
                match (n1, n2) {
                    (Some(x1), Some(x2)) => {
                        let ghost pv = ((*t1)@, (*t2)@);
                        proof {
                            assert(a0@ == TypeV::FnArg(Some(x1@), Box::new(pv.0), sp1));
                            assert(b0@ == TypeV::FnArg(Some(x2@), Box::new(pv.1), sp2));
                        }
                        let mut list: Vec<Equals> = Vec::new();
                        if string_eq(&x1, &x2) {
                            list.push(Equals(*t1, *t2));
                        } else {
                            let c1 = (*t1).clone();
                            let c2 = (*t2).clone();
                            self.emitter.add(
                                Diag::TypeError(
                                    Type::FnArg(Some(x1), t1, sp1),
                                    Type::FnArg(Some(x2), t2, sp2),
                                ),
                            );
                            list.push(Equals(c1, c2));
                        }
                        proof {
                            assert(crate::constraint::eqs_v(list@) =~= seq![pv]);
                            lemma_cs_single(crate::constraint::eqs_v(list@), pv);
                            assert forall|sv: SubstV|
                                #[trigger] solves_lenient(
                                    sv,
                                    crate::constraint::eqs_v(list@),
                                ) implies apply_v(sv, a0@).lenient(apply_v(sv, b0@)) by {
                                assert(crate::constraint::eqs_v(list@)[0] == pv);
                                assert(apply_v(sv, pv.0).lenient(apply_v(sv, pv.1)));
                            }
                            if a0@.equiv(b0@) {
                                assert(crate::constraint::eqs_v(list@)[0] == pv);
                                assert(pv.0.equiv(pv.1));
                            }
                        }
                        UnifyStep::Decomposed(list)
                    },
                    (None, None) => {
                        let ghost pv = ((*t1)@, (*t2)@);
                        proof {
                            assert(a0@ == TypeV::FnArg(None, Box::new(pv.0), sp1));
                            assert(b0@ == TypeV::FnArg(None, Box::new(pv.1), sp2));
                        }
                        let mut list: Vec<Equals> = Vec::new();
                        list.push(Equals(*t1, *t2));
                        proof {
                            assert(crate::constraint::eqs_v(list@) =~= seq![pv]);
                            lemma_cs_single(crate::constraint::eqs_v(list@), pv);
                            assert forall|sv: SubstV|
                                #[trigger] solves_lenient(
                                    sv,
                                    crate::constraint::eqs_v(list@),
                                ) implies apply_v(sv, a0@).lenient(apply_v(sv, b0@)) by {
                                assert(crate::constraint::eqs_v(list@)[0] == pv);
                                assert(apply_v(sv, pv.0).lenient(apply_v(sv, pv.1)));
                            }
                            if a0@.equiv(b0@) {
                                assert(crate::constraint::eqs_v(list@)[0] == pv);
                                assert(pv.0.equiv(pv.1));
                            }
                        }
                        UnifyStep::Decomposed(list)
                    },
                    (n1x, n2x) => {
                        proof {
                            assert(a0 == Type::FnArg(n1x, t1, sp1));
                            assert(b0 == Type::FnArg(n2x, t2, sp2));
                        }
                        self.emitter.add_fatal(
                            Diag::TypeError(
                                Type::FnArg(n1x, t1, sp1),
                                Type::FnArg(n2x, t2, sp2),
                            ),
                        );
                        UnifyStep::Solved
                    },
                }
            },
            (Type::FUN(m1, n1, p1, r1, sp1), Type::FUN(m2, n2, p2, r2, sp2)) => {
                let empty = String::new();
                let ok = string_eq(&n1, &empty) || string_eq(&n2, &empty) || string_eq(&n1, &n2);
                if ok {
                    let ghost pv = ((*p1)@, (*p2)@);
                    let ghost rv = ((*r1)@, (*r2)@);
                    proof {
                        assert(a0@ == TypeV::FUN(m1@, n1@, Box::new(pv.0), Box::new(rv.0), sp1));
                        assert(b0@ == TypeV::FUN(m2@, n2@, Box::new(pv.1), Box::new(rv.1), sp2));
                        assert(n1@ == n2@ || n1@.len() == 0 || n2@.len() == 0);
                    }
                    let mut list: Vec<Equals> = Vec::new();
                    list.push(Equals(*p1, *p2));
                    list.push(Equals(*r1, *r2));
                    proof {
                        assert(crate::constraint::eqs_v(list@) =~= seq![pv, rv]);
                        lemma_cs_pair(crate::constraint::eqs_v(list@), pv, rv);
                        if a0@.equiv(b0@) {
                            assert(crate::constraint::eqs_v(list@)[0] == pv);
                            assert(crate::constraint::eqs_v(list@)[1] == rv);
                            assert(pv.0.equiv(pv.1) && rv.0.equiv(rv.1));
                        }
                        assert forall|sv: SubstV|
                            #[trigger] solves_lenient(
                                sv,
                                crate::constraint::eqs_v(list@),
                            ) implies apply_v(sv, a0@).lenient(apply_v(sv, b0@)) by {
                            assert(crate::constraint::eqs_v(list@)[0] == pv);
                            assert(crate::constraint::eqs_v(list@)[1] == rv);
                            assert(apply_v(sv, pv.0).lenient(apply_v(sv, pv.1)));
                            assert(apply_v(sv, rv.0).lenient(apply_v(sv, rv.1)));
                        }
                    }
                    UnifyStep::Decomposed(list)
                } else {
                    proof {
                        if n1@.len() == 0 {
                            assert(n1@ =~= Seq::<char>::empty());
                        }
                        if n2@.len() == 0 {
                            assert(n2@ =~= Seq::<char>::empty());
                        }
                        assert(!a0@.equiv(b0@));
                    }
                    self.emitter.add_fatal(
                        Diag::TypeError(
                            Type::FUN(m1, n1, p1, r1, sp1),
                            Type::FUN(m2, n2, p2, r2, sp2),
                        ),
                    );
                    UnifyStep::Solved
                }
            },
            (Type::Tuple(v1, sp1), Type::Tuple(v2, sp2)) => {
                let ghost x = Type::vw_seq(v1@);
                let ghost y = Type::vw_seq(v2@);
                let ghost av = TypeV::Tuple(x, sp1);
                let ghost bv = TypeV::Tuple(y, sp2);
                let list = self.decompose_zip(v1, v2);
                proof {
                    broadcast use Type::lemma_vw_seq_props;

                    if a0@.equiv(b0@) {
                        assert(TypeV::equiv_seq(x, y));
                        assert(x.len() == y.len());
                    }
                    let ps = crate::constraint::eqs_v(list@);
                    assert(ps.len() == list@.len());
                    assert forall|i: int| 0 <= i < ps.len() implies #[trigger] ps[i] == (
                        x[i],
                        y[i],
                    ) by {
                        assert(list@[i]@ == (x[i], y[i]));
                    }
                    lemma_zip_bounds(ps, x, y);
                    if a0@.equiv(b0@) {
                        TypeV::lemma_equiv_seq_elim(x, y);
                        assert forall|j: int| 0 <= j < ps.len() implies (
                        #[trigger] ps[j]).0.equiv(ps[j].1) by {
                            assert(ps[j] == (x[j], y[j]));
                            assert(x[j].equiv(y[j]));
                        }
                    }
                    assert(av.idset() == TypeV::idset_seq(x));
                    assert(bv.idset() == TypeV::idset_seq(y));
                    assert forall|k: TypeV|
                        !k.key_occurs(av) && !k.key_occurs(bv) implies !(
                    #[trigger] key_occurs_cs(k, ps)) by {
                        assert(!TypeV::key_occurs_seq(k, x) && !TypeV::key_occurs_seq(k, y));
                    }
                    if self.emitter.diags@ == old(self).emitter.diags@ {
                        assert(x.len() == y.len());
                        assert forall|sv: SubstV| #[trigger] solves(sv, ps) implies apply_v(
                            sv,
                            av,
                        ).equiv(apply_v(sv, bv)) by {
                            lemma_zip_solves(sv, ps, x, y);
                            assert(apply_v(sv, av) == TypeV::Tuple(
                                crate::substitution::apply_seq_v(sv, x),
                                sp1,
                            ));
                            assert(apply_v(sv, bv) == TypeV::Tuple(
                                crate::substitution::apply_seq_v(sv, y),
                                sp2,
                            ));
                        }
                    }
                    assert forall|sv: SubstV| #[trigger] solves_lenient(sv, ps) implies apply_v(
                        sv,
                        av,
                    ).lenient(apply_v(sv, bv)) by {
                        broadcast use crate::substitution::lemma_apply_seq_props;

                        let ax = crate::substitution::apply_seq_v(sv, x);
                        let ay = crate::substitution::apply_seq_v(sv, y);
                        assert forall|j: int|
                            0 <= j < ax.len() && j < ay.len() implies #[trigger] ax[j].lenient(
                            ay[j],
                        ) by {
                            assert(ps[j] == (x[j], y[j]));
                            assert(apply_v(sv, ps[j].0).lenient(apply_v(sv, ps[j].1)));
                        }
                        TypeV::lemma_lenient_prefix_intro(ax, ay);
                        assert(apply_v(sv, av) == TypeV::Tuple(ax, sp1));
                        assert(apply_v(sv, bv) == TypeV::Tuple(ay, sp2));
                    }
                }
                UnifyStep::Decomposed(list)
            },
            (Type::TSR(d1, sp1), Type::TSR(d2, sp2)) => {
                let ghost d1v = Type::vw_seq(d1@);
                let ghost d2v = Type::vw_seq(d2@);
                proof {
                    broadcast use Type::lemma_vw_seq_props;

                    assert(a0 == Type::TSR(d1, sp1));
                    assert(b0 == Type::TSR(d2, sp2));
                    assert(a0@ == TypeV::TSR(d1v, sp1));
                    assert(b0@ == TypeV::TSR(d2v, sp2));
                    if a0@.equiv(b0@) {
                        assert(TypeV::equiv_seq(d1v, d2v));
                        TypeV::lemma_equiv_seq_elim(d1v, d2v);
                        assert forall|j: int| 0 <= j < Type::vw_seq(d1@).len() implies !dim_clash(
                            #[trigger] Type::vw_seq(d1@)[j],
                            Type::vw_seq(d2@)[j],
                        ) by {
                            assert(d1v[j].equiv(d2v[j]));
                        }
                    }
                }
                let r = self.decompose_tsr(d1, sp1, d2, sp2);
                proof {
                    broadcast use Type::lemma_vw_seq_props;

                    assert(a0@ == TypeV::TSR(d1v, sp1));
                    assert(b0@ == TypeV::TSR(d2v, sp2));
                    assert(a0@ == TypeV::TSR(Type::vw_seq(d1@), sp1));
                    assert(b0@ == TypeV::TSR(Type::vw_seq(d2@), sp2));
                }
                r
            },
            (Type::Module(nm1, b1, sp1), Type::Module(nm2, b2, sp2)) => {
                if string_eq(&nm1, &nm2) {
                    match (b1, b2) {
                        (Some(x), Some(y)) => {
                            let ghost pv = ((*x)@, (*y)@);
                            proof {
                                assert(a0@ == TypeV::Module(
                                    nm1@,
                                    Some(Box::new(pv.0)),
                                    sp1,
                                ));
                                assert(b0@ == TypeV::Module(
                                    nm2@,
                                    Some(Box::new(pv.1)),
                                    sp2,
                                ));
                            }
                            let mut list: Vec<Equals> = Vec::new();
                            list.push(Equals(*x, *y));
                            proof {
                                assert(crate::constraint::eqs_v(list@) =~= seq![pv]);
                                lemma_cs_single(crate::constraint::eqs_v(list@), pv);
                                if a0@.equiv(b0@) {
                                    assert(crate::constraint::eqs_v(list@)[0] == pv);
                                    assert(pv.0.equiv(pv.1));
                                }
                                assert forall|sv: SubstV|
                                    #[trigger] solves_lenient(
                                        sv,
                                        crate::constraint::eqs_v(list@),
                                    ) implies apply_v(sv, a0@).lenient(apply_v(sv, b0@)) by {
                                    assert(crate::constraint::eqs_v(list@)[0] == pv);
                                    assert(apply_v(sv, pv.0).lenient(apply_v(sv, pv.1)));
                                }
                            }
                            UnifyStep::Decomposed(list)
                        },
                        (None, None) => {
                            proof {
                                assert(TypeV::Module(nm1@, None, sp1).equiv(
                                    TypeV::Module(nm2@, None, sp2),
                                ));
                                TypeV::lemma_equiv_lenient(a0@, b0@);
                            }
                            UnifyStep::Solved
                        },
                        (b1x, b2x) => {
                            proof {
                                assert(a0 == Type::Module(nm1, b1x, sp1));
                                assert(b0 == Type::Module(nm2, b2x, sp2));
                            }
                            self.emitter.add_fatal(
                                Diag::TypeError(
                                    Type::Module(nm1, b1x, sp1),
                                    Type::Module(nm2, b2x, sp2),
                                ),
                            );
                            UnifyStep::Solved
                        },
                    }
                } else {
                    self.emitter.add_fatal(
                        Diag::TypeError(Type::Module(nm1, b1, sp1), Type::Module(nm2, b2, sp2)),
                    );
                    UnifyStep::Solved
                }
            },
            (Type::UnresolvedModuleFun(m, f, id, sp), b) => {
                let k = Type::UnresolvedModuleFun(m, f, id, sp);
                if key_matches_exec(&k, &b) {
                    // the same marker on both sides: already solved
                    proof {
                        assert(a0@.equiv(b0@));
                        TypeV::lemma_equiv_lenient(a0@, b0@);
                    }
                    UnifyStep::Solved
                } else if key_occurs_exec(&k, &b) {
                    proof {
                        assert(!a0@.equiv(b0@));
                        assert(a0@.key_id() == id);
                    }
                    self.emitter.add_fatal(Diag::CircularType(id, b));
                    UnifyStep::Solved
                } else {
                    UnifyStep::Bound(k, b)
                }
            },
            (a, b) => {
                proof {
                    assert(!a0@.equiv(b0@));
                }
                self.emitter.add_fatal(Diag::TypeError(a, b));
                UnifyStep::Solved
            },
        }
    }

    /// Binds a type variable, or recognises it as already equal: the
    /// occurs check refuses a binding to a type the variable occurs in.
    fn unify_var_step(&mut self, k: Type, ty: Type) -> (out: UnifyStep)
        requires
            k@ is VAR || k@ is DIM,
        ensures
            old(self).emitter.diags@.is_prefix_of(final(self).emitter.diags@),
            old(self).emitter.fatal ==> final(self).emitter.fatal,
            final(self).emitter.diags@ == old(self).emitter.diags@
                ==> final(self).emitter.fatal == old(self).emitter.fatal,
            !(out is Decomposed),
            match out {
                UnifyStep::Solved => final(self).emitter.diags@ == old(self).emitter.diags@
                    ==> k@.equiv(ty@) && ty@.equiv(k@),
                UnifyStep::Decomposed(_) => false,
                UnifyStep::Bound(kk, vv) => {
                    &&& final(self).emitter.diags@ == old(self).emitter.diags@
                    &&& final(self).emitter.fatal == old(self).emitter.fatal
                    &&& kk@.is_tvar()
                    &&& !kk@.key_occurs(vv@)
                    &&& kk@ == k@ && vv@ == ty@
                    &&& !k@.equiv(ty@)
                },
            },
            k@.equiv(ty@) ==> final(self).emitter.diags@ == old(self).emitter.diags@
                && final(self).emitter.fatal == old(self).emitter.fatal,
            !k@.key_occurs(ty@) ==> final(self).emitter.diags@ == old(self).emitter.diags@
                && final(self).emitter.fatal == old(self).emitter.fatal,
            k@.key_occurs(ty@) && !k@.equiv(ty@)
                ==> final(self).emitter.diags@
                == old(self).emitter.diags@.push(Diag::CircularType(k@.key_id(), ty))
                && final(self).emitter.fatal,
    {
        let same = match (&k, &ty) {
            (Type::VAR(v1, _), Type::VAR(v2, _)) => *v1 == *v2,
            (Type::VAR(v1, _), Type::DIM(v2, _)) => *v1 == *v2,
            (Type::DIM(v1, _), Type::VAR(v2, _)) => *v1 == *v2,
            (Type::DIM(v1, _), Type::DIM(v2, _)) => *v1 == *v2,
            _ => false,
        };
        if same {
            return UnifyStep::Solved;
        }
        if key_occurs_exec(&k, &ty) {
            let id = match &k {
                Type::VAR(v, _) => *v,
                Type::DIM(v, _) => *v,
                _ => unreached(),
            };
            self.emitter.add_fatal(Diag::CircularType(id, ty));
            UnifyStep::Solved
        } else {
            UnifyStep::Bound(k, ty)
        }
    }


    /// Solves a constraint list into a substitution.
    ///
    /// The result is well formed ([`wf_subst`]): every binding passed the
    /// occurs check, and the substitution is idempotent.  Variables that
    /// occur nowhere in the constraints are untouched.  If the pass
    /// recorded no diagnostic, the substitution makes the two sides of
    /// every constraint equivalent, spans ignored; in particular `INT`
    /// unifies with any dimension literal, and a list of constraints that
    /// already hold yields the empty substitution with nothing reported.
    /// As long as no fatal diagnostic arises, the pass keeps going and the
    /// substitution still makes every constraint agree up to what the
    /// buffered mismatch reports say ([`TypeV::lenient`]): several errors
    /// surface in one pass and the remaining constraints are still solved.
    /// A lone constraint on an unknown binds it and reports nothing, the
    /// occurs check permitting.  What each step reports, and for which
    /// shapes it stays silent, is pinned case by case on
    /// [`Unifier::unify_one`].  A pass that starts, or becomes, fatal
    /// stops early.
    pub fn unify(&mut self, cs: Constraints) -> (s: Substitution)
        ensures
            wf_subst(s@),
            forall|k: TypeV|
                k.is_tvar() && !key_occurs_cs(k, cs@) ==> #[trigger] foreign_to(k, s@),
            old(self).emitter.diags@.is_prefix_of(final(self).emitter.diags@),
            old(self).emitter.fatal ==> final(self).emitter.fatal,
            final(self).emitter.diags@ == old(self).emitter.diags@
                ==> final(self).emitter.fatal == old(self).emitter.fatal,
            cs@.len() == 0 ==> s@.len() == 0 && final(self).emitter.diags@ == old(
                self,
            ).emitter.diags@,
            final(self).emitter.diags@ == old(self).emitter.diags@ && !old(self).emitter.fatal
                ==> solves(s@, cs@),
            cs@.len() == 1 && ((cs@[0].0 is INT && cs@[0].1 is ResolvedDim) || (cs@[0].0
                is ResolvedDim && cs@[0].1 is INT)) ==> s@.len() == 0
                && final(self).emitter.diags@ == old(self).emitter.diags@,
            (forall|i: int| 0 <= i < cs@.len() ==> (#[trigger] cs@[i]).0.equiv(cs@[i].1))
                ==> s@.len() == 0 && final(self).emitter.diags@ == old(self).emitter.diags@,
            cs@.len() == 1 && (cs@[0].0 is VAR || cs@[0].0 is DIM) && !cs@[0].0.key_occurs(
                cs@[0].1,
            ) ==> final(self).emitter.diags@ == old(self).emitter.diags@,
            !old(self).emitter.fatal && !final(self).emitter.fatal ==> solves_lenient(s@, cs@),
            cs@.len() == 1 && (cs@[0].0 is VAR || cs@[0].0 is DIM || cs@[0].0
                is UnresolvedModuleFun || cs@[0].1 is VAR || cs@[0].1 is DIM)
                && final(self).emitter.diags@ == old(self).emitter.diags@ && !cs@[0].0.equiv(
                cs@[0].1,
            ) && !old(self).emitter.fatal ==> s@ == seq![(cs@[0].0, cs@[0].1)] || s@ == seq![
                (cs@[0].1, cs@[0].0),
            ],
        decreases cs_idset(cs@).len(), cs_mkset(cs@).len(), cs_size(cs@),
    {
        proof {
            lemma_cs_sets_finite(cs@);
        }
        if self.emitter.is_fatal() {
            let s = Substitution::empty();
            proof {
                assert(s@.len() == 0);
            }
            return s;
        }
        let Constraints { set: mut set } = cs;
        if set.len() == 0 {
            return Substitution::empty();
        }
        let ghost l = crate::constraint::eqs_v(set@);
        let head = set.remove(0);
        let ghost rest = crate::constraint::eqs_v(set@);
        let ghost head_v = head@;
        proof {
            assert(rest =~= l.drop_first());
            assert(head_v == l[0]);
            lemma_cs_sets_finite(rest);
            lemma_tsize_pos(head_v.0);
            lemma_tsize_pos(head_v.1);
            vstd::set_lib::lemma_len_subset(cs_idset(rest), cs_idset(l));
            vstd::set_lib::lemma_len_subset(cs_mkset(rest), cs_mkset(l));
        }
        let ghost diags0 = self.emitter.diags@;
        let step = self.unify_one(head);
        let ghost diags1 = self.emitter.diags@;
        match step {
            UnifyStep::Solved => {
                let s1 = self.unify(Constraints { set });
                proof {
                    if self.emitter.diags@ == diags0 && !old(self).emitter.fatal {
                        lemma_prefix_sandwich(diags0, diags1, self.emitter.diags@);
                        assert(head_v.0.equiv(head_v.1));
                        assert forall|i: int| 0 <= i < l.len() implies apply_v(
                            s1@,
                            #[trigger] l[i].0,
                        ).equiv(apply_v(s1@, l[i].1)) by {
                            if i == 0 {
                                lemma_apply_equiv(s1@, head_v.0, head_v.1);
                            } else {
                                assert(rest[i - 1] == l[i]);
                                assert(apply_v(s1@, rest[i - 1].0).equiv(
                                    apply_v(s1@, rest[i - 1].1),
                                ));
                            }
                        }
                    }
                    if !old(self).emitter.fatal && !self.emitter.fatal {
                        assert(head_v.0.lenient(head_v.1));
                        assert forall|i: int| 0 <= i < l.len() implies apply_v(
                            s1@,
                            #[trigger] l[i].0,
                        ).lenient(apply_v(s1@, l[i].1)) by {
                            if i == 0 {
                                lemma_apply_lenient(s1@, head_v.0, head_v.1);
                            } else {
                                assert(rest[i - 1] == l[i]);
                                assert(apply_v(s1@, rest[i - 1].0).lenient(
                                    apply_v(s1@, rest[i - 1].1),
                                ));
                            }
                        }
                    }
                    assert forall|k: TypeV|
                        k.is_tvar() && !key_occurs_cs(k, l) implies #[trigger] foreign_to(
                        k,
                        s1@,
                    ) by {
                        assert(!key_occurs_cs(k, rest));
                    }
                }
                s1
            },
            UnifyStep::Decomposed(list) => {
                let ghost list_v = crate::constraint::eqs_v(list@);
                let mut newset = list;
                newset.append(&mut set);
                let ghost cs2 = crate::constraint::eqs_v(newset@);
                proof {
                    assert(cs2 =~= list_v + rest);
                    lemma_cs_concat(list_v, rest);
                    assert(cs_idset(cs2).subset_of(cs_idset(l)));
                    assert(cs_mkset(cs2).subset_of(cs_mkset(l)));
                    assert(cs_size(cs2) < cs_size(l));
                    lemma_cs_sets_finite(cs2);
                    vstd::set_lib::lemma_len_subset(cs_idset(cs2), cs_idset(l));
                    vstd::set_lib::lemma_len_subset(cs_mkset(cs2), cs_mkset(l));
                }
                let s1 = self.unify(Constraints { set: newset });
                proof {
                    if self.emitter.diags@ == diags0 && !old(self).emitter.fatal {
                        lemma_prefix_sandwich(diags0, diags1, self.emitter.diags@);
                        assert(solves(s1@, cs2));
                        assert forall|i: int| 0 <= i < l.len() implies apply_v(
                            s1@,
                            #[trigger] l[i].0,
                        ).equiv(apply_v(s1@, l[i].1)) by {
                            if i == 0 {
                                assert forall|j: int|
                                    0 <= j < list_v.len() implies apply_v(
                                    s1@,
                                    #[trigger] list_v[j].0,
                                ).equiv(apply_v(s1@, list_v[j].1)) by {
                                    assert(cs2[j] == list_v[j]);
                                }
                                assert(solves(s1@, list_v));
                            } else {
                                assert(cs2[list_v.len() + i - 1] == l[i]);
                                assert(apply_v(s1@, cs2[list_v.len() + i - 1].0).equiv(
                                    apply_v(s1@, cs2[list_v.len() + i - 1].1),
                                ));
                            }
                        }
                    }
                    if !old(self).emitter.fatal && !self.emitter.fatal {
                        assert(solves_lenient(s1@, cs2));
                        assert forall|i: int| 0 <= i < l.len() implies apply_v(
                            s1@,
                            #[trigger] l[i].0,
                        ).lenient(apply_v(s1@, l[i].1)) by {
                            if i == 0 {
                                assert forall|j: int|
                                    0 <= j < list_v.len() implies apply_v(
                                    s1@,
                                    #[trigger] list_v[j].0,
                                ).lenient(apply_v(s1@, list_v[j].1)) by {
                                    assert(cs2[j] == list_v[j]);
                                }
                                assert(solves_lenient(s1@, list_v));
                            } else {
                                assert(cs2[list_v.len() + i - 1] == l[i]);
                                assert(apply_v(s1@, cs2[list_v.len() + i - 1].0).lenient(
                                    apply_v(s1@, cs2[list_v.len() + i - 1].1),
                                ));
                            }
                        }
                    }
                    assert forall|k: TypeV|
                        k.is_tvar() && !key_occurs_cs(k, l) implies #[trigger] foreign_to(
                        k,
                        s1@,
                    ) by {
                        lemma_cs_occurs_elim(k, l);
                        assert(!k.key_occurs(head_v.0) && !k.key_occurs(head_v.1));
                        assert(!key_occurs_cs(k, list_v));
                        assert(!key_occurs_cs(k, rest));
                        assert(!key_occurs_cs(k, cs2));
                    }
                }
                s1
            },
            UnifyStep::Bound(k, v) => {
                let ghost kv = k@;
                let ghost vv = v@;
                let s0 = Substitution::single(k, v);
                proof {
                    assert(s0@ =~= seq![(kv, vv)]);
                    assert(s0@[0] == (kv, vv));
                }
                let mut newset: Vec<Equals> = Vec::new();
                let mut i: usize = 0;
                while i < set.len()
                    invariant
                        i <= set@.len(),
                        newset@.len() == i,
                        s0@ == seq![(kv, vv)],
                        rest == crate::constraint::eqs_v(set@),
                        rest.len() == set@.len(),
                        forall|j: int|
                            0 <= j < i ==> (#[trigger] newset@[j])@ == (
                                apply_v(s0@, rest[j].0),
                                apply_v(s0@, rest[j].1),
                            ),
                    decreases set@.len() - i,
                {
                    proof {
                        assert(rest[i as int] == (set@[i as int].0@, set@[i as int].1@));
                    }
                    let e0 = s0.apply_ty(&set[i].0);
                    let e1 = s0.apply_ty(&set[i].1);
                    newset.push(Equals(e0, e1));
                    i = i + 1;
                }
                let ghost cs2 = crate::constraint::eqs_v(newset@);
                proof {
                    assert forall|j: int| 0 <= j < rest.len() implies #[trigger] cs2[j] == (
                        apply_v(s0@, rest[j].0),
                        apply_v(s0@, rest[j].1),
                    ) by {
                        assert(newset@[j]@ == (apply_v(s0@, rest[j].0), apply_v(s0@, rest[j].1)));
                    }
                    assert(wf_subst(s0@));
                    lemma_apply_cs_bounds(s0@, rest, cs2);
                    lemma_cs_sets_finite(cs2);
                    // codomain sets of the singleton
                    assert(cod_idset(s0@) =~= vv.idset().union(cod_idset(s0@.drop_first())));
                    assert(s0@.drop_first() =~= Seq::<(TypeV, TypeV)>::empty());
                    assert(cod_idset(s0@) =~= vv.idset());
                    assert(cod_mkset(s0@) =~= vv.mkset().union(cod_mkset(s0@.drop_first())));
                    assert(cod_mkset(s0@) =~= vv.mkset());
                    // both sides of the head live in the constraint sets
                    lemma_cs_elem(l, 0);
                    assert(vv == head_v.0 || vv == head_v.1);
                    assert(kv == head_v.0 || kv == head_v.1);
                    assert(cs_idset(cs2).subset_of(cs_idset(l)));
                    assert(cs_mkset(cs2).subset_of(cs_mkset(l)));
                    if kv is VAR || kv is DIM {
                        let kid = kv.key_id() as int;
                        assert(kv.idset().contains(kid));
                        assert(cs_idset(l).contains(kid));
                        assert(!key_occurs_cs(kv, cs2));
                        lemma_cs_occurs_elim(kv, cs2);
                        lemma_cs_idset_member(kv, cs2);
                        assert(!cs_idset(cs2).contains(kid));
                        lemma_strict_subset_len(cs_idset(cs2), cs_idset(l), kid);
                        vstd::set_lib::lemma_len_subset(cs_mkset(cs2), cs_mkset(l));
                    } else {
                        assert(kv is UnresolvedModuleFun);
                        assert(kv.mkset().contains(kv));
                        assert(cs_mkset(l).contains(kv));
                        assert(kv.key_matches(kv));
                        assert(!key_occurs_cs(kv, cs2));
                        lemma_cs_mkset_member(kv, kv, cs2);
                        assert(!cs_mkset(cs2).contains(kv));
                        vstd::set_lib::lemma_len_subset(cs_idset(cs2), cs_idset(l));
                        lemma_strict_subset_len(cs_mkset(cs2), cs_mkset(l), kv);
                    }
                }
                let s1 = self.unify(Constraints { set: newset });
                proof {
                    // the head key is foreign to the tail's solution
                    assert(!key_occurs_cs(kv, cs2));
                    assert(foreign_to(kv, s1@));
                    assert forall|i2: int, j2: int|
                        0 <= i2 < s0@.len() && 0 <= j2 < s1@.len() implies !(
                    #[trigger] s0@[i2].0.key_matches(s1@[j2].0)) by {
                        assert(s0@[i2] == (kv, vv));
                        let ghost pj = s1@[j2];
                        assert(!kv.key_matches(pj.0) && !kv.key_occurs(pj.1));
                    }
                    assert forall|i2: int, j2: int|
                        0 <= i2 < s0@.len() && 0 <= j2 < s1@.len() implies !(
                    #[trigger] s0@[i2].0.key_occurs(s1@[j2].1)) by {
                        assert(s0@[i2] == (kv, vv));
                        let ghost pj = s1@[j2];
                        assert(!kv.key_matches(pj.0) && !kv.key_occurs(pj.1));
                    }
                    lemma_compose_wf(s0@, s1@);
                }
                let s = s0.compose(s1);
                proof {
                    broadcast use crate::substitution::lemma_map_cod_props;

                    if self.emitter.diags@ == diags0 && !old(self).emitter.fatal {
                        lemma_prefix_sandwich(diags0, diags1, self.emitter.diags@);
                        assert(solves(s1@, cs2));
                        assert forall|i2: int| 0 <= i2 < l.len() implies apply_v(
                            s@,
                            #[trigger] l[i2].0,
                        ).equiv(apply_v(s@, l[i2].1)) by {
                            lemma_compose_apply(s0@, s1@, l[i2].0);
                            lemma_compose_apply(s0@, s1@, l[i2].1);
                            if i2 == 0 {
                                assert(kv.key_matches(kv));
                                lemma_lookup_char(s0@, kv);
                                assert(apply_v(s0@, kv) == vv);
                                lemma_apply_id(s0@, vv);
                                assert(apply_v(s0@, vv) == vv);
                                assert(apply_v(s0@, head_v.0) == vv);
                                assert(apply_v(s0@, head_v.1) == vv);
                                TypeV::lemma_equiv_refl(apply_v(s1@, vv));
                            } else {
                                assert(cs2[i2 - 1] == (
                                    apply_v(s0@, l[i2].0),
                                    apply_v(s0@, l[i2].1),
                                ));
                                assert(apply_v(s1@, cs2[i2 - 1].0).equiv(
                                    apply_v(s1@, cs2[i2 - 1].1),
                                ));
                            }
                        }
                    }
                    if !old(self).emitter.fatal && !self.emitter.fatal {
                        assert(solves_lenient(s1@, cs2));
                        assert forall|i2: int| 0 <= i2 < l.len() implies apply_v(
                            s@,
                            #[trigger] l[i2].0,
                        ).lenient(apply_v(s@, l[i2].1)) by {
                            lemma_compose_apply(s0@, s1@, l[i2].0);
                            lemma_compose_apply(s0@, s1@, l[i2].1);
                            if i2 == 0 {
                                assert(kv.key_matches(kv));
                                lemma_lookup_char(s0@, kv);
                                assert(apply_v(s0@, kv) == vv);
                                lemma_apply_id(s0@, vv);
                                assert(apply_v(s0@, vv) == vv);
                                assert(apply_v(s0@, head_v.0) == vv);
                                assert(apply_v(s0@, head_v.1) == vv);
                                TypeV::lemma_equiv_refl(apply_v(s1@, vv));
                                TypeV::lemma_equiv_lenient(
                                    apply_v(s1@, vv),
                                    apply_v(s1@, vv),
                                );
                            } else {
                                assert(cs2[i2 - 1] == (
                                    apply_v(s0@, l[i2].0),
                                    apply_v(s0@, l[i2].1),
                                ));
                                assert(apply_v(s1@, cs2[i2 - 1].0).lenient(
                                    apply_v(s1@, cs2[i2 - 1].1),
                                ));
                            }
                        }
                    }
                    if l.len() == 1 && self.emitter.diags@ == old(self).emitter.diags@ {
                        assert(rest.len() == 0);
                        assert(cs2.len() == 0);
                        assert(s1@.len() == 0);
                        assert(s@.len() == 1);
                        assert(s@[0] == (kv, apply_v(s1@, vv)));
                        lemma_apply_id(s1@, vv);
                        assert(s@ =~= seq![(kv, vv)]);
                    }
                    assert forall|kk: TypeV|
                        kk.is_tvar() && !key_occurs_cs(kk, l) implies #[trigger] foreign_to(
                        kk,
                        s@,
                    ) by {
                        lemma_cs_occurs_elim(kk, l);
                        assert(!kk.key_occurs(head_v.0) && !kk.key_occurs(head_v.1));
                        assert(!kk.key_occurs(vv) && !kk.key_occurs(kv));
                        reveal_with_fuel(key_occurs_cods, 3);
                        assert(s0@.drop_first() =~= Seq::<(TypeV, TypeV)>::empty());
                        assert(s0@[0].1 == vv);
                        assert(!key_occurs_cods(kk, s0@));
                        assert(!key_occurs_cs(kk, rest));
                        assert(!key_occurs_cs(kk, cs2));
                        assert(foreign_to(kk, s1@));
                        assert forall|j: int|
                            0 <= j < s@.len() implies !kk.key_matches(#[trigger] s@[j].0)
                            && !kk.key_occurs(s@[j].1) by {
                            if j == 0 {
                                assert(s@[j] == (kv, apply_v(s1@, vv)));
                                assert(!kk.key_matches(kv));
                                lemma_apply_occurs_free_s1(s1@, vv, kk);
                            } else {
                                assert(s@[j] == s1@[j - 1]);
                                let ghost pj = s1@[j - 1];
                                assert(!kk.key_matches(pj.0) && !kk.key_occurs(pj.1));
                            }
                        }
                    }
                }
                s
            },
        }
    }

    /// Decomposes two equal-role lists pairwise, reporting an arity
    /// mismatch and continuing with the common prefix when the lengths
    /// differ.
    fn decompose_zip(&mut self, v1: Vec<Type>, v2: Vec<Type>) -> (pairs: Vec<Equals>)
        ensures
            old(self).emitter.diags@.is_prefix_of(final(self).emitter.diags@),
            final(self).emitter.fatal == old(self).emitter.fatal,
            v1@.len() == v2@.len() ==> final(self).emitter.diags@ == old(self).emitter.diags@,
            v1@.len() != v2@.len() ==> final(self).emitter.diags@ == old(
                self,
            ).emitter.diags@.push(
                Diag::ArityMismatch(v1@.len() as usize, v2@.len() as usize),
            ),
            pairs@.len() == if v1@.len() <= v2@.len() {
                v1@.len()
            } else {
                v2@.len()
            },
            forall|i: int|
                0 <= i < pairs@.len() ==> (#[trigger] pairs@[i])@ == (
                    Type::vw_seq(v1@)[i],
                    Type::vw_seq(v2@)[i],
                ),
    {
        proof {
            broadcast use Type::lemma_vw_seq_props;
        }
        if v1.len() != v2.len() {
            self.emitter.add(Diag::ArityMismatch(v1.len(), v2.len()));
        }
        let pairs = zip_eqs(&v1, &v2);
        proof {
            broadcast use Type::lemma_vw_seq_props;

            assert forall|i: int| 0 <= i < pairs@.len() implies (#[trigger] pairs@[i])@ == (
                Type::vw_seq(v1@)[i],
                Type::vw_seq(v2@)[i],
            ) by {
                assert(pairs@[i]@ == (v1@[i]@, v2@[i]@));
            }
        }
        pairs
    }

    /// The tensor case: ranks must agree; equal dimension literals need
    /// nothing, unequal ones are reported, and every other pair becomes a
    /// constraint.
    fn decompose_tsr(&mut self, d1: Vec<Type>, sp1: CSpan, d2: Vec<Type>, sp2: CSpan) -> (out:
        UnifyStep)
        ensures
            old(self).emitter.diags@.is_prefix_of(final(self).emitter.diags@),
            final(self).emitter.fatal == old(self).emitter.fatal,
            ({
                let av = TypeV::TSR(Type::vw_seq(d1@), sp1);
                let bv = TypeV::TSR(Type::vw_seq(d2@), sp2);
                match out {
                    UnifyStep::Solved => (final(self).emitter.diags@
                        == old(self).emitter.diags@ ==> av.equiv(bv)) && av.lenient(bv),
                    UnifyStep::Decomposed(list) => {
                        &&& cs_idset(crate::constraint::eqs_v(list@)).subset_of(
                            av.idset().union(bv.idset()),
                        )
                        &&& cs_mkset(crate::constraint::eqs_v(list@)).subset_of(
                            av.mkset().union(bv.mkset()),
                        )
                        &&& cs_size(crate::constraint::eqs_v(list@)) < av.tsize() + bv.tsize()
                        &&& forall|k: TypeV|
                            !k.key_occurs(av) && !k.key_occurs(bv) ==> !(
                            #[trigger] key_occurs_cs(k, crate::constraint::eqs_v(list@)))
                        &&& final(self).emitter.diags@ == old(self).emitter.diags@
                            ==> forall|sv: SubstV|
                            #[trigger] solves(sv, crate::constraint::eqs_v(list@)) ==> apply_v(
                                sv,
                                av,
                            ).equiv(apply_v(sv, bv))
                        &&& forall|sv: SubstV|
                            #[trigger] solves_lenient(sv, crate::constraint::eqs_v(list@))
                                ==> apply_v(sv, av).lenient(apply_v(sv, bv))
                        &&& av.equiv(bv) ==> forall|j: int|
                            0 <= j < crate::constraint::eqs_v(list@).len() ==> (
                            #[trigger] crate::constraint::eqs_v(list@)[j]).0.equiv(
                                crate::constraint::eqs_v(list@)[j].1,
                            )
                    },
                    UnifyStep::Bound(_, _) => false,
                }
            }),
            d1@.len() != d2@.len()
                ==> final(self).emitter.diags@
                == old(self).emitter.diags@.push(
                Diag::RankMismatch(Type::TSR(d1, sp1), Type::TSR(d2, sp2)),
            ) && final(self).emitter.fatal == old(self).emitter.fatal,
            d1@.len() == d2@.len() && (forall|j: int|
                0 <= j < d1@.len() ==> !dim_clash(
                    #[trigger] Type::vw_seq(d1@)[j],
                    Type::vw_seq(d2@)[j],
                )) ==> final(self).emitter.diags@ == old(self).emitter.diags@
                && final(self).emitter.fatal == old(self).emitter.fatal,
    {
        let ghost x = Type::vw_seq(d1@);
        let ghost y = Type::vw_seq(d2@);
        let ghost av = TypeV::TSR(x, sp1);
        let ghost bv = TypeV::TSR(y, sp2);
        proof {
            broadcast use Type::lemma_vw_seq_props;
        }
        if d1.len() != d2.len() {
            self.emitter.add(
                Diag::RankMismatch(Type::TSR(d1, sp1), Type::TSR(d2, sp2)),
            );
            return UnifyStep::Solved;
        }
        let ghost diags0 = self.emitter.diags@;
        let mut pairs: Vec<Equals> = Vec::new();
        let mut i: usize = 0;
        while i < d1.len()
            invariant
                d1@.len() == d2@.len(),
                i <= d1@.len(),
                x == Type::vw_seq(d1@),
                y == Type::vw_seq(d2@),
                x.len() == d1@.len(),
                y.len() == d2@.len(),
                forall|j: int| 0 <= j < d1@.len() ==> x[j] == #[trigger] d1@[j]@,
                forall|j: int| 0 <= j < d2@.len() ==> y[j] == #[trigger] d2@[j]@,
                diags0.is_prefix_of(self.emitter.diags@),
                self.emitter.fatal == old(self).emitter.fatal,
                cs_idset(crate::constraint::eqs_v(pairs@)).subset_of(
                    TypeV::idset_seq(x).union(TypeV::idset_seq(y)),
                ),
                cs_mkset(crate::constraint::eqs_v(pairs@)).subset_of(
                    TypeV::mkset_seq(x).union(TypeV::mkset_seq(y)),
                ),
                cs_size(crate::constraint::eqs_v(pairs@)) <= TypeV::tsize_seq(
                    x.take(i as int),
                ) + TypeV::tsize_seq(y.take(i as int)),
                forall|k: TypeV|
                    !TypeV::key_occurs_seq(k, x) && !TypeV::key_occurs_seq(k, y) ==> !(
                    #[trigger] key_occurs_cs(k, crate::constraint::eqs_v(pairs@))),
                self.emitter.diags@ == diags0 ==> forall|j: int|
                    0 <= j < i ==> #[trigger] dim_ok(
                        x[j],
                        y[j],
                        crate::constraint::eqs_v(pairs@),
                    ),
                (forall|j: int| 0 <= j < x.len() ==> !dim_clash(#[trigger] x[j], y[j]))
                    ==> self.emitter.diags@ == diags0,
                forall|j: int|
                    0 <= j < i ==> #[trigger] dim_disposed(
                        x[j],
                        y[j],
                        crate::constraint::eqs_v(pairs@),
                    ),
                TypeV::equiv_seq(x, y) ==> forall|pi: int|
                    0 <= pi < crate::constraint::eqs_v(pairs@).len() ==> (
                    #[trigger] crate::constraint::eqs_v(pairs@)[pi]).0.equiv(
                        crate::constraint::eqs_v(pairs@)[pi].1,
                    ),
            decreases d1@.len() - i,
        {
            let ghost ps_old = crate::constraint::eqs_v(pairs@);
            let ghost diags_in = self.emitter.diags@;
            let mut matched = false;
            match (&d1[i], &d2[i]) {
                (Type::ResolvedDim(na, _), Type::ResolvedDim(nb, _)) => {
                    matched = true;
                    if *na != *nb {
                        self.emitter.add(
                            Diag::DimensionMismatch(d1[i].clone(), d2[i].clone()),
                        );
                    }
                },
                _ => {},
            }
            if !matched {
                pairs.push(Equals(d1[i].clone(), d2[i].clone()));
            }
            i = i + 1;
            proof {
                let ps = crate::constraint::eqs_v(pairs@);
                TypeV::lemma_seq_element_sets(x, i - 1);
                TypeV::lemma_seq_element_sets(y, i - 1);
                assert(x.take(i as int) =~= x.take(i - 1).push(x[i - 1]));
                assert(y.take(i as int) =~= y.take(i - 1).push(y[i - 1]));
                lemma_tsize_seq_push(x.take(i - 1), x[i - 1]);
                lemma_tsize_seq_push(y.take(i - 1), y[i - 1]);
                if matched {
                    assert(ps =~= ps_old);
                    assert forall|j: int|
                        self.emitter.diags@ == diags0 && 0 <= j < i implies #[trigger] dim_ok(
                            x[j],
                            y[j],
                            ps,
                        ) by {
                        if j < i - 1 {
                            assert(dim_ok(x[j], y[j], ps_old));
                        } else {
                            assert(self.emitter.diags@ == diags_in);
                            assert(x[j] == d1@[j]@ && y[j] == d2@[j]@);
                        }
                    }
                    if self.emitter.diags@ != diags_in {
                        assert(x[i - 1] == d1@[i - 1]@ && y[i - 1] == d2@[i - 1]@);
                        assert(dim_clash(x[i - 1], y[i - 1]));
                    }
                    assert forall|j: int| 0 <= j < i implies #[trigger] dim_disposed(
                        x[j],
                        y[j],
                        ps,
                    ) by {
                        if j < i - 1 {
                            assert(dim_disposed(x[j], y[j], ps_old));
                        } else {
                            assert(x[j] == d1@[j]@ && y[j] == d2@[j]@);
                        }
                    }
                } else {
                    assert(ps =~= ps_old.push((x[i - 1], y[i - 1])));
                    lemma_cs_push(ps_old, (x[i - 1], y[i - 1]));
                    assert forall|k: TypeV|
                        !TypeV::key_occurs_seq(k, x) && !TypeV::key_occurs_seq(k, y) implies !(
                    #[trigger] key_occurs_cs(k, ps)) by {
                        lemma_occurs_seq_none(k, x);
                        lemma_occurs_seq_none(k, y);
                        assert(!k.key_occurs(x[i - 1]) && !k.key_occurs(y[i - 1]));
                    }
                    assert forall|j: int|
                        self.emitter.diags@ == diags0 && 0 <= j < i implies #[trigger] dim_ok(
                            x[j],
                            y[j],
                            ps,
                        ) by {
                        if j < i - 1 {
                            assert(dim_ok(x[j], y[j], ps_old));
                            if !(x[j] matches TypeV::ResolvedDim(nx, _) && y[j] matches
                                TypeV::ResolvedDim(ny, _) && nx == ny) {
                                let pi = choose|pi: int|
                                    0 <= pi < ps_old.len() && #[trigger] ps_old[pi] == (
                                        x[j],
                                        y[j],
                                    );
                                assert(ps[pi] == (x[j], y[j]));
                            }
                        } else {
                            assert(ps[ps.len() - 1] == (x[j], y[j]));
                        }
                    }
                    if TypeV::equiv_seq(x, y) {
                        TypeV::lemma_equiv_seq_elim(x, y);
                        assert forall|pi: int| 0 <= pi < ps.len() implies (
                        #[trigger] ps[pi]).0.equiv(ps[pi].1) by {
                            if pi < ps.len() - 1 {
                                assert(ps[pi] == ps_old[pi]);
                                assert(ps_old[pi].0.equiv(ps_old[pi].1));
                            } else {
                                assert(ps[pi] == (x[i - 1], y[i - 1]));
                                assert(x[i - 1].equiv(y[i - 1]));
                            }
                        }
                    }
                    assert forall|j: int| 0 <= j < i implies #[trigger] dim_disposed(
                        x[j],
                        y[j],
                        ps,
                    ) by {
                        if j < i - 1 {
                            assert(dim_disposed(x[j], y[j], ps_old));
                            if !(x[j] is ResolvedDim && y[j] is ResolvedDim) {
                                let pi = choose|pi: int|
                                    0 <= pi < ps_old.len() && #[trigger] ps_old[pi] == (
                                        x[j],
                                        y[j],
                                    );
                                assert(ps[pi] == (x[j], y[j]));
                            }
                        } else {
                            assert(ps[ps.len() - 1] == (x[j], y[j]));
                        }
                    }
                }
            }
        }
        proof {
            let ps = crate::constraint::eqs_v(pairs@);
            assert(x.take(x.len() as int) =~= x);
            assert(y.take(y.len() as int) =~= y);
            assert(av.idset() == TypeV::idset_seq(x) && bv.idset() == TypeV::idset_seq(y));
            assert forall|k: TypeV|
                !k.key_occurs(av) && !k.key_occurs(bv) implies !(#[trigger] key_occurs_cs(
                    k,
                    ps,
                )) by {
                assert(!TypeV::key_occurs_seq(k, x) && !TypeV::key_occurs_seq(k, y));
            }
            if self.emitter.diags@ == old(self).emitter.diags@ {
                assert forall|sv: SubstV| #[trigger] solves(sv, ps) implies apply_v(
                    sv,
                    av,
                ).equiv(apply_v(sv, bv)) by {
                    broadcast use crate::substitution::lemma_apply_seq_props;

                    let ax = crate::substitution::apply_seq_v(sv, x);
                    let ay = crate::substitution::apply_seq_v(sv, y);
                    assert forall|j: int| 0 <= j < ax.len() implies #[trigger] ax[j].equiv(
                        ay[j],
                    ) by {
                        assert(dim_ok(x[j], y[j], ps));
                        if x[j] matches TypeV::ResolvedDim(nx, _) && y[j] matches
                            TypeV::ResolvedDim(ny, _) && nx == ny {
                            assert(ax[j] == apply_v(sv, x[j]) && ay[j] == apply_v(sv, y[j]));
                        } else {
                            let pi = choose|pi: int|
                                0 <= pi < ps.len() && #[trigger] ps[pi] == (x[j], y[j]);
                            assert(apply_v(sv, ps[pi].0).equiv(apply_v(sv, ps[pi].1)));
                        }
                    }
                    TypeV::lemma_equiv_seq_intro(ax, ay);
                    assert(apply_v(sv, av) == TypeV::TSR(ax, sp1));
                    assert(apply_v(sv, bv) == TypeV::TSR(ay, sp2));
                }
            }
            assert forall|sv: SubstV| #[trigger] solves_lenient(sv, ps) implies apply_v(
                sv,
                av,
            ).lenient(apply_v(sv, bv)) by {
                broadcast use crate::substitution::lemma_apply_seq_props;

                let ax = crate::substitution::apply_seq_v(sv, x);
                let ay = crate::substitution::apply_seq_v(sv, y);
                assert forall|j: int| 0 <= j < ax.len() && j < ay.len() implies #[trigger] ax[j].lenient(
                    ay[j],
                ) by {
                    assert(dim_disposed(x[j], y[j], ps));
                    if x[j] is ResolvedDim && y[j] is ResolvedDim {
                        assert(ax[j] == apply_v(sv, x[j]) && ay[j] == apply_v(sv, y[j]));
                    } else {
                        let pi = choose|pi: int|
                            0 <= pi < ps.len() && #[trigger] ps[pi] == (x[j], y[j]);
                        assert(apply_v(sv, ps[pi].0).lenient(apply_v(sv, ps[pi].1)));
                    }
                }
                TypeV::lemma_lenient_prefix_intro(ax, ay);
                assert(apply_v(sv, av) == TypeV::TSR(ax, sp1));
                assert(apply_v(sv, bv) == TypeV::TSR(ay, sp2));
            }
        }
        UnifyStep::Decomposed(pairs)
    }
}

} // verus!
