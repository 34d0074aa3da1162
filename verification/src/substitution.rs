//! Substitutions: finite mappings from type variables (`VAR`, `DIM`, or
//! `UnresolvedModuleFun` markers) to types, applied structurally.
//!
//! The well-formedness invariant [`wf_subst`] is the one the unifier
//! maintains: the domain keys are variables, no key rewrites another key,
//! and no key occurs in any codomain type.  Under that invariant a
//! substitution is idempotent ([`lemma_substitution_idempotent`]) and every
//! binding passes the occurs check.

use vstd::prelude::*;

use crate::span::CSpan;
use crate::types::{Type, TypeV};

verus! {

/// The mathematical content of a substitution: its bindings in order.
/// An earlier binding wins when two keys would rewrite the same node; the
/// unifier only ever builds substitutions whose keys are disjoint.
pub type SubstV = Seq<(TypeV, TypeV)>;

/// The first binding whose key rewrites `n`, if any.
pub open spec fn lookup_v(s: SubstV, n: TypeV) -> Option<TypeV>
    decreases s.len(),
{
    if s.len() == 0 {
        Option::None
    } else if s[0].0.key_matches(n) {
        Option::Some(s[0].1)
    } else {
        lookup_v(s.drop_first(), n)
    }
}

/// Structural application of a substitution to a type.  Variable nodes are
/// replaced by the type their first matching binding carries; unresolved
/// module functions are treated as atomic variables; every other node is
/// rebuilt with its children substituted.
pub open spec fn apply_v(s: SubstV, t: TypeV) -> TypeV
    decreases t,
{
    match t {
        TypeV::VAR(_, _) | TypeV::DIM(_, _) | TypeV::UnresolvedModuleFun(_, _, _, _) => {
            match lookup_v(s, t) {
                Option::Some(v) => v,
                Option::None => t,
            }
        },
        TypeV::TSR(ds, sp) => TypeV::TSR(apply_seq_v(s, ds), sp),
        TypeV::FnArg(n, inner, sp) => TypeV::FnArg(n, Box::new(apply_v(s, *inner)), sp),
        TypeV::FnArgs(a, sp) => TypeV::FnArgs(apply_seq_v(s, a), sp),
        TypeV::FUN(m, n, p, r, sp) => TypeV::FUN(
            m,
            n,
            Box::new(apply_v(s, *p)),
            Box::new(apply_v(s, *r)),
            sp,
        ),
        TypeV::Tuple(ts, sp) => TypeV::Tuple(apply_seq_v(s, ts), sp),
        TypeV::Module(n, Some(b), sp) => TypeV::Module(n, Some(Box::new(apply_v(s, *b))), sp),
        _ => t,
    }
}

/// Pointwise application over a sequence of types.
pub open spec fn apply_seq_v(s: SubstV, ts: Seq<TypeV>) -> Seq<TypeV>
    decreases ts,
{
    if ts.len() == 0 {
        Seq::empty()
    } else {
        seq![apply_v(s, ts[0])] + apply_seq_v(s, ts.drop_first())
    }
}

/// `apply_seq_v` maps a sequence pointwise through `apply_v`.
pub broadcast proof fn lemma_apply_seq_props(s: SubstV, ts: Seq<TypeV>)
    ensures
        (#[trigger] apply_seq_v(s, ts)).len() == ts.len(),
        forall|i: int| 0 <= i < ts.len() ==> apply_seq_v(s, ts)[i] == apply_v(s, ts[i]),
    decreases ts,
{
    if ts.len() == 0 {
    } else {
        lemma_apply_seq_props(s, ts.drop_first());
        assert forall|i: int| 0 <= i < ts.len() implies apply_seq_v(s, ts)[i] == apply_v(
            s,
            ts[i],
        ) by {
            if i > 0 {
                assert(apply_seq_v(s, ts)[i] == apply_seq_v(s, ts.drop_first())[i - 1]);
                assert(ts.drop_first()[i - 1] == ts[i]);
            }
        }
    }
}

/// Composition: apply the later substitution to the earlier codomain, then
/// append the later bindings.  Applying the composition equals applying the
/// two substitutions in order ([`lemma_compose_apply`]).
pub open spec fn compose_v(s0: SubstV, s1: SubstV) -> SubstV {
    map_cod_v(s0, s1) + s1
}

/// The earlier bindings with the later substitution applied to their
/// codomain types.
pub open spec fn map_cod_v(s0: SubstV, s1: SubstV) -> SubstV
    decreases s0.len(),
{
    if s0.len() == 0 {
        Seq::empty()
    } else {
        seq![(s0[0].0, apply_v(s1, s0[0].1))] + map_cod_v(s0.drop_first(), s1)
    }
}

pub broadcast proof fn lemma_map_cod_props(s0: SubstV, s1: SubstV)
    ensures
        (#[trigger] map_cod_v(s0, s1)).len() == s0.len(),
        forall|i: int|
            0 <= i < s0.len() ==> map_cod_v(s0, s1)[i] == (s0[i].0, apply_v(s1, s0[i].1)),
    decreases s0,
{
    if s0.len() == 0 {
    } else {
        lemma_map_cod_props(s0.drop_first(), s1);
        assert forall|i: int| 0 <= i < s0.len() implies map_cod_v(s0, s1)[i] == (
            s0[i].0,
            apply_v(s1, s0[i].1),
        ) by {
            if i > 0 {
                assert(map_cod_v(s0, s1)[i] == map_cod_v(s0.drop_first(), s1)[i - 1]);
                assert(s0.drop_first()[i - 1] == s0[i]);
            }
        }
    }
}

/// Well-formedness of a substitution: keys are variables, no key rewrites
/// another key, and no key occurs in any codomain type.  The last clause,
/// taken at the binding itself, is exactly the occurs check: a variable is
/// never bound to a type it occurs in.
pub open spec fn wf_subst(s: SubstV) -> bool {
    &&& forall|i: int| 0 <= i < s.len() ==> (#[trigger] s[i].0).is_tvar()
    &&& forall|i: int, j: int|
        0 <= i < s.len() && 0 <= j < s.len() && i != j ==> !(#[trigger] s[i].0.key_matches(
            s[j].0,
        ))
    &&& forall|i: int, j: int|
        0 <= i < s.len() && 0 <= j < s.len() ==> !(#[trigger] s[i].0.key_occurs(s[j].1))
}

/// Variable ids occurring in some codomain type.
pub open spec fn cod_idset(s: SubstV) -> Set<int>
    decreases s.len(),
{
    if s.len() == 0 {
        Set::empty()
    } else {
        s[0].1.idset().union(cod_idset(s.drop_first()))
    }
}

/// Markers occurring in some codomain type.
pub open spec fn cod_mkset(s: SubstV) -> Set<TypeV>
    decreases s.len(),
{
    if s.len() == 0 {
        Set::empty()
    } else {
        s[0].1.mkset().union(cod_mkset(s.drop_first()))
    }
}

pub proof fn lemma_cod_sets_finite(s: SubstV)
    ensures
        cod_idset(s).finite(),
        cod_mkset(s).finite(),
    decreases s.len(),
{
    if s.len() == 0 {
    } else {
        TypeV::lemma_sets_finite(s[0].1);
        lemma_cod_sets_finite(s.drop_first());
    }
}

/// Each codomain type contributes its sets to the codomain sets.
pub proof fn lemma_cod_element(s: SubstV, j: int)
    requires
        0 <= j < s.len(),
    ensures
        s[j].1.idset().subset_of(cod_idset(s)),
        s[j].1.mkset().subset_of(cod_mkset(s)),
    decreases s.len(),
{
    if j == 0 {
    } else {
        lemma_cod_element(s.drop_first(), j - 1);
        assert(s.drop_first()[j - 1] == s[j]);
    }
}

/// Characterisation of `lookup_v`: a miss means no key matches, and a hit
/// returns the codomain of the first matching binding.
pub proof fn lemma_lookup_char(s: SubstV, n: TypeV)
    ensures
        lookup_v(s, n) is None <==> forall|i: int|
            0 <= i < s.len() ==> !(#[trigger] s[i].0.key_matches(n)),
        lookup_v(s, n) matches Option::Some(v) ==> exists|i: int|
            {
                &&& 0 <= i < s.len()
                &&& (#[trigger] s[i].0).key_matches(n)
                &&& s[i].1 == v
                &&& forall|j: int| 0 <= j < i ==> !(#[trigger] s[j].0.key_matches(n))
            },
    decreases s.len(),
{
    if s.len() == 0 {
    } else if s[0].0.key_matches(n) {
        let v = s[0].1;
        assert(0 <= 0 < s.len() && s[0].0.key_matches(n) && s[0].1 == v && forall|j: int|
            0 <= j < 0 ==> !(#[trigger] s[j].0.key_matches(n)));
    } else {
        lemma_lookup_char(s.drop_first(), n);
        if lookup_v(s, n) is None {
            assert forall|i: int| 0 <= i < s.len() implies !(#[trigger] s[i].0.key_matches(
                n,
            )) by {
                if i > 0 {
                    assert(s.drop_first()[i - 1] == s[i]);
                }
            }
        } else {
            let v = lookup_v(s, n)->Some_0;
            let i = choose|i: int|
                {
                    &&& 0 <= i < s.drop_first().len()
                    &&& (#[trigger] s.drop_first()[i].0).key_matches(n)
                    &&& s.drop_first()[i].1 == v
                    &&& forall|j: int|
                        0 <= j < i ==> !(#[trigger] s.drop_first()[j].0.key_matches(n))
                };
            assert(s.drop_first()[i] == s[i + 1]);
            assert forall|j: int| 0 <= j < i + 1 implies !(#[trigger] s[j].0.key_matches(n)) by {
                if j > 0 {
                    assert(s.drop_first()[j - 1] == s[j]);
                }
            }
            assert(0 <= i + 1 < s.len() && s[i + 1].0.key_matches(n) && s[i + 1].1 == v);
        }
    }
}

/// A substitution none of whose keys occurs in a type leaves the type
/// unchanged.
pub proof fn lemma_apply_id(s: SubstV, t: TypeV)
    requires
        forall|i: int| 0 <= i < s.len() ==> !(#[trigger] s[i].0.key_occurs(t)),
    ensures
        apply_v(s, t) == t,
    decreases t,
{
    match t {
        TypeV::VAR(_, _) | TypeV::DIM(_, _) | TypeV::UnresolvedModuleFun(_, _, _, _) => {
            assert forall|i: int| 0 <= i < s.len() implies !(#[trigger] s[i].0.key_matches(
                t,
            )) by {
                assert(!s[i].0.key_occurs(t));
            }
            lemma_lookup_char(s, t);
            assert(lookup_v(s, t) is None);
        },
        TypeV::TSR(ds, _) | TypeV::FnArgs(ds, _) | TypeV::Tuple(ds, _) => {
            assert forall|i: int| 0 <= i < s.len() implies !TypeV::key_occurs_seq(
                #[trigger] s[i].0,
                ds,
            ) by {
                assert(!s[i].0.key_occurs(t));
            }
            lemma_apply_id_seq(s, ds);
        },
        TypeV::FnArg(_, inner, _) => {
            assert forall|i: int| 0 <= i < s.len() implies !(#[trigger] s[i].0.key_occurs(
                *inner,
            )) by {
                assert(!s[i].0.key_occurs(t));
            }
            lemma_apply_id(s, *inner);
        },
        TypeV::FUN(_, _, p, r, _) => {
            assert forall|i: int| 0 <= i < s.len() implies !(#[trigger] s[i].0.key_occurs(
                *p,
            )) by {
                assert(!s[i].0.key_occurs(t));
            }
            assert forall|i: int| 0 <= i < s.len() implies !(#[trigger] s[i].0.key_occurs(
                *r,
            )) by {
                assert(!s[i].0.key_occurs(t));
            }
            lemma_apply_id(s, *p);
            lemma_apply_id(s, *r);
        },
        TypeV::Module(_, Some(b), _) => {
            assert forall|i: int| 0 <= i < s.len() implies !(#[trigger] s[i].0.key_occurs(
                *b,
            )) by {
                assert(!s[i].0.key_occurs(t));
            }
            lemma_apply_id(s, *b);
        },
        _ => {},
    }
}

pub proof fn lemma_apply_id_seq(s: SubstV, ts: Seq<TypeV>)
    requires
        forall|i: int| 0 <= i < s.len() ==> !TypeV::key_occurs_seq(#[trigger] s[i].0, ts),
    ensures
        apply_seq_v(s, ts) == ts,
    decreases ts,
{
    if ts.len() == 0 {
        assert(apply_seq_v(s, ts) =~= ts);
    } else {
        assert forall|i: int| 0 <= i < s.len() implies !(#[trigger] s[i].0.key_occurs(ts[0]))
            && !TypeV::key_occurs_seq(s[i].0, ts.drop_first()) by {
            assert(TypeV::key_occurs_seq(s[i].0, ts) == (s[i].0.key_occurs(ts[0])
                || TypeV::key_occurs_seq(s[i].0, ts.drop_first())));
        }
        lemma_apply_id(s, ts[0]);
        lemma_apply_id_seq(s, ts.drop_first());
        assert(apply_seq_v(s, ts) =~= ts);
    }
}

/// If no key of the substitution occurs in a type nor in any codomain,
/// none occurs in the applied type either.
pub proof fn lemma_apply_occurs_free(s: SubstV, t: TypeV, k: TypeV)
    requires
        !k.key_occurs(t),
        forall|j: int| 0 <= j < s.len() ==> !k.key_occurs(#[trigger] s[j].1),
    ensures
        !k.key_occurs(apply_v(s, t)),
    decreases t,
{
    match t {
        TypeV::VAR(_, _) | TypeV::DIM(_, _) | TypeV::UnresolvedModuleFun(_, _, _, _) => {
            lemma_lookup_char(s, t);
        },
        TypeV::TSR(ds, _) | TypeV::FnArgs(ds, _) | TypeV::Tuple(ds, _) => {
            lemma_apply_occurs_free_seq(s, ds, k);
        },
        TypeV::FnArg(_, inner, _) => {
            lemma_apply_occurs_free(s, *inner, k);
        },
        TypeV::FUN(_, _, p, r, _) => {
            lemma_apply_occurs_free(s, *p, k);
            lemma_apply_occurs_free(s, *r, k);
        },
        TypeV::Module(_, Some(b), _) => {
            lemma_apply_occurs_free(s, *b, k);
        },
        _ => {},
    }
}

pub proof fn lemma_apply_occurs_free_seq(s: SubstV, ts: Seq<TypeV>, k: TypeV)
    requires
        !TypeV::key_occurs_seq(k, ts),
        forall|j: int| 0 <= j < s.len() ==> !k.key_occurs(#[trigger] s[j].1),
    ensures
        !TypeV::key_occurs_seq(k, apply_seq_v(s, ts)),
    decreases ts,
{
    if ts.len() == 0 {
    } else {
        lemma_apply_occurs_free(s, ts[0], k);
        lemma_apply_occurs_free_seq(s, ts.drop_first(), k);
        assert(apply_seq_v(s, ts).drop_first() =~= apply_seq_v(s, ts.drop_first()));
        assert(apply_seq_v(s, ts)[0] == apply_v(s, ts[0]));
    }
}

/// After applying a substitution whose codomains are clean of its own
/// keys, no key of the substitution occurs in the result.  This is the
/// elimination property behind the idempotence of well-formed
/// substitutions.
pub proof fn lemma_apply_elim(s: SubstV, t: TypeV, ki: int)
    requires
        0 <= ki < s.len(),
        forall|j: int| 0 <= j < s.len() ==> !(s[ki].0.key_occurs(#[trigger] s[j].1)),
    ensures
        !s[ki].0.key_occurs(apply_v(s, t)),
    decreases t,
{
    let k = s[ki].0;
    match t {
        TypeV::VAR(_, _) | TypeV::DIM(_, _) | TypeV::UnresolvedModuleFun(_, _, _, _) => {
            lemma_lookup_char(s, t);
            if lookup_v(s, t) is None {
                assert(!k.key_matches(t));
            } else {
                let v = lookup_v(s, t)->Some_0;
                let i = choose|i: int|
                    {
                        &&& 0 <= i < s.len()
                        &&& (#[trigger] s[i].0).key_matches(t)
                        &&& s[i].1 == v
                        &&& forall|j: int| 0 <= j < i ==> !(#[trigger] s[j].0.key_matches(t))
                    };
                assert(!k.key_occurs(s[i].1));
            }
        },
        TypeV::TSR(ds, _) | TypeV::FnArgs(ds, _) | TypeV::Tuple(ds, _) => {
            lemma_apply_elim_seq(s, ds, ki);
        },
        TypeV::FnArg(_, inner, _) => {
            lemma_apply_elim(s, *inner, ki);
        },
        TypeV::FUN(_, _, p, r, _) => {
            lemma_apply_elim(s, *p, ki);
            lemma_apply_elim(s, *r, ki);
        },
        TypeV::Module(_, Some(b), _) => {
            lemma_apply_elim(s, *b, ki);
        },
        _ => {},
    }
}

pub proof fn lemma_apply_elim_seq(s: SubstV, ts: Seq<TypeV>, ki: int)
    requires
        0 <= ki < s.len(),
        forall|j: int| 0 <= j < s.len() ==> !(s[ki].0.key_occurs(#[trigger] s[j].1)),
    ensures
        !TypeV::key_occurs_seq(s[ki].0, apply_seq_v(s, ts)),
    decreases ts,
{
    if ts.len() == 0 {
    } else {
        lemma_apply_elim(s, ts[0], ki);
        lemma_apply_elim_seq(s, ts.drop_first(), ki);
        assert(apply_seq_v(s, ts).drop_first() =~= apply_seq_v(s, ts.drop_first()));
        assert(apply_seq_v(s, ts)[0] == apply_v(s, ts[0]));
    }
}

/// Applying a well-formed substitution twice is the same as applying it
/// once: substitutions are idempotent.
pub proof fn lemma_substitution_idempotent(s: SubstV, t: TypeV)
    requires
        wf_subst(s),
    ensures
        apply_v(s, apply_v(s, t)) == apply_v(s, t),
{
    assert forall|i: int| 0 <= i < s.len() implies !(#[trigger] s[i].0.key_occurs(
        apply_v(s, t),
    )) by {
        lemma_apply_elim(s, t, i);
    }
    lemma_apply_id(s, apply_v(s, t));
}

/// The bounds of the applied type: its variables and markers come from the
/// type or from the codomains.
pub proof fn lemma_apply_sets(s: SubstV, t: TypeV)
    ensures
        apply_v(s, t).idset().subset_of(t.idset().union(cod_idset(s))),
        apply_v(s, t).mkset().subset_of(t.mkset().union(cod_mkset(s))),
        apply_v(s, t).tsize() >= 1,
    decreases t,
{
    match t {
        TypeV::VAR(_, _) | TypeV::DIM(_, _) | TypeV::UnresolvedModuleFun(_, _, _, _) => {
            lemma_lookup_char(s, t);
            match lookup_v(s, t) {
                Option::Some(v) => {
                    let i = choose|i: int|
                        {
                            &&& 0 <= i < s.len()
                            &&& (#[trigger] s[i].0).key_matches(t)
                            &&& s[i].1 == v
                            &&& forall|j: int| 0 <= j < i ==> !(#[trigger] s[j].0.key_matches(t))
                        };
                    lemma_cod_element(s, i);
                },
                Option::None => {},
            }
        },
        TypeV::TSR(ds, _) | TypeV::FnArgs(ds, _) | TypeV::Tuple(ds, _) => {
            lemma_apply_sets_seq(s, ds);
        },
        TypeV::FnArg(_, inner, _) => {
            lemma_apply_sets(s, *inner);
        },
        TypeV::FUN(_, _, p, r, _) => {
            lemma_apply_sets(s, *p);
            lemma_apply_sets(s, *r);
        },
        TypeV::Module(_, Some(b), _) => {
            lemma_apply_sets(s, *b);
        },
        _ => {},
    }
}

pub proof fn lemma_apply_sets_seq(s: SubstV, ts: Seq<TypeV>)
    ensures
        TypeV::idset_seq(apply_seq_v(s, ts)).subset_of(
            TypeV::idset_seq(ts).union(cod_idset(s)),
        ),
        TypeV::mkset_seq(apply_seq_v(s, ts)).subset_of(
            TypeV::mkset_seq(ts).union(cod_mkset(s)),
        ),
    decreases ts,
{
    if ts.len() == 0 {
    } else {
        lemma_apply_sets(s, ts[0]);
        lemma_apply_sets_seq(s, ts.drop_first());
        assert(apply_seq_v(s, ts).drop_first() =~= apply_seq_v(s, ts.drop_first()));
        assert(apply_seq_v(s, ts)[0] == apply_v(s, ts[0]));
    }
}

/// Keys rewrite equivalent variable nodes alike, so lookups agree on
/// equivalent variables.
proof fn lemma_lookup_equiv(s: SubstV, a: TypeV, b: TypeV)
    requires
        a.is_tvar(),
        b.is_tvar(),
        a.equiv(b),
    ensures
        lookup_v(s, a) == lookup_v(s, b),
    decreases s.len(),
{
    if s.len() == 0 {
    } else {
        assert(s[0].0.key_matches(a) == s[0].0.key_matches(b));
        lemma_lookup_equiv(s.drop_first(), a, b);
    }
}

/// Application preserves the unifier's equivalence.
pub proof fn lemma_apply_equiv(s: SubstV, a: TypeV, b: TypeV)
    requires
        a.equiv(b),
    ensures
        apply_v(s, a).equiv(apply_v(s, b)),
    decreases a,
{
    match (a, b) {
        (TypeV::VAR(_, _), TypeV::VAR(_, _))
        | (TypeV::VAR(_, _), TypeV::DIM(_, _))
        | (TypeV::DIM(_, _), TypeV::VAR(_, _))
        | (TypeV::DIM(_, _), TypeV::DIM(_, _))
        | (
            TypeV::UnresolvedModuleFun(_, _, _, _),
            TypeV::UnresolvedModuleFun(_, _, _, _),
        ) => {
            lemma_lookup_equiv(s, a, b);
            match lookup_v(s, a) {
                Option::Some(v) => {
                    TypeV::lemma_equiv_refl(v);
                },
                Option::None => {},
            }
        },
        (TypeV::TSR(x, _), TypeV::TSR(y, _)) => {
            lemma_apply_equiv_seq(s, x, y);
        },
        (TypeV::FnArgs(x, _), TypeV::FnArgs(y, _)) => {
            lemma_apply_equiv_seq(s, x, y);
        },
        (TypeV::Tuple(x, _), TypeV::Tuple(y, _)) => {
            lemma_apply_equiv_seq(s, x, y);
        },
        (TypeV::FnArg(_, t1, _), TypeV::FnArg(_, t2, _)) => {
            lemma_apply_equiv(s, *t1, *t2);
        },
        (TypeV::FUN(_, _, p1, r1, _), TypeV::FUN(_, _, p2, r2, _)) => {
            lemma_apply_equiv(s, *p1, *p2);
            lemma_apply_equiv(s, *r1, *r2);
        },
        (TypeV::Module(_, b1, _), TypeV::Module(_, b2, _)) => {
            match (b1, b2) {
                (Some(x), Some(y)) => lemma_apply_equiv(s, *x, *y),
                _ => {},
            }
        },
        _ => {},
    }
}

proof fn lemma_apply_equiv_seq(s: SubstV, x: Seq<TypeV>, y: Seq<TypeV>)
    requires
        TypeV::equiv_seq(x, y),
    ensures
        TypeV::equiv_seq(apply_seq_v(s, x), apply_seq_v(s, y)),
    decreases x,
{
    if x.len() == 0 {
    } else {
        lemma_apply_equiv(s, x[0], y[0]);
        lemma_apply_equiv_seq(s, x.drop_first(), y.drop_first());
        assert(apply_seq_v(s, x).drop_first() =~= apply_seq_v(s, x.drop_first()));
        assert(apply_seq_v(s, y).drop_first() =~= apply_seq_v(s, y.drop_first()));
        assert(apply_seq_v(s, x)[0] == apply_v(s, x[0]));
        assert(apply_seq_v(s, y)[0] == apply_v(s, y[0]));
        assert(apply_seq_v(s, x).len() == x.len() && apply_seq_v(s, y).len() == y.len()) by {
            lemma_apply_seq_props(s, x);
            lemma_apply_seq_props(s, y);
        }
    }
}


/// Application preserves the lenient relation too: the residue left by
/// non-fatal mismatches survives substitution.
pub proof fn lemma_apply_lenient(s: SubstV, a: TypeV, b: TypeV)
    requires
        a.lenient(b),
    ensures
        apply_v(s, a).lenient(apply_v(s, b)),
    decreases a,
{
    broadcast use lemma_apply_seq_props;

    match (a, b) {
        (TypeV::VAR(_, _), TypeV::VAR(_, _))
        | (TypeV::VAR(_, _), TypeV::DIM(_, _))
        | (TypeV::DIM(_, _), TypeV::VAR(_, _))
        | (TypeV::DIM(_, _), TypeV::DIM(_, _))
        | (
            TypeV::UnresolvedModuleFun(_, _, _, _),
            TypeV::UnresolvedModuleFun(_, _, _, _),
        ) => {
            lemma_lookup_equiv(s, a, b);
            match lookup_v(s, a) {
                Option::Some(v) => {
                    TypeV::lemma_equiv_refl(v);
                    TypeV::lemma_equiv_lenient(v, v);
                },
                Option::None => {},
            }
        },
        (TypeV::TSR(x, _), TypeV::TSR(y, _)) => {
            if x.len() == y.len() {
                lemma_apply_lenient_prefix(s, x, y);
            }
            assert(apply_seq_v(s, x).len() == x.len());
            assert(apply_seq_v(s, y).len() == y.len());
            assert(apply_v(s, a).lenient(apply_v(s, b)));
        },
        (TypeV::FnArgs(x, _), TypeV::FnArgs(y, _)) => {
            lemma_apply_lenient_prefix(s, x, y);
            assert(apply_v(s, a).lenient(apply_v(s, b)));
        },
        (TypeV::Tuple(x, _), TypeV::Tuple(y, _)) => {
            lemma_apply_lenient_prefix(s, x, y);
            assert(apply_v(s, a).lenient(apply_v(s, b)));
        },
        (TypeV::FnArg(_, t1, _), TypeV::FnArg(_, t2, _)) => {
            lemma_apply_lenient(s, *t1, *t2);
        },
        (TypeV::FUN(_, _, p1, r1, _), TypeV::FUN(_, _, p2, r2, _)) => {
            lemma_apply_lenient(s, *p1, *p2);
            lemma_apply_lenient(s, *r1, *r2);
        },
        (TypeV::Module(_, b1, _), TypeV::Module(_, b2, _)) => {
            match (b1, b2) {
                (Some(x), Some(y)) => lemma_apply_lenient(s, *x, *y),
                _ => {},
            }
        },
        _ => {},
    }
}

proof fn lemma_apply_lenient_prefix(s: SubstV, x: Seq<TypeV>, y: Seq<TypeV>)
    requires
        TypeV::lenient_prefix(x, y),
    ensures
        TypeV::lenient_prefix(apply_seq_v(s, x), apply_seq_v(s, y)),
    decreases x,
{
    broadcast use lemma_apply_seq_props;

    if x.len() == 0 || y.len() == 0 {
    } else {
        lemma_apply_lenient(s, x[0], y[0]);
        lemma_apply_lenient_prefix(s, x.drop_first(), y.drop_first());
        assert(apply_seq_v(s, x).drop_first() =~= apply_seq_v(s, x.drop_first()));
        assert(apply_seq_v(s, y).drop_first() =~= apply_seq_v(s, y.drop_first()));
        assert(apply_seq_v(s, x)[0] == apply_v(s, x[0]));
        assert(apply_seq_v(s, y)[0] == apply_v(s, y[0]));
    }
}

/// Skipping bindings whose keys do not match the node leaves the lookup
/// unchanged.
proof fn lemma_lookup_skip(s: SubstV, n: TypeV, i: int)
    requires
        0 <= i <= s.len(),
        forall|j: int| 0 <= j < i ==> !(#[trigger] s[j].0.key_matches(n)),
    ensures
        lookup_v(s, n) == lookup_v(s.skip(i), n),
    decreases i,
{
    if i == 0 {
        assert(s.skip(0) =~= s);
    } else {
        assert forall|j: int| 0 <= j < i - 1 implies !(#[trigger] s.drop_first()[j].0.key_matches(
            n,
        )) by {
            assert(s.drop_first()[j] == s[j + 1]);
        }
        lemma_lookup_skip(s.drop_first(), n, i - 1);
        assert(s.drop_first().skip(i - 1) =~= s.skip(i));
    }
}

/// Applying a composition is applying the first substitution, then the
/// second.
pub proof fn lemma_compose_apply(s0: SubstV, s1: SubstV, t: TypeV)
    ensures
        apply_v(compose_v(s0, s1), t) == apply_v(s1, apply_v(s0, t)),
    decreases t,
{
    broadcast use lemma_map_cod_props;

    let sc = compose_v(s0, s1);
    match t {
        TypeV::VAR(_, _) | TypeV::DIM(_, _) | TypeV::UnresolvedModuleFun(_, _, _, _) => {
            lemma_lookup_char(s0, t);
            match lookup_v(s0, t) {
                Option::Some(v) => {
                    let i = choose|i: int|
                        {
                            &&& 0 <= i < s0.len()
                            &&& (#[trigger] s0[i].0).key_matches(t)
                            &&& s0[i].1 == v
                            &&& forall|j: int|
                                0 <= j < i ==> !(#[trigger] s0[j].0.key_matches(t))
                        };
                    assert forall|j: int| 0 <= j < i implies !(#[trigger] sc[j].0.key_matches(
                        t,
                    )) by {
                        assert(sc[j] == map_cod_v(s0, s1)[j]);
                    }
                    lemma_lookup_skip(sc, t, i);
                    assert(sc.skip(i)[0] == sc[i]);
                    assert(sc[i] == (s0[i].0, apply_v(s1, s0[i].1)));
                    assert(lookup_v(sc.skip(i), t) == Option::Some(apply_v(s1, v)));
                },
                Option::None => {
                    assert forall|j: int| 0 <= j < s0.len() implies !(
                    #[trigger] sc[j].0.key_matches(t)) by {
                        assert(sc[j] == map_cod_v(s0, s1)[j]);
                    }
                    lemma_lookup_skip(sc, t, s0.len() as int);
                    assert(sc.skip(s0.len() as int) =~= s1);
                },
            }
        },
        TypeV::TSR(ds, _) | TypeV::FnArgs(ds, _) | TypeV::Tuple(ds, _) => {
            lemma_compose_apply_seq(s0, s1, ds);
        },
        TypeV::FnArg(_, inner, _) => {
            lemma_compose_apply(s0, s1, *inner);
        },
        TypeV::FUN(_, _, p, r, _) => {
            lemma_compose_apply(s0, s1, *p);
            lemma_compose_apply(s0, s1, *r);
        },
        TypeV::Module(_, Some(b), _) => {
            lemma_compose_apply(s0, s1, *b);
        },
        _ => {},
    }
}

proof fn lemma_compose_apply_seq(s0: SubstV, s1: SubstV, ts: Seq<TypeV>)
    ensures
        apply_seq_v(compose_v(s0, s1), ts) == apply_seq_v(s1, apply_seq_v(s0, ts)),
    decreases ts,
{
    if ts.len() == 0 {
        assert(apply_seq_v(compose_v(s0, s1), ts) =~= apply_seq_v(s1, apply_seq_v(s0, ts)));
    } else {
        lemma_compose_apply(s0, s1, ts[0]);
        lemma_compose_apply_seq(s0, s1, ts.drop_first());
        assert(apply_seq_v(s0, ts)[0] == apply_v(s0, ts[0]));
        assert(apply_seq_v(s0, ts).drop_first() =~= apply_seq_v(s0, ts.drop_first()));
        assert(apply_seq_v(compose_v(s0, s1), ts) =~= apply_seq_v(s1, apply_seq_v(s0, ts)));
    }
}

/// Composition preserves well-formedness when the first substitution's
/// keys are foreign to the second: they rewrite none of its keys and occur
/// in none of its codomains.
pub proof fn lemma_compose_wf(s0: SubstV, s1: SubstV)
    requires
        wf_subst(s0),
        wf_subst(s1),
        forall|i: int, j: int|
            0 <= i < s0.len() && 0 <= j < s1.len() ==> !(#[trigger] s0[i].0.key_matches(
                s1[j].0,
            )),
        forall|i: int, j: int|
            0 <= i < s0.len() && 0 <= j < s1.len() ==> !(#[trigger] s0[i].0.key_occurs(
                s1[j].1,
            )),
    ensures
        wf_subst(compose_v(s0, s1)),
{
    broadcast use lemma_map_cod_props;

    let sc = compose_v(s0, s1);
    let n0 = s0.len() as int;
    assert forall|i: int| 0 <= i < sc.len() implies (#[trigger] sc[i].0).is_tvar() by {
        if i < n0 {
            assert(sc[i] == (s0[i].0, apply_v(s1, s0[i].1)));
        } else {
            assert(sc[i] == s1[i - n0]);
        }
    }
    assert forall|i: int, j: int|
        0 <= i < sc.len() && 0 <= j < sc.len() && i != j implies !(
    #[trigger] sc[i].0.key_matches(sc[j].0)) by {
        if i < n0 {
            assert(sc[i].0 == s0[i].0);
        } else {
            assert(sc[i].0 == s1[i - n0].0);
        }
        if j < n0 {
            assert(sc[j].0 == s0[j].0);
        } else {
            assert(sc[j].0 == s1[j - n0].0);
        }
        if i >= n0 && j < n0 {
            lemma_key_matches_sym(s0[j].0, s1[i - n0].0);
        }
    }
    assert forall|i: int, j: int| 0 <= i < sc.len() && 0 <= j < sc.len() implies !(
    #[trigger] sc[i].0.key_occurs(sc[j].1)) by {
        let k = if i < n0 {
            s0[i].0
        } else {
            s1[i - n0].0
        };
        assert(sc[i].0 == k);
        if j < n0 {
            assert(sc[j].1 == apply_v(s1, s0[j].1));
            if i < n0 {
                lemma_apply_occurs_free(s1, s0[j].1, k);
            } else {
                lemma_apply_elim_cod(s1, s0[j].1, i - n0);
            }
        } else {
            assert(sc[j].1 == s1[j - n0].1);
        }
    }
}

/// Keys rewrite one another symmetrically.
proof fn lemma_key_matches_sym(a: TypeV, b: TypeV)
    requires
        a.is_tvar(),
        b.is_tvar(),
    ensures
        a.key_matches(b) == b.key_matches(a),
{
}

/// Specialisation of [`lemma_apply_elim`] usable for any type, keyed by an
/// index into the substitution itself.
proof fn lemma_apply_elim_cod(s: SubstV, t: TypeV, ki: int)
    requires
        0 <= ki < s.len(),
        wf_subst(s),
    ensures
        !s[ki].0.key_occurs(apply_v(s, t)),
{
    lemma_apply_elim(s, t, ki);
}


/// Whether two strings hold the same characters.
pub(crate) fn string_eq(a: &String, b: &String) -> (r: bool)
    ensures
        r == (a@ == b@),
{
    a.eq(b)
}

/// Whether the key `k` rewrites the node `n`; the executable mirror of
/// [`TypeV::key_matches`].
pub(crate) fn key_matches_exec(k: &Type, n: &Type) -> (r: bool)
    ensures
        r == k@.key_matches(n@),
{
    match k {
        Type::VAR(id, _) | Type::DIM(id, _) => match n {
            Type::VAR(id2, _) | Type::DIM(id2, _) => *id == *id2,
            _ => false,
        },
        Type::UnresolvedModuleFun(m, f, id, _) => match n {
            Type::UnresolvedModuleFun(m2, f2, id2, _) => *id == *id2 && string_eq(m, m2)
                && string_eq(f, f2),
            _ => false,
        },
        _ => false,
    }
}

/// A substitution, stored as its bindings in insertion order.
#[derive(Debug, PartialEq)]
pub struct Substitution {
    pub pairs: Vec<(Type, Type)>,
}

impl View for Substitution {
    type V = SubstV;

    open spec fn view(&self) -> SubstV {
        Seq::new(self.pairs@.len(), |i: int| (self.pairs@[i].0@, self.pairs@[i].1@))
    }
}

impl Substitution {
    /// The empty substitution.
    pub fn empty() -> (r: Substitution)
        ensures
            r@ =~= Seq::<(TypeV, TypeV)>::empty(),
            r@.len() == 0,
    {
        Substitution { pairs: Vec::new() }
    }

    /// The substitution with the one binding `k` to `v`.
    pub fn single(k: Type, v: Type) -> (r: Substitution)
        ensures
            r@ =~= seq![(k@, v@)],
    {
        let mut pairs: Vec<(Type, Type)> = Vec::new();
        pairs.push((k, v));
        Substitution { pairs }
    }

    pub fn is_empty(&self) -> (r: bool)
        ensures
            r == (self@.len() == 0),
    {
        self.pairs.len() == 0
    }

    /// Applies the substitution to a type, structurally.
    pub fn apply_ty(&self, t: &Type) -> (r: Type)
        ensures
            r@ == apply_v(self@, t@),
        decreases t,
    {
        match t {
            Type::VAR(_, _) | Type::DIM(_, _) | Type::UnresolvedModuleFun(_, _, _, _) => {
                proof {
                    assert(t@ is VAR || t@ is DIM || t@ is UnresolvedModuleFun);
                }
                let mut i: usize = 0;
                while i < self.pairs.len()
                    invariant
                        i <= self@.len(),
                        self@.len() == self.pairs@.len(),
                        forall|j: int| 0 <= j < i ==> !(#[trigger] self@[j].0.key_matches(t@)),
                    decreases self@.len() - i,
                {
                    if key_matches_exec(&self.pairs[i].0, t) {
                        let r = self.pairs[i].1.clone();
                        proof {
                            lemma_lookup_skip(self@, t@, i as int);
                            assert(self@.skip(i as int)[0] == self@[i as int]);
                            assert(lookup_v(self@, t@) == Option::Some(self@[i as int].1));
                        }
                        return r;
                    }
                    i = i + 1;
                }
                proof {
                    lemma_lookup_char(self@, t@);
                    assert(lookup_v(self@, t@) is None);
                }
                t.clone()
            },
            Type::TSR(ds, sp) => {
                let out = self.apply_vec(ds);
                let res = Type::TSR(out, *sp);
                proof {
                    assert(res@ == apply_v(self@, t@));
                }
                res
            },
            Type::FnArgs(ds, sp) => {
                let out = self.apply_vec(ds);
                let res = Type::FnArgs(out, *sp);
                proof {
                    assert(res@ == apply_v(self@, t@));
                }
                res
            },
            Type::Tuple(ds, sp) => {
                let out = self.apply_vec(ds);
                let res = Type::Tuple(out, *sp);
                proof {
                    assert(res@ == apply_v(self@, t@));
                }
                res
            },
            Type::FnArg(n, inner, sp) => {
                let res = Type::FnArg(
                    crate::types::clone_opt_name(n),
                    Box::new(self.apply_ty(&**inner)),
                    *sp,
                );
                proof {
                    assert(res@ =~~= apply_v(self@, t@));
                }
                res
            },
            Type::FUN(m, n, p, r0, sp) => {
                let res = Type::FUN(
                    crate::types::clone_name(m),
                    crate::types::clone_name(n),
                    Box::new(self.apply_ty(&**p)),
                    Box::new(self.apply_ty(&**r0)),
                    *sp,
                );
                proof {
                    assert(res@ =~~= apply_v(self@, t@));
                }
                res
            },
            Type::Module(n, b, sp) => {
                let res = match b {
                    Some(x) => Type::Module(
                        crate::types::clone_name(n),
                        Some(Box::new(self.apply_ty(&**x))),
                        *sp,
                    ),
                    None => Type::Module(crate::types::clone_name(n), None, *sp),
                };
                proof {
                    assert(res@ =~~= apply_v(self@, t@));
                }
                res
            },
            Type::Unit(sp) => Type::Unit(*sp),
            Type::INT(sp) => Type::INT(*sp),
            Type::FLOAT(sp) => Type::FLOAT(*sp),
            Type::BOOL(sp) => Type::BOOL(*sp),
            Type::ResolvedDim(n, sp) => Type::ResolvedDim(*n, *sp),
        }
    }

    /// Applies the substitution to every element of a vector of types.
    fn apply_vec(&self, ds: &Vec<Type>) -> (out: Vec<Type>)
        ensures
            Type::vw_seq(out@) == apply_seq_v(self@, Type::vw_seq(ds@)),
        decreases ds@,
    {
        let mut out: Vec<Type> = Vec::new();
        let mut j: usize = 0;
        while j < ds.len()
            invariant
                j <= ds@.len(),
                out@.len() == j,
                forall|l: int| 0 <= l < j ==> #[trigger] out@[l]@ == apply_v(self@, ds@[l]@),
            decreases ds@.len() - j,
        {
            out.push(self.apply_ty(&ds[j]));
            j = j + 1;
        }
        proof {
            broadcast use Type::lemma_vw_seq_props;
            broadcast use lemma_apply_seq_props;

            assert forall|l: int| 0 <= l < ds@.len() implies Type::vw_seq(out@)[l] == apply_seq_v(
                self@,
                Type::vw_seq(ds@),
            )[l] by {
                assert(out@[l]@ == apply_v(self@, ds@[l]@));
                assert(Type::vw_seq(ds@)[l] == ds@[l]@);
            }
            assert(Type::vw_seq(out@) =~= apply_seq_v(self@, Type::vw_seq(ds@)));
        }
        out
    }

    /// Composition: this substitution first, then `other`; see
    /// [`compose_v`] and [`lemma_compose_apply`].
    #[verifier::rlimit(100)]
    #[verifier::spinoff_prover]
    pub fn compose(self, other: Substitution) -> (r: Substitution)
        ensures
            r@ == compose_v(self@, other@),
    {
        let mut out: Vec<(Type, Type)> = Vec::new();
        let mut i: usize = 0;
        while i < self.pairs.len()
            invariant
                i <= self.pairs@.len(),
                out@.len() == i,
                forall|j: int|
                    0 <= j < i ==> (#[trigger] out@[j]).0@ == self@[j].0 && out@[j].1@
                        == apply_v(other@, self@[j].1),
            decreases self.pairs@.len() - i,
        {
            let k = self.pairs[i].0.clone();
            let v = other.apply_ty(&self.pairs[i].1);
            out.push((k, v));
            i = i + 1;
        }
        let ghost n0 = self.pairs@.len() as int;
        let mut i: usize = 0;
        while i < other.pairs.len()
            invariant
                n0 == self.pairs@.len(),
                self@.len() == n0,
                other@.len() == other.pairs@.len(),
                i <= other.pairs@.len(),
                out@.len() == n0 + i,
                forall|j: int|
                    0 <= j < n0 ==> (#[trigger] out@[j]).0@ == self@[j].0 && out@[j].1@
                        == apply_v(other@, self@[j].1),
                forall|j: int|
                    n0 <= j < n0 + i ==> (#[trigger] out@[j]).0@ == other@[j - n0].0
                        && out@[j].1@ == other@[j - n0].1,
            decreases other.pairs@.len() - i,
        {
            let k = other.pairs[i].0.clone();
            let v = other.pairs[i].1.clone();
            let ghost prev = out@;
            let ghost kv = (k@, v@);
            let ghost pushed: (Type, Type) = (k, v);
            out.push((k, v));
            i = i + 1;
            proof {
                assert(out@ == prev.push(pushed));
                assert(kv == other@[i - 1]);
                assert forall|j: int| 0 <= j < n0 implies (#[trigger] out@[j]).0@ == self@[j].0
                    && out@[j].1@ == apply_v(other@, self@[j].1) by {
                    assert(prev.push(pushed)[j] == prev[j]);
                    assert(out@[j] == prev[j]);
                    assert(prev[j].0@ == self@[j].0 && prev[j].1@ == apply_v(
                        other@,
                        self@[j].1,
                    ));
                }
                assert(prev.len() == n0 + i - 1);
                assert forall|j: int| n0 <= j < n0 + i implies (#[trigger] out@[j]).0@ == other@[
                    j - n0].0 && out@[j].1@ == other@[j - n0].1 by {
                    if j < n0 + i - 1 {
                        assert(0 <= j < prev.len());
                        assert(prev.push(pushed)[j] == prev[j]);
                        assert(out@[j] == prev[j]);
                        assert(prev[j].0@ == other@[j - n0].0 && prev[j].1@ == other@[j
                            - n0].1);
                    } else {
                        assert(out@[j] == pushed);
                        assert(out@[j].0@ == kv.0 && out@[j].1@ == kv.1);
                    }
                }
            }
        }
        let res = Substitution { pairs: out };
        proof {
            broadcast use lemma_map_cod_props;

            assert forall|j: int| 0 <= j < res@.len() implies res@[j] == compose_v(
                self@,
                other@,
            )[j] by {
                if j < n0 {
                    assert(compose_v(self@, other@)[j] == map_cod_v(self@, other@)[j]);
                } else {
                    assert(compose_v(self@, other@)[j] == other@[j - n0]);
                }
            }
            assert(res@ =~= compose_v(self@, other@));
        }
        res
    }
}

} // verus!
