//! The algebraic representation of all types of the language: scalar
//! primitives, tensor shapes built from dimensions, function signatures,
//! tuples, modules, and the two kinds of unknowns (general type variables
//! and dimension variables), plus the placeholder for a module-method call
//! whose signature is not yet known.
//!
//! Every variant carries a source span.  Equality between types, as the
//! unifier sees it, ignores spans; the spec function [`TypeV::equiv`]
//! defines that relation over the mathematical view [`TypeV`].

use vstd::prelude::*;

use crate::span::CSpan;

verus! {

/// Identifier of a type variable or dimension variable.  A single monotone
/// counter in the type environment mints these, so `VAR(id)` and `DIM(id)`
/// with the same `id` name the same unknown.
pub type TypeId = u64;

/// A type of the language.
#[allow(non_camel_case_types)]
#[derive(Debug, PartialEq, Eq)]
pub enum Type {
    /// Absence of value.
    Unit(CSpan),
    /// Scalar integer primitive.
    INT(CSpan),
    /// Scalar float primitive.
    FLOAT(CSpan),
    /// Scalar boolean primitive.
    BOOL(CSpan),
    /// A concrete tensor-dimension literal.
    ResolvedDim(u64, CSpan),
    /// An unknown type variable of general kind.
    VAR(TypeId, CSpan),
    /// An unknown dimension; a type variable restricted to dimension kind.
    DIM(TypeId, CSpan),
    /// A tensor type: an ordered sequence of dimension-kinded types
    /// (`ResolvedDim` or `DIM`).  The length is the rank.
    TSR(Vec<Type>, CSpan),
    /// One formal or actual argument; a present name makes it a keyword
    /// argument.
    FnArg(Option<String>, Box<Type>, CSpan),
    /// An argument-list type.
    FnArgs(Vec<Type>, CSpan),
    /// A function type carrying its originating module and function name
    /// (for diagnostics and for recognising identical module methods), its
    /// parameter list (always an `FnArgs`), and its return type.
    FUN(String, String, Box<Type>, Box<Type>, CSpan),
    /// Heterogeneous fixed-length product.
    Tuple(Vec<Type>, CSpan),
    /// A module-level type; the body, when present, is a record of the
    /// module's public fields and methods.
    Module(String, Option<Box<Type>>, CSpan),
    /// Placeholder for a field-access call whose signature depends on later
    /// information: module name, method name, and the type-variable id of
    /// the receiver.  The unifier treats it as a type variable.
    UnresolvedModuleFun(String, String, TypeId, CSpan),
}

/// The mathematical view of a [`Type`]: the same tree with `Seq` in place
/// of `Vec` and `Seq<char>` in place of `String`, so that specifications
/// can build and take apart type trees.
#[allow(non_camel_case_types)]
#[verifier::ext_equal]
pub enum TypeV {
    Unit(CSpan),
    INT(CSpan),
    FLOAT(CSpan),
    BOOL(CSpan),
    ResolvedDim(u64, CSpan),
    VAR(TypeId, CSpan),
    DIM(TypeId, CSpan),
    TSR(Seq<TypeV>, CSpan),
    FnArg(Option<Seq<char>>, Box<TypeV>, CSpan),
    FnArgs(Seq<TypeV>, CSpan),
    FUN(Seq<char>, Seq<char>, Box<TypeV>, Box<TypeV>, CSpan),
    Tuple(Seq<TypeV>, CSpan),
    Module(Seq<char>, Option<Box<TypeV>>, CSpan),
    UnresolvedModuleFun(Seq<char>, Seq<char>, TypeId, CSpan),
}

impl Type {
    /// The views of the elements of a vector of types, in order.
    pub open spec fn vw_seq(v: Seq<Type>) -> Seq<TypeV>
        decreases v,
    {
        if v.len() == 0 {
            Seq::empty()
        } else {
            Type::vw_seq(v.drop_last()).push(v.last().vw())
        }
    }

    /// `vw_seq` maps a sequence pointwise through `vw`.
    pub broadcast proof fn lemma_vw_seq_props(v: Seq<Type>)
        ensures
            (#[trigger] Type::vw_seq(v)).len() == v.len(),
            forall|i: int| 0 <= i < v.len() ==> Type::vw_seq(v)[i] == v[i].vw(),
        decreases v,
    {
        if v.len() == 0 {
        } else {
            Type::lemma_vw_seq_props(v.drop_last());
            assert forall|i: int| 0 <= i < v.len() implies Type::vw_seq(v)[i] == v[i].vw() by {
                if i < v.len() - 1 {
                    assert(v.drop_last()[i] == v[i]);
                }
            }
        }
    }

    /// The mathematical view of this type.
    pub open spec fn vw(self) -> TypeV
        decreases self,
    {
        match self {
            Type::Unit(sp) => TypeV::Unit(sp),
            Type::INT(sp) => TypeV::INT(sp),
            Type::FLOAT(sp) => TypeV::FLOAT(sp),
            Type::BOOL(sp) => TypeV::BOOL(sp),
            Type::ResolvedDim(n, sp) => TypeV::ResolvedDim(n, sp),
            Type::VAR(id, sp) => TypeV::VAR(id, sp),
            Type::DIM(id, sp) => TypeV::DIM(id, sp),
            Type::TSR(dims, sp) => TypeV::TSR(Type::vw_seq(dims@), sp),
            Type::FnArg(name, ty, sp) => TypeV::FnArg(
                match name {
                    Some(n) => Some(n@),
                    None => None,
                },
                Box::new((*ty).vw()),
                sp,
            ),
            Type::FnArgs(args, sp) => TypeV::FnArgs(Type::vw_seq(args@), sp),
            Type::FUN(m, n, p, r, sp) => TypeV::FUN(
                m@,
                n@,
                Box::new((*p).vw()),
                Box::new((*r).vw()),
                sp,
            ),
            Type::Tuple(ts, sp) => TypeV::Tuple(Type::vw_seq(ts@), sp),
            Type::Module(n, body, sp) => TypeV::Module(
                n@,
                match body {
                    Some(b) => Some(Box::new((*b).vw())),
                    None => None,
                },
                sp,
            ),
            Type::UnresolvedModuleFun(m, f, id, sp) => TypeV::UnresolvedModuleFun(m@, f@, id, sp),
        }
    }
}

impl View for Type {
    type V = TypeV;

    open spec fn view(&self) -> TypeV {
        self.vw()
    }
}

impl TypeV {
    /// The span carried at the root of the type.
    pub open spec fn span_of(self) -> CSpan {
        match self {
            TypeV::Unit(sp) => sp,
            TypeV::INT(sp) => sp,
            TypeV::FLOAT(sp) => sp,
            TypeV::BOOL(sp) => sp,
            TypeV::ResolvedDim(_, sp) => sp,
            TypeV::VAR(_, sp) => sp,
            TypeV::DIM(_, sp) => sp,
            TypeV::TSR(_, sp) => sp,
            TypeV::FnArg(_, _, sp) => sp,
            TypeV::FnArgs(_, sp) => sp,
            TypeV::FUN(_, _, _, _, sp) => sp,
            TypeV::Tuple(_, sp) => sp,
            TypeV::Module(_, _, sp) => sp,
            TypeV::UnresolvedModuleFun(_, _, _, sp) => sp,
        }
    }

    /// The same type with the root span replaced.
    pub open spec fn with_span_v(self, sp: CSpan) -> TypeV {
        match self {
            TypeV::Unit(_) => TypeV::Unit(sp),
            TypeV::INT(_) => TypeV::INT(sp),
            TypeV::FLOAT(_) => TypeV::FLOAT(sp),
            TypeV::BOOL(_) => TypeV::BOOL(sp),
            TypeV::ResolvedDim(n, _) => TypeV::ResolvedDim(n, sp),
            TypeV::VAR(id, _) => TypeV::VAR(id, sp),
            TypeV::DIM(id, _) => TypeV::DIM(id, sp),
            TypeV::TSR(ds, _) => TypeV::TSR(ds, sp),
            TypeV::FnArg(n, t, _) => TypeV::FnArg(n, t, sp),
            TypeV::FnArgs(a, _) => TypeV::FnArgs(a, sp),
            TypeV::FUN(m, n, p, r, _) => TypeV::FUN(m, n, p, r, sp),
            TypeV::Tuple(ts, _) => TypeV::Tuple(ts, sp),
            TypeV::Module(n, b, _) => TypeV::Module(n, b, sp),
            TypeV::UnresolvedModuleFun(m, f, id, _) => TypeV::UnresolvedModuleFun(m, f, id, sp),
        }
    }

    /// Equality as the unifier sees it: structural, ignoring every span,
    /// and identifying `INT` with any concrete dimension literal (dimension
    /// literals are integers).  `VAR` and `DIM` with the same id name the
    /// same unknown.
    pub open spec fn equiv(self, other: TypeV) -> bool
        decreases self,
    {
        match (self, other) {
            (TypeV::Unit(_), TypeV::Unit(_)) => true,
            (TypeV::INT(_), TypeV::INT(_)) => true,
            (TypeV::FLOAT(_), TypeV::FLOAT(_)) => true,
            (TypeV::BOOL(_), TypeV::BOOL(_)) => true,
            (TypeV::INT(_), TypeV::ResolvedDim(_, _)) => true,
            (TypeV::ResolvedDim(_, _), TypeV::INT(_)) => true,
            (TypeV::ResolvedDim(a, _), TypeV::ResolvedDim(b, _)) => a == b,
            (TypeV::VAR(a, _), TypeV::VAR(b, _)) => a == b,
            (TypeV::VAR(a, _), TypeV::DIM(b, _)) => a == b,
            (TypeV::DIM(a, _), TypeV::VAR(b, _)) => a == b,
            (TypeV::DIM(a, _), TypeV::DIM(b, _)) => a == b,
            (TypeV::TSR(x, _), TypeV::TSR(y, _)) => Self::equiv_seq(x, y),
            (TypeV::FnArg(n1, t1, _), TypeV::FnArg(n2, t2, _)) => n1 == n2 && (*t1).equiv(*t2),
            (TypeV::FnArgs(x, _), TypeV::FnArgs(y, _)) => Self::equiv_seq(x, y),
            (TypeV::FUN(_, n1, p1, r1, _), TypeV::FUN(_, n2, p2, r2, _)) => {
                &&& n1 == n2 || n1.len() == 0 || n2.len() == 0
                &&& (*p1).equiv(*p2)
                &&& (*r1).equiv(*r2)
            },
            (TypeV::Tuple(x, _), TypeV::Tuple(y, _)) => Self::equiv_seq(x, y),
            (TypeV::Module(n1, b1, _), TypeV::Module(n2, b2, _)) => {
                &&& n1 == n2
                &&& match (b1, b2) {
                    (Some(x), Some(y)) => (*x).equiv(*y),
                    (None, None) => true,
                    _ => false,
                }
            },
            (
                TypeV::UnresolvedModuleFun(m1, f1, id1, _),
                TypeV::UnresolvedModuleFun(m2, f2, id2, _),
            ) => m1 == m2 && f1 == f2 && id1 == id2,
            _ => false,
        }
    }

    /// Pointwise [`TypeV::equiv`] over sequences of equal length.
    pub open spec fn equiv_seq(x: Seq<TypeV>, y: Seq<TypeV>) -> bool
        decreases x,
    {
        &&& x.len() == y.len()
        &&& x.len() == 0 || (x[0].equiv(y[0]) && Self::equiv_seq(x.drop_first(), y.drop_first()))
    }

    /// Sequences whose elements are pairwise equivalent are equivalent.
    pub proof fn lemma_equiv_seq_intro(x: Seq<TypeV>, y: Seq<TypeV>)
        requires
            x.len() == y.len(),
            forall|i: int| 0 <= i < x.len() ==> #[trigger] x[i].equiv(y[i]),
        ensures
            Self::equiv_seq(x, y),
        decreases x,
    {
        if x.len() == 0 {
        } else {
            assert forall|i: int| 0 <= i < x.drop_first().len() implies #[trigger] x.drop_first()[i].equiv(
                y.drop_first()[i],
            ) by {
                assert(x.drop_first()[i] == x[i + 1]);
                assert(y.drop_first()[i] == y[i + 1]);
            }
            Self::lemma_equiv_seq_intro(x.drop_first(), y.drop_first());
            assert(x[0].equiv(y[0]));
        }
    }

    /// Equivalent sequences have pairwise equivalent elements.
    pub proof fn lemma_equiv_seq_elim(x: Seq<TypeV>, y: Seq<TypeV>)
        requires
            Self::equiv_seq(x, y),
        ensures
            x.len() == y.len(),
            forall|i: int| 0 <= i < x.len() ==> #[trigger] x[i].equiv(y[i]),
        decreases x,
    {
        if x.len() == 0 {
        } else {
            Self::lemma_equiv_seq_elim(x.drop_first(), y.drop_first());
            assert forall|i: int| 0 <= i < x.len() implies #[trigger] x[i].equiv(y[i]) by {
                if i > 0 {
                    assert(x.drop_first()[i - 1] == x[i]);
                    assert(y.drop_first()[i - 1] == y[i]);
                }
            }
        }
    }

    /// Whether this type can stand in the domain of a substitution: a type
    /// variable (of either kind) or an unresolved module function.
    pub open spec fn is_tvar(self) -> bool {
        match self {
            TypeV::VAR(_, _) => true,
            TypeV::DIM(_, _) => true,
            TypeV::UnresolvedModuleFun(_, _, _, _) => true,
            _ => false,
        }
    }

    /// Whether the substitution key `self` rewrites the node `n`.  A `VAR`
    /// key rewrites both `VAR` and `DIM` nodes with its id; an unresolved
    /// module function rewrites the markers with the same module, method
    /// and receiver, whatever their spans.
    pub open spec fn key_matches(self, n: TypeV) -> bool {
        match self {
            TypeV::VAR(id, _) | TypeV::DIM(id, _) => match n {
                TypeV::VAR(id2, _) | TypeV::DIM(id2, _) => id == id2,
                _ => false,
            },
            TypeV::UnresolvedModuleFun(m, f, id, _) => match n {
                TypeV::UnresolvedModuleFun(m2, f2, id2, _) => m == m2 && f == f2 && id == id2,
                _ => false,
            },
            _ => false,
        }
    }

    /// Whether the substitution key `self` matches some node of `t` that an
    /// application of the substitution would rewrite.  Unresolved-module-fun
    /// markers are atomic: nothing below them is rewritten, so nothing
    /// below them is searched.  This is the occurs check's notion of
    /// occurrence.
    pub open spec fn key_occurs(self, t: TypeV) -> bool
        decreases t,
    {
        self.key_matches(t) || match t {
            TypeV::TSR(ds, _) => Self::key_occurs_seq(self, ds),
            TypeV::FnArg(_, inner, _) => self.key_occurs(*inner),
            TypeV::FnArgs(a, _) => Self::key_occurs_seq(self, a),
            TypeV::FUN(_, _, p, r, _) => self.key_occurs(*p) || self.key_occurs(*r),
            TypeV::Tuple(ts, _) => Self::key_occurs_seq(self, ts),
            TypeV::Module(_, Some(b), _) => self.key_occurs(*b),
            _ => false,
        }
    }

    /// Whether `k` occurs in some element of `ts`.
    pub open spec fn key_occurs_seq(k: TypeV, ts: Seq<TypeV>) -> bool
        decreases ts,
    {
        if ts.len() == 0 {
            false
        } else {
            k.key_occurs(ts[0]) || Self::key_occurs_seq(k, ts.drop_first())
        }
    }

    /// The set of variable ids (`VAR` or `DIM`) that a substitution could
    /// rewrite in this type.  Ids inside unresolved-module-fun markers are
    /// not included: the markers are atomic.
    pub open spec fn idset(self) -> Set<int>
        decreases self,
    {
        match self {
            TypeV::VAR(id, _) | TypeV::DIM(id, _) => set![id as int],
            TypeV::TSR(ds, _) => Self::idset_seq(ds),
            TypeV::FnArg(_, inner, _) => (*inner).idset(),
            TypeV::FnArgs(a, _) => Self::idset_seq(a),
            TypeV::FUN(_, _, p, r, _) => (*p).idset().union((*r).idset()),
            TypeV::Tuple(ts, _) => Self::idset_seq(ts),
            TypeV::Module(_, Some(b), _) => (*b).idset(),
            _ => Set::empty(),
        }
    }

    pub open spec fn idset_seq(ts: Seq<TypeV>) -> Set<int>
        decreases ts,
    {
        if ts.len() == 0 {
            Set::empty()
        } else {
            ts[0].idset().union(Self::idset_seq(ts.drop_first()))
        }
    }

    /// The set of unresolved-module-fun markers occurring in this type,
    /// kept with their spans.
    pub open spec fn mkset(self) -> Set<TypeV>
        decreases self,
    {
        match self {
            TypeV::UnresolvedModuleFun(_, _, _, _) => set![self],
            TypeV::TSR(ds, _) => Self::mkset_seq(ds),
            TypeV::FnArg(_, inner, _) => (*inner).mkset(),
            TypeV::FnArgs(a, _) => Self::mkset_seq(a),
            TypeV::FUN(_, _, p, r, _) => (*p).mkset().union((*r).mkset()),
            TypeV::Tuple(ts, _) => Self::mkset_seq(ts),
            TypeV::Module(_, Some(b), _) => (*b).mkset(),
            _ => Set::empty(),
        }
    }

    pub open spec fn mkset_seq(ts: Seq<TypeV>) -> Set<TypeV>
        decreases ts,
    {
        if ts.len() == 0 {
            Set::empty()
        } else {
            ts[0].mkset().union(Self::mkset_seq(ts.drop_first()))
        }
    }

    /// The number of nodes in the type tree; at least one.
    pub open spec fn tsize(self) -> nat
        decreases self,
    {
        match self {
            TypeV::TSR(ds, _) => 1 + Self::tsize_seq(ds),
            TypeV::FnArg(_, inner, _) => 1 + (*inner).tsize(),
            TypeV::FnArgs(a, _) => 1 + Self::tsize_seq(a),
            TypeV::FUN(_, _, p, r, _) => 1 + (*p).tsize() + (*r).tsize(),
            TypeV::Tuple(ts, _) => 1 + Self::tsize_seq(ts),
            TypeV::Module(_, Some(b), _) => 1 + (*b).tsize(),
            _ => 1,
        }
    }

    pub open spec fn tsize_seq(ts: Seq<TypeV>) -> nat
        decreases ts,
    {
        if ts.len() == 0 {
            0
        } else {
            ts[0].tsize() + Self::tsize_seq(ts.drop_first())
        }
    }
}

impl Type {
    /// The span carried at the root of the type.
    pub fn span(&self) -> (sp: CSpan)
        ensures
            sp == self@.span_of(),
    {
        match self {
            Type::Unit(sp) => *sp,
            Type::INT(sp) => *sp,
            Type::FLOAT(sp) => *sp,
            Type::BOOL(sp) => *sp,
            Type::ResolvedDim(_, sp) => *sp,
            Type::VAR(_, sp) => *sp,
            Type::DIM(_, sp) => *sp,
            Type::TSR(_, sp) => *sp,
            Type::FnArg(_, _, sp) => *sp,
            Type::FnArgs(_, sp) => *sp,
            Type::FUN(_, _, _, _, sp) => *sp,
            Type::Tuple(_, sp) => *sp,
            Type::Module(_, _, sp) => *sp,
            Type::UnresolvedModuleFun(_, _, _, sp) => *sp,
        }
    }

    /// The value of a concrete dimension literal.
    pub fn as_num(&self) -> (n: u64)
        requires
            self@ is ResolvedDim,
        ensures
            self@ == TypeV::ResolvedDim(n, self@.span_of()),
    {
        match self {
            Type::ResolvedDim(n, _) => *n,
            _ => unreached(),
        }
    }

    /// The rank of a tensor type: the number of its dimensions.
    pub fn as_rank(&self) -> (n: usize)
        requires
            self@ is TSR,
        ensures
            self@ matches TypeV::TSR(ds, _) && n == ds.len(),
    {
        match self {
            Type::TSR(dims, sp) => {
                proof {
                    broadcast use Type::lemma_vw_seq_props;
                    assert(self@ == TypeV::TSR(Type::vw_seq(dims@), *sp));
                }
                dims.len()
            },
            _ => unreached(),
        }
    }

    /// The same type with the root span replaced.
    pub fn with_span(&self, sp: &CSpan) -> (r: Type)
        ensures
            r@ == self@.with_span_v(*sp),
    {
        let res = match self {
            Type::Unit(_) => Type::Unit(*sp),
            Type::INT(_) => Type::INT(*sp),
            Type::FLOAT(_) => Type::FLOAT(*sp),
            Type::BOOL(_) => Type::BOOL(*sp),
            Type::ResolvedDim(n, _) => Type::ResolvedDim(*n, *sp),
            Type::VAR(id, _) => Type::VAR(*id, *sp),
            Type::DIM(id, _) => Type::DIM(*id, *sp),
            Type::TSR(ds, _) => Type::TSR(clone_vec(ds), *sp),
            Type::FnArg(n, t, _) => Type::FnArg(clone_opt_name(n), Box::new((**t).clone()), *sp),
            Type::FnArgs(a, _) => Type::FnArgs(clone_vec(a), *sp),
            Type::FUN(m, n, p, r, _) => Type::FUN(
                clone_name(m),
                clone_name(n),
                Box::new((**p).clone()),
                Box::new((**r).clone()),
                *sp,
            ),
            Type::Tuple(ts, _) => Type::Tuple(clone_vec(ts), *sp),
            Type::Module(n, b, _) => Type::Module(
                clone_name(n),
                match b {
                    Some(x) => Some(Box::new((**x).clone())),
                    None => None,
                },
                *sp,
            ),
            Type::UnresolvedModuleFun(m, f, id, _) => Type::UnresolvedModuleFun(
                clone_name(m),
                clone_name(f),
                *id,
                *sp,
            ),
        };
        proof {
            broadcast use Type::lemma_vw_seq_props;
            assert(res@ =~~= self@.with_span_v(*sp));
        }
        res
    }
}


/// Whether two types are equal as the unifier sees them: the executable
/// mirror of [`TypeV::equiv`].
pub fn ty_eq(a: &Type, b: &Type) -> (r: bool)
    ensures
        r == a@.equiv(b@),
    decreases a,
{
    match (a, b) {
        (Type::Unit(_), Type::Unit(_)) => true,
        (Type::INT(_), Type::INT(_)) => true,
        (Type::FLOAT(_), Type::FLOAT(_)) => true,
        (Type::BOOL(_), Type::BOOL(_)) => true,
        (Type::INT(_), Type::ResolvedDim(_, _)) => true,
        (Type::ResolvedDim(_, _), Type::INT(_)) => true,
        (Type::ResolvedDim(n1, _), Type::ResolvedDim(n2, _)) => *n1 == *n2,
        (Type::VAR(v1, _), Type::VAR(v2, _)) => *v1 == *v2,
        (Type::VAR(v1, _), Type::DIM(v2, _)) => *v1 == *v2,
        (Type::DIM(v1, _), Type::VAR(v2, _)) => *v1 == *v2,
        (Type::DIM(v1, _), Type::DIM(v2, _)) => *v1 == *v2,
        (Type::TSR(x, _), Type::TSR(y, _)) => ty_eq_vec(x, y),
        (Type::FnArg(n1, t1, _), Type::FnArg(n2, t2, _)) => {
            let names_ok = match (n1, n2) {
                (Some(s1), Some(s2)) => s1.eq(s2),
                (None, None) => true,
                _ => false,
            };
            names_ok && ty_eq(&**t1, &**t2)
        },
        (Type::FnArgs(x, _), Type::FnArgs(y, _)) => ty_eq_vec(x, y),
        (Type::FUN(_, n1, p1, r1, _), Type::FUN(_, n2, p2, r2, _)) => {
            let names_ok = n1.eq(n2) || n1.as_str().unicode_len() == 0 || n2.as_str().unicode_len()
                == 0;
            names_ok && ty_eq(&**p1, &**p2) && ty_eq(&**r1, &**r2)
        },
        (Type::Tuple(x, _), Type::Tuple(y, _)) => ty_eq_vec(x, y),
        (Type::Module(n1, b1, _), Type::Module(n2, b2, _)) => {
            n1.eq(n2) && match (b1, b2) {
                (Some(x), Some(y)) => ty_eq(&**x, &**y),
                (None, None) => true,
                _ => false,
            }
        },
        (
            Type::UnresolvedModuleFun(m1, f1, id1, _),
            Type::UnresolvedModuleFun(m2, f2, id2, _),
        ) => *id1 == *id2 && m1.eq(m2) && f1.eq(f2),
        _ => false,
    }
}

/// Pairwise [`ty_eq`] over two vectors of equal length.
fn ty_eq_vec(x: &Vec<Type>, y: &Vec<Type>) -> (r: bool)
    ensures
        r == TypeV::equiv_seq(Type::vw_seq(x@), Type::vw_seq(y@)),
    decreases x@,
{
    let ghost xv = Type::vw_seq(x@);
    let ghost yv = Type::vw_seq(y@);
    proof {
        broadcast use Type::lemma_vw_seq_props;
    }
    if x.len() != y.len() {
        proof {
            if TypeV::equiv_seq(xv, yv) {
                TypeV::lemma_equiv_seq_elim(xv, yv);
            }
        }
        return false;
    }
    let mut i: usize = 0;
    while i < x.len()
        invariant
            xv == Type::vw_seq(x@),
            yv == Type::vw_seq(y@),
            xv.len() == x@.len(),
            yv.len() == y@.len(),
            x@.len() == y@.len(),
            i <= x@.len(),
            forall|j: int| 0 <= j < x@.len() ==> xv[j] == #[trigger] x@[j]@,
            forall|j: int| 0 <= j < y@.len() ==> yv[j] == #[trigger] y@[j]@,
            forall|j: int| 0 <= j < i ==> #[trigger] xv[j].equiv(yv[j]),
        decreases x@.len() - i,
    {
        if !ty_eq(&x[i], &y[i]) {
            proof {
                if TypeV::equiv_seq(xv, yv) {
                    TypeV::lemma_equiv_seq_elim(xv, yv);
                }
            }
            return false;
        }
        i = i + 1;
    }
    proof {
        TypeV::lemma_equiv_seq_intro(xv, yv);
    }
    true
}

/// Copies a string, keeping its characters.
pub fn clone_name(s: &String) -> (r: String)
    ensures
        r@ == s@,
{
    s.clone()
}

/// Copies an optional argument name, keeping its characters.
pub fn clone_opt_name(s: &Option<String>) -> (r: Option<String>)
    ensures
        match (s, r) {
            (Some(a), Some(b)) => a@ == b@,
            (None, None) => true,
            _ => false,
        },
{
    match s {
        Some(x) => Some(clone_name(x)),
        None => None,
    }
}

/// Copies a vector of types, keeping their views.
pub fn clone_vec(v: &Vec<Type>) -> (r: Vec<Type>)
    ensures
        r@.len() == v@.len(),
        forall|i: int| 0 <= i < v@.len() ==> #[trigger] r@[i]@ == v@[i]@,
        Type::vw_seq(r@) == Type::vw_seq(v@),
    decreases v@,
{
    let mut out: Vec<Type> = Vec::new();
    let mut i: usize = 0;
    while i < v.len()
        invariant
            i <= v@.len(),
            out@.len() == i,
            forall|j: int| 0 <= j < i ==> #[trigger] out@[j]@ == v@[j]@,
        decreases v@.len() - i,
    {
        out.push(v[i].clone());
        i = i + 1;
    }
    proof {
        broadcast use Type::lemma_vw_seq_props;
        assert forall|j: int| 0 <= j < v@.len() implies Type::vw_seq(out@)[j] == Type::vw_seq(
            v@,
        )[j] by {
            assert(out@[j]@ == v@[j]@);
        }
        assert(Type::vw_seq(out@) =~= Type::vw_seq(v@));
    }
    out
}

impl Clone for Type {
    /// A deep copy; the view is preserved exactly.
    fn clone(&self) -> (r: Type)
        ensures
            r@ == self@,
        decreases self,
    {
        let res = match self {
            Type::Unit(sp) => Type::Unit(*sp),
            Type::INT(sp) => Type::INT(*sp),
            Type::FLOAT(sp) => Type::FLOAT(*sp),
            Type::BOOL(sp) => Type::BOOL(*sp),
            Type::ResolvedDim(n, sp) => Type::ResolvedDim(*n, *sp),
            Type::VAR(id, sp) => Type::VAR(*id, *sp),
            Type::DIM(id, sp) => Type::DIM(*id, *sp),
            Type::TSR(ds, sp) => Type::TSR(clone_vec(ds), *sp),
            Type::FnArg(n, t, sp) => Type::FnArg(
                clone_opt_name(n),
                Box::new((**t).clone()),
                *sp,
            ),
            Type::FnArgs(a, sp) => Type::FnArgs(clone_vec(a), *sp),
            Type::FUN(m, n, p, r, sp) => Type::FUN(
                clone_name(m),
                clone_name(n),
                Box::new((**p).clone()),
                Box::new((**r).clone()),
                *sp,
            ),
            Type::Tuple(ts, sp) => Type::Tuple(clone_vec(ts), *sp),
            Type::Module(n, b, sp) => Type::Module(
                clone_name(n),
                match b {
                    Some(x) => Some(Box::new((**x).clone())),
                    None => None,
                },
                *sp,
            ),
            Type::UnresolvedModuleFun(m, f, id, sp) => Type::UnresolvedModuleFun(
                clone_name(m),
                clone_name(f),
                *id,
                *sp,
            ),
        };
        proof {
            broadcast use Type::lemma_vw_seq_props;
            assert(res@ =~~= self@);
        }
        res
    }
}


impl TypeV {
    /// The variable id of a `VAR` or `DIM` key, or the receiver id of an
    /// unresolved-module-fun marker.
    pub open spec fn key_id(self) -> u64
        recommends
            self.is_tvar(),
    {
        match self {
            TypeV::VAR(id, _) => id,
            TypeV::DIM(id, _) => id,
            TypeV::UnresolvedModuleFun(_, _, id, _) => id,
            _ => 0,
        }
    }


    /// What the unifier still guarantees across a pair after its non-fatal
    /// diagnostics: like [`TypeV::equiv`], except that concrete dimension
    /// values, tensor ranks, argument and tuple counts, and keyword names
    /// may disagree — exactly the disagreements the buffered
    /// `DimensionMismatch`, `RankMismatch`, `ArityMismatch` and keyword
    /// diagnostics report.  Lists of different lengths are compared over
    /// their common prefix.
    pub open spec fn lenient(self, other: TypeV) -> bool
        decreases self,
    {
        match (self, other) {
            (TypeV::Unit(_), TypeV::Unit(_)) => true,
            (TypeV::INT(_), TypeV::INT(_)) => true,
            (TypeV::FLOAT(_), TypeV::FLOAT(_)) => true,
            (TypeV::BOOL(_), TypeV::BOOL(_)) => true,
            (TypeV::INT(_), TypeV::ResolvedDim(_, _)) => true,
            (TypeV::ResolvedDim(_, _), TypeV::INT(_)) => true,
            (TypeV::ResolvedDim(_, _), TypeV::ResolvedDim(_, _)) => true,
            (TypeV::VAR(a, _), TypeV::VAR(b, _)) => a == b,
            (TypeV::VAR(a, _), TypeV::DIM(b, _)) => a == b,
            (TypeV::DIM(a, _), TypeV::VAR(b, _)) => a == b,
            (TypeV::DIM(a, _), TypeV::DIM(b, _)) => a == b,
            (TypeV::TSR(x, _), TypeV::TSR(y, _)) => x.len() != y.len()
                || Self::lenient_prefix(x, y),
            (TypeV::FnArg(n1, t1, _), TypeV::FnArg(n2, t2, _)) => {
                &&& (n1 is Some && n2 is Some) || n1 == n2
                &&& (*t1).lenient(*t2)
            },
            (TypeV::FnArgs(x, _), TypeV::FnArgs(y, _)) => Self::lenient_prefix(x, y),
            (TypeV::FUN(_, n1, p1, r1, _), TypeV::FUN(_, n2, p2, r2, _)) => {
                &&& n1 == n2 || n1.len() == 0 || n2.len() == 0
                &&& (*p1).lenient(*p2)
                &&& (*r1).lenient(*r2)
            },
            (TypeV::Tuple(x, _), TypeV::Tuple(y, _)) => Self::lenient_prefix(x, y),
            (TypeV::Module(n1, b1, _), TypeV::Module(n2, b2, _)) => {
                &&& n1 == n2
                &&& match (b1, b2) {
                    (Some(x), Some(y)) => (*x).lenient(*y),
                    (None, None) => true,
                    _ => false,
                }
            },
            (
                TypeV::UnresolvedModuleFun(m1, f1, id1, _),
                TypeV::UnresolvedModuleFun(m2, f2, id2, _),
            ) => m1 == m2 && f1 == f2 && id1 == id2,
            _ => false,
        }
    }

    /// Pointwise [`TypeV::lenient`] over the common prefix of two
    /// sequences.
    pub open spec fn lenient_prefix(x: Seq<TypeV>, y: Seq<TypeV>) -> bool
        decreases x,
    {
        if x.len() == 0 || y.len() == 0 {
            true
        } else {
            x[0].lenient(y[0]) && Self::lenient_prefix(x.drop_first(), y.drop_first())
        }
    }

    /// Equivalence is stricter than the lenient relation.
    pub proof fn lemma_equiv_lenient(a: TypeV, b: TypeV)
        requires
            a.equiv(b),
        ensures
            a.lenient(b),
        decreases a,
    {
        match (a, b) {
            (TypeV::TSR(x, _), TypeV::TSR(y, _)) => Self::lemma_equiv_lenient_seq(x, y),
            (TypeV::FnArgs(x, _), TypeV::FnArgs(y, _)) => Self::lemma_equiv_lenient_seq(x, y),
            (TypeV::Tuple(x, _), TypeV::Tuple(y, _)) => Self::lemma_equiv_lenient_seq(x, y),
            (TypeV::FnArg(_, t1, _), TypeV::FnArg(_, t2, _)) => {
                Self::lemma_equiv_lenient(*t1, *t2);
            },
            (TypeV::FUN(_, _, p1, r1, _), TypeV::FUN(_, _, p2, r2, _)) => {
                Self::lemma_equiv_lenient(*p1, *p2);
                Self::lemma_equiv_lenient(*r1, *r2);
            },
            (TypeV::Module(_, b1, _), TypeV::Module(_, b2, _)) => {
                match (b1, b2) {
                    (Some(x), Some(y)) => Self::lemma_equiv_lenient(*x, *y),
                    _ => {},
                }
            },
            _ => {},
        }
    }

    pub proof fn lemma_equiv_lenient_seq(x: Seq<TypeV>, y: Seq<TypeV>)
        requires
            Self::equiv_seq(x, y),
        ensures
            Self::lenient_prefix(x, y),
        decreases x,
    {
        if x.len() == 0 {
        } else {
            Self::lemma_equiv_lenient(x[0], y[0]);
            Self::lemma_equiv_lenient_seq(x.drop_first(), y.drop_first());
        }
    }

    /// Sequences whose common prefix is pairwise lenient are lenient.
    pub proof fn lemma_lenient_prefix_intro(x: Seq<TypeV>, y: Seq<TypeV>)
        requires
            forall|i: int|
                0 <= i < x.len() && i < y.len() ==> #[trigger] x[i].lenient(y[i]),
        ensures
            Self::lenient_prefix(x, y),
        decreases x,
    {
        if x.len() == 0 || y.len() == 0 {
        } else {
            assert forall|i: int|
                0 <= i < x.drop_first().len() && i < y.drop_first().len() implies #[trigger] x.drop_first()[i].lenient(
                y.drop_first()[i],
            ) by {
                assert(x.drop_first()[i] == x[i + 1]);
                assert(y.drop_first()[i] == y[i + 1]);
            }
            Self::lemma_lenient_prefix_intro(x.drop_first(), y.drop_first());
            assert(x[0].lenient(y[0]));
        }
    }

    /// Every type is equivalent to itself.
    pub proof fn lemma_equiv_refl(t: TypeV)
        ensures
            t.equiv(t),
        decreases t,
    {
        match t {
            TypeV::TSR(ds, _) | TypeV::FnArgs(ds, _) | TypeV::Tuple(ds, _) => {
                assert forall|i: int| 0 <= i < ds.len() implies #[trigger] ds[i].equiv(ds[i]) by {
                    Self::lemma_equiv_refl(ds[i]);
                }
                Self::lemma_equiv_seq_intro(ds, ds);
            },
            TypeV::FnArg(_, inner, _) => Self::lemma_equiv_refl(*inner),
            TypeV::FUN(_, _, p, r, _) => {
                Self::lemma_equiv_refl(*p);
                Self::lemma_equiv_refl(*r);
            },
            TypeV::Module(_, Some(b), _) => Self::lemma_equiv_refl(*b),
            _ => {},
        }
    }

    /// If the type's variable-id set holds a key's id, the key occurs in
    /// the type.
    pub proof fn lemma_idset_member_occurs(k: TypeV, t: TypeV)
        requires
            k is VAR || k is DIM,
            t.idset().contains(k.key_id() as int),
        ensures
            k.key_occurs(t),
        decreases t,
    {
        match t {
            TypeV::TSR(ds, _) | TypeV::FnArgs(ds, _) | TypeV::Tuple(ds, _) => {
                Self::lemma_idset_member_occurs_seq(k, ds);
            },
            TypeV::FnArg(_, inner, _) => Self::lemma_idset_member_occurs(k, *inner),
            TypeV::FUN(_, _, p, r, _) => {
                if (*p).idset().contains(k.key_id() as int) {
                    Self::lemma_idset_member_occurs(k, *p);
                } else {
                    Self::lemma_idset_member_occurs(k, *r);
                }
            },
            TypeV::Module(_, Some(b), _) => Self::lemma_idset_member_occurs(k, *b),
            _ => {},
        }
    }

    pub proof fn lemma_idset_member_occurs_seq(k: TypeV, ts: Seq<TypeV>)
        requires
            k is VAR || k is DIM,
            Self::idset_seq(ts).contains(k.key_id() as int),
        ensures
            Self::key_occurs_seq(k, ts),
        decreases ts,
    {
        if ts.len() == 0 {
        } else {
            if ts[0].idset().contains(k.key_id() as int) {
                Self::lemma_idset_member_occurs(k, ts[0]);
            } else {
                Self::lemma_idset_member_occurs_seq(k, ts.drop_first());
            }
        }
    }

    /// If the type's marker set holds a marker that a key rewrites, the key
    /// occurs in the type.
    pub proof fn lemma_mkset_member_occurs(k: TypeV, t: TypeV, m: TypeV)
        requires
            t.mkset().contains(m),
            k.key_matches(m),
        ensures
            k.key_occurs(t),
        decreases t,
    {
        match t {
            TypeV::TSR(ds, _) | TypeV::FnArgs(ds, _) | TypeV::Tuple(ds, _) => {
                Self::lemma_mkset_member_occurs_seq(k, ds, m);
            },
            TypeV::FnArg(_, inner, _) => Self::lemma_mkset_member_occurs(k, *inner, m),
            TypeV::FUN(_, _, p, r, _) => {
                if (*p).mkset().contains(m) {
                    Self::lemma_mkset_member_occurs(k, *p, m);
                } else {
                    Self::lemma_mkset_member_occurs(k, *r, m);
                }
            },
            TypeV::Module(_, Some(b), _) => Self::lemma_mkset_member_occurs(k, *b, m),
            _ => {},
        }
    }

    pub proof fn lemma_mkset_member_occurs_seq(k: TypeV, ts: Seq<TypeV>, m: TypeV)
        requires
            Self::mkset_seq(ts).contains(m),
            k.key_matches(m),
        ensures
            Self::key_occurs_seq(k, ts),
        decreases ts,
    {
        if ts.len() == 0 {
        } else {
            if ts[0].mkset().contains(m) {
                Self::lemma_mkset_member_occurs(k, ts[0], m);
            } else {
                Self::lemma_mkset_member_occurs_seq(k, ts.drop_first(), m);
            }
        }
    }

    /// The variable-id set and the marker set of a type are finite.
    pub proof fn lemma_sets_finite(t: TypeV)
        ensures
            t.idset().finite(),
            t.mkset().finite(),
        decreases t,
    {
        match t {
            TypeV::TSR(ds, _) | TypeV::FnArgs(ds, _) | TypeV::Tuple(ds, _) => {
                Self::lemma_sets_finite_seq(ds);
            },
            TypeV::FnArg(_, inner, _) => Self::lemma_sets_finite(*inner),
            TypeV::FUN(_, _, p, r, _) => {
                Self::lemma_sets_finite(*p);
                Self::lemma_sets_finite(*r);
            },
            TypeV::Module(_, Some(b), _) => Self::lemma_sets_finite(*b),
            _ => {},
        }
    }

    pub proof fn lemma_sets_finite_seq(ts: Seq<TypeV>)
        ensures
            Self::idset_seq(ts).finite(),
            Self::mkset_seq(ts).finite(),
        decreases ts,
    {
        if ts.len() == 0 {
        } else {
            Self::lemma_sets_finite(ts[0]);
            Self::lemma_sets_finite_seq(ts.drop_first());
        }
    }

    /// Each element of a sequence contributes its variables, markers and
    /// size to the sequence's sets and size.
    pub proof fn lemma_seq_element_sets(ts: Seq<TypeV>, i: int)
        requires
            0 <= i < ts.len(),
        ensures
            ts[i].idset().subset_of(Self::idset_seq(ts)),
            ts[i].mkset().subset_of(Self::mkset_seq(ts)),
            ts[i].tsize() <= Self::tsize_seq(ts),
        decreases ts,
    {
        if i == 0 {
        } else {
            Self::lemma_seq_element_sets(ts.drop_first(), i - 1);
            assert(ts.drop_first()[i - 1] == ts[i]);
        }
    }
}

} // verus!
