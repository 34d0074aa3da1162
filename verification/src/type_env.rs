//! The scoped type environment: a stack of scopes mapping identifiers to
//! types, and the monotone counter that mints fresh type and dimension
//! variables.  Ids are never reused.

use vstd::prelude::*;

use crate::span::CSpan;
use crate::types::{Type, TypeId, TypeV};

verus! {

/// The innermost binding of a name within one scope, latest first.
pub open spec fn lookup_scope_v(sc: Seq<(Seq<char>, TypeV)>, name: Seq<char>) -> Option<TypeV>
    decreases sc.len(),
{
    if sc.len() == 0 {
        Option::None
    } else if sc.last().0 == name {
        Option::Some(sc.last().1)
    } else {
        lookup_scope_v(sc.drop_last(), name)
    }
}

/// The innermost binding of a name across the scope stack.
pub open spec fn lookup_env_v(
    scopes: Seq<Seq<(Seq<char>, TypeV)>>,
    name: Seq<char>,
) -> Option<TypeV>
    decreases scopes.len(),
{
    if scopes.len() == 0 {
        Option::None
    } else {
        match lookup_scope_v(scopes.last(), name) {
            Option::Some(t) => Option::Some(t),
            Option::None => lookup_env_v(scopes.drop_last(), name),
        }
    }
}

/// One scope: identifier bindings in insertion order.
pub type Scope = Vec<(String, Type)>;

pub open spec fn scope_v(sc: Seq<(String, Type)>) -> Seq<(Seq<char>, TypeV)> {
    Seq::new(sc.len(), |i: int| (sc[i].0@, sc[i].1@))
}

/// The instantiation of a polymorphic signature template: every variable
/// id below the bound it was registered under is shifted up by a fresh
/// base; ids at or above the bound are kept.
pub open spec fn shift_ids_v(t: TypeV, base: int, bound: int) -> TypeV
    decreases t,
{
    match t {
        TypeV::VAR(id, sp) => if id < bound {
            TypeV::VAR((id + base) as u64, sp)
        } else {
            t
        },
        TypeV::DIM(id, sp) => if id < bound {
            TypeV::DIM((id + base) as u64, sp)
        } else {
            t
        },
        TypeV::TSR(ds, sp) => TypeV::TSR(shift_seq_v(ds, base, bound), sp),
        TypeV::FnArg(n, inner, sp) => TypeV::FnArg(
            n,
            Box::new(shift_ids_v(*inner, base, bound)),
            sp,
        ),
        TypeV::FnArgs(a, sp) => TypeV::FnArgs(shift_seq_v(a, base, bound), sp),
        TypeV::FUN(m, n, p, r, sp) => TypeV::FUN(
            m,
            n,
            Box::new(shift_ids_v(*p, base, bound)),
            Box::new(shift_ids_v(*r, base, bound)),
            sp,
        ),
        TypeV::Tuple(ts, sp) => TypeV::Tuple(shift_seq_v(ts, base, bound), sp),
        TypeV::Module(n, Some(b), sp) => TypeV::Module(
            n,
            Some(Box::new(shift_ids_v(*b, base, bound))),
            sp,
        ),
        _ => t,
    }
}

pub open spec fn shift_seq_v(ts: Seq<TypeV>, base: int, bound: int) -> Seq<TypeV>
    decreases ts,
{
    if ts.len() == 0 {
        Seq::empty()
    } else {
        seq![shift_ids_v(ts[0], base, bound)] + shift_seq_v(ts.drop_first(), base, bound)
    }
}

pub broadcast proof fn lemma_shift_seq_props(ts: Seq<TypeV>, base: int, bound: int)
    ensures
        (#[trigger] shift_seq_v(ts, base, bound)).len() == ts.len(),
        forall|i: int|
            0 <= i < ts.len() ==> shift_seq_v(ts, base, bound)[i] == shift_ids_v(
                ts[i],
                base,
                bound,
            ),
    decreases ts,
{
    if ts.len() == 0 {
    } else {
        lemma_shift_seq_props(ts.drop_first(), base, bound);
        assert forall|i: int|
            0 <= i < ts.len() implies shift_seq_v(ts, base, bound)[i] == shift_ids_v(
            ts[i],
            base,
            bound,
        ) by {
            if i > 0 {
                assert(shift_seq_v(ts, base, bound)[i] == shift_seq_v(
                    ts.drop_first(),
                    base,
                    bound,
                )[i - 1]);
                assert(ts.drop_first()[i - 1] == ts[i]);
            }
        }
    }
}

/// One registered module method: module name, method name, and its
/// polymorphic signature template.
pub type ModuleEntry = (String, String, Type);

/// The scoped symbol environment with its fresh-variable counter and the
/// registry of module-method signature templates.
#[derive(Debug)]
pub struct TypeEnv {
    pub counter: TypeId,
    pub scopes: Vec<Scope>,
    pub modules: Vec<ModuleEntry>,
}

impl TypeEnv {
    /// The mathematical view of the scope stack.
    pub open spec fn scopes_v(&self) -> Seq<Seq<(Seq<char>, TypeV)>> {
        Seq::new(self.scopes@.len(), |i: int| scope_v(self.scopes@[i]@))
    }

    /// The scope stack always holds at least the root scope.
    pub open spec fn wf(&self) -> bool {
        self.scopes@.len() >= 1
    }

    pub fn new() -> (r: TypeEnv)
        ensures
            r.counter == 0,
            r.wf(),
            r.scopes@.len() == 1,
            r.scopes_v()[0].len() == 0,
    {
        let mut scopes: Vec<Scope> = Vec::new();
        scopes.push(Vec::new());
        let r = TypeEnv { counter: 0, scopes, modules: Vec::new() };
        proof {
            assert(r.scopes_v()[0] =~= Seq::<(Seq<char>, TypeV)>::empty());
        }
        r
    }

    /// Mints a fresh general type variable.  The counter is monotone, so
    /// the id has never been handed out before.
    pub fn fresh_var(&mut self) -> (r: Type)
        requires
            old(self).counter < TypeId::MAX,
        ensures
            r@ == TypeV::VAR(old(self).counter, CSpan { lo: 0, hi: 0 }),
            final(self).counter == old(self).counter + 1,
            final(self).scopes == old(self).scopes,
            final(self).modules == old(self).modules,
    {
        let id = self.counter;
        self.counter = self.counter + 1;
        Type::VAR(id, CSpan::fresh_span())
    }

    /// Mints a fresh dimension variable.
    pub fn fresh_dim(&mut self) -> (r: Type)
        requires
            old(self).counter < TypeId::MAX,
        ensures
            r@ == TypeV::DIM(old(self).counter, CSpan { lo: 0, hi: 0 }),
            final(self).counter == old(self).counter + 1,
            final(self).scopes == old(self).scopes,
            final(self).modules == old(self).modules,
    {
        let id = self.counter;
        self.counter = self.counter + 1;
        Type::DIM(id, CSpan::fresh_span())
    }

    /// Opens a nested scope.
    pub fn push_scope(&mut self)
        ensures
            final(self).scopes_v() == old(self).scopes_v().push(
                Seq::<(Seq<char>, TypeV)>::empty(),
            ),
            final(self).counter == old(self).counter,
            final(self).wf(),
    {
        self.scopes.push(Vec::new());
        proof {
            assert(self.scopes_v() =~~= old(self).scopes_v().push(
                Seq::<(Seq<char>, TypeV)>::empty(),
            ));
        }
    }

    /// Closes the innermost scope; the stack is never popped below the
    /// root.
    pub fn pop_scope(&mut self)
        requires
            old(self).scopes@.len() > 1,
        ensures
            final(self).scopes_v() == old(self).scopes_v().drop_last(),
            final(self).counter == old(self).counter,
            final(self).wf(),
    {
        self.scopes.pop();
        proof {
            assert(self.scopes_v() =~~= old(self).scopes_v().drop_last());
        }
    }

    /// Records a binding in the innermost scope; a rebinding shadows the
    /// earlier one.
    pub fn add_binding(&mut self, name: String, ty: Type)
        requires
            old(self).wf(),
        ensures
            final(self).wf(),
            final(self).counter == old(self).counter,
            final(self).scopes@.len() == old(self).scopes@.len(),
            lookup_env_v(final(self).scopes_v(), name@) == Option::Some(ty@),
            forall|n: Seq<char>|
                n != name@ ==> #[trigger] lookup_env_v(final(self).scopes_v(), n)
                    == lookup_env_v(old(self).scopes_v(), n),
    {
        let ghost old_env = self.scopes_v();
        let ghost name_v = name@;
        let ghost ty_v = ty@;
        let last = self.scopes.len() - 1;
        let mut sc = self.scopes.remove(last);
        sc.push((name, ty));
        self.scopes.push(sc);
        proof {
            let new_env = self.scopes_v();
            assert(self.scopes@.len() == old(self).scopes@.len());
            assert forall|i: int| 0 <= i < new_env.len() - 1 implies new_env[i] == old_env[i] by {
                assert(self.scopes@[i] == old(self).scopes@[i]);
            }
            let n = new_env.len() - 1;
            assert(new_env[n] =~= old_env[n].push((name_v, ty_v)));
            assert(lookup_scope_v(new_env[n], name_v) == Option::Some(ty_v)) by {
                assert(new_env[n].last() == (name_v, ty_v));
                assert(new_env[n].drop_last() =~= old_env[n]);
            }
            assert(lookup_env_v(new_env, name_v) == Option::Some(ty_v)) by {
                assert(new_env.last() == new_env[n]);
            }
            assert forall|nm: Seq<char>| nm != name_v implies #[trigger] lookup_env_v(
                new_env,
                nm,
            ) == lookup_env_v(old_env, nm) by {
                assert(new_env[n].drop_last() =~= old_env[n]);
                assert(lookup_scope_v(new_env[n], nm) == lookup_scope_v(old_env[n], nm));
                assert(new_env.drop_last() =~= old_env.drop_last());
                assert(old_env.last() == old_env[n]);
            }
        }
    }


    /// Registers a module method's polymorphic signature template.
    pub fn register_module_fun(&mut self, module: String, method: String, sig: Type)
        ensures
            final(self).modules@ == old(self).modules@.push((module, method, sig)),
            final(self).counter == old(self).counter,
            final(self).scopes == old(self).scopes,
    {
        self.modules.push((module, method, sig));
    }

    /// Resolves a module method to a fresh instantiation of its template:
    /// every variable of the stored signature is renamed, consistently,
    /// to an id the counter has never handed out, so every call site is
    /// independent.  The template's ids must be below the bound it was
    /// registered under.
    pub fn resolve_module_fun(&mut self, module: &String, method: &String, bound: TypeId) -> (r:
        Option<Type>)
        requires
            old(self).counter + bound <= TypeId::MAX,
        ensures
            match r {
                Some(t) => exists|i: int|
                    {
                        &&& 0 <= i < old(self).modules@.len()
                        &&& (#[trigger] old(self).modules@[i]).0@ == module@
                        &&& old(self).modules@[i].1@ == method@
                        &&& t@ == shift_ids_v(
                            old(self).modules@[i].2@,
                            old(self).counter as int,
                            bound as int,
                        )
                    },
                None => forall|i: int|
                    0 <= i < old(self).modules@.len() ==> !((#[trigger] old(
                        self,
                    ).modules@[i]).0@ == module@ && old(self).modules@[i].1@ == method@),
            },
            final(self).scopes == old(self).scopes,
            final(self).modules == old(self).modules,
            final(self).counter >= old(self).counter,
    {
        let base = self.counter;
        let mut i: usize = 0;
        while i < self.modules.len()
            invariant
                i <= self.modules@.len(),
                base == self.counter,
                self == old(self),
                old(self).counter + bound <= TypeId::MAX,
                forall|j: int|
                    0 <= j < i ==> !((#[trigger] self.modules@[j]).0@ == module@
                        && self.modules@[j].1@ == method@),
            decreases self.modules@.len() - i,
        {
            let hit = crate::substitution::string_eq(&self.modules[i].0, module)
                && crate::substitution::string_eq(&self.modules[i].1, method);
            if hit {
                let t = shift_ids(&self.modules[i].2, base, bound);
                self.counter = base + bound;
                proof {
                    assert((old(self).modules@[i as int]).0@ == module@);
                }
                return Some(t);
            }
            i = i + 1;
        }
        None
    }

    /// Finds the innermost binding of a name, if any.
    pub fn resolve_binding(&self, name: &String) -> (r: Option<Type>)
        requires
            self.wf(),
        ensures
            match r {
                Some(t) => lookup_env_v(self.scopes_v(), name@) == Option::Some(t@),
                None => lookup_env_v(self.scopes_v(), name@) is None,
            },
    {
        let ghost env = self.scopes_v();
        let mut i: usize = self.scopes.len();
        proof {
            assert(env.take(i as int) =~= env);
        }
        while i > 0
            invariant
                i <= self.scopes@.len(),
                env == self.scopes_v(),
                env.len() == self.scopes@.len(),
                lookup_env_v(env, name@) == lookup_env_v(env.take(i as int), name@),
            decreases i,
        {
            i = i - 1;
            let sc = &self.scopes[i];
            let ghost scv = scope_v(sc@);
            proof {
                assert(env[i as int] == scv);
                assert(scv.take(sc@.len() as int) =~= scv);
            }
            let mut j: usize = sc.len();
            while j > 0
                invariant
                    i < self.scopes@.len(),
                    env == self.scopes_v(),
                    env.len() == self.scopes@.len(),
                    sc == &self.scopes@[i as int],
                    scv == scope_v(sc@),
                    scv.len() == sc@.len(),
                    env[i as int] == scv,
                    lookup_env_v(env, name@) == lookup_env_v(env.take(i as int + 1), name@),
                    j <= sc@.len(),
                    lookup_scope_v(scv, name@) == lookup_scope_v(scv.take(j as int), name@),
                decreases j,
            {
                j = j - 1;
                proof {
                    assert(scv.take(j as int + 1).last() == scv[j as int]);
                    assert(scv.take(j as int + 1).drop_last() =~= scv.take(j as int));
                }
                if crate::substitution::string_eq(&sc[j].0, name) {
                    let r = sc[j].1.clone();
                    proof {
                        assert(scv[j as int] == (sc@[j as int].0@, sc@[j as int].1@));
                        assert(lookup_scope_v(scv.take(j as int + 1), name@) == Option::Some(
                            r@,
                        ));
                        assert(lookup_scope_v(scv, name@) == Option::Some(r@));
                        assert(env.take(i as int + 1).last() == env[i as int]);
                        assert(lookup_env_v(env.take(i as int + 1), name@) == Option::Some(r@));
                    }
                    return Some(r);
                }
            }
            proof {
                assert(scv.take(0) =~= Seq::<(Seq<char>, TypeV)>::empty());
                assert(lookup_scope_v(scv, name@) is None);
                assert(env.take(i as int + 1).last() == env[i as int]);
                assert(env.take(i as int + 1).drop_last() =~= env.take(i as int));
                assert(lookup_env_v(env.take(i as int + 1), name@) == lookup_env_v(
                    env.take(i as int),
                    name@,
                ));
            }
        }
        proof {
            assert(env.take(0) =~= Seq::<Seq<(Seq<char>, TypeV)>>::empty());
        }
        None
    }
}

/// Renames every variable of a signature template by shifting its id up by
/// `base`; ids of the template must stay below `bound` so the shift cannot
/// overflow.
fn shift_ids(t: &Type, base: TypeId, bound: TypeId) -> (r: Type)
    requires
        base + bound <= TypeId::MAX,
    ensures
        r@ == shift_ids_v(t@, base as int, bound as int),
    decreases t,
{
    match t {
        Type::VAR(id, sp) => {
            if *id < bound {
                Type::VAR(*id + base, *sp)
            } else {
                Type::VAR(*id, *sp)
            }
        },
        Type::DIM(id, sp) => {
            if *id < bound {
                Type::DIM(*id + base, *sp)
            } else {
                Type::DIM(*id, *sp)
            }
        },
        Type::TSR(ds, sp) => {
            let out = shift_vec(ds, base, bound);
            let res = Type::TSR(out, *sp);
            proof {
                assert(res@ =~~= shift_ids_v(t@, base as int, bound as int));
            }
            res
        },
        Type::FnArgs(ds, sp) => {
            let out = shift_vec(ds, base, bound);
            let res = Type::FnArgs(out, *sp);
            proof {
                assert(res@ =~~= shift_ids_v(t@, base as int, bound as int));
            }
            res
        },
        Type::Tuple(ds, sp) => {
            let out = shift_vec(ds, base, bound);
            let res = Type::Tuple(out, *sp);
            proof {
                assert(res@ =~~= shift_ids_v(t@, base as int, bound as int));
            }
            res
        },
        Type::FnArg(n, inner, sp) => {
            let res = Type::FnArg(
                crate::types::clone_opt_name(n),
                Box::new(shift_ids(&**inner, base, bound)),
                *sp,
            );
            proof {
                assert(res@ =~~= shift_ids_v(t@, base as int, bound as int));
            }
            res
        },
        Type::FUN(m, n, p, r0, sp) => {
            let res = Type::FUN(
                crate::types::clone_name(m),
                crate::types::clone_name(n),
                Box::new(shift_ids(&**p, base, bound)),
                Box::new(shift_ids(&**r0, base, bound)),
                *sp,
            );
            proof {
                assert(res@ =~~= shift_ids_v(t@, base as int, bound as int));
            }
            res
        },
        Type::Module(n, b, sp) => {
            let res = match b {
                Some(x) => Type::Module(
                    crate::types::clone_name(n),
                    Some(Box::new(shift_ids(&**x, base, bound))),
                    *sp,
                ),
                None => Type::Module(crate::types::clone_name(n), None, *sp),
            };
            proof {
                assert(res@ =~~= shift_ids_v(t@, base as int, bound as int));
            }
            res
        },
        Type::Unit(sp) => Type::Unit(*sp),
        Type::INT(sp) => Type::INT(*sp),
        Type::FLOAT(sp) => Type::FLOAT(*sp),
        Type::BOOL(sp) => Type::BOOL(*sp),
        Type::ResolvedDim(n, sp) => Type::ResolvedDim(*n, *sp),
        Type::UnresolvedModuleFun(m, f, id, sp) => Type::UnresolvedModuleFun(
            crate::types::clone_name(m),
            crate::types::clone_name(f),
            *id,
            *sp,
        ),
    }
}

/// Shifts every element of a vector of types.
fn shift_vec(ds: &Vec<Type>, base: TypeId, bound: TypeId) -> (out: Vec<Type>)
    requires
        base + bound <= TypeId::MAX,
    ensures
        Type::vw_seq(out@) == shift_seq_v(Type::vw_seq(ds@), base as int, bound as int),
    decreases ds@,
{
    let mut out: Vec<Type> = Vec::new();
    let mut j: usize = 0;
    while j < ds.len()
        invariant
            base + bound <= TypeId::MAX,
            j <= ds@.len(),
            out@.len() == j,
            forall|l: int|
                0 <= l < j ==> (#[trigger] out@[l])@ == shift_ids_v(
                    ds@[l]@,
                    base as int,
                    bound as int,
                ),
        decreases ds@.len() - j,
    {
        out.push(shift_ids(&ds[j], base, bound));
        j = j + 1;
    }
    proof {
        broadcast use Type::lemma_vw_seq_props;
        broadcast use lemma_shift_seq_props;

        assert forall|l: int|
            0 <= l < ds@.len() implies Type::vw_seq(out@)[l] == shift_seq_v(
            Type::vw_seq(ds@),
            base as int,
            bound as int,
        )[l] by {
            assert(Type::vw_seq(ds@)[l] == ds@[l]@);
            assert(out@[l]@ == shift_ids_v(ds@[l]@, base as int, bound as int));
        }
        assert(Type::vw_seq(out@) =~= shift_seq_v(
            Type::vw_seq(ds@),
            base as int,
            bound as int,
        ));
    }
    out
}

} // verus!
