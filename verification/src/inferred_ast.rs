//! Substituting inferred types back into the typed tree.
//!
//! [`subs`] rebuilds a typed term with every embedded type rewritten by the
//! substitution; names, values, structure and spans are untouched, which is
//! what [`lemma_subs_preserves_spans`] states.

use vstd::prelude::*;

use crate::substitution::{
    apply_v, lemma_substitution_idempotent, wf_subst, SubstV, Substitution,
};
use crate::typed_term::{
    TypedAliasAssign, TypedDecl, TypedFieldAccess, TypedFnApp, TypedFnAppArg, TypedFnDecl,
    TypedFnDeclParam, TypedGraphDecl, TypedNodeDecl, TypedPipes, TypedTerm, TypedUseStmt,
    TypedWeightsAssign, TypedWeightsDecl,
};
use crate::types::Type;

verus! {

/// `r` is `t` with every embedded type rewritten through `s`.
pub open spec fn subs_rel(t: TypedTerm, s: SubstV, r: TypedTerm) -> bool
    decreases t,
{
    match (t, r) {
        (TypedTerm::TypedNone, TypedTerm::TypedNone) => true,
        (TypedTerm::TypedProgram(ds), TypedTerm::TypedProgram(ds2)) => {
            &&& ds@.len() == ds2@.len()
            &&& forall|i: int|
                0 <= i < ds@.len() ==> subs_decl_rel(#[trigger] ds@[i], s, ds2@[i])
        },
        (TypedTerm::TypedInteger(ty, a, sp), TypedTerm::TypedInteger(ty2, a2, sp2)) => {
            ty2@ == apply_v(s, ty@) && a2 == a && sp2 == sp
        },
        (TypedTerm::TypedFloat(ty, a, sp), TypedTerm::TypedFloat(ty2, a2, sp2)) => {
            ty2@ == apply_v(s, ty@) && a2 == a && sp2 == sp
        },
        (TypedTerm::TypedList(ts), TypedTerm::TypedList(ts2)) => {
            &&& ts@.len() == ts2@.len()
            &&& forall|i: int| 0 <= i < ts@.len() ==> subs_rel(#[trigger] ts@[i], s, ts2@[i])
        },
        (TypedTerm::TypedIdent(ty, n, sp), TypedTerm::TypedIdent(ty2, n2, sp2)) => {
            ty2@ == apply_v(s, ty@) && n2@ == n@ && sp2 == sp
        },
        (TypedTerm::TypedFieldAccess(f), TypedTerm::TypedFieldAccess(f2)) => {
            subs_field_access_rel(*f, s, *f2)
        },
        (TypedTerm::TypedFnApp(f), TypedTerm::TypedFnApp(f2)) => subs_fn_app_rel(*f, s, *f2),
        (
            TypedTerm::TypedBlock { stmts, ret, span },
            TypedTerm::TypedBlock { stmts: stmts2, ret: ret2, span: span2 },
        ) => {
            &&& subs_rel(*stmts, s, *stmts2)
            &&& subs_rel(*ret, s, *ret2)
            &&& span2 == span
        },
        (
            TypedTerm::TypedExpr { items, ty, span },
            TypedTerm::TypedExpr { items: items2, ty: ty2, span: span2 },
        ) => {
            &&& subs_rel(*items, s, *items2)
            &&& ty2@ == apply_v(s, ty@)
            &&& span2 == span
        },
        (
            TypedTerm::TypedStmt { items, span },
            TypedTerm::TypedStmt { items: items2, span: span2 },
        ) => {
            &&& subs_rel(*items, s, *items2)
            &&& span2 == span
        },
        (TypedTerm::TypedTuple(ty, ts, sp), TypedTerm::TypedTuple(ty2, ts2, sp2)) => {
            &&& ty2@ == apply_v(s, ty@)
            &&& ts@.len() == ts2@.len()
            &&& forall|i: int| 0 <= i < ts@.len() ==> subs_rel(#[trigger] ts@[i], s, ts2@[i])
            &&& sp2 == sp
        },
        (TypedTerm::TypedPipes(p), TypedTerm::TypedPipes(p2)) => {
            &&& (*p2).items@.len() == (*p).items@.len()
            &&& forall|i: int|
                0 <= i < (*p).items@.len() ==> subs_rel(
                    #[trigger] (*p).items@[i],
                    s,
                    (*p2).items@[i],
                )
            &&& (*p2).ret_ty@ == apply_v(s, (*p).ret_ty@)
            &&& (*p2).span == (*p).span
        },
        _ => false,
    }
}

pub open spec fn subs_decl_rel(d: TypedDecl, s: SubstV, r: TypedDecl) -> bool
    decreases d,
{
    match (d, r) {
        (TypedDecl::TypedNodeDecl(x), TypedDecl::TypedNodeDecl(y)) => {
            y.name@ == x.name@ && y.ty_sig@ == apply_v(s, x.ty_sig@) && y.span == x.span
        },
        (TypedDecl::TypedUseStmt(x), TypedDecl::TypedUseStmt(y)) => {
            &&& y.mod_name@ == x.mod_name@
            &&& y.imported_names@.len() == x.imported_names@.len()
            &&& forall|i: int|
                0 <= i < x.imported_names@.len() ==> (#[trigger] y.imported_names@[i])@
                    == x.imported_names@[i]@
            &&& y.span == x.span
        },
        (TypedDecl::TypedAliasAssign(x), TypedDecl::TypedAliasAssign(y)) => {
            y.name@ == x.name@ && y.alias@ == x.alias@ && y.span == x.span
        },
        (TypedDecl::TypedGraphDecl(x), TypedDecl::TypedGraphDecl(y)) => {
            &&& y.name@ == x.name@
            &&& y.ty_sig@ == apply_v(s, x.ty_sig@)
            &&& y.fns@.len() == x.fns@.len()
            &&& forall|i: int|
                0 <= i < x.fns@.len() ==> subs_fn_decl_rel(#[trigger] x.fns@[i], s, y.fns@[i])
            &&& y.span == x.span
        },
        (TypedDecl::TypedWeightsDecl(x), TypedDecl::TypedWeightsDecl(y)) => {
            &&& y.name@ == x.name@
            &&& y.ty_sig@ == apply_v(s, x.ty_sig@)
            &&& y.inits@.len() == x.inits@.len()
            &&& forall|i: int|
                0 <= i < x.inits@.len() ==> subs_weights_assign_rel(
                    #[trigger] x.inits@[i],
                    s,
                    y.inits@[i],
                )
            &&& y.span == x.span
        },
        _ => false,
    }
}

pub open spec fn subs_fn_decl_rel(d: TypedFnDecl, s: SubstV, r: TypedFnDecl) -> bool
    decreases d,
{
    &&& r.name@ == d.name@
    &&& r.fn_params@.len() == d.fn_params@.len()
    &&& forall|i: int|
        0 <= i < d.fn_params@.len() ==> {
            &&& (#[trigger] r.fn_params@[i]).name@ == d.fn_params@[i].name@
            &&& r.fn_params@[i].ty_sig@ == apply_v(s, d.fn_params@[i].ty_sig@)
            &&& r.fn_params@[i].span == d.fn_params@[i].span
        }
    &&& r.arg_ty@ == apply_v(s, d.arg_ty@)
    &&& r.ret_ty@ == apply_v(s, d.ret_ty@)
    &&& subs_rel(*d.func_block, s, *r.func_block)
    &&& r.span == d.span
}

pub open spec fn subs_weights_assign_rel(
    w: TypedWeightsAssign,
    s: SubstV,
    r: TypedWeightsAssign,
) -> bool
    decreases w,
{
    &&& r.name@ == w.name@
    &&& r.ty@ == apply_v(s, w.ty@)
    &&& r.mod_name@ == w.mod_name@
    &&& r.fn_name@ == w.fn_name@
    &&& r.fn_ty@ == apply_v(s, w.fn_ty@)
    &&& r.fn_args@.len() == w.fn_args@.len()
    &&& forall|i: int|
        0 <= i < w.fn_args@.len() ==> subs_fn_app_arg_rel(#[trigger] w.fn_args@[i], s, r.fn_args@[i])
    &&& r.span == w.span
}

pub open spec fn subs_fn_app_rel(f: TypedFnApp, s: SubstV, r: TypedFnApp) -> bool
    decreases f,
{
    &&& r.name@ == f.name@
    &&& match (f.mod_name, r.mod_name) {
        (Some(a), Some(b)) => a@ == b@,
        (None, None) => true,
        _ => false,
    }
    &&& r.arg_ty@ == apply_v(s, f.arg_ty@)
    &&& r.ret_ty@ == apply_v(s, f.ret_ty@)
    &&& r.args@.len() == f.args@.len()
    &&& forall|i: int|
        0 <= i < f.args@.len() ==> subs_fn_app_arg_rel(#[trigger] f.args@[i], s, r.args@[i])
    &&& r.span == f.span
}

pub open spec fn subs_fn_app_arg_rel(a: TypedFnAppArg, s: SubstV, r: TypedFnAppArg) -> bool
    decreases a,
{
    &&& r.name@ == a.name@
    &&& subs_rel(*a.arg, s, *r.arg)
    &&& r.span == a.span
}

pub open spec fn subs_field_access_rel(f: TypedFieldAccess, s: SubstV, r: TypedFieldAccess) -> bool
    decreases f,
{
    &&& r.var_name@ == f.var_name@
    &&& r.field_name@ == f.field_name@
    &&& match (f.func_call, r.func_call) {
        (Some((ty, args)), Some((ty2, args2))) => {
            &&& ty2@ == apply_v(s, ty@)
            &&& args2@.len() == args@.len()
            &&& forall|i: int|
                0 <= i < args@.len() ==> subs_fn_app_arg_rel(#[trigger] args@[i], s, args2@[i])
        },
        (None, None) => true,
        _ => false,
    }
    &&& r.span == f.span
}

/// Substitute inferred types back into a typed term.  The substitution is
/// read, never changed; structure, names, values and spans stay as they
/// were.
#[verifier::rlimit(50)]
#[verifier::loop_isolation(false)]
pub fn subs(typed_term: &TypedTerm, s: &mut Substitution) -> (r: TypedTerm)
    ensures
        subs_rel(*typed_term, old(s)@, r),
        final(s)@ == old(s)@,
    decreases typed_term,
{
    match typed_term {
        TypedTerm::TypedNone => TypedTerm::TypedNone,
        TypedTerm::TypedProgram(ds) => {
            let mut out: Vec<TypedDecl> = Vec::new();
            let mut i: usize = 0;
            while i < ds.len()
                invariant
                    i <= ds@.len(),
                    out@.len() == i,
                    s@ == old(s)@,
                    forall|j: int|
                        0 <= j < i ==> subs_decl_rel(#[trigger] ds@[j], old(s)@, out@[j]),
                decreases ds@.len() - i,
            {
                let d = subs_decl(&ds[i], s);
                out.push(d);
                i = i + 1;
            }
            TypedTerm::TypedProgram(out)
        },
        TypedTerm::TypedInteger(ty, a, sp) => TypedTerm::TypedInteger(s.apply_ty(ty), *a, *sp),
        TypedTerm::TypedFloat(ty, a, sp) => TypedTerm::TypedFloat(s.apply_ty(ty), *a, *sp),
        TypedTerm::TypedList(ts) => TypedTerm::TypedList(subs_terms(ts, s)),
        TypedTerm::TypedIdent(ty, n, sp) => TypedTerm::TypedIdent(
            s.apply_ty(ty),
            n.clone(),
            *sp,
        ),
        TypedTerm::TypedFieldAccess(f) => TypedTerm::TypedFieldAccess(
            Box::new(subs_field_access(&**f, s)),
        ),
        TypedTerm::TypedFnApp(f) => TypedTerm::TypedFnApp(Box::new(subs_fn_app(&**f, s))),
        TypedTerm::TypedBlock { stmts, ret, span } => TypedTerm::TypedBlock {
            stmts: Box::new(subs(&**stmts, s)),
            ret: Box::new(subs(&**ret, s)),
            span: *span,
        },
        TypedTerm::TypedExpr { items, ty, span } => TypedTerm::TypedExpr {
            items: Box::new(subs(&**items, s)),
            ty: s.apply_ty(ty),
            span: *span,
        },
        TypedTerm::TypedStmt { items, span } => TypedTerm::TypedStmt {
            items: Box::new(subs(&**items, s)),
            span: *span,
        },
        TypedTerm::TypedTuple(ty, ts, sp) => TypedTerm::TypedTuple(
            s.apply_ty(ty),
            subs_terms(ts, s),
            *sp,
        ),
        TypedTerm::TypedPipes(p) => {
            let items = subs_terms(&p.items, s);
            TypedTerm::TypedPipes(
                Box::new(
                    TypedPipes { items, ret_ty: s.apply_ty(&p.ret_ty), span: p.span },
                ),
            )
        },
    }
}

/// Substitutes through every element of a list of terms.
fn subs_terms(ts: &Vec<TypedTerm>, s: &mut Substitution) -> (out: Vec<TypedTerm>)
    ensures
        out@.len() == ts@.len(),
        forall|j: int| 0 <= j < ts@.len() ==> subs_rel(#[trigger] ts@[j], old(s)@, out@[j]),
        final(s)@ == old(s)@,
    decreases ts@,
{
    let mut out: Vec<TypedTerm> = Vec::new();
    let mut i: usize = 0;
    while i < ts.len()
        invariant
            i <= ts@.len(),
            out@.len() == i,
            s@ == old(s)@,
            forall|j: int| 0 <= j < i ==> subs_rel(#[trigger] ts@[j], old(s)@, out@[j]),
        decreases ts@.len() - i,
    {
        let t = subs(&ts[i], s);
        out.push(t);
        i = i + 1;
    }
    out
}

/// Substitutes through every named actual argument.
fn subs_fn_app_args(args: &Vec<TypedFnAppArg>, s: &mut Substitution) -> (out: Vec<TypedFnAppArg>)
    ensures
        out@.len() == args@.len(),
        forall|j: int|
            0 <= j < args@.len() ==> subs_fn_app_arg_rel(#[trigger] args@[j], old(s)@, out@[j]),
        final(s)@ == old(s)@,
    decreases args@,
{
    let mut out: Vec<TypedFnAppArg> = Vec::new();
    let mut i: usize = 0;
    while i < args.len()
        invariant
            i <= args@.len(),
            out@.len() == i,
            s@ == old(s)@,
            forall|j: int|
                0 <= j < i ==> subs_fn_app_arg_rel(#[trigger] args@[j], old(s)@, out@[j]),
        decreases args@.len() - i,
    {
        let a = subs_fn_app_arg(&args[i], s);
        out.push(a);
        i = i + 1;
    }
    out
}

fn subs_decl(decl: &TypedDecl, s: &mut Substitution) -> (r: TypedDecl)
    ensures
        subs_decl_rel(*decl, old(s)@, r),
        final(s)@ == old(s)@,
    decreases decl,
{
    match decl {
        TypedDecl::TypedGraphDecl(d) => TypedDecl::TypedGraphDecl(subs_graph_decl(d, s)),
        TypedDecl::TypedNodeDecl(d) => TypedDecl::TypedNodeDecl(subs_node_decl(d, s)),
        TypedDecl::TypedUseStmt(d) => TypedDecl::TypedUseStmt(subs_use_stmt(d, s)),
        TypedDecl::TypedWeightsDecl(d) => TypedDecl::TypedWeightsDecl(subs_weights_decl(d, s)),
        TypedDecl::TypedAliasAssign(d) => TypedDecl::TypedAliasAssign(
            TypedAliasAssign { name: d.name.clone(), alias: d.alias.clone(), span: d.span },
        ),
    }
}

fn subs_graph_decl(decl: &TypedGraphDecl, s: &mut Substitution) -> (r: TypedGraphDecl)
    ensures
        subs_decl_rel(
            TypedDecl::TypedGraphDecl(*decl),
            old(s)@,
            TypedDecl::TypedGraphDecl(r),
        ),
        final(s)@ == old(s)@,
    decreases decl,
{
    let mut fns: Vec<TypedFnDecl> = Vec::new();
    let mut i: usize = 0;
    while i < decl.fns.len()
        invariant
            i <= decl.fns@.len(),
            fns@.len() == i,
            s@ == old(s)@,
            forall|j: int|
                0 <= j < i ==> subs_fn_decl_rel(#[trigger] decl.fns@[j], old(s)@, fns@[j]),
        decreases decl.fns@.len() - i,
    {
        let f = subs_fn_decl(&decl.fns[i], s);
        fns.push(f);
        i = i + 1;
    }
    TypedGraphDecl {
        name: decl.name.clone(),
        ty_sig: s.apply_ty(&decl.ty_sig),
        fns,
        span: decl.span,
    }
}

fn subs_fn_decl(decl: &TypedFnDecl, s: &mut Substitution) -> (r: TypedFnDecl)
    ensures
        subs_fn_decl_rel(*decl, old(s)@, r),
        final(s)@ == old(s)@,
    decreases decl,
{
    let mut fn_params: Vec<TypedFnDeclParam> = Vec::new();
    let mut i: usize = 0;
    while i < decl.fn_params.len()
        invariant
            i <= decl.fn_params@.len(),
            fn_params@.len() == i,
            s@ == old(s)@,
            forall|j: int|
                0 <= j < i ==> {
                    &&& (#[trigger] fn_params@[j]).name@ == decl.fn_params@[j].name@
                    &&& fn_params@[j].ty_sig@ == apply_v(old(s)@, decl.fn_params@[j].ty_sig@)
                    &&& fn_params@[j].span == decl.fn_params@[j].span
                },
        decreases decl.fn_params@.len() - i,
    {
        let p = &decl.fn_params[i];
        fn_params.push(
            TypedFnDeclParam {
                name: p.name.clone(),
                ty_sig: s.apply_ty(&p.ty_sig),
                span: p.span,
            },
        );
        i = i + 1;
    }
    TypedFnDecl {
        name: decl.name.clone(),
        fn_params,
        arg_ty: s.apply_ty(&decl.arg_ty),
        ret_ty: s.apply_ty(&decl.ret_ty),
        func_block: Box::new(subs(&decl.func_block, s)),
        span: decl.span,
    }
}

fn subs_node_decl(decl: &TypedNodeDecl, s: &mut Substitution) -> (r: TypedNodeDecl)
    ensures
        subs_decl_rel(
            TypedDecl::TypedNodeDecl(*decl),
            old(s)@,
            TypedDecl::TypedNodeDecl(r),
        ),
        final(s)@ == old(s)@,
{
    TypedNodeDecl {
        name: decl.name.clone(),
        ty_sig: s.apply_ty(&decl.ty_sig),
        span: decl.span,
    }
}

fn subs_weights_decl(decl: &TypedWeightsDecl, s: &mut Substitution) -> (r: TypedWeightsDecl)
    ensures
        subs_decl_rel(
            TypedDecl::TypedWeightsDecl(*decl),
            old(s)@,
            TypedDecl::TypedWeightsDecl(r),
        ),
        final(s)@ == old(s)@,
    decreases decl,
{
    let mut inits: Vec<TypedWeightsAssign> = Vec::new();
    let mut i: usize = 0;
    while i < decl.inits.len()
        invariant
            i <= decl.inits@.len(),
            inits@.len() == i,
            s@ == old(s)@,
            forall|j: int|
                0 <= j < i ==> subs_weights_assign_rel(
                    #[trigger] decl.inits@[j],
                    old(s)@,
                    inits@[j],
                ),
        decreases decl.inits@.len() - i,
    {
        let w = subs_weights_assign(&decl.inits[i], s);
        inits.push(w);
        i = i + 1;
    }
    TypedWeightsDecl {
        name: decl.name.clone(),
        ty_sig: s.apply_ty(&decl.ty_sig),
        inits,
        span: decl.span,
    }
}

fn subs_use_stmt(decl: &TypedUseStmt, _tenv: &mut Substitution) -> (r: TypedUseStmt)
    ensures
        subs_decl_rel(
            TypedDecl::TypedUseStmt(*decl),
            old(_tenv)@,
            TypedDecl::TypedUseStmt(r),
        ),
        final(_tenv)@ == old(_tenv)@,
{
    let mut names: Vec<String> = Vec::new();
    let mut i: usize = 0;
    while i < decl.imported_names.len()
        invariant
            i <= decl.imported_names@.len(),
            names@.len() == i,
            forall|j: int|
                0 <= j < i ==> (#[trigger] names@[j])@ == decl.imported_names@[j]@,
        decreases decl.imported_names@.len() - i,
    {
        names.push(decl.imported_names[i].clone());
        i = i + 1;
    }
    TypedUseStmt { mod_name: decl.mod_name.clone(), imported_names: names, span: decl.span }
}

fn subs_weights_assign(w_a: &TypedWeightsAssign, s: &mut Substitution) -> (r: TypedWeightsAssign)
    ensures
        subs_weights_assign_rel(*w_a, old(s)@, r),
        final(s)@ == old(s)@,
    decreases w_a,
{
    TypedWeightsAssign {
        name: w_a.name.clone(),
        ty: s.apply_ty(&w_a.ty),
        mod_name: w_a.mod_name.clone(),
        fn_name: w_a.fn_name.clone(),
        fn_ty: s.apply_ty(&w_a.fn_ty),
        fn_args: subs_fn_app_args(&w_a.fn_args, s),
        span: w_a.span,
    }
}

fn subs_fn_app(fn_app: &TypedFnApp, s: &mut Substitution) -> (r: TypedFnApp)
    ensures
        subs_fn_app_rel(*fn_app, old(s)@, r),
        final(s)@ == old(s)@,
    decreases fn_app,
{
    TypedFnApp {
        name: fn_app.name.clone(),
        mod_name: match &fn_app.mod_name {
            Some(m) => Some(m.clone()),
            None => None,
        },
        arg_ty: s.apply_ty(&fn_app.arg_ty),
        ret_ty: s.apply_ty(&fn_app.ret_ty),
        args: subs_fn_app_args(&fn_app.args, s),
        span: fn_app.span,
    }
}

fn subs_field_access(f: &TypedFieldAccess, s: &mut Substitution) -> (r: TypedFieldAccess)
    ensures
        subs_field_access_rel(*f, old(s)@, r),
        final(s)@ == old(s)@,
    decreases f,
{
    TypedFieldAccess {
        var_name: f.var_name.clone(),
        field_name: f.field_name.clone(),
        func_call: match &f.func_call {
            Some((ty, args)) => Some((s.apply_ty(ty), subs_fn_app_args(args, s))),
            None => None,
        },
        span: f.span,
    }
}

fn subs_fn_app_arg(a: &TypedFnAppArg, s: &mut Substitution) -> (r: TypedFnAppArg)
    ensures
        subs_fn_app_arg_rel(*a, old(s)@, r),
        final(s)@ == old(s)@,
    decreases a,
{
    TypedFnAppArg { name: a.name.clone(), arg: Box::new(subs(&a.arg, s)), span: a.span }
}



/// Substitution is idempotent on whole terms: a term that already went
/// through a well-formed substitution is left exactly as it is by a second
/// pass ([`lemma_substitution_idempotent`], lifted over the tree).
pub proof fn lemma_subs_idempotent_on_terms(t: TypedTerm, s: SubstV, r: TypedTerm)
    requires
        wf_subst(s),
        subs_rel(t, s, r),
    ensures
        subs_rel(r, s, r),
    decreases t,
{
    match (t, r) {
        (TypedTerm::TypedProgram(ds), TypedTerm::TypedProgram(ds2)) => {
            assert forall|i: int| 0 <= i < ds2@.len() implies subs_decl_rel(
                #[trigger] ds2@[i],
                s,
                ds2@[i],
            ) by {
                assert(subs_decl_rel(ds@[i], s, ds2@[i]));
                lemma_subs_decl_idem(ds@[i], s, ds2@[i]);
            }
        },
        (TypedTerm::TypedInteger(ty, _, _), TypedTerm::TypedInteger(ty2, _, _)) => {
            lemma_substitution_idempotent(s, ty@);
        },
        (TypedTerm::TypedFloat(ty, _, _), TypedTerm::TypedFloat(ty2, _, _)) => {
            lemma_substitution_idempotent(s, ty@);
        },
        (TypedTerm::TypedList(ts), TypedTerm::TypedList(ts2)) => {
            assert forall|i: int| 0 <= i < ts2@.len() implies subs_rel(
                #[trigger] ts2@[i],
                s,
                ts2@[i],
            ) by {
                assert(subs_rel(ts@[i], s, ts2@[i]));
                lemma_subs_idempotent_on_terms(ts@[i], s, ts2@[i]);
            }
        },
        (TypedTerm::TypedIdent(ty, _, _), TypedTerm::TypedIdent(ty2, _, _)) => {
            lemma_substitution_idempotent(s, ty@);
        },
        (TypedTerm::TypedFieldAccess(f), TypedTerm::TypedFieldAccess(f2)) => {
            lemma_subs_field_access_idem(*f, s, *f2);
        },
        (TypedTerm::TypedFnApp(f), TypedTerm::TypedFnApp(f2)) => {
            lemma_subs_fn_app_idem(*f, s, *f2);
        },
        (
            TypedTerm::TypedBlock { stmts, ret, .. },
            TypedTerm::TypedBlock { stmts: stmts2, ret: ret2, .. },
        ) => {
            lemma_subs_idempotent_on_terms(*stmts, s, *stmts2);
            lemma_subs_idempotent_on_terms(*ret, s, *ret2);
        },
        (
            TypedTerm::TypedExpr { items, ty, .. },
            TypedTerm::TypedExpr { items: items2, ty: ty2, .. },
        ) => {
            lemma_subs_idempotent_on_terms(*items, s, *items2);
            lemma_substitution_idempotent(s, ty@);
        },
        (
            TypedTerm::TypedStmt { items, .. },
            TypedTerm::TypedStmt { items: items2, .. },
        ) => {
            lemma_subs_idempotent_on_terms(*items, s, *items2);
        },
        (TypedTerm::TypedTuple(ty, ts, _), TypedTerm::TypedTuple(ty2, ts2, _)) => {
            lemma_substitution_idempotent(s, ty@);
            assert forall|i: int| 0 <= i < ts2@.len() implies subs_rel(
                #[trigger] ts2@[i],
                s,
                ts2@[i],
            ) by {
                assert(subs_rel(ts@[i], s, ts2@[i]));
                lemma_subs_idempotent_on_terms(ts@[i], s, ts2@[i]);
            }
        },
        (TypedTerm::TypedPipes(p), TypedTerm::TypedPipes(p2)) => {
            lemma_substitution_idempotent(s, (*p).ret_ty@);
            assert forall|i: int| 0 <= i < (*p2).items@.len() implies subs_rel(
                #[trigger] (*p2).items@[i],
                s,
                (*p2).items@[i],
            ) by {
                assert(subs_rel((*p).items@[i], s, (*p2).items@[i]));
                lemma_subs_idempotent_on_terms((*p).items@[i], s, (*p2).items@[i]);
            }
        },
        _ => {},
    }
}

proof fn lemma_subs_decl_idem(d: TypedDecl, s: SubstV, r: TypedDecl)
    requires
        wf_subst(s),
        subs_decl_rel(d, s, r),
    ensures
        subs_decl_rel(r, s, r),
    decreases d,
{
    match (d, r) {
        (TypedDecl::TypedNodeDecl(x), TypedDecl::TypedNodeDecl(y)) => {
            lemma_substitution_idempotent(s, x.ty_sig@);
        },
        (TypedDecl::TypedGraphDecl(x), TypedDecl::TypedGraphDecl(y)) => {
            lemma_substitution_idempotent(s, x.ty_sig@);
            assert forall|i: int| 0 <= i < y.fns@.len() implies subs_fn_decl_rel(
                #[trigger] y.fns@[i],
                s,
                y.fns@[i],
            ) by {
                assert(subs_fn_decl_rel(x.fns@[i], s, y.fns@[i]));
                lemma_subs_fn_decl_idem(x.fns@[i], s, y.fns@[i]);
            }
        },
        (TypedDecl::TypedWeightsDecl(x), TypedDecl::TypedWeightsDecl(y)) => {
            lemma_substitution_idempotent(s, x.ty_sig@);
            assert forall|i: int| 0 <= i < y.inits@.len() implies subs_weights_assign_rel(
                #[trigger] y.inits@[i],
                s,
                y.inits@[i],
            ) by {
                assert(subs_weights_assign_rel(x.inits@[i], s, y.inits@[i]));
                lemma_subs_weights_assign_idem(x.inits@[i], s, y.inits@[i]);
            }
        },
        _ => {},
    }
}

proof fn lemma_subs_fn_decl_idem(d: TypedFnDecl, s: SubstV, r: TypedFnDecl)
    requires
        wf_subst(s),
        subs_fn_decl_rel(d, s, r),
    ensures
        subs_fn_decl_rel(r, s, r),
    decreases d,
{
    lemma_substitution_idempotent(s, d.arg_ty@);
    lemma_substitution_idempotent(s, d.ret_ty@);
    assert forall|i: int| 0 <= i < r.fn_params@.len() implies (
    #[trigger] r.fn_params@[i]).name@ == r.fn_params@[i].name@ && r.fn_params@[i].ty_sig@
        == apply_v(s, r.fn_params@[i].ty_sig@) && r.fn_params@[i].span
        == r.fn_params@[i].span by {
        assert(r.fn_params@[i].ty_sig@ == apply_v(s, d.fn_params@[i].ty_sig@));
        lemma_substitution_idempotent(s, d.fn_params@[i].ty_sig@);
    }
    lemma_subs_idempotent_on_terms(*d.func_block, s, *r.func_block);
}

proof fn lemma_subs_weights_assign_idem(w: TypedWeightsAssign, s: SubstV, r: TypedWeightsAssign)
    requires
        wf_subst(s),
        subs_weights_assign_rel(w, s, r),
    ensures
        subs_weights_assign_rel(r, s, r),
    decreases w,
{
    lemma_substitution_idempotent(s, w.ty@);
    lemma_substitution_idempotent(s, w.fn_ty@);
    assert forall|i: int| 0 <= i < r.fn_args@.len() implies subs_fn_app_arg_rel(
        #[trigger] r.fn_args@[i],
        s,
        r.fn_args@[i],
    ) by {
        assert(subs_fn_app_arg_rel(w.fn_args@[i], s, r.fn_args@[i]));
        lemma_subs_fn_app_arg_idem(w.fn_args@[i], s, r.fn_args@[i]);
    }
}

proof fn lemma_subs_fn_app_idem(f: TypedFnApp, s: SubstV, r: TypedFnApp)
    requires
        wf_subst(s),
        subs_fn_app_rel(f, s, r),
    ensures
        subs_fn_app_rel(r, s, r),
    decreases f,
{
    lemma_substitution_idempotent(s, f.arg_ty@);
    lemma_substitution_idempotent(s, f.ret_ty@);
    assert forall|i: int| 0 <= i < r.args@.len() implies subs_fn_app_arg_rel(
        #[trigger] r.args@[i],
        s,
        r.args@[i],
    ) by {
        assert(subs_fn_app_arg_rel(f.args@[i], s, r.args@[i]));
        lemma_subs_fn_app_arg_idem(f.args@[i], s, r.args@[i]);
    }
}

proof fn lemma_subs_fn_app_arg_idem(a: TypedFnAppArg, s: SubstV, r: TypedFnAppArg)
    requires
        wf_subst(s),
        subs_fn_app_arg_rel(a, s, r),
    ensures
        subs_fn_app_arg_rel(r, s, r),
    decreases a,
{
    lemma_subs_idempotent_on_terms(*a.arg, s, *r.arg);
}

proof fn lemma_subs_field_access_idem(f: TypedFieldAccess, s: SubstV, r: TypedFieldAccess)
    requires
        wf_subst(s),
        subs_field_access_rel(f, s, r),
    ensures
        subs_field_access_rel(r, s, r),
    decreases f,
{
    match (f.func_call, r.func_call) {
        (Some((ty, args)), Some((ty2, args2))) => {
            lemma_substitution_idempotent(s, ty@);
            assert forall|i: int| 0 <= i < args2@.len() implies subs_fn_app_arg_rel(
                #[trigger] args2@[i],
                s,
                args2@[i],
            ) by {
                assert(subs_fn_app_arg_rel(args@[i], s, args2@[i]));
                lemma_subs_fn_app_arg_idem(args@[i], s, args2@[i]);
            }
        },
        _ => {},
    }
}

/// `r` has exactly the shape of `t`: same variants, same names and values,
/// and the same span at every node; only the embedded types may differ.
pub open spec fn same_shape_spans(t: TypedTerm, r: TypedTerm) -> bool
    decreases t,
{
    match (t, r) {
        (TypedTerm::TypedNone, TypedTerm::TypedNone) => true,
        (TypedTerm::TypedProgram(ds), TypedTerm::TypedProgram(ds2)) => ds@.len() == ds2@.len(),
        (TypedTerm::TypedInteger(_, a, sp), TypedTerm::TypedInteger(_, a2, sp2)) => {
            a2 == a && sp2 == sp
        },
        (TypedTerm::TypedFloat(_, a, sp), TypedTerm::TypedFloat(_, a2, sp2)) => {
            a2 == a && sp2 == sp
        },
        (TypedTerm::TypedList(ts), TypedTerm::TypedList(ts2)) => {
            &&& ts@.len() == ts2@.len()
            &&& forall|i: int|
                0 <= i < ts@.len() ==> same_shape_spans(#[trigger] ts@[i], ts2@[i])
        },
        (TypedTerm::TypedIdent(_, n, sp), TypedTerm::TypedIdent(_, n2, sp2)) => {
            n2@ == n@ && sp2 == sp
        },
        (TypedTerm::TypedFieldAccess(f), TypedTerm::TypedFieldAccess(f2)) => {
            (*f2).span == (*f).span
        },
        (TypedTerm::TypedFnApp(f), TypedTerm::TypedFnApp(f2)) => (*f2).span == (*f).span,
        (
            TypedTerm::TypedBlock { stmts, ret, span },
            TypedTerm::TypedBlock { stmts: stmts2, ret: ret2, span: span2 },
        ) => {
            &&& same_shape_spans(*stmts, *stmts2)
            &&& same_shape_spans(*ret, *ret2)
            &&& span2 == span
        },
        (
            TypedTerm::TypedExpr { items, span, .. },
            TypedTerm::TypedExpr { items: items2, span: span2, .. },
        ) => {
            &&& same_shape_spans(*items, *items2)
            &&& span2 == span
        },
        (
            TypedTerm::TypedStmt { items, span },
            TypedTerm::TypedStmt { items: items2, span: span2 },
        ) => {
            &&& same_shape_spans(*items, *items2)
            &&& span2 == span
        },
        (TypedTerm::TypedTuple(_, ts, sp), TypedTerm::TypedTuple(_, ts2, sp2)) => {
            &&& ts@.len() == ts2@.len()
            &&& forall|i: int|
                0 <= i < ts@.len() ==> same_shape_spans(#[trigger] ts@[i], ts2@[i])
            &&& sp2 == sp
        },
        (TypedTerm::TypedPipes(p), TypedTerm::TypedPipes(p2)) => (*p2).span == (*p).span,
        _ => false,
    }
}

/// Substitution preserves spans: every node of the substituted tree sits
/// exactly where, and as what, its original sat.
#[verifier::rlimit(100)]
#[verifier::spinoff_prover]
pub proof fn lemma_subs_preserves_spans(t: TypedTerm, s: SubstV, r: TypedTerm)
    requires
        subs_rel(t, s, r),
    ensures
        same_shape_spans(t, r),
    decreases t,
{
    match (t, r) {
        (TypedTerm::TypedList(ts), TypedTerm::TypedList(ts2)) => {
            assert forall|i: int| 0 <= i < ts@.len() implies same_shape_spans(
                #[trigger] ts@[i],
                ts2@[i],
            ) by {
                assert(subs_rel(ts@[i], s, ts2@[i]));
                lemma_subs_preserves_spans(ts@[i], s, ts2@[i]);
            }
        },
        (TypedTerm::TypedTuple(_, ts, _), TypedTerm::TypedTuple(_, ts2, _)) => {
            assert forall|i: int| 0 <= i < ts@.len() implies same_shape_spans(
                #[trigger] ts@[i],
                ts2@[i],
            ) by {
                assert(subs_rel(ts@[i], s, ts2@[i]));
                lemma_subs_preserves_spans(ts@[i], s, ts2@[i]);
            }
        },
        (
            TypedTerm::TypedBlock { stmts, ret, .. },
            TypedTerm::TypedBlock { stmts: stmts2, ret: ret2, .. },
        ) => {
            lemma_subs_preserves_spans(*stmts, s, *stmts2);
            lemma_subs_preserves_spans(*ret, s, *ret2);
        },
        (
            TypedTerm::TypedExpr { items, .. },
            TypedTerm::TypedExpr { items: items2, .. },
        ) => {
            lemma_subs_preserves_spans(*items, s, *items2);
        },
        (
            TypedTerm::TypedStmt { items, .. },
            TypedTerm::TypedStmt { items: items2, .. },
        ) => {
            lemma_subs_preserves_spans(*items, s, *items2);
        },
        (TypedTerm::TypedFnApp(f), TypedTerm::TypedFnApp(f2)) => {
            assert(subs_fn_app_rel(*f, s, *f2));
            assert((*f2).span == (*f).span);
        },
        (TypedTerm::TypedFieldAccess(f), TypedTerm::TypedFieldAccess(f2)) => {
            assert(subs_field_access_rel(*f, s, *f2));
            assert((*f2).span == (*f).span);
        },
        (TypedTerm::TypedPipes(p), TypedTerm::TypedPipes(p2)) => {
            assert((*p2).span == (*p).span);
        },
        _ => {},
    }
}

} // verus!
