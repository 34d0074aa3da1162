use tensorscript::constraint::{Constraints, Equals};
use tensorscript::errors::{Diag, Emitter};
use tensorscript::span::CSpan;
use tensorscript::substitution::Substitution;
use tensorscript::type_env::TypeEnv;
use tensorscript::types::Type;
use tensorscript::unifier::Unifier;

fn sp(lo: u32, hi: u32) -> CSpan {
    CSpan::new(lo, hi)
}

fn new_unifier() -> Unifier {
    Unifier::new(Emitter::new(), TypeEnv::new(), Vec::new())
}

#[test]
fn int_unifies_with_dimension_literal() {
    // `INT` unifies with `ResolvedDim(n)` for any `n` and yields the
    // empty substitution, with no diagnostics.
    for n in [0u64, 1, 7, 32, 4096] {
        let mut u = new_unifier();
        let mut cs = Constraints::new();
        cs.add(Equals(Type::INT(sp(0, 1)), Type::ResolvedDim(n, sp(2, 3))));
        let s = u.unify(cs);
        assert!(s.is_empty());
        assert_eq!(u.emitter.len(), 0);

        let mut u2 = new_unifier();
        let mut cs2 = Constraints::new();
        cs2.add(Equals(Type::ResolvedDim(n, sp(2, 3)), Type::INT(sp(0, 1))));
        let s2 = u2.unify(cs2);
        assert!(s2.is_empty());
        assert_eq!(u2.emitter.len(), 0);
    }
}

#[test]
fn equal_dimension_literals_unify_silently() {
    let mut u = new_unifier();
    let mut cs = Constraints::new();
    cs.add(Equals(Type::ResolvedDim(32, sp(0, 2)), Type::ResolvedDim(32, sp(3, 5))));
    let s = u.unify(cs);
    assert!(s.is_empty());
    assert_eq!(u.emitter.len(), 0);
}

#[test]
fn unequal_dimension_literals_report_mismatch() {
    let mut u = new_unifier();
    let mut cs = Constraints::new();
    cs.add(Equals(Type::ResolvedDim(10, sp(0, 2)), Type::ResolvedDim(8, sp(3, 5))));
    let s = u.unify(cs);
    assert!(s.is_empty());
    assert_eq!(u.emitter.len(), 1);
    match &u.emitter.diags[0] {
        Diag::DimensionMismatch(Type::ResolvedDim(a, _), Type::ResolvedDim(b, _)) => {
            assert_eq!((*a, *b), (10, 8));
        }
        other => panic!("unexpected diagnostic {:?}", other),
    }
    assert!(!u.emitter.fatal);
}

#[test]
fn tensor_mismatch_is_buffered_and_compatible_dims_still_bind() {
    // TSR([DIM(1), Resolved 10]) vs TSR([Resolved 32, Resolved 8]):
    // the first dimension still binds while the mismatch is buffered.
    let mut u = new_unifier();
    let mut cs = Constraints::new();
    let t1 = Type::TSR(
        vec![Type::DIM(1, sp(0, 1)), Type::ResolvedDim(10, sp(1, 2))],
        sp(0, 2),
    );
    let t2 = Type::TSR(
        vec![Type::ResolvedDim(32, sp(4, 5)), Type::ResolvedDim(8, sp(5, 6))],
        sp(4, 6),
    );
    cs.add(Equals(t1, t2));
    let s = u.unify(cs);
    assert_eq!(u.emitter.len(), 1);
    assert!(matches!(u.emitter.diags[0], Diag::DimensionMismatch(_, _)));
    // the substitution still binds the dimension variable
    let applied = s.apply_ty(&Type::DIM(1, sp(0, 1)));
    assert_eq!(applied, Type::ResolvedDim(32, sp(4, 5)));
}

#[test]
fn rank_mismatch_is_reported() {
    let mut u = new_unifier();
    let mut cs = Constraints::new();
    let t1 = Type::TSR(vec![Type::ResolvedDim(2, sp(0, 1))], sp(0, 1));
    let t2 = Type::TSR(
        vec![Type::ResolvedDim(2, sp(2, 3)), Type::ResolvedDim(3, sp(3, 4))],
        sp(2, 4),
    );
    cs.add(Equals(t1, t2));
    let s = u.unify(cs);
    assert!(s.is_empty());
    assert_eq!(u.emitter.len(), 1);
    assert!(matches!(u.emitter.diags[0], Diag::RankMismatch(_, _)));
}

#[test]
fn circular_binding_is_fatal() {
    // VAR(v) = FUN(_, _, VAR(v), _) fails the occurs check.
    let mut u = new_unifier();
    let mut cs = Constraints::new();
    let fun = Type::FUN(
        String::from("m"),
        String::from("f"),
        Box::new(Type::FnArgs(vec![Type::VAR(1, sp(0, 1))], sp(0, 1))),
        Box::new(Type::Unit(sp(1, 2))),
        sp(0, 2),
    );
    cs.add(Equals(Type::VAR(1, sp(0, 1)), fun));
    let s = u.unify(cs);
    assert!(s.is_empty());
    assert!(u.emitter.fatal);
    assert!(matches!(u.emitter.diags[0], Diag::CircularType(1, _)));
}

#[test]
fn variable_binds_and_substitution_solves() {
    let mut u = new_unifier();
    let mut cs = Constraints::new();
    cs.add(Equals(Type::VAR(0, sp(0, 1)), Type::INT(sp(2, 3))));
    cs.add(Equals(Type::VAR(1, sp(4, 5)), Type::BOOL(sp(6, 7))));
    let s = u.unify(cs);
    assert_eq!(u.emitter.len(), 0);
    assert_eq!(s.apply_ty(&Type::VAR(0, sp(9, 9))), Type::INT(sp(2, 3)));
    assert_eq!(s.apply_ty(&Type::VAR(1, sp(9, 9))), Type::BOOL(sp(6, 7)));
}

#[test]
fn keyword_mismatch_reports_and_continues() {
    // Calling FnArg(a, INT) with FnArg(b, INT): a keyword mismatch is
    // reported and the process continues.
    let mut u = new_unifier();
    let mut cs = Constraints::new();
    let a1 = Type::FnArg(
        Some(String::from("a")),
        Box::new(Type::INT(sp(0, 1))),
        sp(0, 1),
    );
    let a2 = Type::FnArg(
        Some(String::from("b")),
        Box::new(Type::INT(sp(2, 3))),
        sp(2, 3),
    );
    cs.add(Equals(a1, a2));
    let s = u.unify(cs);
    assert!(s.is_empty());
    assert_eq!(u.emitter.len(), 1);
    assert!(matches!(u.emitter.diags[0], Diag::TypeError(_, _)));
    assert!(!u.emitter.fatal);
}

#[test]
fn arity_mismatch_reports_and_unifies_prefix() {
    let mut u = new_unifier();
    let mut cs = Constraints::new();
    let l1 = Type::FnArgs(vec![Type::VAR(0, sp(0, 1)), Type::BOOL(sp(1, 2))], sp(0, 2));
    let l2 = Type::FnArgs(vec![Type::INT(sp(3, 4))], sp(3, 4));
    cs.add(Equals(l1, l2));
    let s = u.unify(cs);
    assert_eq!(u.emitter.len(), 1);
    assert!(matches!(u.emitter.diags[0], Diag::ArityMismatch(2, 1)));
    // the common prefix still unified
    assert_eq!(s.apply_ty(&Type::VAR(0, sp(9, 9))), Type::INT(sp(3, 4)));
}

#[test]
fn function_types_unify_componentwise() {
    // FUN types with matching names unify parameters and returns.
    let mut u = new_unifier();
    let mut cs = Constraints::new();
    let f1 = Type::FUN(
        String::from("mod1"),
        String::from("forward"),
        Box::new(Type::FnArgs(
            vec![Type::FnArg(
                Some(String::from("x")),
                Box::new(Type::VAR(0, sp(0, 1))),
                sp(0, 1),
            )],
            sp(0, 1),
        )),
        Box::new(Type::VAR(1, sp(1, 2))),
        sp(0, 2),
    );
    let f2 = Type::FUN(
        String::from("mod2"),
        String::from("forward"),
        Box::new(Type::FnArgs(
            vec![Type::FnArg(
                Some(String::from("x")),
                Box::new(Type::INT(sp(3, 4))),
                sp(3, 4),
            )],
            sp(3, 4),
        )),
        Box::new(Type::BOOL(sp(4, 5)),),
        sp(3, 5),
    );
    cs.add(Equals(f1, f2));
    let s = u.unify(cs);
    assert_eq!(u.emitter.len(), 0);
    assert_eq!(s.apply_ty(&Type::VAR(0, sp(9, 9))), Type::INT(sp(3, 4)));
    assert_eq!(s.apply_ty(&Type::VAR(1, sp(9, 9))), Type::BOOL(sp(4, 5)));
}

#[test]
fn forward_signatures_unify_silently_and_specialise_shapes() {
    // a call site's synthesised signature against a registered one:
    // FUN("", "forward", [x: TSR(DIM 1, 3)], VAR 7)
    // FUN("Linear", "forward", [x: TSR(DIM 2, 3)], TSR(DIM 2, 5))
    // unifies with no diagnostic; the return variable takes the shaped
    // tensor and the two batch dimensions are identified.
    let mut u = new_unifier();
    let mut cs = Constraints::new();
    let call_site = Type::FUN(
        String::new(),
        String::from("forward"),
        Box::new(Type::FnArgs(
            vec![Type::FnArg(
                Some(String::from("x")),
                Box::new(Type::TSR(
                    vec![Type::DIM(1, sp(0, 1)), Type::ResolvedDim(3, sp(1, 2))],
                    sp(0, 2),
                )),
                sp(0, 2),
            )],
            sp(0, 2),
        )),
        Box::new(Type::VAR(7, sp(3, 4))),
        sp(0, 4),
    );
    let registered = Type::FUN(
        String::from("Linear"),
        String::from("forward"),
        Box::new(Type::FnArgs(
            vec![Type::FnArg(
                Some(String::from("x")),
                Box::new(Type::TSR(
                    vec![Type::DIM(2, sp(5, 6)), Type::ResolvedDim(3, sp(6, 7))],
                    sp(5, 7),
                )),
                sp(5, 7),
            )],
            sp(5, 7),
        )),
        Box::new(Type::TSR(
            vec![Type::DIM(2, sp(8, 9)), Type::ResolvedDim(5, sp(9, 10))],
            sp(8, 10),
        )),
        sp(5, 10),
    );
    cs.add(Equals(call_site, registered));
    let s = u.unify(cs);
    assert_eq!(u.emitter.len(), 0);
    assert!(!u.emitter.fatal);
    assert_eq!(
        s.apply_ty(&Type::VAR(7, sp(0, 0))),
        Type::TSR(
            vec![Type::DIM(2, sp(8, 9)), Type::ResolvedDim(5, sp(9, 10))],
            sp(8, 10),
        )
    );
    assert_eq!(s.apply_ty(&Type::DIM(1, sp(0, 0))), Type::DIM(2, sp(5, 6)));
}

#[test]
fn unresolved_module_fun_binds_like_a_variable() {
    let mut u = new_unifier();
    let mut cs = Constraints::new();
    let marker = Type::UnresolvedModuleFun(
        String::from("Conv2d"),
        String::from("forward"),
        7,
        sp(0, 3),
    );
    cs.add(Equals(marker, Type::INT(sp(4, 5))));
    let s = u.unify(cs);
    assert_eq!(u.emitter.len(), 0);
    let probe = Type::UnresolvedModuleFun(
        String::from("Conv2d"),
        String::from("forward"),
        7,
        sp(8, 9),
    );
    assert_eq!(s.apply_ty(&probe), Type::INT(sp(4, 5)));
}

#[test]
fn a_marker_equated_with_itself_is_already_solved() {
    let mut u = new_unifier();
    let mut cs = Constraints::new();
    let m1 = Type::UnresolvedModuleFun(
        String::from("Conv2d"),
        String::from("forward"),
        7,
        sp(0, 3),
    );
    let m2 = Type::UnresolvedModuleFun(
        String::from("Conv2d"),
        String::from("forward"),
        7,
        sp(5, 8),
    );
    let s = u.unify({
        cs.add(Equals(m1, m2));
        cs
    });
    assert!(s.is_empty());
    assert_eq!(u.emitter.len(), 0);
    assert!(!u.emitter.fatal);
}

#[test]
fn substitution_application_is_idempotent_at_runtime() {
    let mut u = new_unifier();
    let mut cs = Constraints::new();
    cs.add(Equals(Type::VAR(0, sp(0, 1)), Type::VAR(1, sp(2, 3))));
    cs.add(Equals(Type::VAR(1, sp(2, 3)), Type::INT(sp(4, 5))));
    let s = u.unify(cs);
    let t = Type::Tuple(vec![Type::VAR(0, sp(0, 1)), Type::VAR(1, sp(2, 3))], sp(0, 3));
    let once = s.apply_ty(&t);
    let twice = s.apply_ty(&once);
    assert_eq!(once, twice);
}

#[test]
fn pipeline_is_deterministic() {
    // Running the same unification twice produces byte-identical
    // substitutions and diagnostic streams.
    let run = || {
        let mut u = new_unifier();
        let mut cs = Constraints::new();
        let t1 = Type::TSR(
            vec![Type::DIM(1, sp(0, 1)), Type::ResolvedDim(10, sp(1, 2))],
            sp(0, 2),
        );
        let t2 = Type::TSR(
            vec![Type::ResolvedDim(32, sp(4, 5)), Type::ResolvedDim(8, sp(5, 6))],
            sp(4, 6),
        );
        cs.add(Equals(t1, t2));
        cs.add(Equals(Type::VAR(2, sp(7, 8)), Type::BOOL(sp(8, 9))));
        let s = u.unify(cs);
        (format!("{:?}", s), format!("{:?}", u.emitter.diags))
    };
    let (s1, d1) = run();
    let (s2, d2) = run();
    assert_eq!(s1, s2);
    assert_eq!(d1, d2);
}

#[test]
fn constraints_are_an_ordered_set() {
    // a constraint the unifier cannot tell from one already present is
    // kept once, so a repeated mismatch is reported once
    let mut cs = Constraints::new();
    cs.add(Equals(Type::ResolvedDim(10, sp(0, 2)), Type::ResolvedDim(8, sp(3, 5))));
    cs.add(Equals(Type::ResolvedDim(10, sp(7, 9)), Type::ResolvedDim(8, sp(9, 11))));
    cs.add(Equals(Type::VAR(0, sp(0, 1)), Type::INT(sp(2, 3))));
    assert_eq!(cs.len(), 2);
    let mut u = new_unifier();
    let s = u.unify(cs);
    assert_eq!(u.emitter.len(), 1);
    assert_eq!(s.apply_ty(&Type::VAR(0, sp(9, 9))), Type::INT(sp(2, 3)));
}

#[test]
fn mismatches_are_buffered_and_later_constraints_still_solve() {
    // several errors surface in one pass: the dimension mismatch is
    // buffered and the bindings after it are still made
    let mut u = new_unifier();
    let mut cs = Constraints::new();
    cs.add(Equals(Type::ResolvedDim(10, sp(0, 2)), Type::ResolvedDim(8, sp(3, 5))));
    cs.add(Equals(Type::VAR(3, sp(6, 7)), Type::BOOL(sp(8, 9))));
    cs.add(Equals(Type::FnArgs(vec![Type::VAR(4, sp(10, 11))], sp(10, 11)),
        Type::FnArgs(vec![Type::INT(sp(12, 13))], sp(12, 13))));
    let s = u.unify(cs);
    assert_eq!(u.emitter.len(), 1);
    assert!(!u.emitter.fatal);
    assert_eq!(s.apply_ty(&Type::VAR(3, sp(9, 9))), Type::BOOL(sp(8, 9)));
    assert_eq!(s.apply_ty(&Type::VAR(4, sp(9, 9))), Type::INT(sp(12, 13)));
}

#[test]
fn compose_applies_later_bindings_to_earlier_codomains() {
    let s0 = Substitution::single(Type::VAR(0, sp(0, 1)), Type::VAR(1, sp(2, 3)));
    let s1 = Substitution::single(Type::VAR(1, sp(2, 3)), Type::INT(sp(4, 5)));
    let s = s0.compose(s1);
    assert_eq!(s.apply_ty(&Type::VAR(0, sp(9, 9))), Type::INT(sp(4, 5)));
    assert_eq!(s.apply_ty(&Type::VAR(1, sp(9, 9))), Type::INT(sp(4, 5)));
}

#[test]
fn module_registry_instantiates_fresh_copies() {
    let mut env = TypeEnv::new();
    // a shape-polymorphic template over DIM(0) and VAR(1), registered
    // with its ids below 2
    let template = Type::FUN(
        String::from("Linear"),
        String::from("forward"),
        Box::new(Type::FnArgs(
            vec![Type::FnArg(
                Some(String::from("x")),
                Box::new(Type::TSR(vec![Type::DIM(0, sp(0, 0))], sp(0, 0))),
                sp(0, 0),
            )],
            sp(0, 0),
        )),
        Box::new(Type::VAR(1, sp(0, 0))),
        sp(0, 0),
    );
    env.register_module_fun(String::from("Linear"), String::from("forward"), template);
    // burn a few ids so the instantiation is visibly fresh
    let _ = env.fresh_var();
    let _ = env.fresh_var();
    let first = env
        .resolve_module_fun(&String::from("Linear"), &String::from("forward"), 2)
        .unwrap();
    let second = env
        .resolve_module_fun(&String::from("Linear"), &String::from("forward"), 2)
        .unwrap();
    // both instantiations are the template with its variables renamed,
    // and the two copies are independent
    match (&first, &second) {
        (Type::FUN(_, _, _, r1, _), Type::FUN(_, _, _, r2, _)) => {
            assert_eq!(**r1, Type::VAR(3, sp(0, 0)));
            assert_eq!(**r2, Type::VAR(5, sp(0, 0)));
        }
        other => panic!("unexpected {:?}", other),
    }
    assert!(env
        .resolve_module_fun(&String::from("Conv2d"), &String::from("forward"), 2)
        .is_none());
}

#[test]
fn fresh_variables_are_monotone_and_scopes_nest() {
    let mut env = TypeEnv::new();
    let v0 = env.fresh_var();
    let v1 = env.fresh_dim();
    let v2 = env.fresh_var();
    assert_eq!(v0, Type::VAR(0, sp(0, 0)));
    assert_eq!(v1, Type::DIM(1, sp(0, 0)));
    assert_eq!(v2, Type::VAR(2, sp(0, 0)));

    env.add_binding(String::from("x"), Type::INT(sp(0, 1)));
    env.push_scope();
    env.add_binding(String::from("x"), Type::BOOL(sp(2, 3)));
    assert_eq!(env.resolve_binding(&String::from("x")), Some(Type::BOOL(sp(2, 3))));
    env.pop_scope();
    assert_eq!(env.resolve_binding(&String::from("x")), Some(Type::INT(sp(0, 1))));
    assert_eq!(env.resolve_binding(&String::from("y")), None);
}
