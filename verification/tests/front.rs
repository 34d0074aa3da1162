use tensorscript::ast::AST;
use tensorscript::builder::{consume, parse_str};
use tensorscript::inferred_ast::subs;
use tensorscript::parse_tree::{LitVal, ParseNode, Rule};
use tensorscript::span::CSpan;
use tensorscript::substitution::Substitution;
use tensorscript::typed_term::{Typed, TypedFnApp, TypedTerm};
use tensorscript::types::Type;

fn sp(lo: u32, hi: u32) -> CSpan {
    CSpan::new(lo, hi)
}

fn leaf(rule: Rule, text: &str) -> ParseNode {
    ParseNode { rule, text: text.to_string(), value: LitVal::Absent, children: vec![] }
}

fn node(rule: Rule, children: Vec<ParseNode>) -> ParseNode {
    ParseNode { rule, text: String::new(), value: LitVal::Absent, children }
}

fn int_lit(v: i64) -> ParseNode {
    ParseNode {
        rule: Rule::int_lit,
        text: v.to_string(),
        value: LitVal::Absent,
        children: vec![],
    }
}

#[test]
fn literals_build_from_their_lexed_values() {
    assert_eq!(consume(&int_lit(42)).unwrap(), AST::Integer(42));
    let f = ParseNode {
        rule: Rule::float_lit,
        text: "1.5".to_string(),
        value: LitVal::Float(1.5f64.to_bits()),
        children: vec![],
    };
    assert_eq!(consume(&f).unwrap(), AST::Float(1.5f64.to_bits()));
    // integers are read from the text, sign and bounds included
    assert_eq!(consume(&int_lit(-42)).unwrap(), AST::Integer(-42));
    assert_eq!(
        consume(&leaf(Rule::int_lit, "9223372036854775807")).unwrap(),
        AST::Integer(i64::MAX)
    );
    assert_eq!(
        consume(&leaf(Rule::int_lit, "-9223372036854775808")).unwrap(),
        AST::Integer(i64::MIN)
    );
    assert!(consume(&leaf(Rule::int_lit, "9223372036854775808")).is_err());
    assert!(consume(&leaf(Rule::int_lit, "zzz")).is_err());
    assert!(consume(&leaf(Rule::int_lit, "")).is_err());
    assert!(consume(&leaf(Rule::int_lit, "-")).is_err());
}

#[test]
fn use_stmt_builds_with_single_and_listed_imports() {
    let single = node(
        Rule::use_stmt,
        vec![leaf(Rule::use_lit, "use"), leaf(Rule::ident, "conv"), leaf(Rule::ident, "Conv2d")],
    );
    assert_eq!(
        consume(&single).unwrap(),
        AST::UseStmt {
            mod_name: "conv".to_string(),
            imported_names: vec!["Conv2d".to_string()],
        }
    );

    let listed = node(
        Rule::use_stmt,
        vec![
            leaf(Rule::use_lit, "use"),
            leaf(Rule::ident, "nn"),
            node(
                Rule::ident_list,
                vec![leaf(Rule::ident, "Linear"), leaf(Rule::ident, "relu")],
            ),
        ],
    );
    assert_eq!(
        consume(&listed).unwrap(),
        AST::UseStmt {
            mod_name: "nn".to_string(),
            imported_names: vec!["Linear".to_string(), "relu".to_string()],
        }
    );
}

fn fn_call_node(name: &str, args: Vec<ParseNode>) -> ParseNode {
    if args.is_empty() {
        node(Rule::fn_call, vec![leaf(Rule::ident, name)])
    } else {
        node(
            Rule::fn_call,
            vec![leaf(Rule::ident, name), node(Rule::fn_call_args, args)],
        )
    }
}

#[test]
fn pipes_linearise_into_nested_applications() {
    // x |> f |> g(k=v)  becomes  g(k=v, x=f(x=x))
    let g_call = fn_call_node(
        "g",
        vec![node(
            Rule::fn_call_arg,
            vec![leaf(Rule::ident, "k"), node(Rule::expr, vec![int_lit(5)])],
        )],
    );
    // the parser nests: pipes { ident x, expr { pipes { ident f, expr { fn_call g } } } }
    let pipe = node(
        Rule::pipes,
        vec![
            leaf(Rule::ident, "x"),
            node(
                Rule::expr,
                vec![node(
                    Rule::pipes,
                    vec![leaf(Rule::ident, "f"), node(Rule::expr, vec![g_call])],
                )],
            ),
        ],
    );
    let built = consume(&pipe).unwrap();
    match built {
        AST::FnCall { name, args } => {
            assert_eq!(name, "g");
            match *args {
                AST::List(items) => {
                    assert_eq!(items.len(), 2);
                    // the piped value comes after the written arguments
                    match &items[1] {
                        AST::FnCallArg { name, arg } => {
                            assert_eq!(name, "x");
                            match &**arg {
                                AST::FnCall { name: fname, args: fargs } => {
                                    assert_eq!(fname, "f");
                                    match &**fargs {
                                        AST::List(inner) => {
                                            assert_eq!(inner.len(), 1);
                                            match &inner[0] {
                                                AST::FnCallArg { name, arg } => {
                                                    assert_eq!(name, "x");
                                                    assert_eq!(
                                                        **arg,
                                                        AST::Ident("x".to_string())
                                                    );
                                                }
                                                other => panic!("unexpected {:?}", other),
                                            }
                                        }
                                        other => panic!("unexpected {:?}", other),
                                    }
                                }
                                other => panic!("unexpected {:?}", other),
                            }
                        }
                        other => panic!("unexpected {:?}", other),
                    }
                }
                other => panic!("unexpected {:?}", other),
            }
        }
        other => panic!("unexpected {:?}", other),
    }
}

#[test]
fn block_without_dangling_expression_returns_empty() {
    let b = node(Rule::block, vec![node(Rule::stmts, vec![])]);
    assert_eq!(
        consume(&b).unwrap(),
        AST::Block { stmts: Box::new(AST::List(vec![])), ret: Box::new(AST::Empty) }
    );
}

#[test]
fn node_decl_builds_head_and_body() {
    let head = node(
        Rule::node_decl_head,
        vec![
            leaf(Rule::cap_ident, "Mnist"),
            node(
                Rule::fn_type_sig,
                vec![
                    node(Rule::type_ident_list, vec![leaf(Rule::ident, "?"), leaf(Rule::ident, "h")]),
                    node(Rule::type_ident_list, vec![leaf(Rule::ident, "?"), leaf(Rule::ident, "o")]),
                ],
            ),
        ],
    );
    let decl = node(Rule::node_decl, vec![head, node(Rule::node_decl_body, vec![])]);
    assert_eq!(
        consume(&decl).unwrap(),
        AST::NodeDecl {
            name: "Mnist".to_string(),
            type_sig: Box::new(AST::FnTypeSig(
                vec!["?".to_string(), "h".to_string()],
                vec!["?".to_string(), "o".to_string()],
            )),
            initialization: Box::new(AST::List(vec![])),
        }
    );
}

#[test]
fn parse_str_collects_top_level_declarations() {
    let tops = vec![int_lit(1), int_lit(2)];
    assert_eq!(
        parse_str(&tops).unwrap(),
        AST::List(vec![AST::Integer(1), AST::Integer(2)])
    );
    let bad = vec![int_lit(1), leaf(Rule::int_lit, "bad")];
    assert!(parse_str(&bad).is_err());
}

#[test]
fn substitution_rewrites_types_and_keeps_spans() {
    let s0 = Substitution::single(Type::VAR(0, sp(0, 0)), Type::INT(sp(4, 5)));
    let term = TypedTerm::TypedExpr {
        items: Box::new(TypedTerm::TypedInteger(Type::VAR(0, sp(1, 2)), 3, sp(1, 2))),
        ty: Type::VAR(0, sp(1, 2)),
        span: sp(1, 2),
    };
    let mut s = s0;
    let out = subs(&term, &mut s);
    match out {
        TypedTerm::TypedExpr { items, ty, span } => {
            assert_eq!(ty, Type::INT(sp(4, 5)));
            assert_eq!(span, sp(1, 2));
            match *items {
                TypedTerm::TypedInteger(t, v, isp) => {
                    assert_eq!(t, Type::INT(sp(4, 5)));
                    assert_eq!(v, 3);
                    assert_eq!(isp, sp(1, 2));
                }
                other => panic!("unexpected {:?}", other),
            }
        }
        other => panic!("unexpected {:?}", other),
    }
}

#[test]
fn with_span_replaces_only_the_root_span() {
    let t = Type::TSR(
        vec![Type::ResolvedDim(2, sp(1, 2)), Type::DIM(0, sp(3, 4))],
        sp(0, 5),
    );
    let moved = t.with_span(&sp(7, 9));
    assert_eq!(
        moved,
        Type::TSR(
            vec![Type::ResolvedDim(2, sp(1, 2)), Type::DIM(0, sp(3, 4))],
            sp(7, 9),
        )
    );
    assert_eq!(moved.span(), sp(7, 9));
    assert_eq!(moved.as_rank(), 2);
    assert_eq!(Type::ResolvedDim(5, sp(0, 1)).as_num(), 5);
}

#[test]
fn typed_terms_expose_their_types() {
    let app = TypedFnApp {
        name: "forward".to_string(),
        mod_name: Some("Conv2d".to_string()),
        arg_ty: Type::FnArgs(vec![], sp(0, 1)),
        ret_ty: Type::BOOL(sp(2, 3)),
        args: vec![],
        span: sp(0, 3),
    };
    assert_eq!(app.ty(), Type::BOOL(sp(2, 3)));
    let term = TypedTerm::TypedFnApp(Box::new(app));
    assert_eq!(term.ty(), Type::BOOL(sp(2, 3)));
    assert_eq!(TypedTerm::TypedNone.ty(), Type::Unit(sp(0, 0)));
    let ident = TypedTerm::TypedIdent(Type::INT(sp(1, 2)), "x".to_string(), sp(1, 2));
    assert_eq!(ident.ty(), Type::INT(sp(1, 2)));
}
