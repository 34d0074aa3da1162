//! Building the surface AST from a parse tree.
//!
//! Each `build_*` function reads one kind of node; [`consume`] dispatches
//! on the rule.  The specification relations [`ok_rel`] and [`err_rel`] say
//! exactly which tree shapes build which AST nodes and which are rejected.
//! Pipe chains are linearised into nested applications, the piped value
//! passed as the argument named `x`.

use vstd::prelude::*;

use crate::ast::AST;
use crate::parse_tree::{lex_int, parse_int_text, LitVal, ParseNode, Rule};

verus! {

/// A parse failure: the tree did not have the shape the grammar promises.
#[derive(Debug)]
pub struct TSSParseError {
    pub msg: String,
}

/// The texts of a run of nodes, in order.
pub open spec fn texts_of(ns: Seq<ParseNode>, out: Seq<String>) -> bool {
    &&& out.len() == ns.len()
    &&& forall|i: int| 0 <= i < ns.len() ==> (#[trigger] out[i])@ == ns[i].text@
}

/// Every child built, in order.
pub open spec fn list_ok(ns: Seq<ParseNode>, vs: Seq<AST>) -> bool
    decreases ns, 0int, 0int,
{
    &&& vs.len() == ns.len()
    &&& forall|i: int| 0 <= i < ns.len() ==> ok_rel(#[trigger] ns[i], vs[i])
}

/// Some child cannot be built.
pub open spec fn list_err(ns: Seq<ParseNode>) -> bool
    decreases ns, 0int, 0int,
{
    exists|i: int| 0 <= i < ns.len() && err_rel(#[trigger] ns[i])
}

/// One stage of a pipe chain: an identifier, a call, or a field access.
pub open spec fn stage_ok(c: ParseNode, a: AST) -> bool
    decreases c, 3int, 1int,
{
    if c.rule == Rule::fn_call || c.rule == Rule::field_access {
        ok_rel(c, a)
    } else if c.rule == Rule::ident {
        a matches AST::Ident(nm) && nm@ == c.text@
    } else {
        false
    }
}

pub open spec fn stage_err(c: ParseNode) -> bool
    decreases c, 3int, 1int,
{
    if c.rule == Rule::fn_call || c.rule == Rule::field_access {
        err_rel(c)
    } else {
        c.rule != Rule::ident
    }
}

/// The stages a pipe node contributes from its `i`-th sub-node on: the
/// parser walks the sub-nodes, descending into a nested pipe wrapped in an
/// expression and stopping there.
pub open spec fn collected(n: ParseNode, i: int, rest: Seq<AST>) -> bool
    decreases n, 2int, n.children@.len() - i,
{
    if i < 0 || i >= n.children@.len() {
        rest.len() == 0
    } else {
        let c = n.children@[i];
        if c.rule == Rule::expr {
            if c.children@.len() == 0 {
                rest.len() == 0
            } else if c.children@[0].rule == Rule::pipes {
                collected(c.children@[0], 0, rest)
            } else {
                rest.len() >= 1 && stage_ok(c.children@[0], rest[0]) && collected(
                    n,
                    i + 1,
                    rest.drop_first(),
                )
            }
        } else {
            rest.len() >= 1 && stage_ok(c, rest[0]) && collected(n, i + 1, rest.drop_first())
        }
    }
}

/// Collecting the stages from the `i`-th sub-node on fails.
pub open spec fn collected_err(n: ParseNode, i: int) -> bool
    decreases n, 2int, n.children@.len() - i,
{
    if i < 0 || i >= n.children@.len() {
        false
    } else {
        let c = n.children@[i];
        if c.rule == Rule::expr {
            if c.children@.len() == 0 {
                false
            } else if c.children@[0].rule == Rule::pipes {
                collected_err(c.children@[0], 0)
            } else {
                stage_err(c.children@[0]) || collected_err(n, i + 1)
            }
        } else {
            stage_err(c) || collected_err(n, i + 1)
        }
    }
}

/// One fold step of the pipe linearisation: the accumulated application is
/// passed to the next stage as its argument named `x`.
pub open spec fn pipe_step(stage: AST, acc: AST, mid: AST) -> bool {
    match stage {
        AST::Ident(nm) => {
            &&& mid matches AST::FnCall { name, args }
            &&& name@ == nm@
            &&& (*args) matches AST::List(items)
            &&& items@.len() == 1
            &&& items@[0] matches AST::FnCallArg { name: xn, arg } && xn@ == "x"@ && *arg == acc
        },
        AST::FnCall { name: nm, args: old_args } => {
            &&& mid matches AST::FnCall { name, args }
            &&& name@ == nm@
            &&& (*old_args) matches AST::List(old_items)
            &&& (*args) matches AST::List(items)
            &&& items@.len() == old_items@.len() + 1
            &&& forall|i: int| 0 <= i < old_items@.len() ==> items@[i] == old_items@[i]
            &&& items@.last() matches AST::FnCallArg { name: xn, arg } && xn@ == "x"@ && *arg
                == acc
        },
        _ => false,
    }
}

/// A fold step is possible only for identifier and call stages with a
/// list-shaped argument list.
pub open spec fn pipe_step_err(stage: AST) -> bool {
    match stage {
        AST::Ident(_) => false,
        AST::FnCall { args, .. } => !((*args) is List),
        _ => true,
    }
}

/// Folding the remaining stages over the accumulated application.
pub open spec fn pipe_fold(stages: Seq<AST>, acc: AST, out: AST) -> bool
    decreases stages.len(),
{
    if stages.len() == 0 {
        out == acc
    } else {
        exists|mid: AST|
            #[trigger] pipe_step(stages[0], acc, mid) && pipe_fold(stages.drop_first(), mid, out)
    }
}

pub open spec fn pipe_fold_err(stages: Seq<AST>, acc: AST) -> bool
    decreases stages.len(),
{
    if stages.len() == 0 {
        false
    } else {
        pipe_step_err(stages[0]) || exists|mid: AST|
            #[trigger] pipe_step(stages[0], acc, mid) && pipe_fold_err(
                stages.drop_first(),
                mid,
            )
    }
}

/// The node builds the given AST.
pub open spec fn ok_rel(n: ParseNode, a: AST) -> bool
    decreases n, 3int, 0int,
{
    let c = n.children@;
    match n.rule {
        Rule::int_lit => lex_int(n.text@) matches Some(v) && a == AST::Integer(v),
        Rule::float_lit => n.value matches LitVal::Float(v) && a == AST::Float(v),
        Rule::expr => {
            &&& a matches AST::Expr { items }
            &&& (*items) matches AST::List(vs)
            &&& list_ok(c, vs@)
        },
        Rule::stmt => {
            &&& a matches AST::Stmt { items }
            &&& (*items) matches AST::List(vs)
            &&& list_ok(c, vs@)
        },
        Rule::stmts | Rule::fn_decls | Rule::fn_decl_param | Rule::fn_decl_args
            | Rule::fn_call_args | Rule::weights_decl_body | Rule::node_decl_body => {
            a matches AST::List(vs) && list_ok(c, vs@)
        },
        Rule::block => {
            &&& a matches AST::Block { stmts, ret }
            &&& c.len() >= 1 && c[0].rule == Rule::stmts
            &&& ok_rel(c[0], *stmts)
            &&& if c.len() >= 2 && c[1].rule == Rule::expr {
                ok_rel(c[1], *ret)
            } else {
                *ret == AST::Empty
            }
        },
        Rule::fn_call_param => {
            if c.len() >= 1 && c[0].rule == Rule::fn_call_args {
                ok_rel(c[0], a)
            } else {
                a matches AST::List(vs) && vs@.len() == 0
            }
        },
        Rule::field_access => {
            &&& c.len() >= 2 && c[0].rule == Rule::ident && c[1].rule == Rule::ident
            &&& a matches AST::FieldAccess { var_name, field_name, func_call }
            &&& var_name@ == c[0].text@
            &&& field_name@ == c[1].text@
            &&& if c.len() >= 3 && c[2].rule == Rule::fn_call_param {
                ok_rel(c[2], *func_call)
            } else {
                *func_call == AST::Empty
            }
        },
        Rule::fn_decl => {
            &&& c.len() >= 2 && c[0].rule == Rule::fn_decl_head && c[1].rule == Rule::block
            &&& c[0].children@.len() >= 2
            &&& c[0].children@[0].rule == Rule::ident
            &&& c[0].children@[1].rule == Rule::fn_decl_sig
            &&& c[0].children@[1].children@.len() >= 1
            &&& c[0].children@[1].children@[0].rule == Rule::fn_decl_param
            &&& a matches AST::FnDecl { name, fn_params, return_type, func_block }
            &&& name@ == c[0].children@[0].text@
            &&& ok_rel(c[0].children@[1].children@[0], *fn_params)
            &&& {
                let sig = c[0].children@[1].children@;
                if sig.len() >= 2 && sig[1].rule == Rule::type_sig {
                    texts_of(sig[1].children@, return_type@)
                } else {
                    return_type@.len() == 0
                }
            }
            &&& ok_rel(c[1], *func_block)
        },
        Rule::fn_decl_arg => {
            &&& c.len() >= 1 && c[0].rule == Rule::ident
            &&& a matches AST::FnDeclArg { name, type_sig }
            &&& name@ == c[0].text@
            &&& if c.len() >= 2 && c[1].rule == Rule::type_sig {
                texts_of(c[1].children@, type_sig@)
            } else {
                type_sig@.len() == 0
            }
        },
        Rule::fn_call => {
            &&& c.len() >= 1 && c[0].rule == Rule::ident
            &&& a matches AST::FnCall { name, args }
            &&& name@ == c[0].text@
            &&& if c.len() >= 2 {
                ok_rel(c[1], *args)
            } else {
                (*args) matches AST::List(vs) && vs@.len() == 0
            }
        },
        Rule::fn_call_arg => {
            &&& c.len() >= 2 && c[0].rule == Rule::ident && c[1].rule == Rule::expr
            &&& a matches AST::FnCallArg { name, arg }
            &&& name@ == c[0].text@
            &&& ok_rel(c[1], *arg)
        },
        Rule::weights_decl => {
            &&& c.len() >= 2 && c[0].rule == Rule::weights_decl_head && c[1].rule
                == Rule::weights_decl_body
            &&& c[0].children@.len() >= 2
            &&& c[0].children@[0].rule == Rule::cap_ident
            &&& c[0].children@[1].rule == Rule::fn_type_sig
            &&& a matches AST::WeightsDecl { name, type_sig, initialization }
            &&& name@ == c[0].children@[0].text@
            &&& ok_rel(c[0].children@[1], *type_sig)
            &&& ok_rel(c[1], *initialization)
        },
        Rule::weights_assign => {
            &&& c.len() >= 5
            &&& c[0].rule == Rule::ident
            &&& c[1].rule == Rule::op_assign
            &&& c[2].rule == Rule::cap_ident
            &&& c[3].rule == Rule::fn_type_sig
            &&& c[4].rule == Rule::fn_call
            &&& a matches AST::WeightsAssign { name, mod_name, mod_sig, func }
            &&& name@ == c[0].text@
            &&& mod_name@ == c[2].text@
            &&& ok_rel(c[3], *mod_sig)
            &&& ok_rel(c[4], *func)
        },
        Rule::graph_decl => {
            &&& c.len() >= 2 && c[0].rule == Rule::graph_decl_head && c[1].rule
                == Rule::graph_decl_body
            &&& c[0].children@.len() >= 2
            &&& c[0].children@[0].rule == Rule::cap_ident
            &&& c[0].children@[1].rule == Rule::fn_type_sig
            &&& a matches AST::GraphDecl { name, type_sig, fns }
            &&& name@ == c[0].children@[0].text@
            &&& ok_rel(c[0].children@[1], *type_sig)
            &&& ok_rel(c[1], *fns)
        },
        Rule::graph_decl_body => {
            &&& c.len() >= 1 && c[0].rule == Rule::fn_decls
            &&& a matches AST::List(vs)
            &&& list_ok(c[0].children@, vs@)
        },
        Rule::node_decl => {
            &&& c.len() >= 2 && c[0].rule == Rule::node_decl_head && c[1].rule
                == Rule::node_decl_body
            &&& c[0].children@.len() >= 2
            &&& c[0].children@[0].rule == Rule::cap_ident
            &&& c[0].children@[1].rule == Rule::fn_type_sig
            &&& a matches AST::NodeDecl { name, type_sig, initialization }
            &&& name@ == c[0].children@[0].text@
            &&& ok_rel(c[0].children@[1], *type_sig)
            &&& ok_rel(c[1], *initialization)
        },
        Rule::node_macro_assign => {
            &&& c.len() >= 3
            &&& c[0].rule == Rule::upper_ident
            &&& c[1].rule == Rule::op_assign
            &&& (c[2].rule == Rule::int_lit || c[2].rule == Rule::float_lit)
            &&& a matches AST::MacroAssign(name, lit)
            &&& name@ == c[0].text@
            &&& ok_rel(c[2], *lit)
        },
        Rule::fn_type_sig => {
            &&& c.len() >= 2 && c[0].rule == Rule::type_ident_list && c[1].rule
                == Rule::type_ident_list
            &&& a matches AST::FnTypeSig(from, to)
            &&& texts_of(c[0].children@, from@)
            &&& texts_of(c[1].children@, to@)
        },
        Rule::use_stmt => {
            &&& c.len() >= 3 && c[0].rule == Rule::use_lit && c[1].rule == Rule::ident
            &&& a matches AST::UseStmt { mod_name, imported_names }
            &&& mod_name@ == c[1].text@
            &&& if c[2].rule == Rule::ident_list {
                texts_of(c[2].children@, imported_names@)
            } else {
                c[2].rule == Rule::ident && imported_names@.len() == 1
                    && imported_names@[0]@ == c[2].text@
            }
        },
        Rule::pipes => pipes_ok(n, a),
        _ => false,
    }
}

/// A pipe node builds `a` when its collected stages fold to it.
pub open spec fn pipes_ok(n: ParseNode, a: AST) -> bool
    decreases n, 2int, n.children@.len() + 1,
{
    exists|stages: Seq<AST>|
        #![trigger stages.drop_first()]
        collected(n, 0, stages) && stages.len() >= 1 && pipe_fold(
            stages.drop_first(),
            stages[0],
            a,
        )
}

/// A pipe node fails when collecting its stages fails, when it has none,
/// or when a stage cannot be piped into.
pub open spec fn pipes_err(n: ParseNode) -> bool
    decreases n, 2int, n.children@.len() + 1,
{
    collected_err(n, 0) || exists|stages: Seq<AST>|
        #![trigger stages.drop_first()]
        collected(n, 0, stages) && (stages.len() == 0 || pipe_fold_err(
            stages.drop_first(),
            stages[0],
        ))
}

/// The node cannot be built; the builder reports a parse error.
pub open spec fn err_rel(n: ParseNode) -> bool
    decreases n, 3int, 0int,
{
    let c = n.children@;
    match n.rule {
        Rule::int_lit => lex_int(n.text@) is None,
        Rule::float_lit => !(n.value is Float),
        Rule::expr | Rule::stmt | Rule::stmts | Rule::fn_decls | Rule::fn_decl_param
            | Rule::fn_decl_args | Rule::fn_call_args | Rule::weights_decl_body
            | Rule::node_decl_body => list_err(c),
        Rule::block => {
            ||| c.len() < 1
            ||| c[0].rule != Rule::stmts
            ||| (c.len() >= 1 && c[0].rule == Rule::stmts && err_rel(c[0]))
            ||| (c.len() >= 2 && c[1].rule == Rule::expr && err_rel(c[1]))
        },
        Rule::fn_call_param => c.len() >= 1 && c[0].rule == Rule::fn_call_args && err_rel(c[0]),
        Rule::field_access => {
            ||| c.len() < 2
            ||| (c.len() >= 2 && (c[0].rule != Rule::ident || c[1].rule != Rule::ident))
            ||| (c.len() >= 3 && c[2].rule == Rule::fn_call_param && err_rel(c[2]))
        },
        Rule::fn_decl => {
            ||| c.len() < 2
            ||| c[0].rule != Rule::fn_decl_head
            ||| (c.len() >= 2 && c[0].rule == Rule::fn_decl_head && {
                let h = c[0].children@;
                ||| h.len() < 2
                ||| h[0].rule != Rule::ident
                ||| h[1].rule != Rule::fn_decl_sig
                ||| (h.len() >= 2 && h[1].rule == Rule::fn_decl_sig && {
                    let sig = h[1].children@;
                    ||| sig.len() < 1
                    ||| sig[0].rule != Rule::fn_decl_param
                    ||| (sig.len() >= 1 && sig[0].rule == Rule::fn_decl_param && err_rel(
                        sig[0],
                    ))
                })
                ||| c[1].rule != Rule::block
                ||| (c[1].rule == Rule::block && err_rel(c[1]))
            })
        },
        Rule::fn_decl_sig => true,
        Rule::fn_decl_arg => c.len() < 1 || c[0].rule != Rule::ident,
        Rule::fn_call => {
            ||| c.len() < 1
            ||| c[0].rule != Rule::ident
            ||| (c.len() >= 2 && err_rel(c[1]))
        },
        Rule::fn_call_arg => {
            ||| c.len() < 2
            ||| c[0].rule != Rule::ident
            ||| c[1].rule != Rule::expr
            ||| (c.len() >= 2 && c[1].rule == Rule::expr && err_rel(c[1]))
        },
        Rule::weights_decl => {
            ||| c.len() < 2
            ||| c[0].rule != Rule::weights_decl_head
            ||| (c.len() >= 2 && c[0].rule == Rule::weights_decl_head && {
                let h = c[0].children@;
                ||| h.len() < 2
                ||| h[0].rule != Rule::cap_ident
                ||| h[1].rule != Rule::fn_type_sig
                ||| (h.len() >= 2 && h[1].rule == Rule::fn_type_sig && err_rel(h[1]))
                ||| c[1].rule != Rule::weights_decl_body
                ||| (c[1].rule == Rule::weights_decl_body && err_rel(c[1]))
            })
        },
        Rule::weights_assign => {
            ||| c.len() < 5
            ||| (c.len() >= 5 && {
                ||| c[0].rule != Rule::ident
                ||| c[1].rule != Rule::op_assign
                ||| c[2].rule != Rule::cap_ident
                ||| c[3].rule != Rule::fn_type_sig
                ||| c[4].rule != Rule::fn_call
                ||| err_rel(c[3])
                ||| err_rel(c[4])
            })
        },
        Rule::graph_decl => {
            ||| c.len() < 2
            ||| c[0].rule != Rule::graph_decl_head
            ||| (c.len() >= 2 && c[0].rule == Rule::graph_decl_head && {
                let h = c[0].children@;
                ||| h.len() < 2
                ||| h[0].rule != Rule::cap_ident
                ||| h[1].rule != Rule::fn_type_sig
                ||| (h.len() >= 2 && h[1].rule == Rule::fn_type_sig && err_rel(h[1]))
                ||| c[1].rule != Rule::graph_decl_body
                ||| (c[1].rule == Rule::graph_decl_body && err_rel(c[1]))
            })
        },
        Rule::graph_decl_body => {
            ||| c.len() < 1
            ||| c[0].rule != Rule::fn_decls
            ||| (c.len() >= 1 && c[0].rule == Rule::fn_decls && list_err(c[0].children@))
        },
        Rule::node_decl => {
            ||| c.len() < 2
            ||| c[0].rule != Rule::node_decl_head
            ||| (c.len() >= 2 && c[0].rule == Rule::node_decl_head && {
                let h = c[0].children@;
                ||| h.len() < 2
                ||| h[0].rule != Rule::cap_ident
                ||| h[1].rule != Rule::fn_type_sig
                ||| (h.len() >= 2 && h[1].rule == Rule::fn_type_sig && err_rel(h[1]))
                ||| c[1].rule != Rule::node_decl_body
                ||| (c[1].rule == Rule::node_decl_body && err_rel(c[1]))
            })
        },
        Rule::node_macro_assign => {
            ||| c.len() < 3
            ||| (c.len() >= 3 && {
                ||| c[0].rule != Rule::upper_ident
                ||| c[1].rule != Rule::op_assign
                ||| (c[2].rule != Rule::int_lit && c[2].rule != Rule::float_lit)
                ||| ((c[2].rule == Rule::int_lit || c[2].rule == Rule::float_lit) && err_rel(
                    c[2],
                ))
            })
        },
        Rule::fn_type_sig => {
            ||| c.len() < 2
            ||| (c.len() >= 2 && (c[0].rule != Rule::type_ident_list || c[1].rule
                != Rule::type_ident_list))
        },
        Rule::use_stmt => {
            ||| c.len() < 3
            ||| (c.len() >= 3 && {
                ||| c[0].rule != Rule::use_lit
                ||| c[1].rule != Rule::ident
                ||| (c[2].rule != Rule::ident_list && c[2].rule != Rule::ident)
            })
        },
        Rule::pipes => pipes_err(n),
        _ => true,
    }
}


/// A parse error with its message.
fn perr(msg: &str) -> (r: TSSParseError)
{
    TSSParseError { msg: msg.to_string() }
}

/// The texts of a run of nodes.
fn texts_vec(ns: &Vec<ParseNode>) -> (out: Vec<String>)
    ensures
        texts_of(ns@, out@),
{
    let mut out: Vec<String> = Vec::new();
    let mut i: usize = 0;
    while i < ns.len()
        invariant
            i <= ns@.len(),
            out@.len() == i,
            forall|j: int| 0 <= j < i ==> (#[trigger] out@[j])@ == ns@[j].text@,
        decreases ns@.len() - i,
    {
        out.push(ns[i].text.clone());
        i = i + 1;
    }
    out
}

/// Builds every node of a run, or fails on the first that cannot be
/// built.
fn build_list(ns: &Vec<ParseNode>) -> (r: Result<Vec<AST>, TSSParseError>)
    ensures
        match r {
            Ok(vs) => list_ok(ns@, vs@),
            Err(_) => list_err(ns@),
        },
    decreases ns@, 0int, 0int,
{
    let mut out: Vec<AST> = Vec::new();
    let mut i: usize = 0;
    while i < ns.len()
        invariant
            i <= ns@.len(),
            out@.len() == i,
            forall|j: int| 0 <= j < i ==> ok_rel(#[trigger] ns@[j], out@[j]),
        decreases ns@.len() - i,
    {
        match consume(&ns[i]) {
            Ok(a) => {
                out.push(a);
            },
            Err(e) => {
                proof {
                    assert(err_rel(ns@[i as int]));
                }
                return Err(e);
            },
        }
        i = i + 1;
    }
    Ok(out)
}

/// Builds the surface AST for a sequence of top-level parse nodes.
pub fn parse_str(top_levels: &Vec<ParseNode>) -> (r: Result<AST, TSSParseError>)
    ensures
        match r {
            Ok(a) => a matches AST::List(vs) && list_ok(top_levels@, vs@),
            Err(_) => list_err(top_levels@),
        },
{
    match build_list(top_levels) {
        Ok(vs) => Ok(AST::List(vs)),
        Err(e) => Err(e),
    }
}

/// Builds one parse node, dispatching on its rule.
pub fn consume(pair: &ParseNode) -> (r: Result<AST, TSSParseError>)
    ensures
        match r {
            Ok(a) => ok_rel(*pair, a),
            Err(_) => err_rel(*pair),
        },
    decreases pair, 4int, 0int,
{
    match pair.rule {
        Rule::int_lit => build_int_lit(pair),
        Rule::float_lit => build_float_lit(pair),
        Rule::expr => build_expr(pair),
        Rule::stmt => build_stmt(pair),
        Rule::stmts => build_stmts(pair),
        Rule::fn_decls => build_fn_decls(pair),
        Rule::fn_decl_param => build_fn_decl_param(pair),
        Rule::fn_decl_args => build_fn_decl_args(pair),
        Rule::fn_call_args => build_fn_call_args(pair),
        Rule::weights_decl_body => build_weights_decl_body(pair),
        Rule::node_decl_body => build_node_decl_body(pair),
        Rule::block => build_block(pair),
        Rule::fn_call_param => build_fn_call_param(pair),
        Rule::field_access => build_field_access(pair),
        Rule::fn_decl => build_fn_decl(pair),
        Rule::fn_decl_sig => build_fn_decl_sig(pair),
        Rule::fn_decl_arg => build_fn_decl_arg(pair),
        Rule::fn_call => build_fn_call(pair),
        Rule::fn_call_arg => build_fn_call_arg(pair),
        Rule::weights_decl => build_weights_decl(pair),
        Rule::weights_assign => build_weights_assign(pair),
        Rule::graph_decl => build_graph_decl(pair),
        Rule::graph_decl_body => build_graph_decl_body(pair),
        Rule::node_decl => build_node_decl(pair),
        Rule::node_macro_assign => build_node_macro_assign(pair),
        Rule::fn_type_sig => build_fn_type_sig(pair),
        Rule::use_stmt => build_use_stmt(pair),
        Rule::pipes => build_pipes(pair),
        _ => Err(perr("unexpected token")),
    }
}

/// An integer literal is read from its matched text.
fn build_int_lit(pair: &ParseNode) -> (r: Result<AST, TSSParseError>)
    requires
        pair.rule == Rule::int_lit,
    ensures
        match r {
            Ok(a) => ok_rel(*pair, a),
            Err(_) => err_rel(*pair),
        },
{
    match parse_int_text(&pair.text) {
        Some(v) => Ok(AST::Integer(v)),
        None => Err(perr("cannot read an integer literal")),
    }
}

/// A float literal carries its lexed value, as bits.
fn build_float_lit(pair: &ParseNode) -> (r: Result<AST, TSSParseError>)
    requires
        pair.rule == Rule::float_lit,
    ensures
        match r {
            Ok(a) => ok_rel(*pair, a),
            Err(_) => err_rel(*pair),
        },
{
    match pair.value {
        LitVal::Float(v) => Ok(AST::Float(v)),
        _ => Err(perr("float literal does not carry a lexed value")),
    }
}

/// An expression wraps the list of its built sub-nodes.
fn build_expr(pair: &ParseNode) -> (r: Result<AST, TSSParseError>)
    requires
        pair.rule == Rule::expr,
    ensures
        match r {
            Ok(a) => ok_rel(*pair, a),
            Err(_) => err_rel(*pair),
        },
    decreases pair, 3int, 0int,
{
    match build_list(&pair.children) {
        Ok(vs) => Ok(AST::Expr { items: Box::new(AST::List(vs)) }),
        Err(e) => Err(e),
    }
}

/// A statement wraps the list of its built sub-nodes.
fn build_stmt(pair: &ParseNode) -> (r: Result<AST, TSSParseError>)
    requires
        pair.rule == Rule::stmt,
    ensures
        match r {
            Ok(a) => ok_rel(*pair, a),
            Err(_) => err_rel(*pair),
        },
    decreases pair, 3int, 0int,
{
    match build_list(&pair.children) {
        Ok(vs) => Ok(AST::Stmt { items: Box::new(AST::List(vs)) }),
        Err(e) => Err(e),
    }
}

/// A run of statements becomes the list of its built sub-nodes.
fn build_stmts(pair: &ParseNode) -> (r: Result<AST, TSSParseError>)
    requires
        pair.rule == Rule::stmts,
    ensures
        match r {
            Ok(a) => ok_rel(*pair, a),
            Err(_) => err_rel(*pair),
        },
    decreases pair, 3int, 0int,
{
    match build_list(&pair.children) {
        Ok(vs) => Ok(AST::List(vs)),
        Err(e) => Err(e),
    }
}

fn build_fn_decls(pair: &ParseNode) -> (r: Result<AST, TSSParseError>)
    requires
        pair.rule == Rule::fn_decls,
    ensures
        match r {
            Ok(a) => ok_rel(*pair, a),
            Err(_) => err_rel(*pair),
        },
    decreases pair, 3int, 0int,
{
    match build_list(&pair.children) {
        Ok(vs) => Ok(AST::List(vs)),
        Err(e) => Err(e),
    }
}

fn build_fn_decl_param(pair: &ParseNode) -> (r: Result<AST, TSSParseError>)
    requires
        pair.rule == Rule::fn_decl_param,
    ensures
        match r {
            Ok(a) => ok_rel(*pair, a),
            Err(_) => err_rel(*pair),
        },
    decreases pair, 3int, 0int,
{
    match build_list(&pair.children) {
        Ok(vs) => Ok(AST::List(vs)),
        Err(e) => Err(e),
    }
}

fn build_fn_decl_args(pair: &ParseNode) -> (r: Result<AST, TSSParseError>)
    requires
        pair.rule == Rule::fn_decl_args,
    ensures
        match r {
            Ok(a) => ok_rel(*pair, a),
            Err(_) => err_rel(*pair),
        },
    decreases pair, 3int, 0int,
{
    match build_list(&pair.children) {
        Ok(vs) => Ok(AST::List(vs)),
        Err(e) => Err(e),
    }
}

fn build_fn_call_args(pair: &ParseNode) -> (r: Result<AST, TSSParseError>)
    requires
        pair.rule == Rule::fn_call_args,
    ensures
        match r {
            Ok(a) => ok_rel(*pair, a),
            Err(_) => err_rel(*pair),
        },
    decreases pair, 3int, 0int,
{
    match build_list(&pair.children) {
        Ok(vs) => Ok(AST::List(vs)),
        Err(e) => Err(e),
    }
}

fn build_weights_decl_body(pair: &ParseNode) -> (r: Result<AST, TSSParseError>)
    requires
        pair.rule == Rule::weights_decl_body,
    ensures
        match r {
            Ok(a) => ok_rel(*pair, a),
            Err(_) => err_rel(*pair),
        },
    decreases pair, 3int, 0int,
{
    match build_list(&pair.children) {
        Ok(vs) => Ok(AST::List(vs)),
        Err(e) => Err(e),
    }
}

fn build_node_decl_body(pair: &ParseNode) -> (r: Result<AST, TSSParseError>)
    requires
        pair.rule == Rule::node_decl_body,
    ensures
        match r {
            Ok(a) => ok_rel(*pair, a),
            Err(_) => err_rel(*pair),
        },
    decreases pair, 3int, 0int,
{
    match build_list(&pair.children) {
        Ok(vs) => Ok(AST::List(vs)),
        Err(e) => Err(e),
    }
}

/// A block holds its statements and a possible dangling expression.
fn build_block(pair: &ParseNode) -> (r: Result<AST, TSSParseError>)
    requires
        pair.rule == Rule::block,
    ensures
        match r {
            Ok(a) => ok_rel(*pair, a),
            Err(_) => err_rel(*pair),
        },
    decreases pair, 3int, 0int,
{
    let c = &pair.children;
    if c.len() < 1 || !(matches!(c[0].rule, Rule::stmts)) {
        return Err(perr("cannot parse statements"));
    }
    let stmts = match consume(&c[0]) {
        Ok(a) => a,
        Err(e) => {
            return Err(e);
        },
    };
    let ret = if c.len() >= 2 && matches!(c[1].rule, Rule::expr) {
        match consume(&c[1]) {
            Ok(a) => a,
            Err(e) => {
                return Err(e);
            },
        }
    } else {
        AST::Empty
    };
    Ok(AST::Block { stmts: Box::new(stmts), ret: Box::new(ret) })
}

/// The arguments of a call made through a field access; absent arguments
/// are an empty list.
fn build_fn_call_param(pair: &ParseNode) -> (r: Result<AST, TSSParseError>)
    requires
        pair.rule == Rule::fn_call_param,
    ensures
        match r {
            Ok(a) => ok_rel(*pair, a),
            Err(_) => err_rel(*pair),
        },
    decreases pair, 3int, 0int,
{
    let c = &pair.children;
    if c.len() >= 1 && matches!(c[0].rule, Rule::fn_call_args) {
        consume(&c[0])
    } else {
        Ok(AST::List(Vec::new()))
    }
}

/// A field access names a variable and a field, with a possible call.
fn build_field_access(pair: &ParseNode) -> (r: Result<AST, TSSParseError>)
    requires
        pair.rule == Rule::field_access,
    ensures
        match r {
            Ok(a) => ok_rel(*pair, a),
            Err(_) => err_rel(*pair),
        },
    decreases pair, 3int, 0int,
{
    let c = &pair.children;
    if c.len() < 2 || !(matches!(c[0].rule, Rule::ident)) || !(matches!(c[1].rule, Rule::ident)) {
        return Err(perr("failed to parse a field access"));
    }
    let func_call = if c.len() >= 3 && matches!(c[2].rule, Rule::fn_call_param) {
        match consume(&c[2]) {
            Ok(a) => a,
            Err(e) => {
                return Err(e);
            },
        }
    } else {
        AST::Empty
    };
    Ok(
        AST::FieldAccess {
            var_name: c[0].text.clone(),
            field_name: c[1].text.clone(),
            func_call: Box::new(func_call),
        },
    )
}

/// A bare function signature never stands alone.
fn build_fn_decl_sig(pair: &ParseNode) -> (r: Result<AST, TSSParseError>)
    requires
        pair.rule == Rule::fn_decl_sig,
    ensures
        match r {
            Ok(a) => ok_rel(*pair, a),
            Err(_) => err_rel(*pair),
        },
{
    Err(perr("a bare function signature cannot stand alone"))
}

/// A formal parameter names itself and an optional type annotation.
fn build_fn_decl_arg(pair: &ParseNode) -> (r: Result<AST, TSSParseError>)
    requires
        pair.rule == Rule::fn_decl_arg,
    ensures
        match r {
            Ok(a) => ok_rel(*pair, a),
            Err(_) => err_rel(*pair),
        },
{
    let c = &pair.children;
    if c.len() < 1 || !(matches!(c[0].rule, Rule::ident)) {
        return Err(perr("failed to parse a function parameter"));
    }
    let type_sig = if c.len() >= 2 && matches!(c[1].rule, Rule::type_sig) {
        texts_vec(&c[1].children)
    } else {
        Vec::new()
    };
    Ok(AST::FnDeclArg { name: c[0].text.clone(), type_sig })
}

/// A call names its function and carries its argument list.
fn build_fn_call(pair: &ParseNode) -> (r: Result<AST, TSSParseError>)
    requires
        pair.rule == Rule::fn_call,
    ensures
        match r {
            Ok(a) => ok_rel(*pair, a),
            Err(_) => err_rel(*pair),
        },
    decreases pair, 3int, 0int,
{
    let c = &pair.children;
    if c.len() < 1 || !(matches!(c[0].rule, Rule::ident)) {
        return Err(perr("cannot parse a function call identifier"));
    }
    let args = if c.len() >= 2 {
        match consume(&c[1]) {
            Ok(a) => a,
            Err(e) => {
                return Err(e);
            },
        }
    } else {
        AST::List(Vec::new())
    };
    Ok(AST::FnCall { name: c[0].text.clone(), args: Box::new(args) })
}

/// A named actual argument holds its name and its expression.
fn build_fn_call_arg(pair: &ParseNode) -> (r: Result<AST, TSSParseError>)
    requires
        pair.rule == Rule::fn_call_arg,
    ensures
        match r {
            Ok(a) => ok_rel(*pair, a),
            Err(_) => err_rel(*pair),
        },
    decreases pair, 3int, 0int,
{
    let c = &pair.children;
    if c.len() < 2 || !(matches!(c[0].rule, Rule::ident)) || !(matches!(c[1].rule, Rule::expr)) {
        return Err(perr("failed to parse a function call argument"));
    }
    match consume(&c[1]) {
        Ok(a) => Ok(AST::FnCallArg { name: c[0].text.clone(), arg: Box::new(a) }),
        Err(e) => Err(e),
    }
}

/// A weights declaration: a named head with a signature, then the body.
fn build_weights_decl(pair: &ParseNode) -> (r: Result<AST, TSSParseError>)
    requires
        pair.rule == Rule::weights_decl,
    ensures
        match r {
            Ok(a) => ok_rel(*pair, a),
            Err(_) => err_rel(*pair),
        },
    decreases pair, 3int, 0int,
{
    let c = &pair.children;
    if c.len() < 2 || !(matches!(c[0].rule, Rule::weights_decl_head)) {
        return Err(perr("failed to parse a weights head"));
    }
    let h = &c[0].children;
    if h.len() < 2 || !(matches!(h[0].rule, Rule::cap_ident)) || !(matches!(
        h[1].rule,
        Rule::fn_type_sig,
    )) || !(matches!(c[1].rule, Rule::weights_decl_body)) {
        return Err(perr("failed to parse a weights declaration"));
    }
    let type_sig = match consume(&h[1]) {
        Ok(a) => a,
        Err(e) => {
            return Err(e);
        },
    };
    match consume(&c[1]) {
        Ok(body) => Ok(
            AST::WeightsDecl {
                name: h[0].text.clone(),
                type_sig: Box::new(type_sig),
                initialization: Box::new(body),
            },
        ),
        Err(e) => Err(e),
    }
}

/// One weights assignment: a name, a module, its signature, and the call
/// that initialises it.
fn build_weights_assign(pair: &ParseNode) -> (r: Result<AST, TSSParseError>)
    requires
        pair.rule == Rule::weights_assign,
    ensures
        match r {
            Ok(a) => ok_rel(*pair, a),
            Err(_) => err_rel(*pair),
        },
    decreases pair, 3int, 0int,
{
    let c = &pair.children;
    if c.len() < 5 {
        return Err(perr("failed to parse a weights assignment"));
    }
    if !(matches!(c[0].rule, Rule::ident)) || !(matches!(c[1].rule, Rule::op_assign)) || !(
    matches!(c[2].rule, Rule::cap_ident)) || !(matches!(c[3].rule, Rule::fn_type_sig)) || !(
    matches!(c[4].rule, Rule::fn_call)) {
        return Err(perr("failed to parse a weights assignment"));
    }
    let mod_sig = match consume(&c[3]) {
        Ok(a) => a,
        Err(e) => {
            return Err(e);
        },
    };
    match consume(&c[4]) {
        Ok(func) => Ok(
            AST::WeightsAssign {
                name: c[0].text.clone(),
                mod_name: c[2].text.clone(),
                mod_sig: Box::new(mod_sig),
                func: Box::new(func),
            },
        ),
        Err(e) => Err(e),
    }
}

/// A graph declaration: a named head with a signature, then its function
/// declarations.
fn build_graph_decl(pair: &ParseNode) -> (r: Result<AST, TSSParseError>)
    requires
        pair.rule == Rule::graph_decl,
    ensures
        match r {
            Ok(a) => ok_rel(*pair, a),
            Err(_) => err_rel(*pair),
        },
    decreases pair, 3int, 0int,
{
    let c = &pair.children;
    if c.len() < 2 || !(matches!(c[0].rule, Rule::graph_decl_head)) {
        return Err(perr("failed to parse a graph head"));
    }
    let h = &c[0].children;
    if h.len() < 2 || !(matches!(h[0].rule, Rule::cap_ident)) || !(matches!(
        h[1].rule,
        Rule::fn_type_sig,
    )) || !(matches!(c[1].rule, Rule::graph_decl_body)) {
        return Err(perr("failed to parse a graph declaration"));
    }
    let type_sig = match consume(&h[1]) {
        Ok(a) => a,
        Err(e) => {
            return Err(e);
        },
    };
    match consume(&c[1]) {
        Ok(fns) => Ok(
            AST::GraphDecl {
                name: h[0].text.clone(),
                type_sig: Box::new(type_sig),
                fns: Box::new(fns),
            },
        ),
        Err(e) => Err(e),
    }
}

/// The graph body unwraps its run of function declarations.
fn build_graph_decl_body(pair: &ParseNode) -> (r: Result<AST, TSSParseError>)
    requires
        pair.rule == Rule::graph_decl_body,
    ensures
        match r {
            Ok(a) => ok_rel(*pair, a),
            Err(_) => err_rel(*pair),
        },
    decreases pair, 3int, 0int,
{
    let c = &pair.children;
    if c.len() < 1 || !(matches!(c[0].rule, Rule::fn_decls)) {
        return Err(perr("failed to parse the graph body"));
    }
    match build_list(&c[0].children) {
        Ok(vs) => Ok(AST::List(vs)),
        Err(e) => Err(e),
    }
}

/// A node declaration: a named head with a signature, then the body.
fn build_node_decl(pair: &ParseNode) -> (r: Result<AST, TSSParseError>)
    requires
        pair.rule == Rule::node_decl,
    ensures
        match r {
            Ok(a) => ok_rel(*pair, a),
            Err(_) => err_rel(*pair),
        },
    decreases pair, 3int, 0int,
{
    let c = &pair.children;
    if c.len() < 2 || !(matches!(c[0].rule, Rule::node_decl_head)) {
        return Err(perr("failed to parse a node head"));
    }
    let h = &c[0].children;
    if h.len() < 2 || !(matches!(h[0].rule, Rule::cap_ident)) || !(matches!(
        h[1].rule,
        Rule::fn_type_sig,
    )) || !(matches!(c[1].rule, Rule::node_decl_body)) {
        return Err(perr("failed to parse a node declaration"));
    }
    let type_sig = match consume(&h[1]) {
        Ok(a) => a,
        Err(e) => {
            return Err(e);
        },
    };
    match consume(&c[1]) {
        Ok(body) => Ok(
            AST::NodeDecl {
                name: h[0].text.clone(),
                type_sig: Box::new(type_sig),
                initialization: Box::new(body),
            },
        ),
        Err(e) => Err(e),
    }
}

/// A named-constant assignment inside a node body.
fn build_node_macro_assign(pair: &ParseNode) -> (r: Result<AST, TSSParseError>)
    requires
        pair.rule == Rule::node_macro_assign,
    ensures
        match r {
            Ok(a) => ok_rel(*pair, a),
            Err(_) => err_rel(*pair),
        },
    decreases pair, 3int, 0int,
{
    let c = &pair.children;
    if c.len() < 3 {
        return Err(perr("failed to parse a named-constant assignment"));
    }
    if !(matches!(c[0].rule, Rule::upper_ident)) || !(matches!(c[1].rule, Rule::op_assign))
        || !(matches!(c[2].rule, Rule::int_lit) || matches!(c[2].rule, Rule::float_lit)) {
        return Err(perr("failed to parse a named-constant assignment"));
    }
    match consume(&c[2]) {
        Ok(lit) => Ok(AST::MacroAssign(c[0].text.clone(), Box::new(lit))),
        Err(e) => Err(e),
    }
}

/// A type signature: the identifiers of its source and target shapes.
fn build_fn_type_sig(pair: &ParseNode) -> (r: Result<AST, TSSParseError>)
    requires
        pair.rule == Rule::fn_type_sig,
    ensures
        match r {
            Ok(a) => ok_rel(*pair, a),
            Err(_) => err_rel(*pair),
        },
{
    let c = &pair.children;
    if c.len() < 2 || !(matches!(c[0].rule, Rule::type_ident_list)) || !(matches!(
        c[1].rule,
        Rule::type_ident_list,
    )) {
        return Err(perr("cannot parse a type signature"));
    }
    Ok(AST::FnTypeSig(texts_vec(&c[0].children), texts_vec(&c[1].children)))
}

/// A use statement names a module and what it imports from it.
fn build_use_stmt(pair: &ParseNode) -> (r: Result<AST, TSSParseError>)
    requires
        pair.rule == Rule::use_stmt,
    ensures
        match r {
            Ok(a) => ok_rel(*pair, a),
            Err(_) => err_rel(*pair),
        },
{
    let c = &pair.children;
    if c.len() < 3 || !(matches!(c[0].rule, Rule::use_lit)) || !(matches!(
        c[1].rule,
        Rule::ident,
    )) {
        return Err(perr("failed to parse a use statement"));
    }
    let imported_names = if matches!(c[2].rule, Rule::ident_list) {
        texts_vec(&c[2].children)
    } else if matches!(c[2].rule, Rule::ident) {
        let mut names: Vec<String> = Vec::new();
        names.push(c[2].text.clone());
        names
    } else {
        return Err(perr("no imported modules"));
    };
    Ok(AST::UseStmt { mod_name: c[1].text.clone(), imported_names })
}

/// Builds a function declaration: its head holds the name and signature,
/// the body is a block.
fn build_fn_decl(pair: &ParseNode) -> (r: Result<AST, TSSParseError>)
    requires
        pair.rule == Rule::fn_decl,
    ensures
        match r {
            Ok(a) => ok_rel(*pair, a),
            Err(_) => err_rel(*pair),
        },
    decreases pair, 3int, 0int,
{
    let c = &pair.children;
    if c.len() < 2 || !(matches!(c[0].rule, Rule::fn_decl_head)) {
        return Err(perr("failed to parse a function head"));
    }
    let h = &c[0].children;
    if h.len() < 2 || !(matches!(h[0].rule, Rule::ident)) || !(matches!(
        h[1].rule,
        Rule::fn_decl_sig,
    )) {
        return Err(perr("failed to parse a function head"));
    }
    let sig = &h[1].children;
    if sig.len() < 1 || !(matches!(sig[0].rule, Rule::fn_decl_param)) {
        return Err(perr("failed to parse the function parameters"));
    }
    if !(matches!(c[1].rule, Rule::block)) {
        return Err(perr("failed to parse the function block"));
    }
    let fn_params = match consume(&sig[0]) {
        Ok(a) => a,
        Err(e) => {
            return Err(e);
        },
    };
    let return_type = if sig.len() >= 2 && matches!(sig[1].rule, Rule::type_sig) {
        texts_vec(&sig[1].children)
    } else {
        Vec::new()
    };
    match consume(&c[1]) {
        Ok(func_block) => Ok(
            AST::FnDecl {
                name: h[0].text.clone(),
                fn_params: Box::new(fn_params),
                return_type,
                func_block: Box::new(func_block),
            },
        ),
        Err(e) => Err(e),
    }
}

/// Putting the collected and folded pieces of a pipe chain together.
proof fn lemma_pipes_ok(n: ParseNode, stages: Seq<AST>, a: AST)
    requires
        n.rule == Rule::pipes,
        collected(n, 0, stages),
        stages.len() >= 1,
        pipe_fold(stages.drop_first(), stages[0], a),
    ensures
        ok_rel(n, a),
{
    assert(stages.drop_first() =~= stages.drop_first());
    assert(pipes_ok(n, a));
}

proof fn lemma_pipes_err(n: ParseNode, stages: Seq<AST>)
    requires
        n.rule == Rule::pipes,
        collected(n, 0, stages),
        stages.len() == 0 || pipe_fold_err(stages.drop_first(), stages[0]),
    ensures
        err_rel(n),
{
    assert(stages.drop_first() =~= stages.drop_first());
    assert(pipes_err(n));
}

/// Linearises a pipe chain: collects its stages, then folds them into
/// nested applications, the piped value passed as the argument named `x`.
#[verifier::rlimit(50)]
#[verifier::loop_isolation(false)]
fn build_pipes(pair: &ParseNode) -> (r: Result<AST, TSSParseError>)
    requires
        pair.rule == Rule::pipes,
    ensures
        match r {
            Ok(a) => ok_rel(*pair, a),
            Err(_) => err_rel(*pair),
        },
    decreases pair, 3int, 0int,
{
    let mut stages: Vec<AST> = Vec::new();
    let ghost pre_stages = stages@;
    match collect_pipes(pair, 0, &mut stages) {
        Ok(_) => {},
        Err(e) => {
            proof {
                assert(collected_err(*pair, 0));
                assert(pipes_err(*pair));
            }
            return Err(e);
        },
    }
    let ghost stages0 = choose|rest: Seq<AST>|
        #[trigger] collected(*pair, 0, rest) && stages@ == pre_stages + rest;
    proof {
        assert(stages@ =~= stages0);
    }
    if stages.len() == 0 {
        proof {
            lemma_pipes_err(*pair, stages0);
        }
        return Err(perr("an empty pipe expression"));
    }
    let mut acc = stages.remove(0);
    proof {
        assert(stages@ =~= stages0.drop_first());
        assert(acc == stages0[0]);
    }
    while stages.len() > 0
        invariant
            collected(*pair, 0, stages0),
            stages0.len() >= 1,
            forall|out: AST|
                #[trigger] pipe_fold(stages@, acc, out) ==> pipe_fold(
                    stages0.drop_first(),
                    stages0[0],
                    out,
                ),
            pipe_fold_err(stages@, acc) ==> pipe_fold_err(stages0.drop_first(), stages0[0]),
        decreases stages@.len(),
    {
        let ghost pre = stages@;
        let ghost acc0 = acc;
        let stage = stages.remove(0);
        proof {
            assert(stage == pre[0]);
            assert(stages@ =~= pre.drop_first());
        }
        let next = match stage {
            AST::Ident(nm) => {
                let mut items: Vec<AST> = Vec::new();
                items.push(AST::FnCallArg { name: x_name(), arg: Box::new(acc) });
                AST::FnCall { name: nm, args: Box::new(AST::List(items)) }
            },
            AST::FnCall { name, args } => {
                let is_list = matches!(&*args, AST::List(_));
                if is_list {
                    AST::FnCall { name, args: AST::extend_arg_list(args, acc) }
                } else {
                    proof {
                        assert(pipe_step_err(pre[0]));
                        assert(pipe_fold_err(pre, acc0));
                        assert(pipe_fold_err(stages0.drop_first(), stages0[0]));
                        lemma_pipes_err(*pair, stages0);
                    }
                    return Err(perr("cannot pipe into this expression"));
                }
            },
            _ => {
                proof {
                    assert(pipe_step_err(pre[0]));
                    assert(pipe_fold_err(pre, acc0));
                    assert(pipe_fold_err(stages0.drop_first(), stages0[0]));
                    lemma_pipes_err(*pair, stages0);
                }
                return Err(perr("cannot pipe into this expression"));
            },
        };
        proof {
            assert(pipe_step(pre[0], acc0, next));
            assert forall|out: AST| #[trigger] pipe_fold(stages@, next, out) implies pipe_fold(
                stages0.drop_first(),
                stages0[0],
                out,
            ) by {
                assert(pipe_step(pre[0], acc0, next) && pipe_fold(pre.drop_first(), next, out));
                assert(pipe_fold(pre, acc0, out));
            }
            if pipe_fold_err(stages@, next) {
                assert(pipe_fold_err(pre, acc0));
            }
        }
        acc = next;
    }
    proof {
        assert(stages@.len() == 0);
        assert(pipe_fold(stages@, acc, acc));
        assert(pipe_fold(stages0.drop_first(), stages0[0], acc));
        lemma_pipes_ok(*pair, stages0, acc);
    }
    Ok(acc)
}

/// The canonical name of a piped-in argument.
fn x_name() -> (r: String)
    ensures
        r@ == "x"@,
{
    let s: &str = "x";
    s.to_string()
}

/// Collects the stages of a pipe chain from the `i`-th sub-node on,
/// appending them in order.
#[verifier::rlimit(50)]
fn collect_pipes(n: &ParseNode, i: usize, out: &mut Vec<AST>) -> (r: Result<(), TSSParseError>)
    requires
        i <= n.children@.len(),
    ensures
        match r {
            Ok(_) => exists|rest: Seq<AST>|
                #[trigger] collected(*n, i as int, rest) && final(out)@ == old(out)@ + rest,
            Err(_) => collected_err(*n, i as int),
        },
    decreases n, 2int, n.children@.len() - i,
{
    if i >= n.children.len() {
        proof {
            assert(collected(*n, i as int, Seq::<AST>::empty()));
            assert(final(out)@ =~= old(out)@ + Seq::<AST>::empty());
        }
        return Ok(());
    }
    let c = &n.children[i];
    if matches!(c.rule, Rule::expr) {
        if c.children.len() == 0 {
            proof {
                assert(collected(*n, i as int, Seq::<AST>::empty()));
                assert(final(out)@ =~= old(out)@ + Seq::<AST>::empty());
            }
            return Ok(());
        }
        let inner = &c.children[0];
        if matches!(inner.rule, Rule::pipes) {
            let r = collect_pipes(inner, 0, out);
            proof {
                if r is Ok {
                    let rest = choose|rest: Seq<AST>|
                        #[trigger] collected(*inner, 0, rest) && out@ == old(out)@ + rest;
                    assert(collected(*n, i as int, rest));
                }
            }
            return r;
        }
        let ghost av;
        match process_level(inner) {
            Ok(a) => {
                proof {
                    av = a;
                }
                out.push(a);
            },
            Err(e) => {
                return Err(e);
            },
        }
        let ghost mid = out@;
        let r = collect_pipes(n, i + 1, out);
        proof {
            if r is Ok {
                let rest = choose|rest: Seq<AST>|
                    #[trigger] collected(*n, i + 1, rest) && out@ == mid + rest;
                assert(mid.last() == av);
                assert((seq![av] + rest)[0] == av);
                assert((seq![av] + rest).drop_first() =~= rest);
                assert(stage_ok(c.children@[0], av));
                assert(collected(*n, i as int, seq![av] + rest));
                assert(out@ =~= old(out)@ + (seq![av] + rest));
            }
        }
        r
    } else {
        let ghost av;
        match process_level(c) {
            Ok(a) => {
                proof {
                    av = a;
                }
                out.push(a);
            },
            Err(e) => {
                return Err(e);
            },
        }
        let ghost mid = out@;
        let r = collect_pipes(n, i + 1, out);
        proof {
            if r is Ok {
                let rest = choose|rest: Seq<AST>|
                    #[trigger] collected(*n, i + 1, rest) && out@ == mid + rest;
                assert(mid.last() == av);
                assert((seq![av] + rest)[0] == av);
                assert((seq![av] + rest).drop_first() =~= rest);
                assert(stage_ok(n.children@[i as int], av));
                assert(collected(*n, i as int, seq![av] + rest));
                assert(out@ =~= old(out)@ + (seq![av] + rest));
            }
        }
        r
    }
}

/// One pipe stage: an identifier, or a call or field access built through
/// [`consume`].
fn process_level(curr: &ParseNode) -> (r: Result<AST, TSSParseError>)
    ensures
        match r {
            Ok(a) => stage_ok(*curr, a),
            Err(_) => stage_err(*curr),
        },
    decreases curr, 4int, 1int,
{
    if matches!(curr.rule, Rule::fn_call) || matches!(curr.rule, Rule::field_access) {
        consume(curr)
    } else if matches!(curr.rule, Rule::ident) {
        Ok(AST::Ident(curr.text.clone()))
    } else {
        Err(perr("this cannot stand in a pipe"))
    }
}

} // verus!
