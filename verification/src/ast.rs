//! The surface AST the builder produces from a parse tree.

use vstd::prelude::*;

verus! {

/// A surface-syntax node.  Float literals are carried as their bit
/// pattern.
#[derive(Debug, PartialEq)]
pub enum AST {
    /// Absence of a node (an empty block return, a call without a target).
    Empty,
    Integer(i64),
    Float(u64),
    Ident(String),
    List(Vec<AST>),
    Expr { items: Box<AST> },
    Stmt { items: Box<AST> },
    Block { stmts: Box<AST>, ret: Box<AST> },
    FieldAccess { var_name: String, field_name: String, func_call: Box<AST> },
    FnCall { name: String, args: Box<AST> },
    FnCallArg { name: String, arg: Box<AST> },
    FnDecl { name: String, fn_params: Box<AST>, return_type: Vec<String>, func_block: Box<AST> },
    FnDeclArg { name: String, type_sig: Vec<String> },
    FnTypeSig(Vec<String>, Vec<String>),
    UseStmt { mod_name: String, imported_names: Vec<String> },
    NodeDecl { name: String, type_sig: Box<AST>, initialization: Box<AST> },
    WeightsDecl { name: String, type_sig: Box<AST>, initialization: Box<AST> },
    GraphDecl { name: String, type_sig: Box<AST>, fns: Box<AST> },
    WeightsAssign { name: String, mod_name: String, mod_sig: Box<AST>, func: Box<AST> },
    MacroAssign(String, Box<AST>),
}

impl AST {
    /// Appends one piped-in actual argument, named `x`, to a call's
    /// argument list.  The parser uses this to linearise pipes into nested
    /// applications.
    pub fn extend_arg_list(args: Box<AST>, init: AST) -> (r: Box<AST>)
        requires
            (*args) is List,
        ensures
            (*r) matches AST::List(items) && (*args) matches AST::List(old_items) && {
                &&& items@.len() == old_items@.len() + 1
                &&& forall|i: int| 0 <= i < old_items@.len() ==> items@[i] == old_items@[i]
                &&& items@.last() matches AST::FnCallArg { name, arg } && name@ == "x"@ && *arg
                    == init
            },
    {
        match *args {
            AST::List(mut items) => {
                let nm: String = new_strlit_x();
                items.push(AST::FnCallArg { name: nm, arg: Box::new(init) });
                Box::new(AST::List(items))
            },
            _ => unreached(),
        }
    }
}

/// The canonical name of a piped-in argument.
fn new_strlit_x() -> (r: String)
    ensures
        r@ == "x"@,
{
    let s: &str = "x";
    s.to_string()
}

} // verus!
