//! The typed intermediate representation: the surface AST annotated with a
//! type at every node.  Every node carries the span of the surface node it
//! was elaborated from; substitution rewrites the embedded types and
//! nothing else.

use vstd::prelude::*;

use crate::span::CSpan;
use crate::types::{Type, TypeV};

verus! {

/// A typed term.
#[derive(Debug, PartialEq)]
pub enum TypedTerm {
    TypedNone,
    TypedProgram(Vec<TypedDecl>),
    /// An integer literal and its elaborated type (`INT`, or a
    /// `ResolvedDim` at a dimension position).
    TypedInteger(Type, i64, CSpan),
    /// A float literal, carried as its bit pattern, and its type.
    TypedFloat(Type, u64, CSpan),
    TypedList(Vec<TypedTerm>),
    /// An identifier use; the type comes from the environment.
    TypedIdent(Type, String, CSpan),
    TypedFieldAccess(Box<TypedFieldAccess>),
    TypedFnApp(Box<TypedFnApp>),
    TypedBlock { stmts: Box<TypedTerm>, ret: Box<TypedTerm>, span: CSpan },
    TypedExpr { items: Box<TypedTerm>, ty: Type, span: CSpan },
    TypedStmt { items: Box<TypedTerm>, span: CSpan },
    TypedTuple(Type, Vec<TypedTerm>, CSpan),
    TypedPipes(Box<TypedPipes>),
}

/// A pipe chain kept as a list of stages; the parser normally linearises
/// pipes into nested applications before elaboration.
#[derive(Debug, PartialEq)]
pub struct TypedPipes {
    pub items: Vec<TypedTerm>,
    pub ret_ty: Type,
    pub span: CSpan,
}

/// A top-level declaration.
#[derive(Debug, PartialEq)]
pub enum TypedDecl {
    TypedNodeDecl(TypedNodeDecl),
    TypedWeightsDecl(TypedWeightsDecl),
    TypedGraphDecl(TypedGraphDecl),
    TypedUseStmt(TypedUseStmt),
    TypedAliasAssign(TypedAliasAssign),
}

#[derive(Debug, PartialEq)]
pub struct TypedUseStmt {
    pub mod_name: String,
    pub imported_names: Vec<String>,
    pub span: CSpan,
}

#[derive(Debug, PartialEq)]
pub struct TypedNodeDecl {
    pub name: String,
    pub ty_sig: Type,
    pub span: CSpan,
}

#[derive(Debug, PartialEq)]
pub struct TypedGraphDecl {
    pub name: String,
    pub ty_sig: Type,
    pub fns: Vec<TypedFnDecl>,
    pub span: CSpan,
}

#[derive(Debug, PartialEq)]
pub struct TypedWeightsDecl {
    pub name: String,
    pub ty_sig: Type,
    pub inits: Vec<TypedWeightsAssign>,
    pub span: CSpan,
}

#[derive(Debug, PartialEq)]
pub struct TypedWeightsAssign {
    pub name: String,
    pub ty: Type,
    pub mod_name: String,
    pub fn_name: String,
    pub fn_ty: Type,
    pub fn_args: Vec<TypedFnAppArg>,
    pub span: CSpan,
}

#[derive(Debug, PartialEq)]
pub struct TypedFnApp {
    pub name: String,
    pub mod_name: Option<String>,
    pub arg_ty: Type,
    pub ret_ty: Type,
    pub args: Vec<TypedFnAppArg>,
    pub span: CSpan,
}

#[derive(Debug, PartialEq)]
pub struct TypedFnAppArg {
    pub name: String,
    pub arg: Box<TypedTerm>,
    pub span: CSpan,
}

#[derive(Debug, PartialEq)]
pub struct TypedFnDecl {
    pub name: String,
    pub fn_params: Vec<TypedFnDeclParam>,
    pub arg_ty: Type,
    pub ret_ty: Type,
    pub func_block: Box<TypedTerm>,
    pub span: CSpan,
}

#[derive(Debug, PartialEq)]
pub struct TypedFnDeclParam {
    pub name: String,
    pub ty_sig: Type,
    pub span: CSpan,
}

#[derive(Debug, PartialEq)]
pub struct TypedFieldAccess {
    pub var_name: String,
    pub field_name: String,
    pub func_call: Option<(Type, Vec<TypedFnAppArg>)>,
    pub span: CSpan,
}

/// Everything that carries a type exposes it through `ty`.
pub trait Typed {
    /// The type the node carries, as a mathematical value.
    spec fn ty_spec(&self) -> TypeV;

    /// The type the node carries; for nested aggregates, the return type
    /// of the last sub-term.
    fn ty(&self) -> (r: Type)
        ensures
            r@ == self.ty_spec(),
    ;
}

impl TypedTerm {
    /// The type that `ty` reads off each variant: literals and identifiers
    /// carry theirs, blocks answer with their return term, aggregates
    /// without a value are `Unit`.
    pub open spec fn term_ty_spec(&self) -> TypeV
        decreases self,
    {
        match self {
            TypedTerm::TypedNone => TypeV::Unit(CSpan { lo: 0, hi: 0 }),
            TypedTerm::TypedProgram(_) => TypeV::Unit(CSpan { lo: 0, hi: 0 }),
            TypedTerm::TypedInteger(t, _, _) => t@,
            TypedTerm::TypedFloat(t, _, _) => t@,
            TypedTerm::TypedList(_) => TypeV::Unit(CSpan { lo: 0, hi: 0 }),
            TypedTerm::TypedIdent(t, _, _) => t@,
            TypedTerm::TypedFieldAccess(f) => f.fa_ty_spec(),
            TypedTerm::TypedFnApp(f) => f.ret_ty@,
            TypedTerm::TypedBlock { ret, .. } => ret.term_ty_spec(),
            TypedTerm::TypedExpr { ty, .. } => ty@,
            TypedTerm::TypedStmt { .. } => TypeV::Unit(CSpan { lo: 0, hi: 0 }),
            TypedTerm::TypedTuple(t, _, _) => t@,
            TypedTerm::TypedPipes(p) => p.ret_ty@,
        }
    }
}

impl TypedFieldAccess {
    /// The type of the call the access makes, or `Unit` when it is a bare
    /// field read.
    pub open spec fn fa_ty_spec(&self) -> TypeV {
        match self.func_call {
            Some((ref t, _)) => t@,
            None => TypeV::Unit(CSpan { lo: 0, hi: 0 }),
        }
    }
}

impl Typed for TypedTerm {
    open spec fn ty_spec(&self) -> TypeV {
        self.term_ty_spec()
    }

    fn ty(&self) -> (r: Type)
        ensures
            r@ == self.ty_spec(),
        decreases self,
    {
        match self {
            TypedTerm::TypedNone => Type::Unit(CSpan::fresh_span()),
            TypedTerm::TypedProgram(_) => Type::Unit(CSpan::fresh_span()),
            TypedTerm::TypedInteger(t, _, _) => t.clone(),
            TypedTerm::TypedFloat(t, _, _) => t.clone(),
            TypedTerm::TypedList(_) => Type::Unit(CSpan::fresh_span()),
            TypedTerm::TypedIdent(t, _, _) => t.clone(),
            TypedTerm::TypedFieldAccess(f) => f.ty(),
            TypedTerm::TypedFnApp(f) => f.ty(),
            TypedTerm::TypedBlock { ret, .. } => ret.ty(),
            TypedTerm::TypedExpr { ty, .. } => ty.clone(),
            TypedTerm::TypedStmt { .. } => Type::Unit(CSpan::fresh_span()),
            TypedTerm::TypedTuple(t, _, _) => t.clone(),
            TypedTerm::TypedPipes(p) => p.ty(),
        }
    }
}

impl Typed for TypedFieldAccess {
    open spec fn ty_spec(&self) -> TypeV {
        self.fa_ty_spec()
    }

    fn ty(&self) -> (r: Type)
        ensures
            r@ == self.ty_spec(),
    {
        match &self.func_call {
            Some((t, _)) => t.clone(),
            None => Type::Unit(CSpan::fresh_span()),
        }
    }
}

impl Typed for TypedFnApp {
    open spec fn ty_spec(&self) -> TypeV {
        self.ret_ty@
    }

    fn ty(&self) -> (r: Type)
        ensures
            r@ == self.ty_spec(),
    {
        self.ret_ty.clone()
    }
}

impl Typed for TypedPipes {
    open spec fn ty_spec(&self) -> TypeV {
        self.ret_ty@
    }

    fn ty(&self) -> (r: Type)
        ensures
            r@ == self.ty_spec(),
    {
        self.ret_ty.clone()
    }
}

#[derive(Debug, PartialEq)]
pub struct TypedAliasAssign {
    pub name: String,
    pub alias: Type,
    pub span: CSpan,
}

} // verus!
