//! Core of a compiler front-end for a small neural-network description
//! language.  The crate models source spans, the algebraic type language
//! (tensor shapes, dimensions, function signatures), equality constraints,
//! substitutions, and a Robinson-style unifier extended with dimension
//! arithmetic and deferred module-function resolution.  The typed
//! intermediate representation and the surface-AST builder round out the
//! pipeline; diagnostics are buffered in an emitter and rendered by the
//! binary around the library.

pub mod ast;
pub mod builder;
pub mod constraint;
pub mod errors;
pub mod parse_tree;
pub mod inferred_ast;
pub mod span;
pub mod substitution;
pub mod type_env;
pub mod typed_term;
pub mod types;
pub mod unifier;
