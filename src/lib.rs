//! Variable bindings and statements of a GNU-Make-compatible macro
//! language: binding flavors and their expansion, origin precedence on
//! assignment, scope guards, and the statement tree.

pub mod origin;
pub mod symtab;
pub mod error;
pub mod value;
pub mod stmt;
pub mod var;
pub mod scope;
pub mod eval;
