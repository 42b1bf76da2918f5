//! Core of a tree-walking interpreter for a small, dynamically typed
//! scripting language in the Lox family: the AST evaluator, the chained
//! environment model with closures, the static resolver that binds each
//! variable use to a scope depth, and the value and error model.
//!
//! Numbers are IEEE-754 doubles carried as raw bit patterns (`u64`); the
//! arithmetic itself is delegated to a software float library behind a
//! small set of trusted wrappers.

pub mod ast;
pub mod value;
pub mod num;
pub mod text;
pub mod env;
pub mod resolver;
pub mod interp;
pub mod laws;
