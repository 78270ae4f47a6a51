//! SQL parsing support for a repository layer: alias substitution in SQL
//! templates, column inference, COUNT query generation and INSERT clause
//! extraction, with their contracts proved.
use vstd::prelude::*;

pub mod text;
pub mod alias;
pub mod alias_laws;
pub mod alias_cycles;
pub mod alias_acyclic;
pub mod alias_syntax;
pub mod error;
pub mod sql_ast;
pub mod model;
pub mod cache;
pub mod parser;
pub mod count;
pub mod count_laws;
pub mod insert;
pub mod dynamic;
pub mod test_framework;

verus! {
}
