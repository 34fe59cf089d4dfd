//! Gelite: a small Gel-like query compiler targeting SQLite.
use vstd::prelude::*;

pub mod text;
pub mod schema;
pub mod sqlite_schema;
pub mod sqlite_schema_sqlgen;
pub mod sqlite_runner;
pub mod schema_lexer;
pub mod schema_parser;
pub mod query_lexer;
pub mod query_ast;
pub mod query_parser;
pub mod query_ir;
pub mod query_resolver;
pub mod sqlite_plan;
pub mod sqlite_sqlgen;

verus! {
} // verus!
