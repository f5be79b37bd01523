//! Extraction of a strongly typed database schema from the JSON-like
//! syntax tree of a `schema.ts` module.
//!
//! The tree ([`tree::Node`]) comes from an external parser and carries
//! no semantic information beyond node shape. The extraction engine
//! ([`extract`], [`assemble`]) finds the default-exported schema call,
//! recovers tables, columns and arbitrarily nested composite types
//! ([`schema::ColumnType`]) through the tag resolver ([`resolve`]), and
//! fails predictably on shape mismatch ([`errors::ExtractionError`]).
//! Every extraction function is specified against a mathematical model
//! of the tree and of the schema, and proved to match it.

use vstd::prelude::*;

pub mod assemble;
pub mod codegen;
pub mod errors;
pub mod extract;
pub mod resolve;
pub mod schema;
pub mod tree;

verus! {

/// Configuration for a type-generation run: where the schema module lives and
/// where the generated code should be written.
pub struct Configuration {
    /// Path to the schema module.
    pub convex_schema_path: String,
    /// Path the generated code is written to.
    pub code_gen_path: String,
}

} // verus!
