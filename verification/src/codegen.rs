//! Configuration for the code-generation step that renders a resolved
//! schema. The rendering itself writes files and is an external
//! concern; this module holds what it is configured and fed with.

use vstd::prelude::*;

use crate::schema::Schema;

verus! {

/// Custom options for the code generator.
#[derive(Debug)]
pub struct BuilderConfig {
    /// The path to the directory that holds the schema module and its
    /// per-table siblings.
    pub path: String,
}

impl Default for BuilderConfig {
    /// The conventional schema directory.
    fn default() -> (r: Self)
        ensures
            r.path@ == "./convex"@,
    {
        BuilderConfig { path: "./convex".to_owned() }
    }
}

/// The code-generation builder: the resolved schema it renders from,
/// and its options.
#[derive(Debug)]
pub struct Builder<'a> {
    /// The schema to render.
    pub data: &'a Schema,
    /// The options in force.
    pub config: BuilderConfig,
}

impl<'a> Builder<'a> {
    /// Creates a builder over the given schema; without explicit
    /// options the defaults are used.
    pub fn new(data: &'a Schema, config: Option<BuilderConfig>) -> (r: Self)
        ensures
            r.data == data,
            match config {
                Some(c) => r.config == c,
                None => r.config.path@ == "./convex"@,
            },
    {
        match config {
            Some(config) => Builder { data, config },
            None => Builder { data, config: BuilderConfig::default() },
        }
    }
}

} // verus!
