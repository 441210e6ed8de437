//! Build-time rewriting of declarative GraphQL builder calls (`gql.default(...)`)
//! into calls against a lean runtime API, using descriptors computed ahead of time.
//!
//! The library works on its own model of an ECMAScript module (`ast`): it assigns
//! every builder call a scope path (`metadata`), resolves each call to an artifact
//! through its canonical id (`analysis`), synthesizes the runtime calls that replace
//! it (`runtime`), rewrites the import header (`imports`) and drives the whole
//! pipeline (`transformer`).
pub mod analysis;
pub mod artifact;
pub mod ast;
pub mod config;
pub mod error;
pub mod imports;
pub mod laws;
pub mod metadata;
pub mod pattern;
pub mod runtime;
pub mod text;
pub mod transformer;

use vstd::prelude::*;

verus! {

} // verus!
