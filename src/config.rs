//! Transform configuration and inputs.
use vstd::prelude::*;
use vstd::string::StringExecFns;
use crate::artifact::BuilderArtifact;

verus! {

/// How a module is transformed.
#[derive(Debug)]
pub struct TransformConfig {
    /// Module specifiers of the legacy system module (exact, or a `/`-separated prefix).
    pub graphql_system_aliases: Vec<String>,
    /// Emit CommonJS (`require`) rather than ESM imports.
    pub is_cjs: bool,
    /// The system file itself: a module at this path is replaced by an empty stub.
    pub graphql_system_path: Option<String>,
    /// Paths of injected modules. Declared for a later extension: the pipeline does
    /// not consult them.
    pub inject_paths: Vec<String>,
    /// Whether the emitter also produces a source map.
    pub source_map: bool,
}

pub open spec fn aliases_view(v: Seq<String>) -> Seq<Seq<char>> {
    v.map_values(|a: String| a@)
}

impl Default for TransformConfig {
    fn default() -> (r: TransformConfig)
        ensures
            aliases_view(r.graphql_system_aliases@) == seq!["@/graphql-system"@],
            !r.is_cjs,
            r.graphql_system_path is None,
            r.inject_paths@.len() == 0,
            !r.source_map,
    {
        let mut aliases: Vec<String> = Vec::new();
        aliases.push(String::from_str("@/graphql-system"));
        let r = TransformConfig {
            graphql_system_aliases: aliases,
            is_cjs: false,
            graphql_system_path: None,
            inject_paths: Vec::new(),
            source_map: false,
        };
        assert(aliases_view(r.graphql_system_aliases@) =~= seq!["@/graphql-system"@]);
        r
    }
}

/// Input of a one-shot transform, with the artifact table still serialized.
#[derive(Debug)]
pub struct TransformInput {
    pub source_code: String,
    pub source_path: String,
    /// The artifact table as JSON.
    pub artifact_json: String,
    pub config: TransformConfig,
}

/// Input of a transform against an artifact table parsed once and shared.
pub struct TransformInputRef<'a> {
    pub source_code: String,
    pub source_path: String,
    pub artifact: &'a BuilderArtifact,
    pub config: TransformConfig,
}

} // verus!
