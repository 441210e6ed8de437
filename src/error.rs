//! Structured, non-fatal diagnostics reported by the transform.
use vstd::prelude::*;
use vstd::string::StringExecFns;

verus! {

/// Stage of the pipeline that reported a diagnostic.
#[derive(Debug, Clone, Copy, PartialEq, Eq, Structural)]
pub enum ErrorStage {
    Analysis,
    Transform,
}

/// The name under which a stage is printed.
pub open spec fn stage_name(stage: ErrorStage) -> Seq<char> {
    match stage {
        ErrorStage::Analysis => "Analysis"@,
        ErrorStage::Transform => "Transform"@,
    }
}

/// One diagnostic record.
#[derive(Debug)]
pub struct PluginError {
    /// Always "PluginError", for type discrimination by consumers.
    pub error_type: String,
    /// Error code for programmatic handling.
    pub code: String,
    /// Human-readable message.
    pub message: String,
    /// Stage where the error occurred.
    pub stage: ErrorStage,
    /// File the error refers to.
    pub filename: Option<String>,
    /// Canonical id, where one was resolved.
    pub canonical_id: Option<String>,
    /// Artifact kind, where one applies.
    pub artifact_type: Option<String>,
    /// Builder kind, where one applies.
    pub builder_type: Option<String>,
    /// Name of the missing argument, where one applies.
    pub arg_name: Option<String>,
}

pub open spec fn opt_view(o: Option<String>) -> Option<Seq<char>> {
    match o {
        Some(s) => Some(s@),
        None => None,
    }
}

/// Plain-value view of a diagnostic.
pub struct PluginErrorView {
    pub error_type: Seq<char>,
    pub code: Seq<char>,
    pub message: Seq<char>,
    pub stage: ErrorStage,
    pub filename: Option<Seq<char>>,
    pub canonical_id: Option<Seq<char>>,
    pub artifact_type: Option<Seq<char>>,
    pub builder_type: Option<Seq<char>>,
    pub arg_name: Option<Seq<char>>,
}

impl View for PluginError {
    type V = PluginErrorView;

    open spec fn view(&self) -> PluginErrorView {
        PluginErrorView {
            error_type: self.error_type@,
            code: self.code@,
            message: self.message@,
            stage: self.stage,
            filename: opt_view(self.filename),
            canonical_id: opt_view(self.canonical_id),
            artifact_type: opt_view(self.artifact_type),
            builder_type: opt_view(self.builder_type),
            arg_name: opt_view(self.arg_name),
        }
    }
}

pub open spec fn metadata_not_found_spec(filename: Seq<char>) -> PluginErrorView {
    PluginErrorView {
        error_type: "PluginError"@,
        code: "SODA_GQL_METADATA_NOT_FOUND"@,
        message: "No metadata found for gql call in '"@ + filename + "'"@,
        stage: ErrorStage::Analysis,
        filename: Some(filename),
        canonical_id: None,
        artifact_type: None,
        builder_type: None,
        arg_name: None,
    }
}

pub open spec fn artifact_not_found_spec(filename: Seq<char>, canonical_id: Seq<char>) -> PluginErrorView {
    PluginErrorView {
        error_type: "PluginError"@,
        code: "SODA_GQL_ANALYSIS_ARTIFACT_NOT_FOUND"@,
        message: "No artifact found for canonical ID '"@ + canonical_id + "' in '"@ + filename
            + "'"@,
        stage: ErrorStage::Analysis,
        filename: Some(filename),
        canonical_id: Some(canonical_id),
        artifact_type: None,
        builder_type: None,
        arg_name: None,
    }
}

pub open spec fn missing_builder_arg_spec(
    filename: Seq<char>,
    builder_type: Seq<char>,
    arg_name: Seq<char>,
) -> PluginErrorView {
    PluginErrorView {
        error_type: "PluginError"@,
        code: "SODA_GQL_TRANSFORM_MISSING_BUILDER_ARG"@,
        message: "Missing required builder argument '"@ + arg_name + "' for "@ + builder_type
            + " in '"@ + filename + "'"@,
        stage: ErrorStage::Transform,
        filename: Some(filename),
        canonical_id: None,
        artifact_type: None,
        builder_type: Some(builder_type),
        arg_name: Some(arg_name),
    }
}

fn stage_label(stage: ErrorStage) -> (r: &'static str)
    ensures
        r@ == stage_name(stage),
{
    match stage {
        ErrorStage::Analysis => "Analysis",
        ErrorStage::Transform => "Transform",
    }
}

impl PluginError {
    /// A builder-shaped call had no scope metadata (an internal invariant was broken).
    pub fn metadata_not_found(filename: &str) -> (r: PluginError)
        ensures
            r@ == metadata_not_found_spec(filename@),
    {
        let mut message = String::from_str("No metadata found for gql call in '");
        message.append(filename);
        message.append("'");
        PluginError {
            error_type: String::from_str("PluginError"),
            code: String::from_str("SODA_GQL_METADATA_NOT_FOUND"),
            message,
            stage: ErrorStage::Analysis,
            filename: Some(String::from_str(filename)),
            canonical_id: None,
            artifact_type: None,
            builder_type: None,
            arg_name: None,
        }
    }

    /// The artifact table has no entry for a call's canonical id.
    pub fn artifact_not_found(filename: &str, canonical_id: &str) -> (r: PluginError)
        ensures
            r@ == artifact_not_found_spec(filename@, canonical_id@),
    {
        let mut message = String::from_str("No artifact found for canonical ID '");
        message.append(canonical_id);
        message.append("' in '");
        message.append(filename);
        message.append("'");
        PluginError {
            error_type: String::from_str("PluginError"),
            code: String::from_str("SODA_GQL_ANALYSIS_ARTIFACT_NOT_FOUND"),
            message,
            stage: ErrorStage::Analysis,
            filename: Some(String::from_str(filename)),
            canonical_id: Some(String::from_str(canonical_id)),
            artifact_type: None,
            builder_type: None,
            arg_name: None,
        }
    }

    /// A required argument of the inner builder call is absent.
    pub fn missing_builder_arg(filename: &str, builder_type: &str, arg_name: &str) -> (r:
        PluginError)
        ensures
            r@ == missing_builder_arg_spec(filename@, builder_type@, arg_name@),
    {
        let mut message = String::from_str("Missing required builder argument '");
        message.append(arg_name);
        message.append("' for ");
        message.append(builder_type);
        message.append(" in '");
        message.append(filename);
        message.append("'");
        PluginError {
            error_type: String::from_str("PluginError"),
            code: String::from_str("SODA_GQL_TRANSFORM_MISSING_BUILDER_ARG"),
            message,
            stage: ErrorStage::Transform,
            filename: Some(String::from_str(filename)),
            canonical_id: None,
            artifact_type: None,
            builder_type: Some(String::from_str(builder_type)),
            arg_name: Some(String::from_str(arg_name)),
        }
    }

    /// One line of text: `[code] (Stage) message`.
    pub fn format(&self) -> (r: String)
        ensures
            r@ == "["@ + self.code@ + "] ("@ + stage_name(self.stage) + ") "@ + self.message@,
    {
        let mut out = String::from_str("[");
        out.append(self.code.as_str());
        out.append("] (");
        out.append(stage_label(self.stage));
        out.append(") ");
        out.append(self.message.as_str());
        out
    }
}

/// The diagnostics of one transform, in the order they were reported.
#[derive(Debug)]
pub struct TransformErrors {
    pub errors: Vec<PluginError>,
}

impl TransformErrors {
    pub fn new() -> (r: TransformErrors)
        ensures
            r.errors@.len() == 0,
    {
        TransformErrors { errors: Vec::new() }
    }

    /// Appends one diagnostic.
    pub fn push(&mut self, error: PluginError)
        ensures
            final(self).errors@ == old(self).errors@.push(error),
    {
        self.errors.push(error);
    }

    pub fn is_empty(&self) -> (r: bool)
        ensures
            r == (self.errors@.len() == 0),
    {
        self.errors.len() == 0
    }
}

} // verus!
