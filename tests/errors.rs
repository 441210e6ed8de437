use soda_gql_transform::error::{ErrorStage, PluginError, TransformErrors};

#[test]
fn metadata_not_found_fields() {
    let e = PluginError::metadata_not_found("/src/a.ts");
    assert_eq!(e.error_type, "PluginError");
    assert_eq!(e.code, "SODA_GQL_METADATA_NOT_FOUND");
    assert_eq!(e.message, "No metadata found for gql call in '/src/a.ts'");
    assert_eq!(e.stage, ErrorStage::Analysis);
    assert_eq!(e.filename.as_deref(), Some("/src/a.ts"));
    assert!(e.canonical_id.is_none());
    assert!(e.arg_name.is_none());
}

#[test]
fn artifact_not_found_fields() {
    let e = PluginError::artifact_not_found("/src/a.ts", "/src/a.ts::user");
    assert_eq!(e.code, "SODA_GQL_ANALYSIS_ARTIFACT_NOT_FOUND");
    assert_eq!(
        e.message,
        "No artifact found for canonical ID '/src/a.ts::user' in '/src/a.ts'"
    );
    assert_eq!(e.stage, ErrorStage::Analysis);
    assert_eq!(e.canonical_id.as_deref(), Some("/src/a.ts::user"));
}

#[test]
fn missing_builder_arg_fields() {
    let e = PluginError::missing_builder_arg("/src/a.ts", "model", "builder callback");
    assert_eq!(e.code, "SODA_GQL_TRANSFORM_MISSING_BUILDER_ARG");
    assert_eq!(
        e.message,
        "Missing required builder argument 'builder callback' for model in '/src/a.ts'"
    );
    assert_eq!(e.stage, ErrorStage::Transform);
    assert_eq!(e.builder_type.as_deref(), Some("model"));
    assert_eq!(e.arg_name.as_deref(), Some("builder callback"));
}

#[test]
fn format_joins_code_stage_and_message() {
    let e = PluginError::metadata_not_found("x.ts");
    assert_eq!(
        e.format(),
        "[SODA_GQL_METADATA_NOT_FOUND] (Analysis) No metadata found for gql call in 'x.ts'"
    );
    let t = PluginError::missing_builder_arg("x.ts", "slice", "cb");
    assert!(t.format().starts_with("[SODA_GQL_TRANSFORM_MISSING_BUILDER_ARG] (Transform) "));
}

#[test]
fn transform_errors_collects_in_order() {
    let mut errors = TransformErrors::new();
    assert!(errors.is_empty());
    errors.push(PluginError::metadata_not_found("a.ts"));
    errors.push(PluginError::artifact_not_found("a.ts", "a.ts::x"));
    assert!(!errors.is_empty());
    assert_eq!(errors.errors.len(), 2);
    assert_eq!(errors.errors[1].code, "SODA_GQL_ANALYSIS_ARTIFACT_NOT_FOUND");
}
