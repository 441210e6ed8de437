use soda_gql_transform::config::TransformConfig;
use soda_gql_transform::text::{decimal_string, is_legacy_specifier_exec, resolve_canonical_id, str_eq};
use soda_gql_transform::transformer::is_graphql_system_file;

#[test]
fn canonical_id_format() {
    assert_eq!(resolve_canonical_id("/app/src/user.ts", "userModel"), "/app/src/user.ts::userModel");
}

#[test]
fn canonical_id_normalizes_backslashes() {
    assert_eq!(
        resolve_canonical_id("C:\\app\\src\\user.ts", "a.b$1"),
        "C:/app/src/user.ts::a.b$1"
    );
}

#[test]
fn canonical_id_is_stable() {
    let first = resolve_canonical_id("src\\x.ts", "q");
    let second = resolve_canonical_id("src\\x.ts", "q");
    assert_eq!(first, second);
}

#[test]
fn legacy_alias_requires_slash_boundary() {
    let aliases = vec!["@/legacy".to_string()];
    assert!(is_legacy_specifier_exec("@/legacy/foo", &aliases));
    assert!(is_legacy_specifier_exec("@/legacy", &aliases));
    assert!(!is_legacy_specifier_exec("@/legacy-other", &aliases));
    assert!(!is_legacy_specifier_exec("@/leg", &aliases));
}

#[test]
fn legacy_alias_any_of_several() {
    let aliases = vec!["@/graphql-system".to_string(), "./graphql-system".to_string()];
    assert!(is_legacy_specifier_exec("./graphql-system/index", &aliases));
    assert!(!is_legacy_specifier_exec("react", &aliases));
    assert!(!is_legacy_specifier_exec("react", &Vec::new()));
}

#[test]
fn decimal_rendering() {
    assert_eq!(decimal_string(0), "0");
    assert_eq!(decimal_string(7), "7");
    assert_eq!(decimal_string(10), "10");
    assert_eq!(decimal_string(1234), "1234");
}

#[test]
fn string_equality() {
    assert!(str_eq("abc", "abc"));
    assert!(!str_eq("abc", "abd"));
    assert!(!str_eq("abc", "ab"));
    assert!(str_eq("", ""));
}

#[test]
fn system_file_detection() {
    let system = Some("C:/app/graphql-system/index.ts".to_string());
    assert!(is_graphql_system_file("C:\\app\\graphql-system\\index.ts", &system));
    assert!(!is_graphql_system_file("C:/app/other.ts", &system));
    assert!(!is_graphql_system_file("C:/app/graphql-system/index.ts", &None));
}

#[test]
fn default_config() {
    let c = TransformConfig::default();
    assert_eq!(c.graphql_system_aliases, vec!["@/graphql-system".to_string()]);
    assert!(!c.is_cjs);
    assert!(c.graphql_system_path.is_none());
    assert!(c.inject_paths.is_empty());
    assert!(!c.source_map);
}
