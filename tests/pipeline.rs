use soda_gql_transform::analysis::GqlCallFinder;
use soda_gql_transform::artifact::{BuilderArtifact, BuilderArtifactElement};
use soda_gql_transform::ast::{Module, Node, NodeKind, Span};
use soda_gql_transform::config::TransformConfig;
use soda_gql_transform::imports::ImportManager;
use soda_gql_transform::metadata::MetadataCollector;
use soda_gql_transform::runtime::RuntimeCallBuilder;
use soda_gql_transform::transformer::{insert_runtime_calls, transform_module, ModuleOutcome, TransformResult};

const PATH: &str = "/app/src/defs.ts";

fn node(kind: NodeKind, text: &str, children: Vec<Node>) -> Node {
    Node { kind, span: Span { lo: 0, hi: 0 }, text: text.to_string(), children }
}

fn at(mut n: Node, lo: u32) -> Node {
    n.span = Span { lo, hi: lo + 1 };
    n
}

fn ident(t: &str) -> Node {
    node(NodeKind::Ident, t, vec![])
}

fn name(t: &str) -> Node {
    node(NodeKind::Name, t, vec![])
}

fn string(t: &str) -> Node {
    node(NodeKind::Str, t, vec![])
}

fn member(obj: Node, prop: &str) -> Node {
    node(NodeKind::Member, "", vec![obj, name(prop)])
}

fn call(callee: Node, args: Vec<Node>) -> Node {
    let mut children = vec![callee];
    children.extend(args);
    node(NodeKind::Call, "", children)
}

fn arrow(body: Node) -> Node {
    node(NodeKind::Arrow, "", vec![body])
}

/// `gql.default(() => <ns>.<method>(args))` at a given span.
fn gql_default(lo: u32, ns: &str, method: &str, args: Vec<Node>) -> Node {
    let inner = call(member(ident(ns), method), args);
    at(call(member(ident("gql"), "default"), vec![arrow(inner)]), lo)
}

fn const_decl(binding: &str, init: Node) -> Node {
    node(NodeKind::VarDecl, "const", vec![node(NodeKind::Declarator, "", vec![ident(binding), init])])
}

fn import(source: &str, locals: &[&str]) -> Node {
    node(
        NodeKind::Import,
        source,
        locals.iter().map(|l| node(NodeKind::ImportNamed, l, vec![])).collect(),
    )
}

fn expr_stmt(e: Node) -> Node {
    node(NodeKind::ExprStmt, "", vec![e])
}

fn show(n: &Node) -> String {
    let kids: Vec<String> = n.children.iter().map(show).collect();
    if kids.is_empty() {
        format!("{:?}({})", n.kind, n.text)
    } else if n.text.is_empty() {
        format!("{:?}[{}]", n.kind, kids.join(", "))
    } else {
        format!("{:?}({})[{}]", n.kind, n.text, kids.join(", "))
    }
}

fn paths(module: &Module) -> Vec<String> {
    MetadataCollector::collect(module, PATH)
        .entries
        .iter()
        .map(|e| e.metadata.ast_path.clone())
        .collect()
}

fn model_args(with_normalize: bool) -> Vec<Node> {
    let mut args = vec![node(NodeKind::Object, "", vec![]), ident("fields")];
    if with_normalize {
        args.push(ident("normalize"));
    }
    args
}

fn artifact(rows: Vec<(&str, BuilderArtifactElement)>) -> BuilderArtifact {
    let mut a = BuilderArtifact::new();
    for (id, e) in rows {
        a.insert(id.to_string(), e);
    }
    a
}

fn operation(name: &str, json: &str) -> BuilderArtifactElement {
    BuilderArtifactElement::Operation { operation_name: name.to_string(), prebuild_json: json.to_string() }
}

fn model(typename: &str) -> BuilderArtifactElement {
    BuilderArtifactElement::Model { typename: typename.to_string() }
}

fn rewritten(outcome: ModuleOutcome) -> (Module, Vec<soda_gql_transform::error::PluginError>) {
    match outcome {
        ModuleOutcome::Rewritten { module, errors, .. } => (module, errors),
        other => panic!("expected a rewritten module, got {:?}", other),
    }
}

#[test]
fn sibling_definitions_get_suffixed_paths() {
    let m = Module {
        body: vec![
            const_decl("a", gql_default(10, "model", "User", model_args(true))),
            const_decl("a", gql_default(20, "model", "User", model_args(true))),
            const_decl("a", gql_default(30, "model", "User", model_args(true))),
        ],
    };
    assert_eq!(paths(&m), vec!["a", "a$1", "a$2"]);
}

#[test]
fn nested_scopes_join_with_dots() {
    let obj = node(
        NodeKind::Object,
        "",
        vec![node(NodeKind::KeyValue, "", vec![name("user"), gql_default(10, "model", "User", model_args(true))])],
    );
    let class = node(
        NodeKind::ClassDecl,
        "Repo",
        vec![node(
            NodeKind::Method,
            "",
            vec![name("load"), node(NodeKind::Block, "", vec![expr_stmt(gql_default(20, "q", "x", vec![]))])],
        )],
    );
    let m = Module { body: vec![const_decl("models", obj), class] };
    assert_eq!(paths(&m), vec!["models.user", "Repo.load"]);
}

#[test]
fn anonymous_functions_are_counted() {
    let f1 = const_decl("f", arrow(gql_default(10, "q", "a", vec![])));
    let f2 = const_decl("g", arrow(gql_default(20, "q", "b", vec![])));
    let anon = node(
        NodeKind::FnExpr,
        "",
        vec![node(NodeKind::Block, "", vec![expr_stmt(gql_default(30, "q", "c", vec![]))])],
    );
    let named = node(
        NodeKind::FnExpr,
        "build",
        vec![node(NodeKind::Block, "", vec![expr_stmt(gql_default(40, "q", "d", vec![]))])],
    );
    let m = Module { body: vec![f1, f2, expr_stmt(anon), expr_stmt(named)] };
    assert_eq!(paths(&m), vec!["f.arrow#0", "g.arrow#1", "function#0", "build"]);
}

#[test]
fn commonjs_export_targets_open_scopes() {
    let assign1 = node(
        NodeKind::Assign,
        "",
        vec![member(ident("exports"), "userModel"), gql_default(10, "model", "User", model_args(true))],
    );
    let assign2 = node(
        NodeKind::Assign,
        "",
        vec![member(member(ident("module"), "exports"), "other"), gql_default(20, "model", "User", model_args(true))],
    );
    let m = Module { body: vec![expr_stmt(assign1), expr_stmt(assign2)] };
    let md = MetadataCollector::collect(&m, PATH);
    assert_eq!(md.entries.len(), 2);
    assert_eq!(md.entries[0].metadata.ast_path, "userModel");
    assert!(md.entries[0].metadata.is_exported);
    assert_eq!(md.entries[0].metadata.export_binding.as_deref(), Some("userModel"));
    assert_eq!(md.entries[1].metadata.ast_path, "other");
}

#[test]
fn export_bindings_mark_top_level_definitions() {
    let exported = node(NodeKind::ExportDecl, "", vec![const_decl("userModel", gql_default(10, "model", "User", model_args(true)))]);
    let local = const_decl("hidden", gql_default(20, "model", "User", model_args(true)));
    let renamed = node(
        NodeKind::ExportNamed,
        "",
        vec![node(NodeKind::ExportSpecifier, "", vec![ident("hidden"), name("visible")])],
    );
    let m = Module { body: vec![exported, local, renamed] };
    let md = MetadataCollector::collect(&m, PATH);
    assert!(md.entries[0].metadata.is_top_level);
    assert_eq!(md.entries[0].metadata.export_binding.as_deref(), Some("userModel"));
    assert_eq!(md.entries[1].metadata.export_binding.as_deref(), Some("visible"));
    assert!(md.get(Span { lo: 20, hi: 21 }).is_some());
    assert!(md.get(Span { lo: 99, hi: 100 }).is_none());
}

#[test]
fn nested_builder_calls_are_not_registered() {
    let nested_callback = arrow(call(member(ident("op"), "Op"), vec![string("x"), gql_default(20, "model", "User", model_args(true))]));
    let outer = at(call(member(ident("gql"), "default"), vec![nested_callback]), 10);
    let m = Module { body: vec![const_decl("q", outer)] };
    assert_eq!(paths(&m), vec!["q"]);
}

#[test]
fn builder_shape_rules() {
    let spread = at(
        call(member(ident("gql"), "default"), vec![node(NodeKind::Spread, "", vec![ident("xs")])]),
        10,
    );
    let two_args = at(call(member(ident("gql"), "default"), vec![arrow(ident("x")), ident("y")]), 20);
    let chained = at(
        call(member(member(ident("ns"), "gql"), "default"), vec![node(NodeKind::FnExpr, "", vec![node(NodeKind::Block, "", vec![])])]),
        30,
    );
    let m = Module { body: vec![const_decl("a", spread), const_decl("b", two_args), const_decl("c", chained)] };
    assert_eq!(paths(&m), vec!["c"]);
}

#[test]
fn analysis_reports_missing_artifact_and_metadata() {
    let nested_callback = arrow(call(member(ident("op"), "Op"), vec![string("x"), gql_default(20, "model", "User", model_args(true))]));
    let outer = at(call(member(ident("gql"), "default"), vec![nested_callback]), 10);
    let m = Module { body: vec![const_decl("q", outer)] };
    let md = MetadataCollector::collect(&m, PATH);
    let table = artifact(vec![]);
    let mut finder = GqlCallFinder::new(&table, &md, PATH);
    finder.analyze(&m);
    assert!(!finder.has_transformations());
    let errors = finder.take_errors();
    assert_eq!(errors.len(), 2);
    assert_eq!(errors[0].code, "SODA_GQL_ANALYSIS_ARTIFACT_NOT_FOUND");
    assert_eq!(errors[0].canonical_id.as_deref(), Some("/app/src/defs.ts::q"));
    assert_eq!(errors[1].code, "SODA_GQL_METADATA_NOT_FOUND");
    assert!(finder.take_errors().is_empty());
}

#[test]
fn analysis_records_inner_call_arguments() {
    let call_site = gql_default(10, "model", "User", model_args(true));
    let m = Module { body: vec![const_decl("user", call_site)] };
    let md = MetadataCollector::collect(&m, PATH);
    let table = artifact(vec![("/app/src/defs.ts::user", model("User"))]);
    let mut finder = GqlCallFinder::new(&table, &md, PATH);
    finder.analyze(&m);
    assert!(finder.has_transformations());
    let probe = at(node(NodeKind::Call, "", vec![]), 10);
    let rep = finder.get_replacement(&probe).expect("a replacement");
    assert_eq!(rep.canonical_id, "/app/src/defs.ts::user");
    assert_eq!(rep.builder_args.len(), 3);
    assert_eq!(show(&rep.builder_args[2]), "Ident(normalize)");
    let other = at(node(NodeKind::Call, "", vec![]), 11);
    assert!(finder.get_replacement(&other).is_none());
}

#[test]
fn block_bodies_return_the_inner_call() {
    let inner = call(member(ident("model"), "User"), model_args(true));
    let block = node(
        NodeKind::Block,
        "",
        vec![expr_stmt(ident("noise")), node(NodeKind::Return, "", vec![inner])],
    );
    let fn_callback = node(NodeKind::FnExpr, "", vec![block]);
    let call_site = at(call(member(ident("gql"), "default"), vec![fn_callback]), 10);
    let m = Module { body: vec![const_decl("user", call_site)] };
    let table = artifact(vec![("/app/src/defs.ts::user", model("User"))]);
    let (out, errors) = rewritten(transform_module(&m, PATH, &table, &TransformConfig::default()));
    assert!(errors.is_empty());
    assert_eq!(
        show(&out.body[1].children[0].children[1]),
        "Call[Member[Ident(gqlRuntime), Name(model)], Object[KeyValue[Name(prebuild), Object[KeyValue[Name(typename), Str(User)]]], KeyValue[Name(runtime), Object[KeyValue[Name(normalize), Ident(normalize)]]]]]"
    );
}

fn replacement_for(element: BuilderArtifactElement, args: Vec<Node>) -> soda_gql_transform::analysis::GqlReplacement {
    soda_gql_transform::analysis::GqlReplacement {
        call_span: Span { lo: 1, hi: 2 },
        canonical_id: "x".to_string(),
        artifact: element,
        builder_args: args,
    }
}

#[test]
fn direct_protocol_model_and_slice() {
    let builder = RuntimeCallBuilder::new(false);
    let (e, stmt) = builder.build_replacement(&replacement_for(model("User"), model_args(true))).unwrap();
    assert!(stmt.is_none());
    assert!(show(&e).starts_with("Call[Member[Ident(gqlRuntime), Name(model)]"));
    let slice = BuilderArtifactElement::Slice { operation_type: "query".to_string() };
    let args = vec![node(NodeKind::Object, "", vec![]), ident("fields"), ident("project")];
    let (e, stmt) = builder.build_replacement(&replacement_for(slice, args)).unwrap();
    assert!(stmt.is_none());
    assert_eq!(
        show(&e),
        "Call[Member[Ident(gqlRuntime), Name(slice)], Object[KeyValue[Name(prebuild), Object[KeyValue[Name(operationType), Str(query)]]], KeyValue[Name(runtime), Object[KeyValue[Name(buildProjection), Ident(project)]]]]]"
    );
}

#[test]
fn direct_protocol_fails_without_the_argument() {
    let builder = RuntimeCallBuilder::new(false);
    assert!(builder.build_replacement(&replacement_for(model("User"), model_args(false))).is_none());
    let slice = BuilderArtifactElement::Slice { operation_type: "query".to_string() };
    assert!(builder.build_replacement(&replacement_for(slice, vec![ident("a")])).is_none());
}

#[test]
fn registered_protocol_operation() {
    let builder = RuntimeCallBuilder::new(true);
    let args = vec![string("x"), ident("getSlices")];
    let (e, stmt) = builder
        .build_replacement(&replacement_for(operation("GetUser", "{\"operationName\":\"GetUser\"}"), args))
        .unwrap();
    assert_eq!(
        show(&e),
        "Call[Member[Member[Ident(__soda_gql_runtime), Name(gqlRuntime)], Name(getComposedOperation)], Str(GetUser)]"
    );
    assert_eq!(
        show(&stmt.unwrap()),
        "ExprStmt[Call[Member[Member[Ident(__soda_gql_runtime), Name(gqlRuntime)], Name(composedOperation)], Object[KeyValue[Name(prebuild), Call[Member[Ident(JSON), Name(parse)], Str({\"operationName\":\"GetUser\"})]], KeyValue[Name(runtime), Object[KeyValue[Name(getSlices), Ident(getSlices)]]]]]]"
    );
    assert!(builder.build_replacement(&replacement_for(operation("GetUser", "{}"), vec![string("x")])).is_none());
}

#[test]
fn registered_protocol_inline_operation_needs_no_callback() {
    let builder = RuntimeCallBuilder::new(false);
    let inline = BuilderArtifactElement::InlineOperation { operation_name: "Q".to_string(), prebuild_json: "{}".to_string() };
    let (e, stmt) = builder.build_replacement(&replacement_for(inline, vec![])).unwrap();
    assert_eq!(show(&e), "Call[Member[Ident(gqlRuntime), Name(getInlineOperation)], Str(Q)]");
    assert_eq!(
        show(&stmt.unwrap()),
        "ExprStmt[Call[Member[Ident(gqlRuntime), Name(inlineOperation)], Object[KeyValue[Name(prebuild), Call[Member[Ident(JSON), Name(parse)], Str({})]], KeyValue[Name(runtime), Object()]]]]"
    );
}

#[test]
fn spread_argument_is_unwrapped() {
    let builder = RuntimeCallBuilder::new(false);
    let args = vec![ident("a"), ident("b"), node(NodeKind::Spread, "", vec![ident("rest")])];
    let (e, _) = builder.build_replacement(&replacement_for(model("User"), args)).unwrap();
    assert!(show(&e).ends_with("KeyValue[Name(normalize), Ident(rest)]]]]]"));
}

#[test]
fn legacy_imports_are_stripped() {
    let mut m = Module {
        body: vec![
            import("@/legacy/foo", &["x"]),
            import("@/legacy-other", &["y"]),
            import("@/legacy", &["z"]),
            expr_stmt(ident("x")),
        ],
    };
    let aliases = vec!["@/legacy".to_string()];
    let mut manager = ImportManager::new(false, false, &aliases);
    manager.visit_mut_module(&mut m);
    assert_eq!(m.body.len(), 2);
    assert_eq!(m.body[0].text, "@/legacy-other");
    assert_eq!(m.body[1].kind, NodeKind::ExprStmt);
}

#[test]
fn legacy_requires_are_stripped() {
    let require = |spec: &str| call(ident("require"), vec![string(spec)]);
    let wrapped = call(ident("__importDefault"), vec![require("@/graphql-system/x")]);
    let mixed = node(
        NodeKind::VarDecl,
        "const",
        vec![
            node(NodeKind::Declarator, "", vec![ident("gs"), require("@/graphql-system")]),
            node(NodeKind::Declarator, "", vec![ident("react"), require("react")]),
        ],
    );
    let only_legacy = node(NodeKind::VarDecl, "var", vec![node(NodeKind::Declarator, "", vec![ident("g"), wrapped])]);
    let mut m = Module { body: vec![mixed, only_legacy, expr_stmt(ident("go"))] };
    let aliases = vec!["@/graphql-system".to_string()];
    let mut manager = ImportManager::new(false, true, &aliases);
    manager.visit_mut_module(&mut m);
    assert_eq!(m.body.len(), 2);
    assert_eq!(m.body[0].children.len(), 1);
    assert_eq!(show(&m.body[0].children[0].children[0]), "Ident(react)");
}

#[test]
fn runtime_binding_merges_into_existing_import() {
    let mut m = Module {
        body: vec![import("@soda-gql/runtime", &["other"]), expr_stmt(ident("x"))],
    };
    let mut manager = ImportManager::new(true, false, &Vec::new());
    manager.visit_mut_module(&mut m);
    assert_eq!(m.body.len(), 2);
    assert_eq!(
        show(&m.body[0]),
        "Import(@soda-gql/runtime)[ImportNamed(other), ImportNamed(gqlRuntime)]"
    );
}

#[test]
fn runtime_binding_already_present() {
    let mut m = Module { body: vec![import("@soda-gql/runtime", &["gqlRuntime"]), expr_stmt(ident("x"))] };
    let mut manager = ImportManager::new(true, false, &Vec::new());
    manager.visit_mut_module(&mut m);
    assert_eq!(show(&m.body[0]), "Import(@soda-gql/runtime)[ImportNamed(gqlRuntime)]");
    assert_eq!(m.body.len(), 2);
}

#[test]
fn runtime_import_inserted_after_leading_imports() {
    let mut m = Module { body: vec![import("react", &["a"]), expr_stmt(ident("x")), import("b", &["b"])] };
    let mut manager = ImportManager::new(true, false, &Vec::new());
    manager.visit_mut_module(&mut m);
    assert_eq!(m.body.len(), 4);
    assert_eq!(show(&m.body[1]), "Import(@soda-gql/runtime)[ImportNamed(gqlRuntime)]");
    assert_eq!(show(&m.body[3]), "Import(b)[ImportNamed(b)]");
    assert_eq!(manager.registration_position(), 2);
}

#[test]
fn registration_position_follows_existing_runtime_import() {
    let mut m = Module {
        body: vec![import("a", &["a"]), expr_stmt(ident("x")), import("@soda-gql/runtime", &["gqlRuntime"])],
    };
    let mut manager = ImportManager::new(true, false, &Vec::new());
    manager.visit_mut_module(&mut m);
    assert_eq!(m.body.len(), 3);
    assert_eq!(manager.registration_position(), 3);
}

#[test]
fn runtime_require_for_commonjs() {
    let mut m = Module { body: vec![expr_stmt(ident("x"))] };
    let mut manager = ImportManager::new(true, true, &Vec::new());
    manager.visit_mut_module(&mut m);
    assert_eq!(
        show(&m.body[0]),
        "VarDecl(const)[Declarator[Ident(__soda_gql_runtime), Call[Ident(require), Str(@soda-gql/runtime)]]]"
    );
    assert_eq!(show(&m.body[1]), "ExprStmt[Ident(x)]");
}

#[test]
fn statements_inserted_at_position() {
    let mut m = Module {
        body: vec![import("a", &["a"]), expr_stmt(ident("x")), import("b", &["b"]), expr_stmt(ident("y"))],
    };
    insert_runtime_calls(&mut m, vec![expr_stmt(ident("r1")), expr_stmt(ident("r2"))], 1);
    let shown: Vec<String> = m.body.iter().map(show).collect();
    assert_eq!(
        shown,
        vec![
            "Import(a)[ImportNamed(a)]",
            "ExprStmt[Ident(r1)]",
            "ExprStmt[Ident(r2)]",
            "ExprStmt[Ident(x)]",
            "Import(b)[ImportNamed(b)]",
            "ExprStmt[Ident(y)]",
        ]
    );
}

#[test]
fn statements_position_is_clamped() {
    let mut m = Module { body: vec![expr_stmt(ident("y"))] };
    insert_runtime_calls(&mut m, vec![expr_stmt(ident("r"))], 7);
    assert_eq!(show(&m.body[1]), "ExprStmt[Ident(r)]");
    insert_runtime_calls(&mut m, vec![], 0);
    assert_eq!(m.body.len(), 2);
}

#[test]
fn commonjs_registration_follows_runtime_require() {
    let op = gql_default(10, "op", "Op", vec![string("x"), ident("s")]);
    let m = Module { body: vec![const_decl("q", op)] };
    let table = artifact(vec![("/app/src/defs.ts::q", operation("Q", "{}"))]);
    let mut config = TransformConfig::default();
    config.is_cjs = true;
    let (out, errors) = rewritten(transform_module(&m, PATH, &table, &config));
    assert!(errors.is_empty());
    let shown: Vec<String> = out.body.iter().map(show).collect();
    assert_eq!(shown.len(), 3);
    assert!(shown[0].starts_with("VarDecl(const)[Declarator[Ident(__soda_gql_runtime), Call[Ident(require)"));
    assert!(shown[1].starts_with("ExprStmt[Call[Member[Member[Ident(__soda_gql_runtime), Name(gqlRuntime)], Name(composedOperation)]"));
    assert!(shown[2].starts_with("VarDecl(const)[Declarator[Ident(q), Call[Member[Member[Ident(__soda_gql_runtime), Name(gqlRuntime)], Name(getComposedOperation)]"));
}

#[test]
fn commonjs_registration_follows_leading_requires() {
    let require = |spec: &str| call(ident("require"), vec![string(spec)]);
    let op = gql_default(10, "op", "Op", vec![string("x"), ident("s")]);
    let m = Module { body: vec![const_decl("r", require("react")), const_decl("q", op)] };
    let table = artifact(vec![("/app/src/defs.ts::q", operation("Q", "{}"))]);
    let mut config = TransformConfig::default();
    config.is_cjs = true;
    let (out, _) = rewritten(transform_module(&m, PATH, &table, &config));
    let shown: Vec<String> = out.body.iter().map(show).collect();
    assert!(shown[0].starts_with("VarDecl(const)[Declarator[Ident(r)"));
    assert!(shown[1].starts_with("VarDecl(const)[Declarator[Ident(__soda_gql_runtime)"));
    assert!(shown[2].starts_with("ExprStmt[Call["));
    assert!(shown[3].starts_with("VarDecl(const)[Declarator[Ident(q)"));
}

#[test]
fn registration_precedes_statements_between_imports() {
    let op = gql_default(10, "op", "Op", vec![string("x"), ident("s")]);
    let m = Module {
        body: vec![import("a", &["a"]), expr_stmt(ident("foo")), import("b", &["b"]), const_decl("q", op)],
    };
    let table = artifact(vec![("/app/src/defs.ts::q", operation("Q", "{}"))]);
    let (out, _) = rewritten(transform_module(&m, PATH, &table, &TransformConfig::default()));
    let shown: Vec<String> = out.body.iter().map(show).collect();
    assert_eq!(shown.len(), 6);
    assert_eq!(shown[0], "Import(a)[ImportNamed(a)]");
    assert_eq!(shown[1], "Import(@soda-gql/runtime)[ImportNamed(gqlRuntime)]");
    assert!(shown[2].starts_with("ExprStmt[Call[Member[Ident(gqlRuntime), Name(composedOperation)]"));
    assert_eq!(shown[3], "ExprStmt[Ident(foo)]");
    assert_eq!(shown[4], "Import(b)[ImportNamed(b)]");
}

#[test]
fn legacy_check_is_exposed_on_the_manager() {
    let aliases = vec!["@/legacy".to_string()];
    let manager = ImportManager::new(false, false, &aliases);
    assert!(manager.is_graphql_system_import("@/legacy/foo"));
    assert!(manager.is_graphql_system_import("@/legacy"));
    assert!(!manager.is_graphql_system_import("@/legacy-other"));
}

#[test]
fn operation_call_is_registered_then_looked_up() {
    let op = gql_default(10, "op", "Op", vec![string("x"), ident("getSlices")]);
    let m = Module {
        body: vec![
            import("@/graphql-system", &["gql"]),
            import("react", &["useState"]),
            const_decl("getUser", op),
        ],
    };
    let table = artifact(vec![("/app/src/defs.ts::getUser", operation("GetUser", "{\"name\":\"GetUser\"}"))]);
    let (out, errors) = rewritten(transform_module(&m, PATH, &table, &TransformConfig::default()));
    assert!(errors.is_empty());
    let shown: Vec<String> = out.body.iter().map(show).collect();
    assert_eq!(shown.len(), 4);
    assert_eq!(shown[0], "Import(react)[ImportNamed(useState)]");
    assert_eq!(shown[1], "Import(@soda-gql/runtime)[ImportNamed(gqlRuntime)]");
    assert!(shown[2].starts_with("ExprStmt[Call[Member[Ident(gqlRuntime), Name(composedOperation)]"));
    assert_eq!(
        shown[3],
        "VarDecl(const)[Declarator[Ident(getUser), Call[Member[Ident(gqlRuntime), Name(getComposedOperation)], Str(GetUser)]]]"
    );
}

#[test]
fn model_call_missing_argument_is_left_alone() {
    let call_site = gql_default(10, "model", "User", model_args(false));
    let m = Module { body: vec![const_decl("user", call_site)] };
    let before = show(&m.body[0]);
    let table = artifact(vec![("/app/src/defs.ts::user", model("User"))]);
    let (out, errors) = rewritten(transform_module(&m, PATH, &table, &TransformConfig::default()));
    assert_eq!(errors.len(), 1);
    assert_eq!(errors[0].code, "SODA_GQL_TRANSFORM_MISSING_BUILDER_ARG");
    assert_eq!(errors[0].builder_type.as_deref(), Some("model"));
    assert_eq!(out.body.len(), 1);
    assert_eq!(show(&out.body[0]), before);
}

#[test]
fn system_file_is_stubbed() {
    let m = Module { body: vec![const_decl("user", gql_default(10, "model", "User", model_args(true)))] };
    let mut config = TransformConfig::default();
    config.graphql_system_path = Some("/app/src/defs.ts".to_string());
    let table = artifact(vec![("/app/src/defs.ts::user", model("User"))]);
    assert!(matches!(transform_module(&m, "\\app\\src\\defs.ts", &table, &config), ModuleOutcome::Stub));
    let stub = TransformResult::stub();
    assert_eq!(stub.output_code, "export {};");
    assert!(stub.transformed);
    assert!(stub.errors.is_empty());
    assert!(stub.source_map.is_none());
}

#[test]
fn module_without_builder_calls_is_unchanged() {
    let m = Module {
        body: vec![import("@/graphql-system", &["gql"]), const_decl("x", call(member(ident("a"), "b"), vec![]))],
    };
    let table = artifact(vec![]);
    match transform_module(&m, PATH, &table, &TransformConfig::default()) {
        ModuleOutcome::Unchanged { errors } => {
            assert!(errors.is_empty());
            let result = TransformResult::unchanged("const x = a.b();".to_string(), errors);
            assert_eq!(result.output_code, "const x = a.b();");
            assert!(!result.transformed);
        }
        other => panic!("expected unchanged, got {:?}", other),
    }
}

#[test]
fn transform_is_deterministic() {
    let build = || Module {
        body: vec![
            const_decl("a", gql_default(10, "model", "User", model_args(true))),
            const_decl("b", gql_default(20, "model", "User", model_args(false))),
        ],
    };
    let table = artifact(vec![("/app/src/defs.ts::a", model("User")), ("/app/src/defs.ts::b", model("User"))]);
    let config = TransformConfig::default();
    let (m1, e1) = rewritten(transform_module(&build(), PATH, &table, &config));
    let (m2, e2) = rewritten(transform_module(&build(), PATH, &table, &config));
    let s1: Vec<String> = m1.body.iter().map(show).collect();
    let s2: Vec<String> = m2.body.iter().map(show).collect();
    assert_eq!(s1, s2);
    let f1: Vec<String> = e1.iter().map(|e| e.format()).collect();
    let f2: Vec<String> = e2.iter().map(|e| e.format()).collect();
    assert_eq!(f1, f2);
}

#[test]
fn artifact_lookup_takes_first_row() {
    let table = artifact(vec![("k", model("First")), ("k", model("Second")), ("j", model("J"))]);
    match table.get("k") {
        Some(BuilderArtifactElement::Model { typename }) => assert_eq!(typename, "First"),
        other => panic!("unexpected {:?}", other),
    }
    assert!(table.get("missing").is_none());
}

#[test]
fn clone_copies_the_tree() {
    let n = gql_default(10, "model", "User", model_args(true));
    let c = n.clone();
    assert_eq!(show(&n), show(&c));
    assert_eq!(c.span, Span { lo: 10, hi: 11 });
}

#[test]
fn runtime_require_follows_leading_requires() {
    let require = |spec: &str| call(ident("require"), vec![string(spec)]);
    let mut m = Module {
        body: vec![
            const_decl("a", require("a")),
            const_decl("b", require("b")),
            const_decl("c", ident("value")),
            const_decl("d", require("d")),
        ],
    };
    let mut manager = ImportManager::new(true, true, &Vec::new());
    manager.visit_mut_module(&mut m);
    assert_eq!(m.body.len(), 5);
    assert!(show(&m.body[2]).starts_with("VarDecl(const)[Declarator[Ident(__soda_gql_runtime)"));
    assert!(show(&m.body[3]).starts_with("VarDecl(const)[Declarator[Ident(c)"));
}

#[test]
fn direct_protocol_fragment_needs_no_argument() {
    let builder = RuntimeCallBuilder::new(false);
    let fragment = BuilderArtifactElement::Fragment { typename: "User".to_string() };
    let (e, stmt) = builder.build_replacement(&replacement_for(fragment, vec![])).unwrap();
    assert!(stmt.is_none());
    assert_eq!(
        show(&e),
        "Call[Member[Ident(gqlRuntime), Name(fragment)], Object[KeyValue[Name(prebuild), Object[KeyValue[Name(typename), Str(User)]]]]]"
    );
}

#[test]
fn rewritten_calls_are_listed_by_span() {
    let m = Module {
        body: vec![
            const_decl("a", gql_default(10, "model", "User", model_args(true))),
            const_decl("b", gql_default(20, "op", "Op", vec![string("x"), ident("slices")])),
        ],
    };
    let table = artifact(vec![
        ("/app/src/defs.ts::a", model("User")),
        ("/app/src/defs.ts::b", operation("B", "{}")),
    ]);
    match transform_module(&m, PATH, &table, &TransformConfig::default()) {
        ModuleOutcome::Rewritten { replaced, .. } => {
            assert_eq!(replaced.len(), 2);
            assert_eq!(replaced[0].span, Span { lo: 10, hi: 11 });
            assert_eq!(replaced[1].span, Span { lo: 20, hi: 21 });
            assert_eq!(show(&replaced[1].replacement), "Call[Member[Ident(gqlRuntime), Name(getComposedOperation)], Str(B)]");
        }
        other => panic!("expected a rewritten module, got {:?}", other),
    }
}
