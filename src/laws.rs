//! Properties of the transform as a whole, stated over the pipeline's specification
//! and proved.
use vstd::prelude::*;
use crate::analysis::{
    analyze_node, analyze_seq, empty_analysis, replacement_lookup, AnalysisState, ReplacementView,
};
use crate::artifact::ElementView;
use crate::ast::{NodeKind, Span, Tree};
use crate::error::missing_builder_arg_spec;
use crate::imports::{
    cjs_runtime_require, declares_require, has_runtime_binding, manage_imports, registration_pos,
    runtime_module, runtime_specifier, scan_items,
};
use crate::metadata::{
    collect_node, collect_seq, enter_counters, initial_state, join_path, module_metadata,
    occurrences, register, scope_segment, suffixed, CollectState, MetaView,
};
use crate::pattern::is_builder_call;
use crate::runtime::{arg_value, key_value, registration, runtime_call, string_lit, synthesize};
use crate::text::{canonical_id, decimal, digit_char, is_legacy_specifier, matches_alias, normalize_path};
use crate::transformer::{
    rewrite_node, rewrite_seq, insert_at, is_system_file, rewrite_here, transform_spec, OutcomeView, RewriteState,
};

verus! {

/// No node of the tree is a builder-shaped call.
pub open spec fn builder_free(t: Tree) -> bool
    decreases t, 1nat,
{
    !is_builder_call(t) && builder_free_seq(t.children)
}

pub open spec fn builder_free_seq(s: Seq<Tree>) -> bool
    decreases s, 0nat,
{
    s.len() == 0 || (builder_free_seq(s.subrange(0, s.len() - 1)) && builder_free(s[s.len() - 1]))
}

proof fn lemma_analyze_builder_free(
    t: Tree,
    path: Seq<char>,
    metadata: Seq<(Span, MetaView)>,
    rows: Seq<(Seq<char>, ElementView)>,
    st: AnalysisState,
)
    requires
        builder_free(t),
    ensures
        analyze_node(t, path, metadata, rows, st) == st,
    decreases t, 1nat,
{
    lemma_analyze_builder_free_seq(t.children, path, metadata, rows, st);
}

proof fn lemma_analyze_builder_free_seq(
    s: Seq<Tree>,
    path: Seq<char>,
    metadata: Seq<(Span, MetaView)>,
    rows: Seq<(Seq<char>, ElementView)>,
    st: AnalysisState,
)
    requires
        builder_free_seq(s),
    ensures
        analyze_seq(s, path, metadata, rows, st) == st,
    decreases s, 0nat,
{
    if s.len() > 0 {
        lemma_analyze_builder_free_seq(s.subrange(0, s.len() - 1), path, metadata, rows, st);
        lemma_analyze_builder_free(s[s.len() - 1], path, metadata, rows, st);
    }
}

/// A module without builder-shaped calls is left unchanged, with no diagnostics
/// (unless it is the system file, which is stubbed).
pub proof fn lemma_no_builder_calls_unchanged(
    body: Seq<Tree>,
    path: Seq<char>,
    rows: Seq<(Seq<char>, ElementView)>,
    aliases: Seq<Seq<char>>,
    is_cjs: bool,
    system_path: Option<Seq<char>>,
)
    requires
        builder_free_seq(body),
        !is_system_file(path, system_path),
    ensures
        transform_spec(body, path, rows, aliases, is_cjs, system_path) == (OutcomeView::Unchanged {
            errors: Seq::empty(),
        }),
{
    lemma_analyze_builder_free_seq(body, path, module_metadata(body), rows, empty_analysis());
}

/// The outcome is a function of the module, the path, the artifact table and the
/// configuration: equal inputs give equal outcomes.
pub proof fn lemma_transform_deterministic(
    body1: Seq<Tree>,
    body2: Seq<Tree>,
    path1: Seq<char>,
    path2: Seq<char>,
    rows1: Seq<(Seq<char>, ElementView)>,
    rows2: Seq<(Seq<char>, ElementView)>,
    aliases1: Seq<Seq<char>>,
    aliases2: Seq<Seq<char>>,
    is_cjs: bool,
    system_path1: Option<Seq<char>>,
    system_path2: Option<Seq<char>>,
)
    requires
        body1 == body2,
        path1 == path2,
        rows1 == rows2,
        aliases1 == aliases2,
        system_path1 == system_path2,
    ensures
        transform_spec(body1, path1, rows1, aliases1, is_cjs, system_path1) == transform_spec(
            body2,
            path2,
            rows2,
            aliases2,
            is_cjs,
            system_path2,
        ),
{
}

/// A file whose normalized path is the system path becomes the stub, whatever it holds.
pub proof fn lemma_system_file_stubbed(
    body: Seq<Tree>,
    path: Seq<char>,
    rows: Seq<(Seq<char>, ElementView)>,
    aliases: Seq<Seq<char>>,
    is_cjs: bool,
    system_path: Option<Seq<char>>,
)
    requires
        is_system_file(path, system_path),
    ensures
        transform_spec(body, path, rows, aliases, is_cjs, system_path) == OutcomeView::Stub,
{
}

/// A model call whose inner builder call lacks its third argument is left exactly
/// as it was, and exactly one missing-argument diagnostic is added.
pub proof fn lemma_missing_model_argument(
    t: Tree,
    reps: Seq<ReplacementView>,
    is_cjs: bool,
    path: Seq<char>,
    st: RewriteState,
)
    requires
        t.kind == NodeKind::Call,
        replacement_lookup(reps, t.span) matches Some(rep) && rep.artifact is Model
            && rep.builder_args.len() < 3,
    ensures
        rewrite_here(t, reps, is_cjs, path, st) == (
            t,
            RewriteState {
                errors: st.errors.push(
                    missing_builder_arg_spec(path, "model"@, "builder callback"@),
                ),
                ..st
            },
        ),
{
}

/// An operation call is replaced by a lookup by the operation's name, and its
/// registration statement, carrying the serialized descriptor, is set aside for
/// module scope.
pub proof fn lemma_operation_registered(
    is_cjs: bool,
    operation_name: Seq<char>,
    prebuild_json: Seq<char>,
    args: Seq<Tree>,
)
    requires
        args.len() >= 2,
    ensures
        synthesize(
            is_cjs,
            ElementView::Operation { operation_name, prebuild_json },
            args,
        ) == Some(
            (
                runtime_call(is_cjs, "getComposedOperation"@, seq![string_lit(operation_name)]),
                Some(
                    registration(
                        is_cjs,
                        "composedOperation"@,
                        prebuild_json,
                        seq![key_value("getSlices"@, arg_value(args[1]))],
                    ),
                ),
            ),
        ),
{
}

/// The runtime module imported.
pub open spec fn imports_runtime(item: Tree) -> bool {
    item.kind == NodeKind::Import && item.text == runtime_module()
}

proof fn lemma_scan_existing(items: Seq<Tree>, aliases: Seq<Seq<char>>)
    requires
        !is_legacy_specifier(runtime_module(), aliases),
    ensures
        ({
            let sc = scan_items(items, aliases);
            &&& (exists|i: int| 0 <= i < items.len() && #[trigger] imports_runtime(items[i]))
                ==> sc.existing is Some
            &&& sc.existing matches Some(k) ==> k < sc.body.len() && exists|i: int|
                0 <= i < items.len() && #[trigger] items[i] == sc.body[k as int]
        }),
    decreases items.len(),
{
    if items.len() > 0 {
        let prefix = items.subrange(0, items.len() - 1);
        lemma_scan_existing(prefix, aliases);
        let sc0 = scan_items(prefix, aliases);
        let sc = scan_items(items, aliases);
        let last = items[items.len() - 1];
        if exists|i: int| 0 <= i < items.len() && #[trigger] imports_runtime(items[i]) {
            let i = choose|i: int| 0 <= i < items.len() && #[trigger] imports_runtime(items[i]);
            if i < items.len() - 1 {
                assert(imports_runtime(prefix[i]));
            }
        }
        match sc.existing {
            Some(k) => {
                if sc0.existing == sc.existing {
                    let i = choose|i: int|
                        0 <= i < prefix.len() && #[trigger] prefix[i] == sc0.body[k as int];
                    assert(items[i] == prefix[i]);
                } else {
                    assert(sc.body[k as int] == last);
                }
            },
            None => {},
        }
    }
}

/// When the module already imports the runtime module without the runtime binding,
/// the binding joins that import: no second import statement is created.
pub proof fn lemma_runtime_import_merged(items: Seq<Tree>, aliases: Seq<Seq<char>>, is_cjs: bool)
    requires
        !is_legacy_specifier(runtime_module(), aliases),
        exists|i: int| 0 <= i < items.len() && #[trigger] imports_runtime(items[i]),
        forall|i: int| 0 <= i < items.len() && #[trigger] imports_runtime(items[i])
            ==> !has_runtime_binding(items[i]),
    ensures
        ({
            let sc = scan_items(items, aliases);
            let r = manage_imports(items, aliases, true, is_cjs);
            &&& r.len() == sc.body.len()
            &&& exists|k: int|
                0 <= k < r.len() && imports_runtime(sc.body[k]) && #[trigger] r[k] == (Tree {
                    children: sc.body[k].children.push(runtime_specifier()),
                    ..sc.body[k]
                }) && has_runtime_binding(r[k])
        }),
{
    lemma_scan_existing(items, aliases);
    crate::imports::lemma_scan_bounds(items, aliases);
    let sc = scan_items(items, aliases);
    let k = sc.existing->Some_0;
    let i = choose|i: int| 0 <= i < items.len() && #[trigger] items[i] == sc.body[k as int];
    assert(imports_runtime(items[i]));
    let r = manage_imports(items, aliases, true, is_cjs);
    let merged = r[k as int];
    assert(merged.children[merged.children.len() - 1] == runtime_specifier());
    reveal_strlit("gqlRuntime");
}


pub open spec fn no_dollar(s: Seq<char>) -> bool {
    forall|i: int| 0 <= i < s.len() ==> s[i] != '$'
}

/// No scope name that the traversal meets contains `$` (names inside builder
/// calls are not met).
pub open spec fn scope_names_dollar_free(t: Tree) -> bool
    decreases t, 1nat,
{
    is_builder_call(t) || ((match scope_segment(t, initial_state()) {
        Some(s) => no_dollar(s),
        None => true,
    }) && scope_names_dollar_free_seq(t.children))
}

pub open spec fn scope_names_dollar_free_seq(s: Seq<Tree>) -> bool
    decreases s, 0nat,
{
    s.len() == 0 || (scope_names_dollar_free_seq(s.subrange(0, s.len() - 1))
        && scope_names_dollar_free(s[s.len() - 1]))
}

proof fn lemma_decimal_shape(n: nat)
    ensures
        decimal(n).len() >= 1,
        n >= 10 ==> decimal(n).len() >= 2,
        no_dollar(decimal(n)),
    decreases n,
{
    if n >= 10 {
        lemma_decimal_shape(n / 10);
    }
}

proof fn lemma_decimal_injective(a: nat, b: nat)
    requires
        decimal(a) == decimal(b),
    ensures
        a == b,
    decreases a,
{
    lemma_decimal_shape(a);
    lemma_decimal_shape(b);
    if a < 10 && b < 10 {
        assert(decimal(a)[0] == digit_char(a));
        assert(decimal(b)[0] == digit_char(b));
    } else if a >= 10 && b >= 10 {
        let da = decimal(a);
        let db = decimal(b);
        assert(da[da.len() - 1] == digit_char(a % 10));
        assert(db[db.len() - 1] == digit_char(b % 10));
        assert(a % 10 == b % 10);
        assert(decimal(a / 10) =~= da.drop_last());
        assert(decimal(b / 10) =~= db.drop_last());
        lemma_decimal_injective(a / 10, b / 10);
        assert(a == 10 * (a / 10) + a % 10) by (nonlinear_arith);
        assert(b == 10 * (b / 10) + b % 10) by (nonlinear_arith);
    }
}

proof fn lemma_join_no_dollar(stack: Seq<Seq<char>>)
    requires
        forall|i: int| 0 <= i < stack.len() ==> no_dollar(#[trigger] stack[i]),
    ensures
        no_dollar(join_path(stack)),
    decreases stack.len(),
{
    reveal_strlit(".");
    if stack.len() > 1 {
        let prefix = stack.subrange(0, stack.len() - 1);
        assert forall|i: int| 0 <= i < prefix.len() implies no_dollar(#[trigger] prefix[i]) by {
            assert(prefix[i] == stack[i]);
        }
        lemma_join_no_dollar(prefix);
        let j = join_path(prefix) + "."@ + stack[stack.len() - 1];
        assert(no_dollar(stack[stack.len() - 1]));
        assert forall|i: int| 0 <= i < j.len() implies j[i] != '$' by {
            if i < join_path(prefix).len() {
            } else if i == join_path(prefix).len() {
            } else {
                assert(j[i] == stack[stack.len() - 1][i - join_path(prefix).len() - 1]);
            }
        }
    }
}

/// Distinct (base, occurrence) pairs give distinct suffixed paths.
proof fn lemma_suffixed_injective(b1: Seq<char>, k1: nat, b2: Seq<char>, k2: nat)
    requires
        no_dollar(b1),
        no_dollar(b2),
        suffixed(b1, k1) == suffixed(b2, k2),
    ensures
        b1 == b2 && k1 == k2,
{
    reveal_strlit("$");
    let s = suffixed(b1, k1);
    if k1 == 0 && k2 == 0 {
    } else if k1 == 0 {
        assert(s[b2.len() as int] == '$');
        assert(s[b2.len() as int] == b1[b2.len() as int]);
    } else if k2 == 0 {
        assert(s[b1.len() as int] == '$');
        assert(s[b1.len() as int] == b2[b1.len() as int]);
    } else {
        lemma_decimal_shape(k1);
        lemma_decimal_shape(k2);
        if b1.len() < b2.len() {
            assert(s[b1.len() as int] == '$');
            assert(s[b1.len() as int] == b2[b1.len() as int]);
        } else if b2.len() < b1.len() {
            assert(s[b2.len() as int] == '$');
            assert(s[b2.len() as int] == b1[b2.len() as int]);
        } else {
            assert(b1 =~= s.subrange(0, b1.len() as int));
            assert(b2 =~= s.subrange(0, b2.len() as int));
            assert(decimal(k1) =~= s.subrange(b1.len() as int + 1, s.len() as int));
            assert(decimal(k2) =~= s.subrange(b2.len() as int + 1, s.len() as int));
            lemma_decimal_injective(k1, k2);
        }
    }
}

/// Each registered path is its base suffixed with the number of earlier
/// registrations of the same base; bases are free of `$`.
pub open spec fn paths_ok(st: CollectState) -> bool {
    &&& st.entries.len() == st.bases.len()
    &&& forall|i: int| 0 <= i < st.bases.len() ==> no_dollar(#[trigger] st.bases[i])
    &&& forall|i: int|
        0 <= i < st.entries.len() ==> (#[trigger] st.entries[i]).1.ast_path == suffixed(
            st.bases[i],
            occurrences(st.bases.take(i), st.bases[i]),
        )
}

proof fn lemma_register_paths_ok(
    span: Span,
    stack: Seq<Seq<char>>,
    exports: Seq<(Seq<char>, Seq<char>)>,
    st: CollectState,
)
    requires
        paths_ok(st),
        forall|i: int| 0 <= i < stack.len() ==> no_dollar(#[trigger] stack[i]),
    ensures
        paths_ok(register(span, stack, exports, st)),
{
    lemma_join_no_dollar(stack);
    let r = register(span, stack, exports, st);
    let n = st.bases.len() as int;
    assert(r.bases.take(n) =~= st.bases);
    assert forall|i: int| 0 <= i < r.entries.len() implies (#[trigger] r.entries[i]).1.ast_path
        == suffixed(r.bases[i], occurrences(r.bases.take(i), r.bases[i])) by {
        if i < n {
            assert(r.bases.take(i) =~= st.bases.take(i));
        }
    }
}

proof fn lemma_collect_paths_ok(
    t: Tree,
    stack: Seq<Seq<char>>,
    exports: Seq<(Seq<char>, Seq<char>)>,
    st: CollectState,
)
    requires
        paths_ok(st),
        forall|i: int| 0 <= i < stack.len() ==> no_dollar(#[trigger] stack[i]),
        scope_names_dollar_free(t),
    ensures
        paths_ok(collect_node(t, stack, exports, st)),
    decreases t, 1nat,
{
    if is_builder_call(t) {
        lemma_register_paths_ok(t.span, stack, exports, st);
    } else {
        let seg = scope_segment(t, st);
        let inner = crate::metadata::push_scope(stack, seg);
        match seg {
            Some(s) => {
                if t.kind == NodeKind::FnExpr && t.text.len() == 0 {
                    reveal_strlit("function#");
                    lemma_decimal_shape(st.function_count as nat);
                    assert(no_dollar(s)) by {
                        assert forall|i: int| 0 <= i < s.len() implies s[i] != '$' by {
                            if i >= 9 {
                                assert(s[i] == decimal(st.function_count as nat)[i - 9]);
                            }
                        }
                    }
                } else if t.kind == NodeKind::Arrow {
                    reveal_strlit("arrow#");
                    lemma_decimal_shape(st.arrow_count as nat);
                    assert(no_dollar(s)) by {
                        assert forall|i: int| 0 <= i < s.len() implies s[i] != '$' by {
                            if i >= 6 {
                                assert(s[i] == decimal(st.arrow_count as nat)[i - 6]);
                            }
                        }
                    }
                } else {
                    assert(scope_segment(t, initial_state()) == seg);
                }
                assert forall|i: int| 0 <= i < inner.len() implies no_dollar(#[trigger] inner[i]) by {
                    if i < stack.len() {
                        assert(inner[i] == stack[i]);
                    }
                }
            },
            None => {},
        }
        lemma_collect_seq_paths_ok(t.children, inner, exports, enter_counters(t, st));
    }
}

proof fn lemma_collect_seq_paths_ok(
    s: Seq<Tree>,
    stack: Seq<Seq<char>>,
    exports: Seq<(Seq<char>, Seq<char>)>,
    st: CollectState,
)
    requires
        paths_ok(st),
        forall|i: int| 0 <= i < stack.len() ==> no_dollar(#[trigger] stack[i]),
        scope_names_dollar_free_seq(s),
    ensures
        paths_ok(collect_seq(s, stack, exports, st)),
    decreases s, 0nat,
{
    if s.len() > 0 {
        let prefix = s.subrange(0, s.len() - 1);
        lemma_collect_seq_paths_ok(prefix, stack, exports, st);
        lemma_collect_paths_ok(s[s.len() - 1], stack, exports, collect_seq(prefix, stack, exports, st));
    }
}

proof fn lemma_occurrences_grow(bases: Seq<Seq<char>>, b: Seq<char>, i: int, j: int)
    requires
        0 <= i < j <= bases.len(),
        bases[i] == b,
    ensures
        occurrences(bases.take(j), b) >= occurrences(bases.take(i), b) + 1,
    decreases j - i,
{
    if j == i + 1 {
        assert(bases.take(j).subrange(0, i) =~= bases.take(i));
    } else {
        lemma_occurrences_grow(bases, b, i, j - 1);
        assert(bases.take(j).subrange(0, j - 1) =~= bases.take(j - 1));
    }
}

/// Two distinct builder calls of a module never share a scope path, provided no
/// scope name contains `$` (a name such as `a$1` could otherwise meet the second
/// occurrence of `a`).
pub proof fn lemma_scope_paths_unique(body: Seq<Tree>)
    requires
        scope_names_dollar_free_seq(body),
    ensures
        forall|i: int, j: int|
            0 <= i < j < module_metadata(body).len() ==> (#[trigger] module_metadata(body)[i]).1.ast_path
                != (#[trigger] module_metadata(body)[j]).1.ast_path,
{
    let exports = crate::metadata::export_bindings(body);
    let st = collect_seq(body, Seq::empty(), exports, initial_state());
    lemma_collect_seq_paths_ok(body, Seq::empty(), exports, initial_state());
    assert forall|i: int, j: int|
        0 <= i < j < module_metadata(body).len() implies (#[trigger] module_metadata(body)[i]).1.ast_path
        != (#[trigger] module_metadata(body)[j]).1.ast_path by {
        let bi = st.bases[i];
        let bj = st.bases[j];
        let ki = occurrences(st.bases.take(i), bi);
        let kj = occurrences(st.bases.take(j), bj);
        if st.entries[i].1.ast_path == st.entries[j].1.ast_path {
            lemma_suffixed_injective(bi, ki, bj, kj);
            lemma_occurrences_grow(st.bases, bi, i, j);
        }
    }
}

/// An alias matches itself and everything below it after a `/`, and nothing that
/// merely continues its last segment (`@/legacy` does not match `@/legacy-other`).
pub proof fn lemma_alias_slash_boundary(alias: Seq<char>, rest: Seq<char>)
    ensures
        matches_alias(alias, alias),
        matches_alias(alias + "/"@ + rest, alias),
        rest.len() > 0 && rest[0] != '/' ==> !matches_alias(alias + rest, alias),
{
    reveal_strlit("/");
    assert((alias + "/"@ + rest).subrange(0, alias.len() as int + 1) =~= alias + "/"@);
    if rest.len() > 0 && rest[0] != '/' {
        let s = alias + rest;
        assert(s.len() != alias.len());
        if crate::text::starts_with(s, alias + "/"@) {
            assert(s.subrange(0, alias.len() as int + 1)[alias.len() as int] == (alias + "/"@)[alias.len() as int]);
        }
    }
}

proof fn lemma_scan_imports_not_legacy(items: Seq<Tree>, aliases: Seq<Seq<char>>)
    ensures
        forall|k: int|
            0 <= k < scan_items(items, aliases).body.len() && (#[trigger] scan_items(
                items,
                aliases,
            ).body[k]).kind == NodeKind::Import ==> !is_legacy_specifier(
                scan_items(items, aliases).body[k].text,
                aliases,
            ),
    decreases items.len(),
{
    if items.len() > 0 {
        let prefix = items.subrange(0, items.len() - 1);
        lemma_scan_imports_not_legacy(prefix, aliases);
        let b0 = scan_items(prefix, aliases).body;
        let b = scan_items(items, aliases).body;
        assert forall|k: int| 0 <= k < b.len() && (#[trigger] b[k]).kind == NodeKind::Import implies !is_legacy_specifier(b[k].text, aliases) by {
            if k < b0.len() {
                assert(b[k] == b0[k]);
            }
        }
    }
}

/// After the import pass, no import declaration names a legacy alias (the runtime
/// module itself not being one).
pub proof fn lemma_no_legacy_imports_left(
    items: Seq<Tree>,
    aliases: Seq<Seq<char>>,
    add_runtime: bool,
    is_cjs: bool,
)
    requires
        !is_legacy_specifier(runtime_module(), aliases),
    ensures
        forall|k: int|
            0 <= k < manage_imports(items, aliases, add_runtime, is_cjs).len() && (
            #[trigger] manage_imports(items, aliases, add_runtime, is_cjs)[k]).kind
                == NodeKind::Import ==> !is_legacy_specifier(
                manage_imports(items, aliases, add_runtime, is_cjs)[k].text,
                aliases,
            ),
{
    lemma_scan_imports_not_legacy(items, aliases);
    crate::imports::lemma_scan_bounds(items, aliases);
    let sc = scan_items(items, aliases);
    let r = manage_imports(items, aliases, add_runtime, is_cjs);
    assert forall|k: int| 0 <= k < r.len() && (#[trigger] r[k]).kind == NodeKind::Import implies !is_legacy_specifier(r[k].text, aliases) by {
        if add_runtime {
            match sc.existing {
                Some(idx) => {
                    if k != idx {
                        assert(r[k] == sc.body[k]);
                    } else {
                        assert(r[k].text == sc.body[k].text);
                    }
                },
                None => {
                    if k < sc.insert_pos {
                        assert(r[k] == sc.body[k]);
                    } else if k > sc.insert_pos {
                        assert(r[k] == sc.body[k - 1]);
                    }
                },
            }
        }
    }
}

/// A canonical id does not depend on which separator the path was written with:
/// normalizing the path first gives the same id, and the path part holds no
/// backslash.
pub proof fn lemma_canonical_id_normalized(file_path: Seq<char>, ast_path: Seq<char>)
    ensures
        canonical_id(normalize_path(file_path), ast_path) == canonical_id(file_path, ast_path),
        forall|i: int| 0 <= i < file_path.len() ==> canonical_id(file_path, ast_path)[i] != '\\',
        canonical_id(file_path, ast_path).subrange(0, file_path.len() as int) == normalize_path(file_path),
{
    assert(normalize_path(normalize_path(file_path)) =~= normalize_path(file_path));
    assert(canonical_id(file_path, ast_path).subrange(0, file_path.len() as int) =~= normalize_path(file_path));
}

/// An item of the leading import/require region.
pub open spec fn in_leading_region(t: Tree) -> bool {
    t.kind == NodeKind::Import || (t.kind == NodeKind::VarDecl && declares_require(t))
}

/// The runtime binding: an import of the runtime module that binds `gqlRuntime`,
/// or the runtime require.
pub open spec fn is_runtime_binding(t: Tree) -> bool {
    (t.kind == NodeKind::Import && has_runtime_binding(t)) || t == cjs_runtime_require()
}

proof fn lemma_scan_leading_region(items: Seq<Tree>, aliases: Seq<Seq<char>>)
    ensures
        ({
            let sc = scan_items(items, aliases);
            &&& sc.insert_pos <= sc.body.len()
            &&& !sc.found_non_import ==> sc.insert_pos == sc.body.len()
            &&& forall|i: int| 0 <= i < sc.insert_pos ==> #[trigger] in_leading_region(sc.body[i])
        }),
    decreases items.len(),
{
    if items.len() > 0 {
        let prefix = items.subrange(0, items.len() - 1);
        lemma_scan_leading_region(prefix, aliases);
        let sc0 = scan_items(prefix, aliases);
        let sc = scan_items(items, aliases);
        assert forall|i: int| 0 <= i < sc.insert_pos implies #[trigger] in_leading_region(sc.body[i]) by {
            if i < sc0.body.len() {
                assert(sc.body[i] == sc0.body[i]);
                if i >= sc0.insert_pos {
                    assert(!sc0.found_non_import);
                }
            }
        }
    }
}

proof fn lemma_rewrite_needs_runtime(
    t: Tree,
    reps: Seq<ReplacementView>,
    is_cjs: bool,
    path: Seq<char>,
    st: RewriteState,
)
    requires
        st.stmts.len() > 0 ==> st.needs_runtime,
    ensures
        rewrite_node(t, reps, is_cjs, path, st).1.stmts.len() > 0 ==> rewrite_node(t, reps, is_cjs, path, st).1.needs_runtime,
    decreases t, 1nat,
{
    lemma_rewrite_seq_needs_runtime(t.children, reps, is_cjs, path, st);
}

proof fn lemma_rewrite_seq_needs_runtime(
    s: Seq<Tree>,
    reps: Seq<ReplacementView>,
    is_cjs: bool,
    path: Seq<char>,
    st: RewriteState,
)
    requires
        st.stmts.len() > 0 ==> st.needs_runtime,
    ensures
        rewrite_seq(s, reps, is_cjs, path, st).1.stmts.len() > 0 ==> rewrite_seq(s, reps, is_cjs, path, st).1.needs_runtime,
    decreases s, 0nat,
{
    if s.len() > 0 {
        let prefix = s.subrange(0, s.len() - 1);
        lemma_rewrite_seq_needs_runtime(prefix, reps, is_cjs, path, st);
        lemma_rewrite_needs_runtime(s[s.len() - 1], reps, is_cjs, path, rewrite_seq(prefix, reps, is_cjs, path, st).1);
    }
}

/// A rewrite that sets aside registration statements also asks for the runtime
/// import, so the import pass adds or keeps the runtime binding.
pub proof fn lemma_registrations_need_runtime(
    body: Seq<Tree>,
    reps: Seq<ReplacementView>,
    is_cjs: bool,
    path: Seq<char>,
)
    ensures
        rewrite_seq(body, reps, is_cjs, path, crate::transformer::empty_rewrite()).1.stmts.len() > 0
            ==> rewrite_seq(body, reps, is_cjs, path, crate::transformer::empty_rewrite()).1.needs_runtime,
{
    lemma_rewrite_seq_needs_runtime(body, reps, is_cjs, path, crate::transformer::empty_rewrite());
}

/// Registration statements land together and in order after the leading
/// import/require region and after the runtime import or require, so they run
/// after the binding they use and before every item that follows them.
pub proof fn lemma_registrations_after_runtime_binding(
    items: Seq<Tree>,
    aliases: Seq<Seq<char>>,
    is_cjs: bool,
    stmts: Seq<Tree>,
)
    ensures
        ({
            let sc = scan_items(items, aliases);
            let header = manage_imports(items, aliases, true, is_cjs);
            let p = registration_pos(items, aliases, true) as int;
            let r = insert_at(header, stmts, p as nat);
            &&& sc.insert_pos <= p <= header.len()
            &&& forall|i: int| 0 <= i < sc.insert_pos ==> #[trigger] in_leading_region(header[i])
            &&& exists|k: int| 0 <= k < p && #[trigger] is_runtime_binding(header[k])
            &&& r.len() == header.len() + stmts.len()
            &&& forall|k: int| 0 <= k < stmts.len() ==> r[p + k] == #[trigger] stmts[k]
            &&& forall|i: int| 0 <= i < p ==> r[i] == #[trigger] header[i]
            &&& forall|i: int| p <= i < header.len() ==> r[i + stmts.len()] == #[trigger] header[i]
        }),
{
    reveal_strlit("gqlRuntime");
    lemma_scan_leading_region(items, aliases);
    crate::imports::lemma_scan_bounds(items, aliases);
    let sc = scan_items(items, aliases);
    let header = manage_imports(items, aliases, true, is_cjs);
    let p = registration_pos(items, aliases, true) as int;
    match sc.existing {
        Some(idx) => {
            let k = idx as int;
            if has_runtime_binding(sc.body[k]) {
                assert(header == sc.body);
                assert(is_runtime_binding(header[k]));
            } else {
                let merged = header[k];
                assert(merged.children[merged.children.len() - 1] == runtime_specifier());
                assert(has_runtime_binding(merged));
                assert(is_runtime_binding(header[k]));
                assert forall|i: int| 0 <= i < sc.insert_pos implies #[trigger] in_leading_region(header[i]) by {
                    if i != k {
                        assert(header[i] == sc.body[i]);
                    } else {
                        assert(in_leading_region(sc.body[i]));
                    }
                }
            }
        },
        None => {
            let k = sc.insert_pos as int;
            let added = header[k];
            if !is_cjs {
                let spec_node = added.children[0];
                assert(spec_node == runtime_specifier());
                assert(has_runtime_binding(added));
            }
            assert(is_runtime_binding(header[k]));
            assert forall|i: int| 0 <= i < sc.insert_pos implies #[trigger] in_leading_region(header[i]) by {
                assert(header[i] == sc.body[i]);
            }
        },
    }
}

/// The runtime require (CommonJS) or runtime import (ESM) that the pass inserts.
pub open spec fn new_runtime_item(is_cjs: bool) -> Tree {
    if is_cjs {
        cjs_runtime_require()
    } else {
        crate::imports::esm_runtime_import()
    }
}

/// An import with the runtime binding appended to its specifiers.
pub open spec fn with_runtime_specifier(t: Tree) -> Tree {
    Tree { children: t.children.push(runtime_specifier()), ..t }
}

/// The header without its legacy imports and legacy `require` declarators, every
/// other item kept in its place and order.
pub open spec fn strip_legacy(items: Seq<Tree>, aliases: Seq<Seq<char>>) -> Seq<Tree>
    decreases items.len(),
{
    if items.len() == 0 {
        Seq::empty()
    } else {
        let rest = strip_legacy(items.subrange(0, items.len() - 1), aliases);
        let item = items[items.len() - 1];
        if item.kind == NodeKind::Import {
            if is_legacy_specifier(item.text, aliases) {
                rest
            } else {
                rest.push(item)
            }
        } else if item.kind == NodeKind::VarDecl {
            let kept = crate::imports::kept_declarators(item.children, aliases);
            if kept.len() == 0 {
                rest
            } else if kept.len() < item.children.len() {
                rest.push(Tree { children: kept, ..item })
            } else {
                rest.push(item)
            }
        } else {
            rest.push(item)
        }
    }
}

/// The import declarations of a list, in order.
pub open spec fn imports_of(s: Seq<Tree>) -> Seq<Tree>
    decreases s.len(),
{
    if s.len() == 0 {
        Seq::empty()
    } else if s[s.len() - 1].kind == NodeKind::Import {
        imports_of(s.subrange(0, s.len() - 1)).push(s[s.len() - 1])
    } else {
        imports_of(s.subrange(0, s.len() - 1))
    }
}

/// The import declarations of a list that do not name a legacy alias, in order.
pub open spec fn kept_imports(s: Seq<Tree>, aliases: Seq<Seq<char>>) -> Seq<Tree>
    decreases s.len(),
{
    if s.len() == 0 {
        Seq::empty()
    } else if s[s.len() - 1].kind == NodeKind::Import && !is_legacy_specifier(
        s[s.len() - 1].text,
        aliases,
    ) {
        kept_imports(s.subrange(0, s.len() - 1), aliases).push(s[s.len() - 1])
    } else {
        kept_imports(s.subrange(0, s.len() - 1), aliases)
    }
}

/// How many imports of the runtime module a list holds.
pub open spec fn runtime_import_count(s: Seq<Tree>) -> nat
    decreases s.len(),
{
    if s.len() == 0 {
        0
    } else {
        runtime_import_count(s.subrange(0, s.len() - 1)) + if imports_runtime(s[s.len() - 1]) {
            1nat
        } else {
            0nat
        }
    }
}

proof fn lemma_scan_is_strip(items: Seq<Tree>, aliases: Seq<Seq<char>>)
    ensures
        scan_items(items, aliases).body == strip_legacy(items, aliases),
        imports_of(strip_legacy(items, aliases)) == kept_imports(items, aliases),
        !is_legacy_specifier(runtime_module(), aliases) ==> runtime_import_count(
            strip_legacy(items, aliases),
        ) == runtime_import_count(items),
    decreases items.len(),
{
    if items.len() > 0 {
        let prefix = items.subrange(0, items.len() - 1);
        lemma_scan_is_strip(prefix, aliases);
        let rest = strip_legacy(prefix, aliases);
        let st = strip_legacy(items, aliases);
        if st.len() > rest.len() {
            assert(st.subrange(0, rest.len() as int) =~= rest);
        }
    }
}

proof fn lemma_count_update(s: Seq<Tree>, k: int, x: Tree)
    requires
        0 <= k < s.len(),
        imports_runtime(s[k]),
        imports_runtime(x),
    ensures
        runtime_import_count(s.update(k, x)) == runtime_import_count(s),
    decreases s.len(),
{
    let u = s.update(k, x);
    let prefix = s.subrange(0, s.len() - 1);
    if k < s.len() - 1 {
        lemma_count_update(prefix, k, x);
        assert(u.subrange(0, u.len() - 1) =~= prefix.update(k, x));
    } else {
        assert(u.subrange(0, u.len() - 1) =~= prefix);
    }
}

/// The import pass keeps every other item in its order: the header is the input
/// without legacy imports and declarators (whose import declarations are exactly
/// the non-legacy ones, in order), with at most one change: the runtime binding
/// joins an existing runtime import, or one runtime import or require is inserted.
pub proof fn lemma_import_pass_keeps_order(
    items: Seq<Tree>,
    aliases: Seq<Seq<char>>,
    add_runtime: bool,
    is_cjs: bool,
)
    ensures
        ({
            let b = strip_legacy(items, aliases);
            let r = manage_imports(items, aliases, add_runtime, is_cjs);
            let x = new_runtime_item(is_cjs);
            &&& imports_of(b) == kept_imports(items, aliases)
            &&& r == b || (exists|k: int|
                0 <= k < b.len() && imports_runtime(b[k]) && r == b.update(
                    k,
                    #[trigger] with_runtime_specifier(b[k]),
                )) || (exists|p: int| 0 <= p <= b.len() && r == #[trigger] b.insert(p, x))
        }),
{
    lemma_scan_is_strip(items, aliases);
    crate::imports::lemma_scan_bounds(items, aliases);
    let sc = scan_items(items, aliases);
    let b = strip_legacy(items, aliases);
    if add_runtime {
        match sc.existing {
            Some(idx) => {
                let k = idx as int;
                if !has_runtime_binding(sc.body[k]) {
                    assert(imports_runtime(b[k]));
                    assert(manage_imports(items, aliases, add_runtime, is_cjs) == b.update(
                        k,
                        with_runtime_specifier(b[k]),
                    ));
                }
            },
            None => {
                let x = new_runtime_item(is_cjs);
                assert(manage_imports(items, aliases, add_runtime, is_cjs) == b.insert(
                    sc.insert_pos as int,
                    x,
                ));
            },
        }
    }
}

/// With exactly one import of the runtime module, lacking the runtime binding, the
/// binding is appended to its specifiers: the header keeps exactly one runtime
/// import, gains no item, and is otherwise the stripped input.
pub proof fn lemma_single_runtime_import_merged(
    items: Seq<Tree>,
    aliases: Seq<Seq<char>>,
    is_cjs: bool,
)
    requires
        !is_legacy_specifier(runtime_module(), aliases),
        runtime_import_count(items) == 1,
        forall|i: int| 0 <= i < items.len() && #[trigger] imports_runtime(items[i])
            ==> !has_runtime_binding(items[i]),
    ensures
        ({
            let b = strip_legacy(items, aliases);
            let r = manage_imports(items, aliases, true, is_cjs);
            &&& r.len() == b.len()
            &&& runtime_import_count(r) == 1
            &&& exists|k: int|
                0 <= k < b.len() && imports_runtime(b[k]) && #[trigger] r[k] == (Tree {
                    children: b[k].children.push(runtime_specifier()),
                    ..b[k]
                }) && has_runtime_binding(r[k]) && forall|j: int|
                    0 <= j < b.len() && j != k ==> r[j] == b[j]
        }),
{
    lemma_scan_is_strip(items, aliases);
    lemma_runtime_count_witness(items);
    lemma_runtime_import_merged(items, aliases, is_cjs);
    lemma_scan_existing(items, aliases);
    crate::imports::lemma_scan_bounds(items, aliases);
    let sc = scan_items(items, aliases);
    let b = strip_legacy(items, aliases);
    let k = sc.existing->Some_0 as int;
    let r = manage_imports(items, aliases, true, is_cjs);
    let m = Tree { children: b[k].children.push(runtime_specifier()), ..b[k] };
    assert(r == b.update(k, m));
    lemma_count_update(b, k, m);
    assert(r[k] == m);
}

proof fn lemma_runtime_count_witness(s: Seq<Tree>)
    ensures
        runtime_import_count(s) > 0 ==> exists|i: int| 0 <= i < s.len() && #[trigger] imports_runtime(s[i]),
    decreases s.len(),
{
    if s.len() > 0 {
        let prefix = s.subrange(0, s.len() - 1);
        lemma_runtime_count_witness(prefix);
        if runtime_import_count(prefix) > 0 {
            let i = choose|i: int| 0 <= i < prefix.len() && #[trigger] imports_runtime(prefix[i]);
            assert(s[i] == prefix[i]);
        }
    }
}

/// When every import of the runtime module already binds `gqlRuntime`, the pass
/// adds nothing: the header is the input without its legacy imports and declarators.
pub proof fn lemma_runtime_import_already_bound(
    items: Seq<Tree>,
    aliases: Seq<Seq<char>>,
    is_cjs: bool,
)
    requires
        !is_legacy_specifier(runtime_module(), aliases),
        exists|i: int| 0 <= i < items.len() && #[trigger] imports_runtime(items[i]),
        forall|i: int| 0 <= i < items.len() && #[trigger] imports_runtime(items[i])
            ==> has_runtime_binding(items[i]),
    ensures
        manage_imports(items, aliases, true, is_cjs) == strip_legacy(items, aliases),
{
    lemma_scan_is_strip(items, aliases);
    lemma_scan_existing(items, aliases);
    crate::imports::lemma_scan_bounds(items, aliases);
    let sc = scan_items(items, aliases);
    let k = sc.existing->Some_0 as int;
    let i = choose|i: int| 0 <= i < items.len() && #[trigger] items[i] == sc.body[k];
    assert(imports_runtime(items[i]));
}

} // verus!
