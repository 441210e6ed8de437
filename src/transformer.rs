//! The rewrite of builder calls and the orchestration of the whole transform.
use vstd::prelude::*;
use vstd::string::StringExecFns;
use crate::analysis::{
    analyze_module, errors_view, replacement_lookup, GqlCallFinder, ReplacementView,
};
use crate::artifact::{BuilderArtifact, ElementView};
use crate::ast::{lemma_view_nodes, lemma_view_nodes_push, view_nodes, Module, Node, NodeKind, Span, Tree};
use crate::config::{aliases_view, TransformConfig};
use crate::error::{missing_builder_arg_spec, opt_view, PluginError, PluginErrorView};
use crate::imports::{manage_imports, registration_pos, ImportManager};
use crate::metadata::{module_metadata, MetadataCollector};
use crate::runtime::{kind_label, kind_name, synthesize, RuntimeCallBuilder};
use crate::text::{normalize_path, normalize_path_exec, str_eq};

verus! {

pub struct RewriteState {
    /// Registration statements, in the order their calls were rewritten.
    pub stmts: Seq<Tree>,
    /// The span of each replaced call with the expression put in its place.
    pub replaced: Seq<(Span, Tree)>,
    pub errors: Seq<PluginErrorView>,
    /// Whether some call was replaced, so that the runtime must be imported.
    pub needs_runtime: bool,
}

/// A node with its children replaced.
pub open spec fn with_children(t: Tree, children: Seq<Tree>) -> Tree {
    Tree { children, ..t }
}

/// Rewriting a node whose children are already rewritten.
pub open spec fn rewrite_here(
    t: Tree,
    reps: Seq<ReplacementView>,
    is_cjs: bool,
    path: Seq<char>,
    st: RewriteState,
) -> (Tree, RewriteState) {
    if t.kind != NodeKind::Call {
        (t, st)
    } else {
        match replacement_lookup(reps, t.span) {
            None => (t, st),
            Some(rep) => match synthesize(is_cjs, rep.artifact, rep.builder_args) {
                Some((e, stmt)) => (
                    e,
                    RewriteState {
                        stmts: match stmt {
                            Some(s) => st.stmts.push(s),
                            None => st.stmts,
                        },
                        replaced: st.replaced.push((t.span, e)),
                        needs_runtime: true,
                        ..st
                    },
                ),
                None => (
                    t,
                    RewriteState {
                        errors: st.errors.push(
                            missing_builder_arg_spec(path, kind_name(rep.artifact), "builder callback"@),
                        ),
                        ..st
                    },
                ),
            },
        }
    }
}

/// Post-order rewrite of a node.
pub open spec fn rewrite_node(
    t: Tree,
    reps: Seq<ReplacementView>,
    is_cjs: bool,
    path: Seq<char>,
    st: RewriteState,
) -> (Tree, RewriteState)
    decreases t, 1nat,
{
    let (kids, st1) = rewrite_seq(t.children, reps, is_cjs, path, st);
    rewrite_here(with_children(t, kids), reps, is_cjs, path, st1)
}

pub open spec fn rewrite_seq(
    s: Seq<Tree>,
    reps: Seq<ReplacementView>,
    is_cjs: bool,
    path: Seq<char>,
    st: RewriteState,
) -> (Seq<Tree>, RewriteState)
    decreases s, 0nat,
{
    if s.len() == 0 {
        (Seq::empty(), st)
    } else {
        let (prefix, st1) = rewrite_seq(s.subrange(0, s.len() - 1), reps, is_cjs, path, st);
        let (last, st2) = rewrite_node(s[s.len() - 1], reps, is_cjs, path, st1);
        (prefix.push(last), st2)
    }
}

pub open spec fn empty_rewrite() -> RewriteState {
    RewriteState {
        stmts: Seq::empty(),
        replaced: Seq::empty(),
        errors: Seq::empty(),
        needs_runtime: false,
    }
}

/// Replaces the calls that the analysis resolved with their runtime calls.
///
/// The runtime import is asked for only when some call was actually replaced: a
/// call whose synthesis fails is left as it was and reported.
struct GqlTransformer<'a> {
    finder: &'a GqlCallFinder<'a>,
    runtime_builder: &'a RuntimeCallBuilder,
    needs_runtime: bool,
    runtime_calls: Vec<Node>,
    replaced: Vec<RewrittenCall>,
    errors: Vec<PluginError>,
    source_path: String,
}

/// A call that was replaced, and what replaced it.
#[derive(Debug)]
pub struct RewrittenCall {
    pub span: Span,
    pub replacement: Node,
}

pub open spec fn rewritten_view(v: Seq<RewrittenCall>) -> Seq<(Span, Tree)> {
    v.map_values(|c: RewrittenCall| (c.span, c.replacement@))
}

impl<'a> GqlTransformer<'a> {
    closed spec fn state(&self) -> RewriteState {
        RewriteState {
            stmts: view_nodes(self.runtime_calls@),
            replaced: rewritten_view(self.replaced@),
            errors: errors_view(self.errors@),
            needs_runtime: self.needs_runtime,
        }
    }

    closed spec fn reps(&self) -> Seq<ReplacementView> {
        self.finder.state().replacements
    }

    fn new(finder: &'a GqlCallFinder<'a>, runtime_builder: &'a RuntimeCallBuilder, source_path: &str) -> (r: GqlTransformer<'a>)
        ensures
            r.state() == empty_rewrite(),
            r.reps() == finder.state().replacements,
            r.runtime_builder == runtime_builder,
            r.source_path@ == source_path@,
    {
        let r = GqlTransformer {
            finder,
            runtime_builder,
            needs_runtime: false,
            runtime_calls: Vec::new(),
            replaced: Vec::new(),
            errors: Vec::new(),
            source_path: String::from_str(source_path),
        };
        proof {
            assert(r.state().stmts =~= Seq::empty());
            assert(r.state().replaced =~= Seq::empty());
            assert(r.state().errors =~= Seq::empty());
        }
        r
    }

    fn rewrite_call(&mut self, n: Node) -> (r: Node)
        ensures
            (r@, final(self).state()) == rewrite_here(n@, old(self).reps(), old(self).runtime_builder.is_cjs, old(self).source_path@, old(self).state()),
            final(self).reps() == old(self).reps(),
            final(self).runtime_builder == old(self).runtime_builder,
            final(self).source_path == old(self).source_path,
    {
        if n.kind != NodeKind::Call {
            return n;
        }
        match self.finder.get_replacement(&n) {
            None => n,
            Some(replacement) => {
                match self.runtime_builder.build_replacement(replacement) {
                    Some((reference, stmt)) => {
                        match stmt {
                            Some(s) => {
                                proof {
                                    lemma_view_nodes_push(self.runtime_calls@, s);
                                }
                                self.runtime_calls.push(s);
                            },
                            None => {},
                        }
                        self.needs_runtime = true;
                        let ghost before = self.replaced@;
                        self.replaced.push(RewrittenCall { span: n.span, replacement: reference.clone() });
                        assert(rewritten_view(self.replaced@) =~= rewritten_view(before).push((n@.span, reference@)));
                        reference
                    },
                    None => {
                        let error = PluginError::missing_builder_arg(
                            self.source_path.as_str(),
                            kind_label(&replacement.artifact),
                            "builder callback",
                        );
                        let ghost before = self.errors@;
                        self.errors.push(error);
                        assert(errors_view(self.errors@) =~= errors_view(before).push(error@));
                        n
                    },
                }
            },
        }
    }

    fn rewrite(&mut self, n: &Node) -> (r: Node)
        ensures
            (r@, final(self).state()) == rewrite_node(n@, old(self).reps(), old(self).runtime_builder.is_cjs, old(self).source_path@, old(self).state()),
            final(self).reps() == old(self).reps(),
            final(self).runtime_builder == old(self).runtime_builder,
            final(self).source_path == old(self).source_path,
        decreases n, 1nat,
    {
        let children = self.rewrite_list(&n.children);
        let rebuilt = Node { kind: n.kind, span: n.span, text: n.text.clone(), children };
        self.rewrite_call(rebuilt)
    }

    fn rewrite_list(&mut self, nodes: &Vec<Node>) -> (r: Vec<Node>)
        ensures
            (view_nodes(r@), final(self).state()) == rewrite_seq(view_nodes(nodes@), old(self).reps(), old(self).runtime_builder.is_cjs, old(self).source_path@, old(self).state()),
            final(self).reps() == old(self).reps(),
            final(self).runtime_builder == old(self).runtime_builder,
            final(self).source_path == old(self).source_path,
        decreases nodes, 0nat,
    {
        let ghost s = view_nodes(nodes@);
        let ghost st0 = self.state();
        let ghost reps = self.reps();
        let ghost is_cjs = self.runtime_builder.is_cjs;
        let ghost path = self.source_path@;
        let mut out: Vec<Node> = Vec::new();
        proof {
            lemma_view_nodes(nodes@);
            assert(s.take(0) =~= Seq::<Tree>::empty());
            assert(view_nodes(out@) =~= Seq::<Tree>::empty());
        }
        let mut i: usize = 0;
        while i < nodes.len()
            invariant
                s == view_nodes(nodes@),
                s.len() == nodes@.len(),
                forall|j: int| 0 <= j < s.len() ==> #[trigger] s[j] == nodes@[j]@,
                i <= s.len(),
                self.reps() == reps,
                self.runtime_builder == old(self).runtime_builder,
                self.runtime_builder.is_cjs == is_cjs,
                self.source_path == old(self).source_path,
                self.source_path@ == path,
                (view_nodes(out@), self.state()) == rewrite_seq(s.take(i as int), reps, is_cjs, path, st0),
            decreases s.len() - i,
        {
            proof {
                assert(s.take(i + 1).subrange(0, i as int) =~= s.take(i as int));
                assert(s.take(i + 1)[i as int] == nodes@[i as int]@);
                assert(decreases_to!(nodes => nodes@[i as int]));
            }
            let x = self.rewrite(&nodes[i]);
            proof {
                lemma_view_nodes_push(out@, x);
            }
            out.push(x);
            i = i + 1;
        }
        proof {
            assert(s.take(i as int) =~= s);
        }
        out
    }
}

/// The body with the statements spliced in at a position (at most the end).
pub open spec fn insert_at(body: Seq<Tree>, stmts: Seq<Tree>, at: nat) -> Seq<Tree> {
    let p = if at <= body.len() {
        at as int
    } else {
        body.len() as int
    };
    body.take(p) + stmts + body.skip(p)
}

/// Splices the registration statements in at the position that the import pass
/// gives (clamped to the end of the body), keeping their order.
pub fn insert_runtime_calls(module: &mut Module, calls: Vec<Node>, at: usize)
    ensures
        final(module)@ == insert_at(old(module)@, view_nodes(calls@), at as nat),
{
    let ghost body = module@;
    proof {
        lemma_view_nodes(module.body@);
        lemma_view_nodes(calls@);
    }
    let insert_pos: usize = if at <= module.body.len() {
        at
    } else {
        module.body.len()
    };
    if calls.len() == 0 {
        assert(insert_at(body, view_nodes(calls@), at as nat) =~= body);
        return;
    }
    let ghost stmts = view_nodes(calls@);
    let mut out: Vec<Node> = Vec::new();
    let mut k: usize = 0;
    proof {
        assert(view_nodes(out@) =~= body.take(0));
    }
    while k < insert_pos
        invariant
            body == view_nodes(module.body@),
            body.len() == module.body@.len(),
            forall|j: int| 0 <= j < body.len() ==> #[trigger] body[j] == module.body@[j]@,
            insert_pos <= body.len(),
            k <= insert_pos,
            view_nodes(out@) == body.take(k as int),
        decreases insert_pos - k,
    {
        let c = module.body[k].clone();
        proof {
            lemma_view_nodes_push(out@, c);
            assert(body.take(k + 1) =~= body.take(k as int).push(c@));
        }
        out.push(c);
        k = k + 1;
    }
    let mut m: usize = 0;
    proof {
        assert(view_nodes(out@) =~= body.take(insert_pos as int) + stmts.take(0));
    }
    while m < calls.len()
        invariant
            stmts == view_nodes(calls@),
            stmts.len() == calls@.len(),
            forall|j: int| 0 <= j < stmts.len() ==> #[trigger] stmts[j] == calls@[j]@,
            m <= stmts.len(),
            view_nodes(out@) == body.take(insert_pos as int) + stmts.take(m as int),
        decreases stmts.len() - m,
    {
        let c = calls[m].clone();
        proof {
            lemma_view_nodes_push(out@, c);
            assert(body.take(insert_pos as int) + stmts.take(m + 1) =~= (body.take(insert_pos as int)
                + stmts.take(m as int)).push(c@));
        }
        out.push(c);
        m = m + 1;
    }
    proof {
        assert(stmts.take(m as int) =~= stmts);
    }
    let mut k2: usize = insert_pos;
    let ghost head = body.take(insert_pos as int) + stmts;
    proof {
        assert(view_nodes(out@) =~= head + body.subrange(insert_pos as int, insert_pos as int));
    }
    while k2 < module.body.len()
        invariant
            body == view_nodes(module.body@),
            body.len() == module.body@.len(),
            forall|j: int| 0 <= j < body.len() ==> #[trigger] body[j] == module.body@[j]@,
            insert_pos <= k2 <= body.len(),
            view_nodes(out@) == head + body.subrange(insert_pos as int, k2 as int),
        decreases body.len() - k2,
    {
        let c = module.body[k2].clone();
        proof {
            lemma_view_nodes_push(out@, c);
            assert(head + body.subrange(insert_pos as int, k2 + 1) =~= (head + body.subrange(
                insert_pos as int,
                k2 as int,
            )).push(c@));
        }
        out.push(c);
        k2 = k2 + 1;
    }
    proof {
        assert(body.subrange(insert_pos as int, body.len() as int) =~= body.skip(insert_pos as int));
    }
    module.body = out;
}

/// Whether a file is the system module that is replaced by a stub.
pub open spec fn is_system_file(source_path: Seq<char>, system_path: Option<Seq<char>>) -> bool {
    match system_path {
        Some(p) => normalize_path(source_path) == normalize_path(p),
        None => false,
    }
}

/// Whether a file is the configured system module, compared after normalizing
/// path separators.
pub fn is_graphql_system_file(source_path: &str, graphql_system_path: &Option<String>) -> (r: bool)
    ensures
        r == is_system_file(source_path@, opt_view(*graphql_system_path)),
{
    match graphql_system_path {
        Some(gql_path) => {
            let normalized_source = normalize_path_exec(source_path);
            let normalized_gql = normalize_path_exec(gql_path.as_str());
            str_eq(normalized_source.as_str(), normalized_gql.as_str())
        },
        None => false,
    }
}

/// What the transform made of a parsed module.
#[derive(Debug)]
pub enum ModuleOutcome {
    /// The system module: its output is the empty-module stub.
    Stub,
    /// No builder call resolved to an artifact: the source stays as it is.
    Unchanged { errors: Vec<PluginError> },
    /// The rewritten module, to be emitted, with the calls that were replaced.
    Rewritten { module: Module, replaced: Vec<RewrittenCall>, errors: Vec<PluginError> },
}

pub enum OutcomeView {
    Stub,
    Unchanged { errors: Seq<PluginErrorView> },
    Rewritten { body: Seq<Tree>, replaced: Seq<(Span, Tree)>, errors: Seq<PluginErrorView> },
}

impl View for ModuleOutcome {
    type V = OutcomeView;

    open spec fn view(&self) -> OutcomeView {
        match self {
            ModuleOutcome::Stub => OutcomeView::Stub,
            ModuleOutcome::Unchanged { errors } => OutcomeView::Unchanged {
                errors: errors_view(errors@),
            },
            ModuleOutcome::Rewritten { module, replaced, errors } => OutcomeView::Rewritten {
                body: module@,
                replaced: rewritten_view(replaced@),
                errors: errors_view(errors@),
            },
        }
    }
}

/// The whole pipeline on a parsed module: stub check, scope paths, analysis,
/// rewrite, import pass, then insertion of the registration statements after the
/// leading import/require region and the runtime import or require.
pub open spec fn transform_spec(
    body: Seq<Tree>,
    path: Seq<char>,
    rows: Seq<(Seq<char>, ElementView)>,
    aliases: Seq<Seq<char>>,
    is_cjs: bool,
    system_path: Option<Seq<char>>,
) -> OutcomeView {
    if is_system_file(path, system_path) {
        OutcomeView::Stub
    } else {
        let analysis = analyze_module(body, path, module_metadata(body), rows);
        if !analysis.has_transforms {
            OutcomeView::Unchanged { errors: analysis.errors }
        } else {
            let (rewritten, rw) = rewrite_seq(body, analysis.replacements, is_cjs, path, empty_rewrite());
            let header = manage_imports(rewritten, aliases, rw.needs_runtime, is_cjs);
            OutcomeView::Rewritten {
                body: insert_at(header, rw.stmts, registration_pos(rewritten, aliases, rw.needs_runtime)),
                replaced: rw.replaced,
                errors: analysis.errors + rw.errors,
            }
        }
    }
}

/// Transforms a parsed module against an artifact table.
pub fn transform_module(
    module: &Module,
    source_path: &str,
    artifact: &BuilderArtifact,
    config: &TransformConfig,
) -> (r: ModuleOutcome)
    ensures
        r@ == transform_spec(
            module@,
            source_path@,
            artifact@,
            aliases_view(config.graphql_system_aliases@),
            config.is_cjs,
            opt_view(config.graphql_system_path),
        ),
{
    if is_graphql_system_file(source_path, &config.graphql_system_path) {
        return ModuleOutcome::Stub;
    }
    let metadata = MetadataCollector::collect(module, source_path);
    let mut finder = GqlCallFinder::new(artifact, &metadata, source_path);
    finder.analyze(module);
    if !finder.has_transformations() {
        return ModuleOutcome::Unchanged { errors: finder.take_errors() };
    }
    let runtime_builder = RuntimeCallBuilder::new(config.is_cjs);
    let mut transformer = GqlTransformer::new(&finder, &runtime_builder, source_path);
    let body = transformer.rewrite_list(&module.body);
    let mut rewritten = Module { body };
    let mut import_manager = ImportManager::new(
        transformer.needs_runtime,
        config.is_cjs,
        config.graphql_system_aliases.as_slice(),
    );
    import_manager.visit_mut_module(&mut rewritten);
    let mut runtime_calls: Vec<Node> = Vec::new();
    core::mem::swap(&mut runtime_calls, &mut transformer.runtime_calls);
    let at = import_manager.registration_position();
    insert_runtime_calls(&mut rewritten, runtime_calls, at);
    let mut replaced: Vec<RewrittenCall> = Vec::new();
    core::mem::swap(&mut replaced, &mut transformer.replaced);
    let mut transformer_errors: Vec<PluginError> = Vec::new();
    core::mem::swap(&mut transformer_errors, &mut transformer.errors);
    let mut errors = finder.take_errors();
    let ghost e1 = errors@;
    let ghost e2 = transformer_errors@;
    errors.append(&mut transformer_errors);
    proof {
        assert(errors_view(errors@) =~= errors_view(e1) + errors_view(e2));
    }
    ModuleOutcome::Rewritten { module: rewritten, replaced, errors }
}

/// The result of transforming one file.
#[derive(Debug)]
pub struct TransformResult {
    /// The emitted code.
    pub output_code: String,
    /// Whether any builder call was resolved (or the file was stubbed).
    pub transformed: bool,
    /// Non-fatal diagnostics, analysis first, then rewrite.
    pub errors: Vec<PluginError>,
    /// The source map as JSON, when one was asked for.
    pub source_map: Option<String>,
}

impl TransformResult {
    /// The output for the system module: an empty module.
    pub fn stub() -> (r: TransformResult)
        ensures
            r.output_code@ == "export {};"@,
            r.transformed,
            r.errors@.len() == 0,
            r.source_map is None,
    {
        TransformResult {
            output_code: String::from_str("export {};"),
            transformed: true,
            errors: Vec::new(),
            source_map: None,
        }
    }

    /// The output for a module with nothing to rewrite: the source as it was.
    pub fn unchanged(source_code: String, errors: Vec<PluginError>) -> (r: TransformResult)
        ensures
            r.output_code@ == source_code@,
            !r.transformed,
            r.errors@ == errors@,
            r.source_map is None,
    {
        TransformResult { output_code: source_code, transformed: false, errors, source_map: None }
    }
}

} // verus!
