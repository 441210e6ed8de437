//! Read-only analysis: which builder calls are rewritten, and with what.
//!
//! Every call is looked at in pre-order, nested calls included. A builder-shaped
//! call whose callback returns an inner call is resolved through its scope path to
//! a canonical id, and that id to an artifact. A call without metadata or without
//! an artifact is reported and left alone.
use vstd::prelude::*;
use crate::artifact::{artifact_lookup, BuilderArtifact, BuilderArtifactElement, ElementView};
use crate::ast::{lemma_view_nodes, lemma_view_nodes_push, view_nodes, Module, Node, Span, Tree};
use crate::error::{artifact_not_found_spec, metadata_not_found_spec, PluginError, PluginErrorView};
use crate::metadata::{metadata_lookup, MetadataMap};
use crate::pattern::{call_args, find_gql_builder_call, inner_builder_call};
use crate::text::{canonical_id, resolve_canonical_id};

verus! {

/// A detected builder call, with its resolution.
#[derive(Debug)]
pub struct GqlCallInfo {
    pub canonical_id: String,
    pub artifact: BuilderArtifactElement,
    pub call_span: Span,
    /// The arguments of the inner builder call.
    pub builder_call_args: Vec<Node>,
}

/// What replaces one builder call: its artifact and the inner call's arguments.
#[derive(Debug)]
pub struct GqlReplacement {
    pub call_span: Span,
    pub canonical_id: String,
    pub artifact: BuilderArtifactElement,
    pub builder_args: Vec<Node>,
}

pub struct ReplacementView {
    pub call_span: Span,
    pub canonical_id: Seq<char>,
    pub artifact: ElementView,
    pub builder_args: Seq<Tree>,
}

impl View for GqlReplacement {
    type V = ReplacementView;

    open spec fn view(&self) -> ReplacementView {
        ReplacementView {
            call_span: self.call_span,
            canonical_id: self.canonical_id@,
            artifact: self.artifact@,
            builder_args: view_nodes(self.builder_args@),
        }
    }
}

pub struct AnalysisState {
    pub replacements: Seq<ReplacementView>,
    pub errors: Seq<PluginErrorView>,
    pub has_transforms: bool,
}

/// Looking at one node (only builder calls matter).
pub open spec fn process_call(
    t: Tree,
    path: Seq<char>,
    metadata: Seq<(Span, crate::metadata::MetaView)>,
    rows: Seq<(Seq<char>, ElementView)>,
    st: AnalysisState,
) -> AnalysisState {
    match inner_builder_call(t) {
        None => st,
        Some(inner) => match metadata_lookup(metadata, t.span) {
            None => AnalysisState { errors: st.errors.push(metadata_not_found_spec(path)), ..st },
            Some(meta) => {
                let id = canonical_id(path, meta.ast_path);
                match artifact_lookup(rows, id) {
                    None => AnalysisState {
                        errors: st.errors.push(artifact_not_found_spec(path, id)),
                        ..st
                    },
                    Some(element) => AnalysisState {
                        replacements: st.replacements.push(
                            ReplacementView {
                                call_span: t.span,
                                canonical_id: id,
                                artifact: element,
                                builder_args: call_args(inner),
                            },
                        ),
                        has_transforms: true,
                        ..st
                    },
                }
            },
        },
    }
}

pub open spec fn analyze_node(
    t: Tree,
    path: Seq<char>,
    metadata: Seq<(Span, crate::metadata::MetaView)>,
    rows: Seq<(Seq<char>, ElementView)>,
    st: AnalysisState,
) -> AnalysisState
    decreases t, 1nat,
{
    analyze_seq(t.children, path, metadata, rows, process_call(t, path, metadata, rows, st))
}

pub open spec fn analyze_seq(
    s: Seq<Tree>,
    path: Seq<char>,
    metadata: Seq<(Span, crate::metadata::MetaView)>,
    rows: Seq<(Seq<char>, ElementView)>,
    st: AnalysisState,
) -> AnalysisState
    decreases s, 0nat,
{
    if s.len() == 0 {
        st
    } else {
        analyze_node(
            s[s.len() - 1],
            path,
            metadata,
            rows,
            analyze_seq(s.subrange(0, s.len() - 1), path, metadata, rows, st),
        )
    }
}

pub open spec fn empty_analysis() -> AnalysisState {
    AnalysisState { replacements: Seq::empty(), errors: Seq::empty(), has_transforms: false }
}

/// The analysis of a whole module.
pub open spec fn analyze_module(
    body: Seq<Tree>,
    path: Seq<char>,
    metadata: Seq<(Span, crate::metadata::MetaView)>,
    rows: Seq<(Seq<char>, ElementView)>,
) -> AnalysisState {
    analyze_seq(body, path, metadata, rows, empty_analysis())
}

/// The first replacement recorded for a span.
pub open spec fn replacement_lookup(reps: Seq<ReplacementView>, span: Span) -> Option<
    ReplacementView,
>
    decreases reps.len(),
{
    if reps.len() == 0 {
        None
    } else if reps[0].call_span == span {
        Some(reps[0])
    } else {
        replacement_lookup(reps.subrange(1, reps.len() as int), span)
    }
}

pub open spec fn replacements_view(v: Seq<GqlReplacement>) -> Seq<ReplacementView> {
    v.map_values(|r: GqlReplacement| r@)
}

pub open spec fn errors_view(v: Seq<PluginError>) -> Seq<PluginErrorView> {
    v.map_values(|e: PluginError| e@)
}

/// The arguments of a call, copied.
fn copy_call_args(call: &Node) -> (r: Vec<Node>)
    ensures
        view_nodes(r@) == call_args(call@),
{
    let ghost s = view_nodes(call.children@);
    proof {
        lemma_view_nodes(call.children@);
    }
    let mut out: Vec<Node> = Vec::new();
    if call.children.len() == 0 {
        assert(view_nodes(out@) =~= Seq::<Tree>::empty());
        return out;
    }
    let mut i: usize = 1;
    proof {
        assert(view_nodes(out@) =~= s.subrange(1, 1));
    }
    while i < call.children.len()
        invariant
            s == view_nodes(call.children@),
            s.len() == call.children@.len(),
            forall|j: int| 0 <= j < s.len() ==> #[trigger] s[j] == call.children@[j]@,
            1 <= i <= s.len(),
            view_nodes(out@) == s.subrange(1, i as int),
        decreases s.len() - i,
    {
        let c = call.children[i].clone();
        proof {
            lemma_view_nodes_push(out@, c);
            assert(s.subrange(1, i + 1) =~= s.subrange(1, i as int).push(s[i as int]));
        }
        out.push(c);
        i = i + 1;
    }
    out
}

/// Finds the builder calls of a module and what replaces each.
pub struct GqlCallFinder<'a> {
    artifact: &'a BuilderArtifact,
    metadata: &'a MetadataMap,
    source_path: &'a str,
    replacements: Vec<GqlReplacement>,
    has_transforms: bool,
    errors: Vec<PluginError>,
}

impl<'a> GqlCallFinder<'a> {
    pub closed spec fn state(&self) -> AnalysisState {
        AnalysisState {
            replacements: replacements_view(self.replacements@),
            errors: errors_view(self.errors@),
            has_transforms: self.has_transforms,
        }
    }

    pub closed spec fn path(&self) -> Seq<char> {
        self.source_path@
    }

    pub closed spec fn metadata_view(&self) -> Seq<(Span, crate::metadata::MetaView)> {
        self.metadata@
    }

    pub closed spec fn artifact_view(&self) -> Seq<(Seq<char>, ElementView)> {
        self.artifact@
    }

    pub fn new(artifact: &'a BuilderArtifact, metadata: &'a MetadataMap, source_path: &'a str) -> (r:
        GqlCallFinder<'a>)
        ensures
            r.state() == empty_analysis(),
            r.path() == source_path@,
            r.metadata_view() == metadata@,
            r.artifact_view() == artifact@,
    {
        let r = GqlCallFinder {
            artifact,
            metadata,
            source_path,
            replacements: Vec::new(),
            has_transforms: false,
            errors: Vec::new(),
        };
        proof {
            assert(r.state().replacements =~= Seq::empty());
            assert(r.state().errors =~= Seq::empty());
        }
        r
    }

    /// Whether any builder call resolved to an artifact.
    pub fn has_transformations(&self) -> (r: bool)
        ensures
            r == self.state().has_transforms,
    {
        self.has_transforms
    }

    /// What replaces a call, if it is to be rewritten.
    pub fn get_replacement(&self, call: &Node) -> (r: Option<&GqlReplacement>)
        ensures
            match r {
                Some(rep) => replacement_lookup(self.state().replacements, call@.span) == Some(rep@),
                None => replacement_lookup(self.state().replacements, call@.span) is None,
            },
    {
        let ghost rows = self.state().replacements;
        assert(rows.subrange(0, rows.len() as int) =~= rows);
        let mut i: usize = 0;
        while i < self.replacements.len()
            invariant
                rows == self.state().replacements,
                i <= rows.len(),
                replacement_lookup(rows, call@.span) == replacement_lookup(
                    rows.subrange(i as int, rows.len() as int),
                    call@.span,
                ),
            decreases rows.len() - i,
        {
            let ghost rest = rows.subrange(i as int, rows.len() as int);
            assert(rest[0] == rows[i as int]);
            if self.replacements[i].call_span == call.span {
                return Some(&self.replacements[i]);
            }
            assert(rest.subrange(1, rest.len() as int) =~= rows.subrange(i + 1, rows.len() as int));
            i = i + 1;
        }
        None
    }

    /// Hands out the diagnostics collected so far.
    pub fn take_errors(&mut self) -> (r: Vec<PluginError>)
        ensures
            errors_view(r@) == old(self).state().errors,
            final(self).state().errors.len() == 0,
            final(self).state().replacements == old(self).state().replacements,
            final(self).state().has_transforms == old(self).state().has_transforms,
    {
        let mut r: Vec<PluginError> = Vec::new();
        core::mem::swap(&mut r, &mut self.errors);
        proof {
            assert(self.state().errors =~= Seq::empty());
        }
        r
    }

    /// Analyzes every call of a module.
    pub fn analyze(&mut self, module: &Module)
        ensures
            final(self).state() == analyze_seq(module@, old(self).path(), old(self).metadata_view(), old(self).artifact_view(), old(self).state()),
            final(self).path() == old(self).path(),
            final(self).metadata_view() == old(self).metadata_view(),
            final(self).artifact_view() == old(self).artifact_view(),
    {
        self.visit_list(&module.body);
    }

    fn process_call(&mut self, call: &Node)
        ensures
            final(self).state() == process_call(call@, old(self).path(), old(self).metadata_view(), old(self).artifact_view(), old(self).state()),
            final(self).path() == old(self).path(),
            final(self).metadata_view() == old(self).metadata_view(),
            final(self).artifact_view() == old(self).artifact_view(),
    {
        let builder_call = match find_gql_builder_call(call) {
            Some(b) => b,
            None => return ,
        };
        match self.metadata.get(call.span) {
            None => {
                let error = PluginError::metadata_not_found(self.source_path);
                let ghost before = self.errors@;
                self.errors.push(error);
                assert(errors_view(self.errors@) =~= errors_view(before).push(error@));
            },
            Some(meta) => {
                let canonical_id = resolve_canonical_id(self.source_path, meta.ast_path.as_str());
                match self.artifact.get(canonical_id.as_str()) {
                    None => {
                        let error = PluginError::artifact_not_found(
                            self.source_path,
                            canonical_id.as_str(),
                        );
                        let ghost before = self.errors@;
                        self.errors.push(error);
                        assert(errors_view(self.errors@) =~= errors_view(before).push(error@));
                    },
                    Some(artifact) => {
                        let replacement = GqlReplacement {
                            call_span: call.span,
                            canonical_id,
                            artifact: artifact.clone(),
                            builder_args: copy_call_args(builder_call),
                        };
                        let ghost before = self.replacements@;
                        self.replacements.push(replacement);
                        assert(replacements_view(self.replacements@) =~= replacements_view(
                            before,
                        ).push(replacement@));
                        self.has_transforms = true;
                    },
                }
            },
        }
    }

    fn visit(&mut self, n: &Node)
        ensures
            final(self).state() == analyze_node(n@, old(self).path(), old(self).metadata_view(), old(self).artifact_view(), old(self).state()),
            final(self).path() == old(self).path(),
            final(self).metadata_view() == old(self).metadata_view(),
            final(self).artifact_view() == old(self).artifact_view(),
        decreases n, 1nat,
    {
        self.process_call(n);
        self.visit_list(&n.children);
    }

    fn visit_list(&mut self, nodes: &Vec<Node>)
        ensures
            final(self).state() == analyze_seq(view_nodes(nodes@), old(self).path(), old(self).metadata_view(), old(self).artifact_view(), old(self).state()),
            final(self).path() == old(self).path(),
            final(self).metadata_view() == old(self).metadata_view(),
            final(self).artifact_view() == old(self).artifact_view(),
        decreases nodes, 0nat,
    {
        let ghost s = view_nodes(nodes@);
        let ghost st0 = self.state();
        proof {
            lemma_view_nodes(nodes@);
            assert(s.take(0) =~= Seq::<Tree>::empty());
        }
        let mut i: usize = 0;
        while i < nodes.len()
            invariant
                s == view_nodes(nodes@),
                s.len() == nodes@.len(),
                forall|j: int| 0 <= j < s.len() ==> #[trigger] s[j] == nodes@[j]@,
                i <= s.len(),
                self.path() == old(self).path(),
                self.metadata_view() == old(self).metadata_view(),
                self.artifact_view() == old(self).artifact_view(),
                self.state() == analyze_seq(s.take(i as int), self.path(), self.metadata_view(), self.artifact_view(), st0),
            decreases s.len() - i,
        {
            proof {
                assert(s.take(i + 1).subrange(0, i as int) =~= s.take(i as int));
                assert(s.take(i + 1)[i as int] == nodes@[i as int]@);
                assert(decreases_to!(nodes => nodes@[i as int]));
            }
            self.visit(&nodes[i]);
            i = i + 1;
        }
        proof {
            assert(s.take(i as int) =~= s);
        }
    }
}

} // verus!
