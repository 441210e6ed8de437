//! Scope paths of builder calls, and the module's export bindings.
//!
//! A single traversal keeps a stack of named scopes (variables, functions, arrows,
//! classes, methods, object keys, CommonJS export targets). Each builder call gets
//! the dot-joined stack as its scope path; the n-th repeat of a path (n >= 1) gets
//! the suffix `$n`. The traversal does not descend into builder calls.
use vstd::prelude::*;
use vstd::string::StringExecFns;
use crate::ast::{lemma_view_nodes, view_nodes, Module, Node, NodeKind, Span, Tree};
use crate::pattern::{is_builder_call, is_builder_call_exec};
use crate::text::{decimal, decimal_string, str_eq};

verus! {

pub open spec fn strings_view(v: Seq<String>) -> Seq<Seq<char>> {
    v.map_values(|s: String| s@)
}

// ---------------------------------------------------------------- export bindings

/// The export name of a CommonJS export target: `exports.x` or `module.exports.x`.
pub open spec fn commonjs_export_name(target: Tree) -> Option<Seq<char>> {
    if target.kind == NodeKind::Member && target.children.len() == 2 {
        let obj = target.children[0];
        let prop = target.children[1];
        let is_exports = obj.kind == NodeKind::Ident && obj.text == "exports"@;
        let is_module_exports = obj.kind == NodeKind::Member && obj.children.len() == 2
            && obj.children[0].kind == NodeKind::Ident && obj.children[0].text == "module"@
            && obj.children[1].kind == NodeKind::Name && obj.children[1].text == "exports"@;
        if (is_exports || is_module_exports) && prop.kind == NodeKind::Name {
            Some(prop.text)
        } else {
            None
        }
    } else {
        None
    }
}

/// `(local, exported)` pairs of the specifiers of `export { a, b as c }`.
pub open spec fn specifier_bindings(specs: Seq<Tree>) -> Seq<(Seq<char>, Seq<char>)>
    decreases specs.len(),
{
    if specs.len() == 0 {
        Seq::empty()
    } else {
        let last = specs[specs.len() - 1];
        let rest = specifier_bindings(specs.subrange(0, specs.len() - 1));
        if last.kind == NodeKind::ExportSpecifier && last.children.len() >= 1 {
            let local = last.children[0].text;
            let exported = if last.children.len() >= 2 {
                last.children[1].text
            } else {
                local
            };
            rest.push((local, exported))
        } else {
            rest
        }
    }
}

/// `(name, name)` pairs of the plain bindings of `export const a = ..., b = ...`.
pub open spec fn declarator_bindings(decls: Seq<Tree>) -> Seq<(Seq<char>, Seq<char>)>
    decreases decls.len(),
{
    if decls.len() == 0 {
        Seq::empty()
    } else {
        let last = decls[decls.len() - 1];
        let rest = declarator_bindings(decls.subrange(0, decls.len() - 1));
        if last.kind == NodeKind::Declarator && last.children.len() >= 1
            && last.children[0].kind == NodeKind::Ident {
            rest.push((last.children[0].text, last.children[0].text))
        } else {
            rest
        }
    }
}

/// The export bindings that one top-level item introduces.
pub open spec fn item_bindings(item: Tree) -> Seq<(Seq<char>, Seq<char>)> {
    if item.kind == NodeKind::ExportNamed {
        specifier_bindings(item.children)
    } else if item.kind == NodeKind::ExportDecl && item.children.len() >= 1 {
        let decl = item.children[0];
        if decl.kind == NodeKind::VarDecl {
            declarator_bindings(decl.children)
        } else if decl.kind == NodeKind::FnDecl || decl.kind == NodeKind::ClassDecl {
            seq![(decl.text, decl.text)]
        } else {
            Seq::empty()
        }
    } else if item.kind == NodeKind::ExprStmt && item.children.len() >= 1
        && item.children[0].kind == NodeKind::Assign && item.children[0].children.len() >= 1 {
        match commonjs_export_name(item.children[0].children[0]) {
            Some(name) => seq![(name, name)],
            None => Seq::empty(),
        }
    } else {
        Seq::empty()
    }
}

/// The export bindings of a module body, in the order they were declared.
pub open spec fn export_bindings(body: Seq<Tree>) -> Seq<(Seq<char>, Seq<char>)>
    decreases body.len(),
{
    if body.len() == 0 {
        Seq::empty()
    } else {
        export_bindings(body.subrange(0, body.len() - 1)) + item_bindings(body[body.len() - 1])
    }
}

/// The export name of a local name; a later binding overrides an earlier one.
pub open spec fn export_lookup(bindings: Seq<(Seq<char>, Seq<char>)>, local: Seq<char>) -> Option<
    Seq<char>,
>
    decreases bindings.len(),
{
    if bindings.len() == 0 {
        None
    } else if bindings[bindings.len() - 1].0 == local {
        Some(bindings[bindings.len() - 1].1)
    } else {
        export_lookup(bindings.subrange(0, bindings.len() - 1), local)
    }
}

// ---------------------------------------------------------------- scope paths

/// What is known of one builder call.
#[derive(Debug)]
pub struct GqlDefinitionMetadata {
    /// The scope path, used to build the canonical id.
    pub ast_path: String,
    /// Whether the call sits at most one scope deep.
    pub is_top_level: bool,
    /// Whether its top-level binding is exported.
    pub is_exported: bool,
    /// The export name of its top-level binding.
    pub export_binding: Option<String>,
}

pub struct MetaView {
    pub ast_path: Seq<char>,
    pub is_top_level: bool,
    pub is_exported: bool,
    pub export_binding: Option<Seq<char>>,
}

impl View for GqlDefinitionMetadata {
    type V = MetaView;

    open spec fn view(&self) -> MetaView {
        MetaView {
            ast_path: self.ast_path@,
            is_top_level: self.is_top_level,
            is_exported: self.is_exported,
            export_binding: match self.export_binding {
                Some(s) => Some(s@),
                None => None,
            },
        }
    }
}

#[derive(Debug)]
pub struct MetadataEntry {
    pub span: Span,
    pub metadata: GqlDefinitionMetadata,
}

/// Builder-call metadata keyed by the call's span, in traversal order.
#[derive(Debug)]
pub struct MetadataMap {
    pub entries: Vec<MetadataEntry>,
}

pub open spec fn entries_view(v: Seq<MetadataEntry>) -> Seq<(Span, MetaView)> {
    v.map_values(|e: MetadataEntry| (e.span, e.metadata@))
}

impl View for MetadataMap {
    type V = Seq<(Span, MetaView)>;

    open spec fn view(&self) -> Seq<(Span, MetaView)> {
        entries_view(self.entries@)
    }
}

/// The metadata of the first entry with the given span.
pub open spec fn metadata_lookup(entries: Seq<(Span, MetaView)>, span: Span) -> Option<MetaView>
    decreases entries.len(),
{
    if entries.len() == 0 {
        None
    } else if entries[0].0 == span {
        Some(entries[0].1)
    } else {
        metadata_lookup(entries.subrange(1, entries.len() as int), span)
    }
}

impl MetadataMap {
    pub fn get(&self, span: Span) -> (r: Option<&GqlDefinitionMetadata>)
        ensures
            match r {
                Some(m) => metadata_lookup(self@, span) == Some(m@),
                None => metadata_lookup(self@, span) is None,
            },
    {
        let ghost rows = self@;
        assert(rows.subrange(0, rows.len() as int) =~= rows);
        let mut i: usize = 0;
        while i < self.entries.len()
            invariant
                rows == self@,
                i <= rows.len(),
                metadata_lookup(rows, span) == metadata_lookup(
                    rows.subrange(i as int, rows.len() as int),
                    span,
                ),
            decreases rows.len() - i,
        {
            let ghost rest = rows.subrange(i as int, rows.len() as int);
            assert(rest[0] == rows[i as int]);
            if self.entries[i].span == span {
                return Some(&self.entries[i].metadata);
            }
            assert(rest.subrange(1, rest.len() as int) =~= rows.subrange(i + 1, rows.len() as int));
            i = i + 1;
        }
        None
    }
}

/// The traversal's accumulated state.
pub struct CollectState {
    pub function_count: usize,
    pub arrow_count: usize,
    /// The unsuffixed path of each registered call, in order.
    pub bases: Seq<Seq<char>>,
    pub entries: Seq<(Span, MetaView)>,
}

/// Scope names joined with `.`.
pub open spec fn join_path(stack: Seq<Seq<char>>) -> Seq<char>
    decreases stack.len(),
{
    if stack.len() == 0 {
        Seq::empty()
    } else if stack.len() == 1 {
        stack[0]
    } else {
        join_path(stack.subrange(0, stack.len() - 1)) + "."@ + stack[stack.len() - 1]
    }
}

/// How many times a path occurs.
pub open spec fn occurrences(bases: Seq<Seq<char>>, base: Seq<char>) -> nat
    decreases bases.len(),
{
    if bases.len() == 0 {
        0
    } else {
        occurrences(bases.subrange(0, bases.len() - 1), base) + if bases[bases.len() - 1]
            == base {
            1nat
        } else {
            0nat
        }
    }
}

/// The path of the occurrence numbered `k` of a base path.
pub open spec fn suffixed(base: Seq<char>, k: nat) -> Seq<char> {
    if k == 0 {
        base
    } else {
        base + "$"@ + decimal(k)
    }
}

/// One more anonymous function; the count stays at the largest value rather than wrapping.
pub open spec fn bump(c: usize) -> usize {
    if c < usize::MAX {
        (c + 1) as usize
    } else {
        c
    }
}

/// Registering a builder call under the current scope stack.
pub open spec fn register(
    span: Span,
    stack: Seq<Seq<char>>,
    exports: Seq<(Seq<char>, Seq<char>)>,
    st: CollectState,
) -> CollectState {
    let base = join_path(stack);
    let binding = if stack.len() == 1 {
        export_lookup(exports, stack[0])
    } else {
        None
    };
    let meta = MetaView {
        ast_path: suffixed(base, occurrences(st.bases, base)),
        is_top_level: stack.len() <= 1,
        is_exported: binding is Some,
        export_binding: binding,
    };
    CollectState { bases: st.bases.push(base), entries: st.entries.push((span, meta)), ..st }
}

/// The scope that a node opens, if any.
pub open spec fn scope_segment(t: Tree, st: CollectState) -> Option<Seq<char>> {
    if t.kind == NodeKind::Declarator {
        if t.children.len() >= 1 && t.children[0].kind == NodeKind::Ident {
            Some(t.children[0].text)
        } else {
            None
        }
    } else if t.kind == NodeKind::FnDecl || t.kind == NodeKind::ClassDecl {
        Some(t.text)
    } else if t.kind == NodeKind::FnExpr {
        if t.text.len() > 0 {
            Some(t.text)
        } else {
            Some("function#"@ + decimal(st.function_count as nat))
        }
    } else if t.kind == NodeKind::Arrow {
        Some("arrow#"@ + decimal(st.arrow_count as nat))
    } else if t.kind == NodeKind::Method {
        if t.children.len() >= 1 && t.children[0].kind == NodeKind::Name {
            Some(t.children[0].text)
        } else {
            None
        }
    } else if t.kind == NodeKind::KeyValue {
        if t.children.len() >= 1 && (t.children[0].kind == NodeKind::Name || t.children[0].kind
            == NodeKind::Str) {
            Some(t.children[0].text)
        } else {
            None
        }
    } else if t.kind == NodeKind::Assign {
        if t.children.len() >= 1 {
            commonjs_export_name(t.children[0])
        } else {
            None
        }
    } else {
        None
    }
}

/// The anonymous-function counters after entering a node.
pub open spec fn enter_counters(t: Tree, st: CollectState) -> CollectState {
    if t.kind == NodeKind::FnExpr && t.text.len() == 0 {
        CollectState { function_count: bump(st.function_count), ..st }
    } else if t.kind == NodeKind::Arrow {
        CollectState { arrow_count: bump(st.arrow_count), ..st }
    } else {
        st
    }
}

pub open spec fn push_scope(stack: Seq<Seq<char>>, seg: Option<Seq<char>>) -> Seq<Seq<char>> {
    match seg {
        Some(s) => stack.push(s),
        None => stack,
    }
}

pub open spec fn collect_node(
    t: Tree,
    stack: Seq<Seq<char>>,
    exports: Seq<(Seq<char>, Seq<char>)>,
    st: CollectState,
) -> CollectState
    decreases t, 1nat,
{
    if is_builder_call(t) {
        register(t.span, stack, exports, st)
    } else {
        collect_seq(
            t.children,
            push_scope(stack, scope_segment(t, st)),
            exports,
            enter_counters(t, st),
        )
    }
}

pub open spec fn collect_seq(
    s: Seq<Tree>,
    stack: Seq<Seq<char>>,
    exports: Seq<(Seq<char>, Seq<char>)>,
    st: CollectState,
) -> CollectState
    decreases s, 0nat,
{
    if s.len() == 0 {
        st
    } else {
        collect_node(
            s[s.len() - 1],
            stack,
            exports,
            collect_seq(s.subrange(0, s.len() - 1), stack, exports, st),
        )
    }
}

pub open spec fn initial_state() -> CollectState {
    CollectState { function_count: 0, arrow_count: 0, bases: Seq::empty(), entries: Seq::empty() }
}

/// The metadata of a module's builder calls.
pub open spec fn module_metadata(body: Seq<Tree>) -> Seq<(Span, MetaView)> {
    collect_seq(body, Seq::empty(), export_bindings(body), initial_state()).entries
}

pub open spec fn pairs_view(v: Seq<(String, String)>) -> Seq<(Seq<char>, Seq<char>)> {
    v.map_values(|p: (String, String)| (p.0@, p.1@))
}

proof fn lemma_pairs_push(v: Seq<(String, String)>, p: (String, String))
    ensures
        pairs_view(v.push(p)) == pairs_view(v).push((p.0@, p.1@)),
{
    assert(pairs_view(v.push(p)) =~= pairs_view(v).push((p.0@, p.1@)));
}

proof fn lemma_strings_push(v: Seq<String>, s: String)
    ensures
        strings_view(v.push(s)) == strings_view(v).push(s@),
{
    assert(strings_view(v.push(s)) =~= strings_view(v).push(s@));
}

/// Whether a node is the identifier or name `word`.
fn is_word(n: &Node, kind: NodeKind, word: &str) -> (r: bool)
    ensures
        r == (n@.kind == kind && n@.text == word@),
{
    n.kind == kind && str_eq(n.text.as_str(), word)
}

/// The export name of a CommonJS export target.
fn get_commonjs_export_name(target: &Node) -> (r: Option<String>)
    ensures
        match r {
            Some(s) => commonjs_export_name(target@) == Some(s@),
            None => commonjs_export_name(target@) is None,
        },
{
    proof {
        lemma_view_nodes(target.children@);
    }
    if target.kind != NodeKind::Member || target.children.len() != 2 {
        return None;
    }
    let obj = &target.children[0];
    let prop = &target.children[1];
    proof {
        lemma_view_nodes(obj.children@);
    }
    let is_exports = is_word(obj, NodeKind::Ident, "exports");
    let is_module_exports = obj.kind == NodeKind::Member && obj.children.len() == 2 && is_word(
        &obj.children[0],
        NodeKind::Ident,
        "module",
    ) && is_word(&obj.children[1], NodeKind::Name, "exports");
    if (is_exports || is_module_exports) && prop.kind == NodeKind::Name {
        Some(prop.text.clone())
    } else {
        None
    }
}

fn push_specifier_bindings(specs: &Vec<Node>, out: &mut Vec<(String, String)>)
    ensures
        pairs_view(final(out)@) == pairs_view(old(out)@) + specifier_bindings(view_nodes(specs@)),
{
    let ghost s = view_nodes(specs@);
    let ghost start = pairs_view(out@);
    proof {
        lemma_view_nodes(specs@);
        assert(start + specifier_bindings(s.take(0)) =~= start);
    }
    let mut i: usize = 0;
    while i < specs.len()
        invariant
            s == view_nodes(specs@),
            s.len() == specs@.len(),
            forall|j: int| 0 <= j < s.len() ==> #[trigger] s[j] == specs@[j]@,
            i <= s.len(),
            pairs_view(out@) == start + specifier_bindings(s.take(i as int)),
        decreases s.len() - i,
    {
        let spec_node = &specs[i];
        proof {
            lemma_view_nodes(spec_node.children@);
            assert(s.take(i + 1).subrange(0, i as int) =~= s.take(i as int));
            assert(s.take(i + 1)[i as int] == spec_node@);
        }
        if spec_node.kind == NodeKind::ExportSpecifier && spec_node.children.len() >= 1 {
            let local = spec_node.children[0].text.clone();
            let exported = if spec_node.children.len() >= 2 {
                spec_node.children[1].text.clone()
            } else {
                spec_node.children[0].text.clone()
            };
            let pair = (local, exported);
            proof {
                lemma_pairs_push(out@, pair);
            }
            out.push(pair);
        }
        i = i + 1;
    }
    proof {
        assert(s.take(i as int) =~= s);
    }
}

fn push_declarator_bindings(decls: &Vec<Node>, out: &mut Vec<(String, String)>)
    ensures
        pairs_view(final(out)@) == pairs_view(old(out)@) + declarator_bindings(view_nodes(decls@)),
{
    let ghost s = view_nodes(decls@);
    let ghost start = pairs_view(out@);
    proof {
        lemma_view_nodes(decls@);
        assert(start + declarator_bindings(s.take(0)) =~= start);
    }
    let mut i: usize = 0;
    while i < decls.len()
        invariant
            s == view_nodes(decls@),
            s.len() == decls@.len(),
            forall|j: int| 0 <= j < s.len() ==> #[trigger] s[j] == decls@[j]@,
            i <= s.len(),
            pairs_view(out@) == start + declarator_bindings(s.take(i as int)),
        decreases s.len() - i,
    {
        let decl = &decls[i];
        proof {
            lemma_view_nodes(decl.children@);
            assert(s.take(i + 1).subrange(0, i as int) =~= s.take(i as int));
            assert(s.take(i + 1)[i as int] == decl@);
        }
        if decl.kind == NodeKind::Declarator && decl.children.len() >= 1 && decl.children[0].kind
            == NodeKind::Ident {
            let pair = (decl.children[0].text.clone(), decl.children[0].text.clone());
            proof {
                lemma_pairs_push(out@, pair);
            }
            out.push(pair);
        }
        i = i + 1;
    }
    proof {
        assert(s.take(i as int) =~= s);
    }
}

fn push_item_bindings(item: &Node, out: &mut Vec<(String, String)>)
    ensures
        pairs_view(final(out)@) == pairs_view(old(out)@) + item_bindings(item@),
{
    proof {
        lemma_view_nodes(item.children@);
    }
    let ghost start = pairs_view(out@);
    if item.kind == NodeKind::ExportNamed {
        push_specifier_bindings(&item.children, out);
    } else if item.kind == NodeKind::ExportDecl && item.children.len() >= 1 {
        let decl = &item.children[0];
        if decl.kind == NodeKind::VarDecl {
            push_declarator_bindings(&decl.children, out);
        } else if decl.kind == NodeKind::FnDecl || decl.kind == NodeKind::ClassDecl {
            let pair = (decl.text.clone(), decl.text.clone());
            proof {
                lemma_pairs_push(out@, pair);
            }
            out.push(pair);
            assert(pairs_view(out@) =~= start + item_bindings(item@));
        } else {
            assert(pairs_view(out@) =~= start + item_bindings(item@));
        }
    } else if item.kind == NodeKind::ExprStmt && item.children.len() >= 1 && item.children[0].kind
        == NodeKind::Assign && item.children[0].children.len() >= 1 {
        proof {
            lemma_view_nodes(item.children[0].children@);
        }
        match get_commonjs_export_name(&item.children[0].children[0]) {
            Some(name) => {
                let pair = (name.clone(), name);
                proof {
                    lemma_pairs_push(out@, pair);
                }
                out.push(pair);
                assert(pairs_view(out@) =~= start + item_bindings(item@));
            },
            None => {
                assert(pairs_view(out@) =~= start + item_bindings(item@));
            },
        }
    } else {
        assert(pairs_view(out@) =~= start + item_bindings(item@));
    }
}

/// The export bindings of a module's top-level items.
fn collect_export_bindings(body: &Vec<Node>) -> (r: Vec<(String, String)>)
    ensures
        pairs_view(r@) == export_bindings(view_nodes(body@)),
{
    let ghost s = view_nodes(body@);
    let mut out: Vec<(String, String)> = Vec::new();
    proof {
        lemma_view_nodes(body@);
        assert(pairs_view(out@) =~= export_bindings(s.take(0)));
    }
    let mut i: usize = 0;
    while i < body.len()
        invariant
            s == view_nodes(body@),
            s.len() == body@.len(),
            forall|j: int| 0 <= j < s.len() ==> #[trigger] s[j] == body@[j]@,
            i <= s.len(),
            pairs_view(out@) == export_bindings(s.take(i as int)),
        decreases s.len() - i,
    {
        proof {
            assert(s.take(i + 1).subrange(0, i as int) =~= s.take(i as int));
            assert(s.take(i + 1)[i as int] == body@[i as int]@);
        }
        push_item_bindings(&body[i], &mut out);
        i = i + 1;
    }
    proof {
        assert(s.take(i as int) =~= s);
    }
    out
}

/// Collects the scope path of every builder call of a module.
pub struct MetadataCollector {
    source_path: String,
    export_bindings: Vec<(String, String)>,
    scope_stack: Vec<String>,
    metadata: MetadataMap,
    bases: Vec<String>,
    function_count: usize,
    arrow_count: usize,
}

impl MetadataCollector {
    pub closed spec fn state(&self) -> CollectState {
        CollectState {
            function_count: self.function_count,
            arrow_count: self.arrow_count,
            bases: strings_view(self.bases@),
            entries: self.metadata@,
        }
    }

    pub closed spec fn stack(&self) -> Seq<Seq<char>> {
        strings_view(self.scope_stack@)
    }

    pub closed spec fn exports(&self) -> Seq<(Seq<char>, Seq<char>)> {
        pairs_view(self.export_bindings@)
    }

    /// Collects the metadata of every builder call of a module.
    pub fn collect(module: &Module, source_path: &str) -> (r: MetadataMap)
        ensures
            r@ == module_metadata(module@),
    {
        let export_bindings = collect_export_bindings(&module.body);
        let mut collector = MetadataCollector {
            source_path: String::from_str(source_path),
            export_bindings,
            scope_stack: Vec::new(),
            metadata: MetadataMap { entries: Vec::new() },
            bases: Vec::new(),
            function_count: 0,
            arrow_count: 0,
        };
        proof {
            assert(collector.stack() =~= Seq::empty());
            assert(collector.state().bases =~= Seq::empty());
            assert(collector.state().entries =~= Seq::empty());
        }
        collector.visit_list(&module.body);
        collector.metadata
    }

    /// The current scope path, without a suffix.
    fn get_ast_path(&self) -> (r: String)
        ensures
            r@ == join_path(self.stack()),
    {
        let ghost sv = self.stack();
        let mut out = String::new();
        proof {
            assert(sv.take(0) =~= Seq::<Seq<char>>::empty());
        }
        let mut i: usize = 0;
        while i < self.scope_stack.len()
            invariant
                sv == strings_view(self.scope_stack@),
                i <= sv.len(),
                out@ == join_path(sv.take(i as int)),
            decreases sv.len() - i,
        {
            proof {
                assert(sv.take(i + 1).subrange(0, i as int) =~= sv.take(i as int));
                assert(sv.take(i + 1)[i as int] == self.scope_stack@[i as int]@);
            }
            if i == 0 {
                out = self.scope_stack[i].clone();
            } else {
                out.append(".");
                out.append(self.scope_stack[i].as_str());
            }
            i = i + 1;
        }
        proof {
            assert(sv.take(i as int) =~= sv);
        }
        out
    }

    /// How many registered calls share a base path.
    fn count_base(&self, base: &str) -> (r: usize)
        ensures
            r as nat == occurrences(self.state().bases, base@),
    {
        let ghost bv = self.state().bases;
        let mut count: usize = 0;
        let mut i: usize = 0;
        proof {
            assert(bv.take(0) =~= Seq::<Seq<char>>::empty());
        }
        while i < self.bases.len()
            invariant
                bv == strings_view(self.bases@),
                i <= bv.len(),
                count <= i,
                count as nat == occurrences(bv.take(i as int), base@),
            decreases bv.len() - i,
        {
            proof {
                assert(bv.take(i + 1).subrange(0, i as int) =~= bv.take(i as int));
                assert(bv.take(i + 1)[i as int] == self.bases@[i as int]@);
            }
            if str_eq(self.bases[i].as_str(), base) {
                count = count + 1;
            }
            i = i + 1;
        }
        proof {
            assert(bv.take(i as int) =~= bv);
        }
        count
    }

    /// The export name of a top-level local name.
    fn resolve_export_info(&self, local: &str) -> (r: Option<String>)
        ensures
            match r {
                Some(s) => export_lookup(self.exports(), local@) == Some(s@),
                None => export_lookup(self.exports(), local@) is None,
            },
    {
        let ghost b = self.exports();
        let mut j: usize = self.export_bindings.len();
        proof {
            assert(b.take(j as int) =~= b);
        }
        while j > 0
            invariant
                b == pairs_view(self.export_bindings@),
                j <= b.len(),
                export_lookup(b, local@) == export_lookup(b.take(j as int), local@),
            decreases j,
        {
            let ghost t = b.take(j as int);
            assert(t[j - 1] == b[j - 1]);
            if str_eq(self.export_bindings[j - 1].0.as_str(), local) {
                return Some(self.export_bindings[j - 1].1.clone());
            }
            assert(t.subrange(0, j - 1) =~= b.take(j - 1));
            j = j - 1;
        }
        None
    }

    /// Registers a builder call under the current scope path.
    fn register_definition(&mut self, span: Span)
        ensures
            final(self).scope_stack@ == old(self).scope_stack@,
            final(self).export_bindings@ == old(self).export_bindings@,
            final(self).state() == register(span, old(self).stack(), old(self).exports(), old(self).state()),
    {
        let base = self.get_ast_path();
        let count = self.count_base(base.as_str());
        let path = if count == 0 {
            base.clone()
        } else {
            let mut p = base.clone();
            p.append("$");
            let digits = decimal_string(count);
            p.append(digits.as_str());
            p
        };
        let export_binding = if self.scope_stack.len() == 1 {
            self.resolve_export_info(self.scope_stack[0].as_str())
        } else {
            None
        };
        let is_exported = export_binding.is_some();
        let metadata = GqlDefinitionMetadata {
            ast_path: path,
            is_top_level: self.scope_stack.len() <= 1,
            is_exported,
            export_binding,
        };
        let ghost old_bases = self.bases@;
        let ghost old_entries = self.metadata.entries@;
        self.bases.push(base);
        self.metadata.entries.push(MetadataEntry { span, metadata });
        proof {
            lemma_strings_push(old_bases, base);
            assert(entries_view(self.metadata.entries@) =~= entries_view(old_entries).push(
                (span, self.metadata.entries@[self.metadata.entries@.len() - 1].metadata@),
            ));
        }
    }

    /// The scope a node opens, counting anonymous functions as they are entered.
    fn enter_node(&mut self, n: &Node) -> (r: Option<String>)
        ensures
            final(self).scope_stack@ == old(self).scope_stack@,
            final(self).export_bindings@ == old(self).export_bindings@,
            final(self).state() == enter_counters(n@, old(self).state()),
            match r {
                Some(s) => scope_segment(n@, old(self).state()) == Some(s@),
                None => scope_segment(n@, old(self).state()) is None,
            },
    {
        proof {
            lemma_view_nodes(n.children@);
        }
        match n.kind {
            NodeKind::Declarator => {
                if n.children.len() >= 1 && n.children[0].kind == NodeKind::Ident {
                    Some(n.children[0].text.clone())
                } else {
                    None
                }
            },
            NodeKind::FnDecl | NodeKind::ClassDecl => Some(n.text.clone()),
            NodeKind::FnExpr => {
                if !n.text.as_str().is_empty() {
                    Some(n.text.clone())
                } else {
                    let mut name = String::from_str("function#");
                    let digits = decimal_string(self.function_count);
                    name.append(digits.as_str());
                    if self.function_count < usize::MAX {
                        self.function_count = self.function_count + 1;
                    }
                    Some(name)
                }
            },
            NodeKind::Arrow => {
                let mut name = String::from_str("arrow#");
                let digits = decimal_string(self.arrow_count);
                name.append(digits.as_str());
                if self.arrow_count < usize::MAX {
                    self.arrow_count = self.arrow_count + 1;
                }
                Some(name)
            },
            NodeKind::Method => {
                if n.children.len() >= 1 && n.children[0].kind == NodeKind::Name {
                    Some(n.children[0].text.clone())
                } else {
                    None
                }
            },
            NodeKind::KeyValue => {
                if n.children.len() >= 1 && (n.children[0].kind == NodeKind::Name
                    || n.children[0].kind == NodeKind::Str) {
                    Some(n.children[0].text.clone())
                } else {
                    None
                }
            },
            NodeKind::Assign => {
                if n.children.len() >= 1 {
                    get_commonjs_export_name(&n.children[0])
                } else {
                    None
                }
            },
            _ => None,
        }
    }

    fn visit(&mut self, n: &Node)
        ensures
            final(self).scope_stack@ == old(self).scope_stack@,
            final(self).export_bindings@ == old(self).export_bindings@,
            final(self).state() == collect_node(n@, old(self).stack(), old(self).exports(), old(self).state()),
        decreases n, 1nat,
    {
        if is_builder_call_exec(n) {
            self.register_definition(n.span);
            return;
        }
        let ghost st0 = self.state();
        let ghost stack0 = self.scope_stack@;
        let seg = self.enter_node(n);
        let pushed = match seg {
            Some(s) => {
                proof {
                    lemma_strings_push(self.scope_stack@, s);
                }
                self.scope_stack.push(s);
                true
            },
            None => false,
        };
        proof {
            assert(self.stack() == push_scope(strings_view(stack0), scope_segment(n@, st0)));
        }
        self.visit_list(&n.children);
        if pushed {
            self.scope_stack.pop();
            assert(self.scope_stack@ =~= stack0);
        }
    }

    fn visit_list(&mut self, nodes: &Vec<Node>)
        ensures
            final(self).scope_stack@ == old(self).scope_stack@,
            final(self).export_bindings@ == old(self).export_bindings@,
            final(self).state() == collect_seq(view_nodes(nodes@), old(self).stack(), old(self).exports(), old(self).state()),
        decreases nodes, 0nat,
    {
        let ghost s = view_nodes(nodes@);
        let ghost stack0 = self.scope_stack@;
        let ghost ex0 = self.export_bindings@;
        let ghost st0 = self.state();
        proof {
            lemma_view_nodes(nodes@);
            assert(s.take(0) =~= Seq::<Tree>::empty());
        }
        let mut i: usize = 0;
        while i < nodes.len()
            invariant
                s == view_nodes(nodes@),
                s.len() == nodes@.len(),
                forall|j: int| 0 <= j < s.len() ==> #[trigger] s[j] == nodes@[j]@,
                i <= s.len(),
                self.scope_stack@ == stack0,
                self.export_bindings@ == ex0,
                self.state() == collect_seq(s.take(i as int), strings_view(stack0), pairs_view(ex0), st0),
            decreases s.len() - i,
        {
            proof {
                assert(s.take(i + 1).subrange(0, i as int) =~= s.take(i as int));
                assert(s.take(i + 1)[i as int] == nodes@[i as int]@);
                assert(decreases_to!(nodes => nodes@[i as int]));
            }
            self.visit(&nodes[i]);
            i = i + 1;
        }
        proof {
            assert(s.take(i as int) =~= s);
        }
    }
}

} // verus!
