//! The module header: legacy imports are dropped, the runtime import is merged
//! into an existing import of the runtime module or inserted at the end of the
//! leading import/require region, and the pass reports where registration
//! statements go.
use vstd::prelude::*;
use crate::ast::{lemma_view_nodes, lemma_view_nodes_push, view_nodes, Module, Node, NodeKind, Tree};
use crate::config::aliases_view;
use crate::runtime::{inner_tree, leaf_tree};
use crate::text::{is_legacy_specifier, is_legacy_specifier_exec, str_eq};

verus! {

pub open spec fn runtime_module() -> Seq<char> {
    "@soda-gql/runtime"@
}

/// The specifier of `require("m")`, also inside `__importDefault(...)` or `__importStar(...)`.
pub open spec fn require_specifier(e: Tree) -> Option<Seq<char>>
    decreases e,
{
    if e.kind == NodeKind::Call && e.children.len() >= 2 && e.children[0].kind == NodeKind::Ident {
        let name = e.children[0].text;
        let arg = e.children[1];
        let value = if arg.kind == NodeKind::Spread && arg.children.len() == 1 {
            arg.children[0]
        } else {
            arg
        };
        if name == "require"@ && value.kind == NodeKind::Str {
            Some(value.text)
        } else if name == "__importDefault"@ || name == "__importStar"@ {
            if arg.kind == NodeKind::Spread && arg.children.len() == 1 {
                require_specifier(arg.children[0])
            } else {
                require_specifier(arg)
            }
        } else {
            None
        }
    } else {
        None
    }
}

/// A declarator initialized by a `require` of a legacy module.
pub open spec fn is_legacy_require(d: Tree, aliases: Seq<Seq<char>>) -> bool {
    d.children.len() >= 2 && match require_specifier(d.children[1]) {
        Some(s) => is_legacy_specifier(s, aliases),
        None => false,
    }
}

pub open spec fn kept_declarators(decls: Seq<Tree>, aliases: Seq<Seq<char>>) -> Seq<Tree>
    decreases decls.len(),
{
    if decls.len() == 0 {
        Seq::empty()
    } else {
        let rest = kept_declarators(decls.subrange(0, decls.len() - 1), aliases);
        if is_legacy_require(decls[decls.len() - 1], aliases) {
            rest
        } else {
            rest.push(decls[decls.len() - 1])
        }
    }
}

/// A declaration that binds a `require(...)` (possibly wrapped): part of the
/// leading import/require region.
pub open spec fn declares_require(decl: Tree) -> bool {
    exists|i: int|
        0 <= i < decl.children.len() && (#[trigger] decl.children[i]).children.len() >= 2
            && require_specifier(decl.children[i].children[1]) is Some
}

/// The pass over the top-level items.
pub struct ImportScan {
    pub body: Seq<Tree>,
    /// The end of the leading import/require region: where a new runtime import goes.
    pub insert_pos: nat,
    /// Whether the leading region has ended.
    pub found_non_import: bool,
    /// The position of an import of the runtime module in `body`.
    pub existing: Option<nat>,
}

pub open spec fn scan_item(item: Tree, aliases: Seq<Seq<char>>, st: ImportScan) -> ImportScan {
    if item.kind == NodeKind::Import {
        if is_legacy_specifier(item.text, aliases) {
            st
        } else {
            ImportScan {
                body: st.body.push(item),
                insert_pos: if st.found_non_import {
                    st.insert_pos
                } else {
                    st.body.len() + 1
                },
                existing: if item.text == runtime_module() {
                    Some(st.body.len())
                } else {
                    st.existing
                },
                ..st
            }
        }
    } else if item.kind == NodeKind::VarDecl {
        let kept = kept_declarators(item.children, aliases);
        if kept.len() == 0 {
            st
        } else {
            let kept_item = if kept.len() < item.children.len() {
                Tree { children: kept, ..item }
            } else {
                item
            };
            if !st.found_non_import && declares_require(kept_item) {
                ImportScan { body: st.body.push(kept_item), insert_pos: st.body.len() + 1, ..st }
            } else {
                ImportScan {
                    body: st.body.push(kept_item),
                    insert_pos: if st.found_non_import {
                        st.insert_pos
                    } else {
                        st.body.len()
                    },
                    found_non_import: true,
                    ..st
                }
            }
        }
    } else {
        ImportScan {
            body: st.body.push(item),
            insert_pos: if st.found_non_import {
                st.insert_pos
            } else {
                st.body.len()
            },
            found_non_import: true,
            ..st
        }
    }
}

pub open spec fn scan_items(items: Seq<Tree>, aliases: Seq<Seq<char>>) -> ImportScan
    decreases items.len(),
{
    if items.len() == 0 {
        ImportScan { body: Seq::empty(), insert_pos: 0, found_non_import: false, existing: None }
    } else {
        scan_item(items[items.len() - 1], aliases, scan_items(items.subrange(0, items.len() - 1), aliases))
    }
}

/// `gqlRuntime` as a named import specifier.
pub open spec fn runtime_specifier() -> Tree {
    leaf_tree(NodeKind::ImportNamed, "gqlRuntime"@)
}

/// `import { gqlRuntime } from "@soda-gql/runtime";`
pub open spec fn esm_runtime_import() -> Tree {
    Tree { text: runtime_module(), ..inner_tree(NodeKind::Import, seq![runtime_specifier()]) }
}

/// `const __soda_gql_runtime = require("@soda-gql/runtime");`
pub open spec fn cjs_runtime_require() -> Tree {
    Tree {
        text: "const"@,
        ..inner_tree(
            NodeKind::VarDecl,
            seq![
                inner_tree(
                    NodeKind::Declarator,
                    seq![
                        leaf_tree(NodeKind::Ident, "__soda_gql_runtime"@),
                        inner_tree(
                            NodeKind::Call,
                            seq![
                                leaf_tree(NodeKind::Ident, "require"@),
                                leaf_tree(NodeKind::Str, runtime_module()),
                            ],
                        ),
                    ],
                ),
            ],
        )
    }
}

/// An import of the runtime module that already binds `gqlRuntime`.
pub open spec fn has_runtime_binding(import: Tree) -> bool {
    import.text == runtime_module() && exists|i: int|
        0 <= i < import.children.len() && (#[trigger] import.children[i]).kind
            == NodeKind::ImportNamed && import.children[i].text == "gqlRuntime"@
}

/// The header after the import pass.
pub open spec fn manage_imports(
    items: Seq<Tree>,
    aliases: Seq<Seq<char>>,
    add_runtime: bool,
    is_cjs: bool,
) -> Seq<Tree> {
    let sc = scan_items(items, aliases);
    if !add_runtime {
        sc.body
    } else {
        match sc.existing {
            Some(idx) => if has_runtime_binding(sc.body[idx as int]) {
                sc.body
            } else {
                sc.body.update(
                    idx as int,
                    Tree {
                        children: sc.body[idx as int].children.push(runtime_specifier()),
                        ..sc.body[idx as int]
                    },
                )
            },
            None => sc.body.insert(
                sc.insert_pos as int,
                if is_cjs {
                    cjs_runtime_require()
                } else {
                    esm_runtime_import()
                },
            ),
        }
    }
}

/// Where registration statements go after the import pass: after the leading
/// import/require region, after the runtime import or require inserted at its end,
/// and after an import of the runtime module that was already there.
pub open spec fn registration_pos(items: Seq<Tree>, aliases: Seq<Seq<char>>, add_runtime: bool) -> nat {
    let sc = scan_items(items, aliases);
    match sc.existing {
        Some(idx) => if sc.insert_pos > idx {
            sc.insert_pos
        } else {
            idx + 1
        },
        None => if add_runtime {
            sc.insert_pos + 1
        } else {
            sc.insert_pos
        },
    }
}

/// Whether the pass adds or merges a runtime import.
pub open spec fn adds_runtime(items: Seq<Tree>, aliases: Seq<Seq<char>>, add_runtime: bool) -> bool {
    let sc = scan_items(items, aliases);
    add_runtime && match sc.existing {
        Some(idx) => !has_runtime_binding(sc.body[idx as int]),
        None => true,
    }
}

pub proof fn lemma_scan_bounds(items: Seq<Tree>, aliases: Seq<Seq<char>>)
    ensures
        scan_items(items, aliases).insert_pos <= scan_items(items, aliases).body.len(),
        match scan_items(items, aliases).existing {
            Some(idx) => idx < scan_items(items, aliases).body.len()
                && scan_items(items, aliases).body[idx as int].kind == NodeKind::Import
                && scan_items(items, aliases).body[idx as int].text == runtime_module(),
            None => true,
        },
    decreases items.len(),
{
    if items.len() > 0 {
        lemma_scan_bounds(items.subrange(0, items.len() - 1), aliases);
    }
}

/// The expression of an argument, without a spread marker.
fn arg_expr(arg: &Node) -> (r: &Node)
    ensures
        r@ == (if arg@.kind == NodeKind::Spread && arg@.children.len() == 1 {
            arg@.children[0]
        } else {
            arg@
        }),
{
    proof {
        lemma_view_nodes(arg.children@);
    }
    if arg.kind == NodeKind::Spread && arg.children.len() == 1 {
        &arg.children[0]
    } else {
        arg
    }
}

/// The module specifier of a `require` call, possibly wrapped in an interop helper.
fn extract_require_specifier(e: &Node) -> (r: Option<String>)
    ensures
        match r {
            Some(s) => require_specifier(e@) == Some(s@),
            None => require_specifier(e@) is None,
        },
    decreases e,
{
    proof {
        lemma_view_nodes(e.children@);
        reveal_strlit("require");
        reveal_strlit("__importDefault");
        reveal_strlit("__importStar");
    }
    if e.kind != NodeKind::Call || e.children.len() < 2 || e.children[0].kind != NodeKind::Ident {
        return None;
    }
    let name = e.children[0].text.as_str();
    let arg = &e.children[1];
    let value = arg_expr(arg);
    if str_eq(name, "require") && value.kind == NodeKind::Str {
        return Some(value.text.clone());
    }
    if str_eq(name, "__importDefault") || str_eq(name, "__importStar") {
        proof {
            lemma_view_nodes(arg.children@);
        }
        if arg.kind == NodeKind::Spread && arg.children.len() == 1 {
            proof {
                assert(decreases_to!(e => arg.children@[0]));
            }
            return extract_require_specifier(&arg.children[0]);
        }
        return extract_require_specifier(arg);
    }
    None
}

/// Rewrites the import header of a module.
pub struct ImportManager {
    needs_runtime_import: bool,
    is_cjs: bool,
    graphql_system_aliases: Vec<String>,
    has_added_import: bool,
    registration_pos: usize,
}

impl ImportManager {
    pub closed spec fn aliases(&self) -> Seq<Seq<char>> {
        aliases_view(self.graphql_system_aliases@)
    }

    pub closed spec fn will_add(&self) -> bool {
        self.needs_runtime_import && !self.has_added_import
    }

    pub closed spec fn cjs(&self) -> bool {
        self.is_cjs
    }

    pub closed spec fn registered_at(&self) -> usize {
        self.registration_pos
    }

    /// Where the last pass asks registration statements to go.
    pub fn registration_position(&self) -> (r: usize)
        ensures
            r == self.registered_at(),
    {
        self.registration_pos
    }

    pub fn new(needs_runtime_import: bool, is_cjs: bool, graphql_system_aliases: &[String]) -> (r:
        ImportManager)
        ensures
            r.aliases() == aliases_view(graphql_system_aliases@),
            r.will_add() == needs_runtime_import,
            r.cjs() == is_cjs,
    {
        let mut aliases: Vec<String> = Vec::new();
        let mut i: usize = 0;
        while i < graphql_system_aliases.len()
            invariant
                i <= graphql_system_aliases@.len(),
                aliases_view(aliases@) == aliases_view(graphql_system_aliases@.take(i as int)),
            decreases graphql_system_aliases@.len() - i,
        {
            let a = graphql_system_aliases[i].clone();
            let ghost before = aliases@;
            aliases.push(a);
            proof {
                assert(a == graphql_system_aliases@[i as int]);
                assert(graphql_system_aliases@.take(i + 1) =~= graphql_system_aliases@.take(i as int).push(a));
                assert(aliases@ =~= before.push(a));
                assert(aliases_view(before.push(a)) =~= aliases_view(before).push(a@));
                assert(aliases_view(graphql_system_aliases@.take(i as int).push(a)) =~= aliases_view(
                    graphql_system_aliases@.take(i as int),
                ).push(a@));
                assert(aliases_view(aliases@) =~= aliases_view(graphql_system_aliases@.take(i + 1)));
            }
            i = i + 1;
        }
        proof {
            assert(graphql_system_aliases@.take(i as int) =~= graphql_system_aliases@);
        }
        ImportManager {
            needs_runtime_import,
            is_cjs,
            graphql_system_aliases: aliases,
            has_added_import: false,
            registration_pos: 0,
        }
    }

    /// Whether a module specifier is, or lies below, a legacy alias.
    pub fn is_graphql_system_import(&self, specifier: &str) -> (r: bool)
        ensures
            r == is_legacy_specifier(specifier@, self.aliases()),
    {
        is_legacy_specifier_exec(specifier, &self.graphql_system_aliases)
    }

    fn is_graphql_system_require(&self, decl: &Node) -> (r: bool)
        ensures
            r == is_legacy_require(decl@, self.aliases()),
    {
        proof {
            lemma_view_nodes(decl.children@);
        }
        if decl.children.len() < 2 {
            return false;
        }
        match extract_require_specifier(&decl.children[1]) {
            Some(s) => self.is_graphql_system_import(s.as_str()),
            None => false,
        }
    }

    /// The declarators of a declaration that do not require a legacy module.
    fn filter_declarators(&self, decls: &Vec<Node>) -> (r: Vec<Node>)
        ensures
            view_nodes(r@) == kept_declarators(view_nodes(decls@), self.aliases()),
    {
        let ghost s = view_nodes(decls@);
        let mut out: Vec<Node> = Vec::new();
        proof {
            lemma_view_nodes(decls@);
            assert(view_nodes(out@) =~= kept_declarators(s.take(0), self.aliases()));
        }
        let mut i: usize = 0;
        while i < decls.len()
            invariant
                s == view_nodes(decls@),
                s.len() == decls@.len(),
                forall|j: int| 0 <= j < s.len() ==> #[trigger] s[j] == decls@[j]@,
                i <= s.len(),
                view_nodes(out@) == kept_declarators(s.take(i as int), self.aliases()),
            decreases s.len() - i,
        {
            proof {
                assert(s.take(i + 1).subrange(0, i as int) =~= s.take(i as int));
                assert(s.take(i + 1)[i as int] == decls@[i as int]@);
            }
            if !self.is_graphql_system_require(&decls[i]) {
                let c = decls[i].clone();
                proof {
                    lemma_view_nodes_push(out@, c);
                }
                out.push(c);
            }
            i = i + 1;
        }
        proof {
            assert(s.take(i as int) =~= s);
        }
        out
    }

    fn declares_require_exec(&self, decl: &Node) -> (r: bool)
        ensures
            r == declares_require(decl@),
    {
        proof {
            lemma_view_nodes(decl.children@);
        }
        let mut i: usize = 0;
        while i < decl.children.len()
            invariant
                i <= decl.children@.len(),
                decl@.children.len() == decl.children@.len(),
                forall|j: int| 0 <= j < decl.children@.len() ==> #[trigger] decl@.children[j] == decl.children@[j]@,
                forall|j: int| 0 <= j < i ==> !((#[trigger] decl@.children[j]).children.len() >= 2
                    && require_specifier(decl@.children[j].children[1]) is Some),
            decreases decl.children@.len() - i,
        {
            let d = &decl.children[i];
            proof {
                lemma_view_nodes(d.children@);
            }
            if d.children.len() >= 2 {
                match extract_require_specifier(&d.children[1]) {
                    Some(_) => {
                        assert(decl@.children[i as int] == d@);
                        return true;
                    },
                    None => {},
                }
            }
            i = i + 1;
        }
        false
    }

    fn has_runtime_import(&self, import: &Node) -> (r: bool)
        ensures
            r == has_runtime_binding(import@),
    {
        proof {
            lemma_view_nodes(import.children@);
            reveal_strlit("gqlRuntime");
        }
        if !str_eq(import.text.as_str(), "@soda-gql/runtime") {
            return false;
        }
        assert(import@.text == runtime_module());
        let mut i: usize = 0;
        while i < import.children.len()
            invariant
                i <= import.children@.len(),
                import@.text == runtime_module(),
                import@.children.len() == import.children@.len(),
                forall|j: int| 0 <= j < import.children@.len() ==> #[trigger] import@.children[j] == import.children@[j]@,
                forall|j: int| 0 <= j < i ==> !((#[trigger] import@.children[j]).kind == NodeKind::ImportNamed && import@.children[j].text == "gqlRuntime"@),
            decreases import.children@.len() - i,
        {
            let spec_node = &import.children[i];
            if spec_node.kind == NodeKind::ImportNamed && str_eq(spec_node.text.as_str(), "gqlRuntime") {
                assert(import@.children[i as int] == spec_node@);
                assert(import@.children[i as int].kind == NodeKind::ImportNamed
                    && import@.children[i as int].text == "gqlRuntime"@);
                return true;
            }
            i = i + 1;
        }
        false
    }

    fn create_runtime_specifier(&self) -> (r: Node)
        ensures
            r@ == runtime_specifier(),
    {
        Node::leaf(NodeKind::ImportNamed, "gqlRuntime")
    }

    fn create_esm_import(&self) -> (r: Node)
        ensures
            r@ == esm_runtime_import(),
    {
        let mut children: Vec<Node> = Vec::new();
        let s = self.create_runtime_specifier();
        proof {
            lemma_view_nodes_push(children@, s);
        }
        children.push(s);
        assert(view_nodes(children@) =~= seq![runtime_specifier()]);
        let mut r = Node::inner(NodeKind::Import, children);
        r.text = String::from_str("@soda-gql/runtime");
        r
    }

    fn create_cjs_require(&self) -> (r: Node)
        ensures
            r@ == cjs_runtime_require(),
    {
        let mut call_children: Vec<Node> = Vec::new();
        let callee = Node::leaf(NodeKind::Ident, "require");
        let source = Node::leaf(NodeKind::Str, "@soda-gql/runtime");
        proof {
            lemma_view_nodes_push(call_children@, callee);
        }
        call_children.push(callee);
        proof {
            lemma_view_nodes_push(call_children@, source);
        }
        call_children.push(source);
        assert(view_nodes(call_children@) =~= seq![callee@, source@]);
        let call = Node::inner(NodeKind::Call, call_children);
        let binding = Node::leaf(NodeKind::Ident, "__soda_gql_runtime");
        let mut decl_children: Vec<Node> = Vec::new();
        proof {
            lemma_view_nodes_push(decl_children@, binding);
        }
        decl_children.push(binding);
        proof {
            lemma_view_nodes_push(decl_children@, call);
        }
        decl_children.push(call);
        assert(view_nodes(decl_children@) =~= seq![binding@, call@]);
        let declarator = Node::inner(NodeKind::Declarator, decl_children);
        let mut decls: Vec<Node> = Vec::new();
        proof {
            lemma_view_nodes_push(decls@, declarator);
        }
        decls.push(declarator);
        assert(view_nodes(decls@) =~= seq![declarator@]);
        let mut r = Node::inner(NodeKind::VarDecl, decls);
        r.text = String::from_str("const");
        r
    }

    /// Drops legacy imports and requires, and adds the runtime import where needed.
    pub fn visit_mut_module(&mut self, module: &mut Module)
        ensures
            final(module)@ == manage_imports(old(module)@, old(self).aliases(), old(self).will_add(), old(self).cjs()),
            final(self).aliases() == old(self).aliases(),
            final(self).cjs() == old(self).cjs(),
            final(self).will_add() == (old(self).will_add() && !adds_runtime(old(module)@, old(self).aliases(), true)),
            final(self).registered_at() as nat == registration_pos(old(module)@, old(self).aliases(), old(self).will_add()),
    {
        let ghost items = module@;
        let ghost aliases = self.aliases();
        let mut new_body: Vec<Node> = Vec::new();
        let mut import_insert_pos: usize = 0;
        let mut found_non_import = false;
        let mut existing_runtime_import_idx: Option<usize> = None;
        proof {
            lemma_view_nodes(module.body@);
            assert(view_nodes(new_body@) =~= Seq::<Tree>::empty());
            assert(items.take(0) =~= Seq::<Tree>::empty());
        }
        let mut i: usize = 0;
        while i < module.body.len()
            invariant
                items == view_nodes(module.body@),
                items.len() == module.body@.len(),
                forall|j: int| 0 <= j < items.len() ==> #[trigger] items[j] == module.body@[j]@,
                aliases == self.aliases(),
                i <= items.len(),
                new_body@.len() <= i,
                ({
                    let sc = scan_items(items.take(i as int), aliases);
                    &&& view_nodes(new_body@) == sc.body
                    &&& import_insert_pos as nat == sc.insert_pos
                    &&& found_non_import == sc.found_non_import
                    &&& match existing_runtime_import_idx {
                        Some(k) => sc.existing == Some(k as nat),
                        None => sc.existing is None,
                    }
                }),
            decreases items.len() - i,
        {
            proof {
                assert(items.take(i + 1).subrange(0, i as int) =~= items.take(i as int));
                assert(items.take(i + 1)[i as int] == module.body@[i as int]@);
                lemma_view_nodes(new_body@);
            }
            let item = &module.body[i];
            if item.kind == NodeKind::Import {
                if !self.is_graphql_system_import(item.text.as_str()) {
                    if str_eq(item.text.as_str(), "@soda-gql/runtime") {
                        existing_runtime_import_idx = Some(new_body.len());
                    }
                    if !found_non_import {
                        import_insert_pos = new_body.len() + 1;
                    }
                    let c = item.clone();
                    proof {
                        lemma_view_nodes_push(new_body@, c);
                    }
                    new_body.push(c);
                }
            } else if item.kind == NodeKind::VarDecl {
                let kept = self.filter_declarators(&item.children);
                proof {
                    lemma_view_nodes(kept@);
                    lemma_view_nodes(item.children@);
                }
                if kept.len() > 0 {
                    let c = if kept.len() < item.children.len() {
                        Node { kind: item.kind, span: item.span, text: item.text.clone(), children: kept }
                    } else {
                        item.clone()
                    };
                    let requires_module = self.declares_require_exec(&c);
                    proof {
                        lemma_view_nodes_push(new_body@, c);
                    }
                    if !found_non_import && requires_module {
                        new_body.push(c);
                        import_insert_pos = new_body.len();
                    } else {
                        if !found_non_import {
                            import_insert_pos = new_body.len();
                        }
                        found_non_import = true;
                        new_body.push(c);
                    }
                }
            } else {
                if !found_non_import {
                    import_insert_pos = new_body.len();
                }
                found_non_import = true;
                let c = item.clone();
                proof {
                    lemma_view_nodes_push(new_body@, c);
                }
                new_body.push(c);
            }
            i = i + 1;
        }
        proof {
            assert(items.take(i as int) =~= items);
            lemma_scan_bounds(items, aliases);
            lemma_view_nodes(new_body@);
        }
        let mut registration_pos = match existing_runtime_import_idx {
            Some(idx) => if import_insert_pos > idx {
                import_insert_pos
            } else {
                idx + 1
            },
            None => import_insert_pos,
        };
        if self.needs_runtime_import && !self.has_added_import {
            let already_has_import = match existing_runtime_import_idx {
                Some(idx) => self.has_runtime_import(&new_body[idx]),
                None => false,
            };
            if !already_has_import {
                match existing_runtime_import_idx {
                    Some(idx) => {
                        let old_import = &new_body[idx];
                        let mut specifiers = crate::ast::clone_nodes(&old_import.children);
                        let s = self.create_runtime_specifier();
                        proof {
                            lemma_view_nodes_push(specifiers@, s);
                        }
                        specifiers.push(s);
                        let merged = Node {
                            kind: old_import.kind,
                            span: old_import.span,
                            text: old_import.text.clone(),
                            children: specifiers,
                        };
                        let ghost before = new_body@;
                        new_body.set(idx, merged);
                        proof {
                            assert(new_body@ == before.update(idx as int, merged));
                            lemma_view_nodes(new_body@);
                            assert(view_nodes(new_body@) =~= view_nodes(before).update(idx as int, merged@));
                        }
                    },
                    None => {
                        let runtime_import = if self.is_cjs {
                            self.create_cjs_require()
                        } else {
                            self.create_esm_import()
                        };
                        let ghost before = new_body@;
                        new_body.insert(import_insert_pos, runtime_import);
                        let grown = new_body.len();
                        assert(import_insert_pos < grown);
                        registration_pos = import_insert_pos + 1;
                        proof {
                            lemma_view_nodes(new_body@);
                            assert(view_nodes(new_body@) =~= view_nodes(before).insert(import_insert_pos as int, runtime_import@));
                        }
                    },
                }
                self.has_added_import = true;
            }
        }
        self.registration_pos = registration_pos;
        module.body = new_body;
    }
}

} // verus!
