//! Synthesis of the runtime calls that replace builder calls.
//!
//! Direct protocol (models, slices, fragments): the call becomes one runtime call
//! whose argument inlines the descriptor and, for models and slices, keeps one
//! argument of the inner builder call.
//! Registered protocol (operations): a registration statement carrying the parsed
//! descriptor goes to module scope, and the call becomes a lookup by name.
use vstd::prelude::*;
use crate::analysis::GqlReplacement;
use crate::artifact::{BuilderArtifactElement, ElementView};
use crate::ast::{dummy_span, lemma_view_nodes, lemma_view_nodes_push, view_nodes, Node, NodeKind, Tree};

verus! {

pub open spec fn leaf_tree(kind: NodeKind, text: Seq<char>) -> Tree {
    Tree { kind, span: dummy_span(), text, children: Seq::empty() }
}

pub open spec fn inner_tree(kind: NodeKind, children: Seq<Tree>) -> Tree {
    Tree { kind, span: dummy_span(), text: Seq::empty(), children }
}

/// `gqlRuntime` (ESM) or `__soda_gql_runtime.gqlRuntime` (CommonJS).
pub open spec fn runtime_accessor(is_cjs: bool) -> Tree {
    if is_cjs {
        inner_tree(
            NodeKind::Member,
            seq![
                leaf_tree(NodeKind::Ident, "__soda_gql_runtime"@),
                leaf_tree(NodeKind::Name, "gqlRuntime"@),
            ],
        )
    } else {
        leaf_tree(NodeKind::Ident, "gqlRuntime"@)
    }
}

/// `<runtime>.<method>(args)`.
pub open spec fn runtime_call(is_cjs: bool, method: Seq<char>, args: Seq<Tree>) -> Tree {
    inner_tree(
        NodeKind::Call,
        seq![
            inner_tree(
                NodeKind::Member,
                seq![runtime_accessor(is_cjs), leaf_tree(NodeKind::Name, method)],
            ),
        ] + args,
    )
}

/// `key: value`.
pub open spec fn key_value(key: Seq<char>, value: Tree) -> Tree {
    inner_tree(NodeKind::KeyValue, seq![leaf_tree(NodeKind::Name, key), value])
}

pub open spec fn string_lit(value: Seq<char>) -> Tree {
    leaf_tree(NodeKind::Str, value)
}

/// `JSON.parse("<json>")`.
pub open spec fn json_parse(json: Seq<char>) -> Tree {
    inner_tree(
        NodeKind::Call,
        seq![
            inner_tree(
                NodeKind::Member,
                seq![leaf_tree(NodeKind::Ident, "JSON"@), leaf_tree(NodeKind::Name, "parse"@)],
            ),
            string_lit(json),
        ],
    )
}

/// An argument's expression, without a spread marker.
pub open spec fn arg_value(arg: Tree) -> Tree {
    if arg.kind == NodeKind::Spread && arg.children.len() == 1 {
        arg.children[0]
    } else {
        arg
    }
}

/// `<runtime>.<method>({ prebuild: { <field>: "<value>" }, runtime: { <key>: <callback> } })`.
pub open spec fn direct_call(
    is_cjs: bool,
    method: Seq<char>,
    field: Seq<char>,
    value: Seq<char>,
    key: Seq<char>,
    callback: Tree,
) -> Tree {
    runtime_call(
        is_cjs,
        method,
        seq![
            inner_tree(
                NodeKind::Object,
                seq![
                    key_value(
                        "prebuild"@,
                        inner_tree(NodeKind::Object, seq![key_value(field, string_lit(value))]),
                    ),
                    key_value("runtime"@, inner_tree(NodeKind::Object, seq![key_value(key, callback)])),
                ],
            ),
        ],
    )
}

/// The registration statement `<runtime>.<method>({ prebuild: JSON.parse(...), runtime: {...} });`.
pub open spec fn registration(is_cjs: bool, method: Seq<char>, json: Seq<char>, runtime: Seq<Tree>) -> Tree {
    inner_tree(
        NodeKind::ExprStmt,
        seq![
            runtime_call(
                is_cjs,
                method,
                seq![
                    inner_tree(
                        NodeKind::Object,
                        seq![
                            key_value("prebuild"@, json_parse(json)),
                            key_value("runtime"@, inner_tree(NodeKind::Object, runtime)),
                        ],
                    ),
                ],
            ),
        ],
    )
}

/// What replaces a builder call: the expression put in its place, and the statement
/// to register at module scope for the registered protocol. `None` when a required
/// argument of the inner builder call is missing.
pub open spec fn synthesize(is_cjs: bool, element: ElementView, args: Seq<Tree>) -> Option<
    (Tree, Option<Tree>),
> {
    match element {
        ElementView::Model { typename } => if args.len() > 2 {
            Some(
                (
                    direct_call(
                        is_cjs,
                        "model"@,
                        "typename"@,
                        typename,
                        "normalize"@,
                        arg_value(args[2]),
                    ),
                    None,
                ),
            )
        } else {
            None
        },
        ElementView::Fragment { typename } => Some(
            (
                runtime_call(
                    is_cjs,
                    "fragment"@,
                    seq![
                        inner_tree(
                            NodeKind::Object,
                            seq![
                                key_value(
                                    "prebuild"@,
                                    inner_tree(
                                        NodeKind::Object,
                                        seq![key_value("typename"@, string_lit(typename))],
                                    ),
                                ),
                            ],
                        ),
                    ],
                ),
                None,
            ),
        ),
        ElementView::Slice { operation_type } => if args.len() > 2 {
            Some(
                (
                    direct_call(
                        is_cjs,
                        "slice"@,
                        "operationType"@,
                        operation_type,
                        "buildProjection"@,
                        arg_value(args[2]),
                    ),
                    None,
                ),
            )
        } else {
            None
        },
        ElementView::Operation { operation_name, prebuild_json } => if args.len() > 1 {
            Some(
                (
                    runtime_call(is_cjs, "getComposedOperation"@, seq![string_lit(operation_name)]),
                    Some(
                        registration(
                            is_cjs,
                            "composedOperation"@,
                            prebuild_json,
                            seq![key_value("getSlices"@, arg_value(args[1]))],
                        ),
                    ),
                ),
            )
        } else {
            None
        },
        ElementView::InlineOperation { operation_name, prebuild_json } => Some(
            (
                runtime_call(is_cjs, "getInlineOperation"@, seq![string_lit(operation_name)]),
                Some(registration(is_cjs, "inlineOperation"@, prebuild_json, Seq::empty())),
            ),
        ),
    }
}

/// The builder kind named in diagnostics.
pub open spec fn kind_name(element: ElementView) -> Seq<char> {
    match element {
        ElementView::Model { .. } => "model"@,
        ElementView::Fragment { .. } => "fragment"@,
        ElementView::Slice { .. } => "slice"@,
        ElementView::Operation { .. } => "operation"@,
        ElementView::InlineOperation { .. } => "inlineOperation"@,
    }
}

pub fn kind_label(element: &BuilderArtifactElement) -> (r: &'static str)
    ensures
        r@ == kind_name(element@),
{
    match element {
        BuilderArtifactElement::Model { .. } => "model",
        BuilderArtifactElement::Fragment { .. } => "fragment",
        BuilderArtifactElement::Slice { .. } => "slice",
        BuilderArtifactElement::Operation { .. } => "operation",
        BuilderArtifactElement::InlineOperation { .. } => "inlineOperation",
    }
}

fn one(a: Node) -> (r: Vec<Node>)
    ensures
        view_nodes(r@) == seq![a@],
{
    let mut v: Vec<Node> = Vec::new();
    proof {
        lemma_view_nodes_push(v@, a);
        assert(view_nodes(v@) =~= Seq::<Tree>::empty());
    }
    v.push(a);
    assert(view_nodes(v@) =~= seq![a@]);
    v
}

fn two(a: Node, b: Node) -> (r: Vec<Node>)
    ensures
        view_nodes(r@) == seq![a@, b@],
{
    let mut v = one(a);
    proof {
        lemma_view_nodes_push(v@, b);
    }
    v.push(b);
    assert(view_nodes(v@) =~= seq![a@, b@]);
    v
}

fn copy_arg_value(arg: &Node) -> (r: Node)
    ensures
        r@ == arg_value(arg@),
{
    proof {
        lemma_view_nodes(arg.children@);
    }
    if arg.kind == NodeKind::Spread && arg.children.len() == 1 {
        arg.children[0].clone()
    } else {
        arg.clone()
    }
}

/// Builds the runtime calls for rewritten builder calls.
pub struct RuntimeCallBuilder {
    pub is_cjs: bool,
}

impl RuntimeCallBuilder {
    pub fn new(is_cjs: bool) -> (r: RuntimeCallBuilder)
        ensures
            r.is_cjs == is_cjs,
    {
        RuntimeCallBuilder { is_cjs }
    }

    /// The expression and optional module-scope statement replacing a builder call.
    pub fn build_replacement(&self, replacement: &GqlReplacement) -> (r: Option<(Node, Option<Node>)>)
        ensures
            match r {
                Some((e, Some(s))) => synthesize(self.is_cjs, replacement@.artifact, replacement@.builder_args) == Some((e@, Some(s@))),
                Some((e, None)) => synthesize(self.is_cjs, replacement@.artifact, replacement@.builder_args) == Some((e@, None::<Tree>)),
                None => synthesize(self.is_cjs, replacement@.artifact, replacement@.builder_args) is None,
            },
    {
        proof {
            lemma_view_nodes(replacement.builder_args@);
        }
        let args = &replacement.builder_args;
        match &replacement.artifact {
            BuilderArtifactElement::Model { typename } => {
                if args.len() > 2 {
                    let e = self.build_direct_call(
                        "model",
                        "typename",
                        typename.as_str(),
                        "normalize",
                        copy_arg_value(&args[2]),
                    );
                    Some((e, None))
                } else {
                    None
                }
            },
            BuilderArtifactElement::Fragment { typename } => {
                let prebuild = Node::inner(
                    NodeKind::Object,
                    one(self.create_key_value("typename", self.create_string_lit(typename.as_str()))),
                );
                let arg = Node::inner(NodeKind::Object, one(self.create_key_value("prebuild", prebuild)));
                Some((self.create_runtime_call("fragment", one(arg)), None))
            },
            BuilderArtifactElement::Slice { operation_type } => {
                if args.len() > 2 {
                    let e = self.build_direct_call(
                        "slice",
                        "operationType",
                        operation_type.as_str(),
                        "buildProjection",
                        copy_arg_value(&args[2]),
                    );
                    Some((e, None))
                } else {
                    None
                }
            },
            BuilderArtifactElement::Operation { operation_name, prebuild_json } => {
                if args.len() > 1 {
                    let runtime = one(self.create_key_value("getSlices", copy_arg_value(&args[1])));
                    let stmt = self.build_registration("composedOperation", prebuild_json.as_str(), runtime);
                    let reference = self.create_runtime_call(
                        "getComposedOperation",
                        one(self.create_string_lit(operation_name.as_str())),
                    );
                    Some((reference, Some(stmt)))
                } else {
                    None
                }
            },
            BuilderArtifactElement::InlineOperation { operation_name, prebuild_json } => {
                let runtime: Vec<Node> = Vec::new();
                assert(view_nodes(runtime@) =~= Seq::<Tree>::empty());
                let stmt = self.build_registration("inlineOperation", prebuild_json.as_str(), runtime);
                let reference = self.create_runtime_call(
                    "getInlineOperation",
                    one(self.create_string_lit(operation_name.as_str())),
                );
                Some((reference, Some(stmt)))
            },
        }
    }

    fn create_runtime_accessor(&self) -> (r: Node)
        ensures
            r@ == runtime_accessor(self.is_cjs),
    {
        if self.is_cjs {
            Node::inner(
                NodeKind::Member,
                two(
                    Node::leaf(NodeKind::Ident, "__soda_gql_runtime"),
                    Node::leaf(NodeKind::Name, "gqlRuntime"),
                ),
            )
        } else {
            Node::leaf(NodeKind::Ident, "gqlRuntime")
        }
    }

    fn create_runtime_call(&self, method: &str, args: Vec<Node>) -> (r: Node)
        ensures
            r@ == runtime_call(self.is_cjs, method@, view_nodes(args@)),
    {
        let callee = Node::inner(
            NodeKind::Member,
            two(self.create_runtime_accessor(), Node::leaf(NodeKind::Name, method)),
        );
        let mut children = one(callee);
        let mut i: usize = 0;
        let ghost a = view_nodes(args@);
        proof {
            lemma_view_nodes(args@);
            assert(view_nodes(children@) =~= seq![callee@] + a.take(0));
        }
        while i < args.len()
            invariant
                a == view_nodes(args@),
                a.len() == args@.len(),
                forall|j: int| 0 <= j < a.len() ==> #[trigger] a[j] == args@[j]@,
                i <= a.len(),
                view_nodes(children@) == seq![callee@] + a.take(i as int),
            decreases a.len() - i,
        {
            let c = args[i].clone();
            proof {
                lemma_view_nodes_push(children@, c);
                assert(seq![callee@] + a.take(i + 1) =~= (seq![callee@] + a.take(i as int)).push(a[i as int]));
            }
            children.push(c);
            i = i + 1;
        }
        proof {
            assert(a.take(i as int) =~= a);
        }
        Node::inner(NodeKind::Call, children)
    }

    fn create_key_value(&self, key: &str, value: Node) -> (r: Node)
        ensures
            r@ == key_value(key@, value@),
    {
        Node::inner(NodeKind::KeyValue, two(Node::leaf(NodeKind::Name, key), value))
    }

    fn create_string_lit(&self, value: &str) -> (r: Node)
        ensures
            r@ == string_lit(value@),
    {
        Node::leaf(NodeKind::Str, value)
    }

    fn create_json_parse(&self, json: &str) -> (r: Node)
        ensures
            r@ == json_parse(json@),
    {
        let callee = Node::inner(
            NodeKind::Member,
            two(Node::leaf(NodeKind::Ident, "JSON"), Node::leaf(NodeKind::Name, "parse")),
        );
        Node::inner(NodeKind::Call, two(callee, self.create_string_lit(json)))
    }

    fn build_direct_call(
        &self,
        method: &str,
        field: &str,
        value: &str,
        key: &str,
        callback: Node,
    ) -> (r: Node)
        ensures
            r@ == direct_call(self.is_cjs, method@, field@, value@, key@, callback@),
    {
        let prebuild = Node::inner(
            NodeKind::Object,
            one(self.create_key_value(field, self.create_string_lit(value))),
        );
        let runtime = Node::inner(NodeKind::Object, one(self.create_key_value(key, callback)));
        let arg = Node::inner(
            NodeKind::Object,
            two(self.create_key_value("prebuild", prebuild), self.create_key_value("runtime", runtime)),
        );
        self.create_runtime_call(method, one(arg))
    }

    fn build_registration(&self, method: &str, json: &str, runtime: Vec<Node>) -> (r: Node)
        ensures
            r@ == registration(self.is_cjs, method@, json@, view_nodes(runtime@)),
    {
        let arg = Node::inner(
            NodeKind::Object,
            two(
                self.create_key_value("prebuild", self.create_json_parse(json)),
                self.create_key_value("runtime", Node::inner(NodeKind::Object, runtime)),
            ),
        );
        Node::inner(NodeKind::ExprStmt, one(self.create_runtime_call(method, one(arg))))
    }
}

} // verus!
