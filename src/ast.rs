//! A syntax-tree model of an ECMAScript module, holding what the transform reads.
//!
//! Every node has a kind, a source span, a text (an identifier, a literal's value or
//! a declared name; empty where the kind has none) and its children in source order.
//! The children of each kind are laid out as follows:
//!
//! - `Ident`, `Name`, `Str`: none.
//! - `Member`: the object, then the property (a `Name` for the `obj.prop` form).
//! - `Call`: the callee, then the arguments.
//! - `Spread`: the spread expression.
//! - `Arrow`: the parameters, then the body (a `Block` or an expression).
//! - `FnExpr`: the parameters, then the body; the text is the name, empty when anonymous.
//! - `Block`: the statements. `Return`: the returned expression, if any.
//! - `Object`: the properties. `KeyValue`: the key, then the value.
//! - `Assign`: the target, then the assigned value.
//! - `VarDecl`: the declarators; the text is the keyword. `Declarator`: the binding,
//!   then the initializer, if any. A plain binding is an `Ident`.
//! - `FnDecl`, `ClassDecl`: the text is the declared name; the children are the
//!   parameters and body, or the class members.
//! - `Method`: the key, then the parameters and body.
//! - `ExprStmt`: the expression.
//! - `Import`: the text is the module specifier; the children are `ImportNamed`,
//!   `ImportDefault` or `ImportNamespace` specifiers, whose text is the local name.
//! - `ExportDecl`: the exported declaration. `ExportNamed` (`export { a as b }`) and
//!   `ExportFrom` (`export { a } from "m"`): `ExportSpecifier` children, each holding
//!   the local name and, if renamed, the exported name (`Name` or `Str`).
//! - `Other`: any other construct, with the nodes nested in it.
use vstd::prelude::*;
use vstd::string::StringExecFns;

verus! {

/// A source range; synthesized nodes carry the empty span at 0.
#[derive(Debug, Clone, Copy, PartialEq, Eq, Structural)]
pub struct Span {
    pub lo: u32,
    pub hi: u32,
}

impl Span {
    pub fn dummy() -> (r: Span)
        ensures
            r == dummy_span(),
    {
        Span { lo: 0, hi: 0 }
    }
}

pub open spec fn dummy_span() -> Span {
    Span { lo: 0, hi: 0 }
}

#[derive(Debug, Clone, Copy, PartialEq, Eq, Structural)]
pub enum NodeKind {
    Ident,
    Name,
    Str,
    Member,
    Call,
    Spread,
    Arrow,
    FnExpr,
    Block,
    Return,
    Object,
    KeyValue,
    Assign,
    VarDecl,
    Declarator,
    FnDecl,
    ClassDecl,
    Method,
    ExprStmt,
    Import,
    ImportNamed,
    ImportDefault,
    ImportNamespace,
    ExportDecl,
    ExportNamed,
    ExportFrom,
    ExportSpecifier,
    Other,
}

#[derive(Debug)]
pub struct Node {
    pub kind: NodeKind,
    pub span: Span,
    pub text: String,
    pub children: Vec<Node>,
}

/// The mathematical value of a node.
pub struct Tree {
    pub kind: NodeKind,
    pub span: Span,
    pub text: Seq<char>,
    pub children: Seq<Tree>,
}

pub open spec fn view_node(n: Node) -> Tree
    decreases n,
{
    Tree { kind: n.kind, span: n.span, text: n.text@, children: view_nodes(n.children@) }
}

pub open spec fn view_nodes(s: Seq<Node>) -> Seq<Tree>
    decreases s,
{
    if s.len() == 0 {
        Seq::empty()
    } else {
        view_nodes(s.subrange(0, s.len() - 1)).push(view_node(s[s.len() - 1]))
    }
}

impl View for Node {
    type V = Tree;

    open spec fn view(&self) -> Tree {
        view_node(*self)
    }
}

/// The views of a list of nodes, one for one.
pub proof fn lemma_view_nodes(s: Seq<Node>)
    ensures
        view_nodes(s).len() == s.len(),
        forall|i: int| 0 <= i < s.len() ==> #[trigger] view_nodes(s)[i] == view_node(s[i]),
    decreases s.len(),
{
    if s.len() > 0 {
        lemma_view_nodes(s.subrange(0, s.len() - 1));
    }
}

/// Viewing a list that grew by one node.
pub proof fn lemma_view_nodes_push(s: Seq<Node>, x: Node)
    ensures
        view_nodes(s.push(x)) == view_nodes(s).push(view_node(x)),
{
    assert(s.push(x).subrange(0, s.len() as int) =~= s);
}

/// A parsed module: its top-level items in order.
#[derive(Debug)]
pub struct Module {
    pub body: Vec<Node>,
}

impl View for Module {
    type V = Seq<Tree>;

    open spec fn view(&self) -> Seq<Tree> {
        view_nodes(self.body@)
    }
}

impl Clone for Node {
    fn clone(&self) -> (r: Node)
        ensures
            r@ == self@,
        decreases self,
    {
        let mut children: Vec<Node> = Vec::new();
        let mut i: usize = 0;
        while i < self.children.len()
            invariant
                i <= self.children@.len(),
                view_nodes(children@) == view_nodes(self.children@.take(i as int)),
            decreases self.children@.len() - i,
        {
            proof {
                assert(decreases_to!(self => self.children@[i as int]));
            }
            let c = self.children[i].clone();
            proof {
                lemma_view_nodes_push(children@, c);
                lemma_view_nodes_push(self.children@.take(i as int), self.children@[i as int]);
                assert(self.children@.take(i as int).push(self.children@[i as int])
                    =~= self.children@.take(i + 1));
            }
            children.push(c);
            i = i + 1;
        }
        proof {
            assert(self.children@.take(i as int) =~= self.children@);
        }
        Node { kind: self.kind, span: self.span, text: self.text.clone(), children }
    }
}

impl Clone for Module {
    fn clone(&self) -> (r: Module)
        ensures
            r@ == self@,
    {
        Module { body: clone_nodes(&self.body) }
    }
}

/// A copy of a list of nodes.
pub fn clone_nodes(v: &Vec<Node>) -> (r: Vec<Node>)
    ensures
        view_nodes(r@) == view_nodes(v@),
{
    let mut out: Vec<Node> = Vec::new();
    let mut i: usize = 0;
    while i < v.len()
        invariant
            i <= v@.len(),
            view_nodes(out@) == view_nodes(v@.take(i as int)),
        decreases v@.len() - i,
    {
        let c = v[i].clone();
        proof {
            lemma_view_nodes_push(out@, c);
            lemma_view_nodes_push(v@.take(i as int), v@[i as int]);
            assert(v@.take(i as int).push(v@[i as int]) =~= v@.take(i + 1));
        }
        out.push(c);
        i = i + 1;
    }
    proof {
        assert(v@.take(i as int) =~= v@);
    }
    out
}

impl Node {
    /// A leaf node (identifier, name or literal) with the empty span.
    pub fn leaf(kind: NodeKind, text: &str) -> (r: Node)
        ensures
            r@ == (Tree { kind, span: dummy_span(), text: text@, children: Seq::empty() }),
    {
        let r = Node { kind, span: Span::dummy(), text: String::from_str(text), children: Vec::new() };
        proof {
            assert(r.children@ =~= Seq::<Node>::empty());
        }
        r
    }

    /// An inner node with the empty span and no text.
    pub fn inner(kind: NodeKind, children: Vec<Node>) -> (r: Node)
        ensures
            r@ == (Tree { kind, span: dummy_span(), text: Seq::empty(), children: view_nodes(children@) }),
    {
        let r = Node { kind, span: Span::dummy(), text: String::new(), children };
        r
    }
}

} // verus!
