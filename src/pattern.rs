//! The shape of a builder call: `gql.<kind>(callback)` where the callback returns
//! the inner builder call, e.g. `gql.default(({ model }) => model.User({}, f, n))`.
//!
//! One rule serves both the scope-path pass and the analysis: the callee is a member
//! access whose object chain mentions `gql`, and the only argument is an arrow
//! function or a function expression.
use vstd::prelude::*;
use crate::ast::{lemma_view_nodes, view_nodes, Node, NodeKind, Tree};
use crate::text::str_eq;

verus! {

/// The builder namespace appears as the base identifier or as a property name
/// anywhere along a member chain.
pub open spec fn is_gql_reference(t: Tree) -> bool
    decreases t,
{
    if t.kind == NodeKind::Ident {
        t.text == "gql"@
    } else if t.kind == NodeKind::Member && t.children.len() == 2 {
        (t.children[1].kind == NodeKind::Name && t.children[1].text == "gql"@) || is_gql_reference(
            t.children[0],
        )
    } else {
        false
    }
}

pub open spec fn is_function_value(t: Tree) -> bool {
    t.kind == NodeKind::Arrow || t.kind == NodeKind::FnExpr
}

/// A call `gql...x(callback)` with exactly one argument, not spread, that is a function.
pub open spec fn is_builder_call(t: Tree) -> bool {
    &&& t.kind == NodeKind::Call
    &&& t.children.len() == 2
    &&& t.children[0].kind == NodeKind::Member
    &&& t.children[0].children.len() == 2
    &&& is_gql_reference(t.children[0].children[0])
    &&& is_function_value(t.children[1])
}

/// The call returned by the first `return <call>` among the statements.
pub open spec fn returned_call(stmts: Seq<Tree>) -> Option<Tree>
    decreases stmts.len(),
{
    if stmts.len() == 0 {
        None
    } else if stmts[0].kind == NodeKind::Return && stmts[0].children.len() == 1
        && stmts[0].children[0].kind == NodeKind::Call {
        Some(stmts[0].children[0])
    } else {
        returned_call(stmts.subrange(1, stmts.len() as int))
    }
}

/// The builder call inside a callback: an arrow's expression body, or what the
/// block body of an arrow or function returns.
pub open spec fn callback_call(f: Tree) -> Option<Tree> {
    if f.children.len() == 0 {
        None
    } else {
        let body = f.children[f.children.len() - 1];
        if body.kind == NodeKind::Block {
            returned_call(body.children)
        } else if f.kind == NodeKind::Arrow && body.kind == NodeKind::Call {
            Some(body)
        } else {
            None
        }
    }
}

/// The inner builder call of a builder-shaped call, if the callback has one.
pub open spec fn inner_builder_call(t: Tree) -> Option<Tree> {
    if is_builder_call(t) {
        callback_call(t.children[1])
    } else {
        None
    }
}

/// The arguments of a call: its children after the callee.
pub open spec fn call_args(call: Tree) -> Seq<Tree> {
    if call.children.len() == 0 {
        Seq::empty()
    } else {
        call.children.subrange(1, call.children.len() as int)
    }
}

pub open spec fn opt_tree(o: Option<&Node>) -> Option<Tree> {
    match o {
        Some(n) => Some(n@),
        None => None,
    }
}

fn is_gql_reference_exec(n: &Node) -> (r: bool)
    ensures
        r == is_gql_reference(n@),
    decreases n,
{
    proof {
        lemma_view_nodes(n.children@);
        reveal_strlit("gql");
    }
    match n.kind {
        NodeKind::Ident => str_eq(n.text.as_str(), "gql"),
        NodeKind::Member => {
            if n.children.len() != 2 {
                return false;
            }
            let prop = &n.children[1];
            if prop.kind == NodeKind::Name && str_eq(prop.text.as_str(), "gql") {
                return true;
            }
            proof {
                assert(decreases_to!(n => n.children@[0]));
            }
            is_gql_reference_exec(&n.children[0])
        },
        _ => false,
    }
}

/// Whether a call has the builder shape.
pub fn is_builder_call_exec(n: &Node) -> (r: bool)
    ensures
        r == is_builder_call(n@),
{
    proof {
        lemma_view_nodes(n.children@);
    }
    if n.kind != NodeKind::Call || n.children.len() != 2 {
        return false;
    }
    let callee = &n.children[0];
    proof {
        lemma_view_nodes(callee.children@);
    }
    if callee.kind != NodeKind::Member || callee.children.len() != 2 {
        return false;
    }
    if !is_gql_reference_exec(&callee.children[0]) {
        return false;
    }
    let arg = &n.children[1];
    arg.kind == NodeKind::Arrow || arg.kind == NodeKind::FnExpr
}

fn returned_call_exec(stmts: &Vec<Node>) -> (r: Option<&Node>)
    ensures
        opt_tree(r) == returned_call(view_nodes(stmts@)),
{
    let ghost s = view_nodes(stmts@);
    proof {
        lemma_view_nodes(stmts@);
        assert(s.subrange(0, s.len() as int) =~= s);
    }
    let mut i: usize = 0;
    while i < stmts.len()
        invariant
            s == view_nodes(stmts@),
            s.len() == stmts@.len(),
            forall|j: int| 0 <= j < s.len() ==> #[trigger] s[j] == stmts@[j]@,
            i <= s.len(),
            returned_call(s) == returned_call(s.subrange(i as int, s.len() as int)),
        decreases s.len() - i,
    {
        let ghost rest = s.subrange(i as int, s.len() as int);
        let st = &stmts[i];
        proof {
            lemma_view_nodes(st.children@);
            assert(rest[0] == st@);
        }
        if st.kind == NodeKind::Return && st.children.len() == 1 && st.children[0].kind
            == NodeKind::Call {
            return Some(&st.children[0]);
        }
        assert(rest.subrange(1, rest.len() as int) =~= s.subrange(i + 1, s.len() as int));
        i = i + 1;
    }
    None
}

fn callback_call_exec(f: &Node) -> (r: Option<&Node>)
    ensures
        opt_tree(r) == callback_call(f@),
{
    proof {
        lemma_view_nodes(f.children@);
    }
    let n = f.children.len();
    if n == 0 {
        return None;
    }
    let body = &f.children[n - 1];
    if body.kind == NodeKind::Block {
        returned_call_exec(&body.children)
    } else if f.kind == NodeKind::Arrow && body.kind == NodeKind::Call {
        Some(body)
    } else {
        None
    }
}

/// The inner builder call of a builder-shaped call.
pub fn find_gql_builder_call(n: &Node) -> (r: Option<&Node>)
    ensures
        opt_tree(r) == inner_builder_call(n@),
{
    if !is_builder_call_exec(n) {
        return None;
    }
    proof {
        lemma_view_nodes(n.children@);
    }
    callback_call_exec(&n.children[1])
}

} // verus!
