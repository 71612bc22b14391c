//! Logical expressions over course identifiers, as found in prerequisite and
//! corequisite statements.

use crate::value::Value;
use vstd::prelude::*;

verus! {

/// A requirement expression: an identifier, or `AND` / `OR` / `NOT` over
/// smaller expressions.
#[derive(Debug, PartialEq, Eq)]
pub enum ReqNode {
    Identifier(String),
    And(Vec<ReqNode>),
    Or(Vec<ReqNode>),
    Not(Box<ReqNode>),
}

/// The mathematical value of a [`ReqNode`].
pub enum ReqNodeView {
    Identifier(Seq<char>),
    And(Seq<ReqNodeView>),
    Or(Seq<ReqNodeView>),
    Not(Box<ReqNodeView>),
}

/// The value of one node.
pub open spec fn node_view(node: ReqNode) -> ReqNodeView
    decreases node,
{
    match node {
        ReqNode::Identifier(s) => ReqNodeView::Identifier(s@),
        ReqNode::And(children) => ReqNodeView::And(node_views(children@)),
        ReqNode::Or(children) => ReqNodeView::Or(node_views(children@)),
        ReqNode::Not(child) => ReqNodeView::Not(Box::new(node_view(*child))),
    }
}

/// The values of a list of nodes, in order.
pub open spec fn node_views(nodes: Seq<ReqNode>) -> Seq<ReqNodeView>
    decreases nodes,
{
    Seq::new(
        nodes.len(),
        |i: int|
            if 0 <= i < nodes.len() {
                node_view(nodes[i])
            } else {
                ReqNodeView::And(Seq::empty())
            },
    )
}

impl DeepView for ReqNode {
    type V = ReqNodeView;

    open spec fn deep_view(&self) -> ReqNodeView {
        node_view(*self)
    }
}

/// Compares two expressions by content.
pub fn node_same(a: &ReqNode, b: &ReqNode) -> (r: bool)
    ensures
        r == (node_view(*a) == node_view(*b)),
    decreases a,
{
    match a {
        ReqNode::Identifier(x) => match b {
            ReqNode::Identifier(y) => *x == *y,
            _ => false,
        },
        ReqNode::And(xs) => match b {
            ReqNode::And(ys) => nodes_same(xs, ys),
            _ => false,
        },
        ReqNode::Or(xs) => match b {
            ReqNode::Or(ys) => nodes_same(xs, ys),
            _ => false,
        },
        ReqNode::Not(x) => match b {
            ReqNode::Not(y) => node_same(x, y),
            _ => false,
        },
    }
}

/// Compares two lists of expressions element by element.
pub fn nodes_same(a: &Vec<ReqNode>, b: &Vec<ReqNode>) -> (r: bool)
    ensures
        r == (node_views(a@) == node_views(b@)),
    decreases a,
{
    if a.len() != b.len() {
        assert(node_views(a@).len() != node_views(b@).len());
        return false;
    }
    let mut i: usize = 0;
    while i < a.len()
        invariant
            i <= a.len(),
            a.len() == b.len(),
            forall|k: int| 0 <= k < i ==> node_view(a[k]) == node_view(b[k]),
        decreases a.len() - i,
    {
        if !node_same(&a[i], &b[i]) {
            assert(node_views(a@)[i as int] != node_views(b@)[i as int]);
            return false;
        }
        i += 1;
    }
    assert(node_views(a@) =~= node_views(b@));
    true
}

/// Copies an expression.
pub fn node_copy(a: &ReqNode) -> (r: ReqNode)
    ensures
        node_view(r) == node_view(*a),
    decreases a,
{
    match a {
        ReqNode::Identifier(x) => ReqNode::Identifier(x.clone()),
        ReqNode::And(xs) => ReqNode::And(nodes_copy(xs)),
        ReqNode::Or(xs) => ReqNode::Or(nodes_copy(xs)),
        ReqNode::Not(x) => ReqNode::Not(Box::new(node_copy(x))),
    }
}

/// Copies a list of expressions.
pub fn nodes_copy(a: &Vec<ReqNode>) -> (r: Vec<ReqNode>)
    ensures
        node_views(r@) == node_views(a@),
    decreases a,
{
    let mut out: Vec<ReqNode> = Vec::new();
    let mut i: usize = 0;
    while i < a.len()
        invariant
            i <= a.len(),
            out.len() == i,
            forall|k: int| 0 <= k < i ==> node_view(out[k]) == node_view(a[k]),
        decreases a.len() - i,
    {
        out.push(node_copy(&a[i]));
        i += 1;
    }
    assert(node_views(out@) =~= node_views(a@));
    out
}

impl Clone for ReqNode {
    fn clone(&self) -> (r: Self)
        ensures
            r.deep_view() == self.deep_view(),
    {
        node_copy(self)
    }
}

impl Value for ReqNode {
    fn same(&self, other: &Self) -> (r: bool) {
        node_same(self, other)
    }

    fn copy(&self) -> (r: Self) {
        node_copy(self)
    }
}

} // verus!
