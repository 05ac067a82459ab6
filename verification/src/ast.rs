use vstd::prelude::*;
use crate::token::{Token, TokenView};
use crate::table::arity_of;

verus! {

/// Mathematical picture of an expression tree.
pub enum NodeView {
    Const(Seq<char>),
    UnExpr(Box<NodeView>, TokenView),
    BiExpr(Box<NodeView>, Box<NodeView>, TokenView),
    Call0(Seq<char>),
    Call1(Seq<char>, Box<NodeView>),
    Call2(Seq<char>, Box<NodeView>, Box<NodeView>),
}

/// One element of the parsed expression tree. `Const` carries a numeric
/// literal's source text. A function call records the function's name and
/// exactly as many argument subtrees as the function's arity; evaluating the
/// call, like turning a literal into a machine number, is the caller's work.
/// Ownership is strictly tree-shaped: each child belongs to one parent.
#[derive(Debug, PartialEq)]
pub enum Node {
    Const(Vec<char>),
    UnExpr(Box<Node>, Token),
    BiExpr(Box<Node>, Box<Node>, Token),
    Call0(Vec<char>),
    Call1(Vec<char>, Box<Node>),
    Call2(Vec<char>, Box<Node>, Box<Node>),
}

/// The mathematical tree a `Node` stands for.
pub open spec fn node_view(n: Node) -> NodeView
    decreases n,
{
    match n {
        Node::Const(lit) => NodeView::Const(lit@),
        Node::UnExpr(child, op) => NodeView::UnExpr(Box::new(node_view(*child)), op@),
        Node::BiExpr(left, right, op) => NodeView::BiExpr(
            Box::new(node_view(*left)),
            Box::new(node_view(*right)),
            op@,
        ),
        Node::Call0(name) => NodeView::Call0(name@),
        Node::Call1(name, a) => NodeView::Call1(name@, Box::new(node_view(*a))),
        Node::Call2(name, a, b) => NodeView::Call2(
            name@,
            Box::new(node_view(*a)),
            Box::new(node_view(*b)),
        ),
    }
}

impl View for Node {
    type V = NodeView;

    open spec fn view(&self) -> NodeView {
        node_view(*self)
    }
}

/// Well-formedness of an expression tree: every unary node carries a token
/// usable as a unary operator, every binary node one usable as a binary
/// operator, and every call node a name the function table holds, with as
/// many arguments as that entry's arity.
pub open spec fn node_wf(n: NodeView) -> bool
    decreases n,
{
    match n {
        NodeView::Const(_) => true,
        NodeView::UnExpr(child, op) => op.is_unary_operator() && node_wf(*child),
        NodeView::BiExpr(left, right, op) => op.is_binary_operator() && node_wf(*left)
            && node_wf(*right),
        NodeView::Call0(name) => arity_of(name) == Some(0u8),
        NodeView::Call1(name, a) => arity_of(name) == Some(1u8) && node_wf(*a),
        NodeView::Call2(name, a, b) => arity_of(name) == Some(2u8) && node_wf(*a) && node_wf(
            *b,
        ),
    }
}

} // verus!
