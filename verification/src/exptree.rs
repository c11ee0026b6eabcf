//! Expression trees over truth values, under the names the connectives
//! have in logic.
use crate::ast::{Node, Op};
use vstd::prelude::*;

verus! {

/// An expression over truth values: a ground formula.
pub type ExpNode = Node;

impl Node {
    /// The negation of `left`.
    pub fn neg(left: ExpNode) -> (node: ExpNode)
        ensures
            node == (Node::OneOp { left: Box::new(left), op: Op::Neg }),
            node.wf() == left.wf(),
            node.truth() == !left.truth(),
    {
        Node::negation(left)
    }

    /// The material condition: `right` holds wherever `left` does.
    pub fn mat_condition(left: ExpNode, right: ExpNode) -> (node: ExpNode)
        ensures
            node == (Node::TwoOp { left: Box::new(left), right: Box::new(right), op: Op::Cond }),
            node.wf() == (left.wf() && right.wf()),
            node.truth() == !(left.truth() && !right.truth()),
    {
        Node::cond(left, right)
    }
}

} // verus!
