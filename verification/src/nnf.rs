//! Negation normal form: negations are pushed down to the variables and
//! the conditional and the biconditional are written out.
use crate::ast::{Op, VarNode};
use vstd::prelude::*;

verus! {

impl VarNode {
    /// A size under which every rewrite towards negation normal form shrinks the tree.
    pub open spec fn measure(self) -> nat
        decreases self,
    {
        match self {
            VarNode::Leaf(_) => 1,
            VarNode::OneOp { left, op } => 2 * left.measure(),
            VarNode::TwoOp { left, right, op } => match op {
                Op::Cond => 2 * left.measure() + right.measure() + 2,
                Op::Eq => 3 * left.measure() + 3 * right.measure() + 6,
                _ => left.measure() + right.measure() + 1,
            },
        }
    }

    /// The largest measure among the operands of the root.
    pub open spec fn operand_measure(self) -> nat {
        match self {
            VarNode::Leaf(_) => 0,
            VarNode::OneOp { left, op } => left.measure(),
            VarNode::TwoOp { left, right, op } => if left.measure() >= right.measure() {
                left.measure()
            } else {
                right.measure()
            },
        }
    }

    /// Whether the tree holds a conditional, a biconditional, or a negation
    /// of anything but a variable.
    pub open spec fn nnf_forbidden(self) -> bool
        decreases self,
    {
        match self {
            VarNode::Leaf(_) => false,
            VarNode::OneOp { left, op } => if op == Op::Neg && !(*left is Leaf) {
                true
            } else {
                left.nnf_forbidden()
            },
            VarNode::TwoOp { left, right, op } => if op == Op::Cond || op == Op::Eq {
                true
            } else {
                left.nnf_forbidden() || right.nnf_forbidden()
            },
        }
    }

    /// The tree is in negation normal form.
    pub open spec fn is_nnf(self) -> bool {
        !self.nnf_forbidden()
    }

    /// Whether one of the rewrite rules applies at the root.
    pub open spec fn root_redex(self) -> bool {
        match self {
            VarNode::Leaf(_) => false,
            VarNode::OneOp { left, op } => op == Op::Neg && match *left {
                VarNode::Leaf(_) => false,
                VarNode::OneOp { left: inner, op: inner_op } => inner_op == Op::Neg,
                VarNode::TwoOp { left: a, right: b, op: inner_op } => inner_op == Op::And
                    || inner_op == Op::Or || inner_op == Op::Xor,
            },
            VarNode::TwoOp { left, right, op } => op == Op::Cond || op == Op::Eq,
        }
    }

    /// The tree after the one rule that applies at the root, if any:
    /// double negation, De Morgan over a conjunction, De Morgan over a
    /// disjunction, negation moved into an exclusive disjunction, the
    /// conditional written as a disjunction, the biconditional written as two
    /// conditionals.
    pub open spec fn rewrite_root(self) -> VarNode {
        match self {
            VarNode::Leaf(_) => self,
            VarNode::OneOp { left, op } => if op == Op::Neg {
                match *left {
                    VarNode::Leaf(_) => self,
                    VarNode::OneOp { left: inner, op: inner_op } => if inner_op == Op::Neg {
                        *inner
                    } else {
                        self
                    },
                    VarNode::TwoOp { left: a, right: b, op: inner_op } => match inner_op {
                        Op::And => VarNode::TwoOp {
                            left: Box::new(VarNode::OneOp { left: a, op: Op::Neg }),
                            right: Box::new(VarNode::OneOp { left: b, op: Op::Neg }),
                            op: Op::Or,
                        },
                        Op::Or => VarNode::TwoOp {
                            left: Box::new(VarNode::OneOp { left: a, op: Op::Neg }),
                            right: Box::new(VarNode::OneOp { left: b, op: Op::Neg }),
                            op: Op::And,
                        },
                        Op::Xor => VarNode::TwoOp {
                            left: Box::new(VarNode::OneOp { left: a, op: Op::Neg }),
                            right: b,
                            op: Op::Xor,
                        },
                        _ => self,
                    },
                }
            } else {
                self
            },
            VarNode::TwoOp { left, right, op } => match op {
                Op::Cond => VarNode::TwoOp {
                    left: Box::new(VarNode::OneOp { left, op: Op::Neg }),
                    right,
                    op: Op::Or,
                },
                Op::Eq => VarNode::TwoOp {
                    left: Box::new(VarNode::TwoOp { left, right, op: Op::Cond }),
                    right: Box::new(VarNode::TwoOp { left: right, right: left, op: Op::Cond }),
                    op: Op::And,
                },
                _ => self,
            },
        }
    }

    /// One pass over the tree: the rule that applies at the root is applied,
    /// then the pass goes on in each operand of the result.
    pub open spec fn reduced(self) -> VarNode
        decreases self.measure(),
    {
        let top = self.rewrite_root();
        match top {
            VarNode::Leaf(_) => top,
            VarNode::OneOp { left, op } => {
                proof {
                    lemma_rewrite_operands_smaller(self);
                }
                VarNode::OneOp { left: Box::new(left.reduced()), op }
            },
            VarNode::TwoOp { left, right, op } => {
                proof {
                    lemma_rewrite_operands_smaller(self);
                }
                VarNode::TwoOp {
                    left: Box::new(left.reduced()),
                    right: Box::new(right.reduced()),
                    op,
                }
            },
        }
    }

    /// The tree with one pass made over each operand of the root.
    pub open spec fn operands_reduced(self) -> VarNode {
        match self {
            VarNode::Leaf(_) => self,
            VarNode::OneOp { left, op } => VarNode::OneOp { left: Box::new(left.reduced()), op },
            VarNode::TwoOp { left, right, op } => VarNode::TwoOp {
                left: Box::new(left.reduced()),
                right: Box::new(right.reduced()),
                op,
            },
        }
    }

    /// The negation normal form of the formula, or of its negation where
    /// `negated` is set.
    pub open spec fn push_negation(self, negated: bool) -> VarNode
        decreases self,
    {
        match self {
            VarNode::Leaf(_) => if negated {
                VarNode::OneOp { left: Box::new(self), op: Op::Neg }
            } else {
                self
            },
            VarNode::OneOp { left, op } => left.push_negation(!negated),
            VarNode::TwoOp { left, right, op } => match op {
                Op::Neg => self,
                Op::And => VarNode::TwoOp {
                    left: Box::new(left.push_negation(negated)),
                    right: Box::new(right.push_negation(negated)),
                    op: if negated {
                        Op::Or
                    } else {
                        Op::And
                    },
                },
                Op::Or => VarNode::TwoOp {
                    left: Box::new(left.push_negation(negated)),
                    right: Box::new(right.push_negation(negated)),
                    op: if negated {
                        Op::And
                    } else {
                        Op::Or
                    },
                },
                Op::Xor => VarNode::TwoOp {
                    left: Box::new(left.push_negation(negated)),
                    right: Box::new(right.push_negation(false)),
                    op: Op::Xor,
                },
                Op::Cond => VarNode::TwoOp {
                    left: Box::new(left.push_negation(!negated)),
                    right: Box::new(right.push_negation(negated)),
                    op: if negated {
                        Op::And
                    } else {
                        Op::Or
                    },
                },
                Op::Eq => VarNode::TwoOp {
                    left: Box::new(
                        VarNode::TwoOp {
                            left: Box::new(left.push_negation(!negated)),
                            right: Box::new(right.push_negation(negated)),
                            op: if negated {
                                Op::And
                            } else {
                                Op::Or
                            },
                        },
                    ),
                    right: Box::new(
                        VarNode::TwoOp {
                            left: Box::new(right.push_negation(!negated)),
                            right: Box::new(left.push_negation(negated)),
                            op: if negated {
                                Op::And
                            } else {
                                Op::Or
                            },
                        },
                    ),
                    op: if negated {
                        Op::Or
                    } else {
                        Op::And
                    },
                },
            },
        }
    }

    /// The negation normal form of the formula.
    pub open spec fn nnf(self) -> VarNode {
        self.push_negation(false)
    }
}

impl VarNode {
    /// Tells whether the tree holds a conditional, a biconditional, or a
    /// negation of anything but a variable.
    pub fn has_nnf_forbidden(&self) -> (r: bool)
        ensures
            r == self.nnf_forbidden(),
        decreases self,
    {
        match self {
            VarNode::Leaf(_) => false,
            VarNode::OneOp { left, op } => {
                if *op == Op::Neg && !left.is_leaf() {
                    true
                } else {
                    left.has_nnf_forbidden()
                }
            },
            VarNode::TwoOp { left, right, op } => {
                if *op == Op::Cond || *op == Op::Eq {
                    true
                } else {
                    left.has_nnf_forbidden() || right.has_nnf_forbidden()
                }
            },
        }
    }

    /// Makes one pass over each operand of the root.
    pub fn reduce_children(&mut self)
        requires
            old(self).wf(),
        ensures
            *final(self) == old(self).operands_reduced(),
        decreases old(self).operand_measure(), 1nat,
    {
        match self {
            VarNode::Leaf(_) => {},
            VarNode::OneOp { left, op: _ } => {
                let new_left = VarNode::reduce((&**left).clone());
                *left = Box::new(new_left);
            },
            VarNode::TwoOp { left, right, op: _ } => {
                let new_left = VarNode::reduce((&**left).clone());
                *left = Box::new(new_left);
                let new_right = VarNode::reduce((&**right).clone());
                *right = Box::new(new_right);
            },
        }
    }

    /// Makes one pass over the tree: applies the rule that fits the root,
    /// then goes on in the operands of the result.
    pub fn reduce(node: VarNode) -> (r: VarNode)
        requires
            node.wf(),
        ensures
            r == node.reduced(),
        decreases node.measure(), 0nat,
    {
        proof {
            lemma_rewrite_operands_smaller(node);
            lemma_rewrite_root_wf(node);
            reveal_with_fuel(VarNode::wf, 3);
        }
        let mut new_node = match node {
            VarNode::Leaf(c) => VarNode::Leaf(c),
            VarNode::OneOp { left, op } => {
                match *left {
                    VarNode::Leaf(c) => VarNode::OneOp { left: Box::new(VarNode::Leaf(c)), op },
                    // double negation
                    VarNode::OneOp { left: inner, op: _ } => *inner,
                    VarNode::TwoOp { left: a, right: b, op: inner_op } => match inner_op {
                        // De Morgan over a conjunction
                        Op::And => VarNode::or(VarNode::negation(*a), VarNode::negation(*b)),
                        // De Morgan over a disjunction
                        Op::Or => VarNode::and(VarNode::negation(*a), VarNode::negation(*b)),
                        // negation of an exclusive disjunction
                        Op::Xor => VarNode::xor(VarNode::negation(*a), *b),
                        _ => VarNode::OneOp {
                            left: Box::new(VarNode::TwoOp { left: a, right: b, op: inner_op }),
                            op,
                        },
                    },
                }
            },
            VarNode::TwoOp { left, right, op } => match op {
                // material condition
                Op::Cond => VarNode::or(VarNode::negation(*left), *right),
                // equivalence
                Op::Eq => {
                    let left_copy = (&*left).clone();
                    let right_copy = (&*right).clone();
                    VarNode::and(
                        VarNode::cond(*left, *right),
                        VarNode::cond(right_copy, left_copy),
                    )
                },
                _ => VarNode::TwoOp { left, right, op },
            },
        };
        assert(new_node == node.rewrite_root());
        new_node.reduce_children();
        new_node
    }

    /// Rewrites the formula into negation normal form: one pass after
    /// another until nothing forbidden is left.
    pub fn nnf_reduce(&mut self)
        requires
            old(self).wf(),
        ensures
            *final(self) == old(self).nnf(),
            final(self).wf(),
            final(self).is_nnf(),
            forall|sigma: spec_fn(char) -> bool|
                #[trigger] final(self).eval(sigma) == old(self).eval(sigma),
    {
        proof {
            lemma_nnf_is_nnf(*self, false);
            assert forall|sigma: spec_fn(char) -> bool| #[trigger]
                self.nnf().eval(sigma) == self.eval(sigma) by {
                lemma_nnf_preserves_eval(*self, false, sigma);
            }
        }
        let mut not_finished = self.has_nnf_forbidden();
        while not_finished
            invariant
                self.wf(),
                self.nnf() == old(self).nnf(),
                not_finished == self.nnf_forbidden(),
            decreases self.measure(),
        {
            proof {
                lemma_reduced_wf(*self);
                lemma_reduced_keeps_normal_form(*self, false);
                lemma_reduced_measure(*self);
            }
            *self = Self::reduce(self.clone());
            not_finished = self.has_nnf_forbidden();
        }
        proof {
            lemma_nnf_fixed_point(*self);
        }
    }
}

/// Every tree has a positive measure.
pub proof fn lemma_measure_positive(t: VarNode)
    ensures
        t.measure() >= 1,
    decreases t,
{
    match t {
        VarNode::Leaf(_) => {},
        VarNode::OneOp { left, op } => {
            lemma_measure_positive(*left);
        },
        VarNode::TwoOp { left, right, op } => {
            lemma_measure_positive(*left);
            lemma_measure_positive(*right);
        },
    }
}

/// The operands of a tree are smaller than the tree, also after a rule was
/// applied at its root.
pub proof fn lemma_rewrite_operands_smaller(t: VarNode)
    ensures
        t.rewrite_root().operand_measure() < t.measure(),
{
    match t {
        VarNode::Leaf(_) => {},
        VarNode::OneOp { left, op } => {
            lemma_measure_positive(*left);
            match *left {
                VarNode::Leaf(_) => {},
                VarNode::OneOp { left: inner, op: inner_op } => {
                    lemma_measure_positive(*inner);
                    match *inner {
                        VarNode::Leaf(_) => {},
                        VarNode::OneOp { left: x, op: _ } => {
                            lemma_measure_positive(*x);
                        },
                        VarNode::TwoOp { left: x, right: y, op: _ } => {
                            lemma_measure_positive(*x);
                            lemma_measure_positive(*y);
                        },
                    }
                },
                VarNode::TwoOp { left: a, right: b, op: inner_op } => {
                    lemma_measure_positive(*a);
                    lemma_measure_positive(*b);
                },
            }
        },
        VarNode::TwoOp { left, right, op } => {
            lemma_measure_positive(*left);
            lemma_measure_positive(*right);
        },
    }
}

/// A rule applied at the root of a well-formed tree leaves it well-formed.
pub proof fn lemma_rewrite_root_wf(t: VarNode)
    requires
        t.wf(),
    ensures
        t.rewrite_root().wf(),
{
    reveal_with_fuel(VarNode::wf, 3);
}

/// A pass over a well-formed tree leaves it well-formed.
pub proof fn lemma_reduced_wf(t: VarNode)
    requires
        t.wf(),
    ensures
        t.reduced().wf(),
    decreases t.measure(),
{
    lemma_rewrite_root_wf(t);
    lemma_rewrite_operands_smaller(t);
    match t.rewrite_root() {
        VarNode::Leaf(_) => {},
        VarNode::OneOp { left, op } => {
            lemma_reduced_wf(*left);
        },
        VarNode::TwoOp { left, right, op } => {
            lemma_reduced_wf(*left);
            lemma_reduced_wf(*right);
        },
    }
}

/// A rule applied at the root changes neither the normal form of the tree
/// nor that of its negation.
pub proof fn lemma_rewrite_root_keeps_normal_form(t: VarNode, negated: bool)
    requires
        t.wf(),
    ensures
        t.rewrite_root().push_negation(negated) == t.push_negation(negated),
{
    reveal_with_fuel(VarNode::wf, 3);
    reveal_with_fuel(VarNode::push_negation, 4);
}

/// A pass changes neither the normal form of the tree nor that of its negation.
pub proof fn lemma_reduced_keeps_normal_form(t: VarNode, negated: bool)
    requires
        t.wf(),
    ensures
        t.reduced().push_negation(negated) == t.push_negation(negated),
    decreases t.measure(),
{
    lemma_rewrite_root_wf(t);
    lemma_rewrite_operands_smaller(t);
    lemma_rewrite_root_keeps_normal_form(t, negated);
    match t.rewrite_root() {
        VarNode::Leaf(_) => {},
        VarNode::OneOp { left, op } => {
            lemma_reduced_keeps_normal_form(*left, true);
            lemma_reduced_keeps_normal_form(*left, false);
        },
        VarNode::TwoOp { left, right, op } => {
            lemma_reduced_keeps_normal_form(*left, true);
            lemma_reduced_keeps_normal_form(*left, false);
            lemma_reduced_keeps_normal_form(*right, true);
            lemma_reduced_keeps_normal_form(*right, false);
        },
    }
}

/// A rule applied at the root makes the measure smaller.
pub proof fn lemma_rewrite_root_measure(t: VarNode)
    requires
        t.wf(),
    ensures
        t.rewrite_root().measure() <= t.measure(),
        t.root_redex() ==> t.rewrite_root().measure() < t.measure(),
        !t.root_redex() ==> t.rewrite_root() == t,
{
    reveal_with_fuel(VarNode::wf, 3);
    reveal_with_fuel(VarNode::measure, 4);
    match t {
        VarNode::Leaf(_) => {},
        VarNode::OneOp { left, op } => {
            lemma_measure_positive(*left);
            match *left {
                VarNode::Leaf(_) => {},
                VarNode::OneOp { left: inner, op: inner_op } => {
                    lemma_measure_positive(*inner);
                },
                VarNode::TwoOp { left: a, right: b, op: inner_op } => {
                    lemma_measure_positive(*a);
                    lemma_measure_positive(*b);
                },
            }
        },
        VarNode::TwoOp { left, right, op } => {
            lemma_measure_positive(*left);
            lemma_measure_positive(*right);
        },
    }
}

/// A pass never makes the measure larger, and makes it smaller where the
/// tree holds something forbidden.
pub proof fn lemma_reduced_measure(t: VarNode)
    requires
        t.wf(),
    ensures
        t.reduced().measure() <= t.measure(),
        t.nnf_forbidden() ==> t.reduced().measure() < t.measure(),
    decreases t.measure(),
{
    lemma_rewrite_root_wf(t);
    lemma_rewrite_operands_smaller(t);
    lemma_rewrite_root_measure(t);
    reveal_with_fuel(VarNode::wf, 3);
    reveal_with_fuel(VarNode::nnf_forbidden, 3);
    match t.rewrite_root() {
        VarNode::Leaf(_) => {},
        VarNode::OneOp { left, op } => {
            lemma_reduced_measure(*left);
        },
        VarNode::TwoOp { left, right, op } => {
            lemma_reduced_measure(*left);
            lemma_reduced_measure(*right);
        },
    }
}

/// A tree in negation normal form is its own normal form.
pub proof fn lemma_nnf_fixed_point(t: VarNode)
    requires
        t.wf(),
        t.is_nnf(),
    ensures
        t.nnf() == t,
    decreases t,
{
    reveal_with_fuel(VarNode::push_negation, 2);
    match t {
        VarNode::Leaf(_) => {},
        VarNode::OneOp { left, op } => {},
        VarNode::TwoOp { left, right, op } => {
            lemma_nnf_fixed_point(*left);
            lemma_nnf_fixed_point(*right);
        },
    }
}

/// The normal form of a well-formed tree is well-formed and in negation
/// normal form.
pub proof fn lemma_nnf_is_nnf(t: VarNode, negated: bool)
    requires
        t.wf(),
    ensures
        t.push_negation(negated).wf(),
        t.push_negation(negated).is_nnf(),
    decreases t,
{
    reveal_with_fuel(VarNode::wf, 3);
    reveal_with_fuel(VarNode::nnf_forbidden, 3);
    match t {
        VarNode::Leaf(_) => {},
        VarNode::OneOp { left, op } => {
            lemma_nnf_is_nnf(*left, !negated);
        },
        VarNode::TwoOp { left, right, op } => {
            lemma_nnf_is_nnf(*left, negated);
            lemma_nnf_is_nnf(*left, !negated);
            lemma_nnf_is_nnf(*right, negated);
            lemma_nnf_is_nnf(*right, !negated);
        },
    }
}

/// The normal form of a formula has the truth value of the formula, and
/// that of its negation the opposite one, whatever the variables hold.
pub proof fn lemma_nnf_preserves_eval(t: VarNode, negated: bool, sigma: spec_fn(char) -> bool)
    requires
        t.wf(),
    ensures
        t.push_negation(negated).eval(sigma) == (t.eval(sigma) != negated),
    decreases t,
{
    reveal_with_fuel(VarNode::wf, 2);
    reveal_with_fuel(VarNode::eval, 3);
    match t {
        VarNode::Leaf(_) => {},
        VarNode::OneOp { left, op } => {
            lemma_nnf_preserves_eval(*left, !negated, sigma);
        },
        VarNode::TwoOp { left, right, op } => {
            lemma_nnf_preserves_eval(*left, negated, sigma);
            lemma_nnf_preserves_eval(*left, !negated, sigma);
            lemma_nnf_preserves_eval(*right, negated, sigma);
            lemma_nnf_preserves_eval(*right, !negated, sigma);
        },
    }
}

/// The normal form of a formula over variable letters is over variable letters.
pub proof fn lemma_nnf_is_symbolic(t: VarNode, negated: bool)
    requires
        t.is_symbolic(),
    ensures
        t.push_negation(negated).is_symbolic(),
    decreases t,
{
    reveal_with_fuel(VarNode::is_symbolic, 3);
    match t {
        VarNode::Leaf(_) => {},
        VarNode::OneOp { left, op } => {
            lemma_nnf_is_symbolic(*left, !negated);
        },
        VarNode::TwoOp { left, right, op } => {
            lemma_nnf_is_symbolic(*left, negated);
            lemma_nnf_is_symbolic(*left, !negated);
            lemma_nnf_is_symbolic(*right, negated);
            lemma_nnf_is_symbolic(*right, !negated);
        },
    }
}

/// Taking the negation normal form twice gives what taking it once gives.
pub proof fn lemma_nnf_idempotent(t: VarNode)
    requires
        t.wf(),
    ensures
        t.nnf().nnf() == t.nnf(),
{
    lemma_nnf_is_nnf(t, false);
    lemma_nnf_fixed_point(t.nnf());
}

} // verus!
