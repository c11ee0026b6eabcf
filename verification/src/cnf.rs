//! Conjunctive normal form: a conjunction of disjunctions of variables and
//! negated variables.
use crate::ast::{Op, VarNode};
use vstd::prelude::*;

verus! {

impl VarNode {
    /// Whether the tree holds a conjunction.
    pub open spec fn has_and(self) -> bool
        decreases self,
    {
        match self {
            VarNode::Leaf(_) => false,
            VarNode::OneOp { left, op } => left.has_and(),
            VarNode::TwoOp { left, right, op } => op == Op::And || left.has_and()
                || right.has_and(),
        }
    }

    /// Whether a conjunction stands somewhere below a disjunction.
    pub open spec fn cnf_forbidden(self) -> bool
        decreases self,
    {
        match self {
            VarNode::Leaf(_) => false,
            VarNode::OneOp { left, op } => left.cnf_forbidden(),
            VarNode::TwoOp { left, right, op } => if op == Op::Or {
                left.has_and() || right.has_and()
            } else {
                left.cnf_forbidden() || right.cnf_forbidden()
            },
        }
    }

    /// Whether conjunction and disjunction are the only binary connectives.
    pub open spec fn is_plain(self) -> bool
        decreases self,
    {
        match self {
            VarNode::Leaf(_) => true,
            VarNode::OneOp { left, op } => left.is_plain(),
            VarNode::TwoOp { left, right, op } => (op == Op::And || op == Op::Or)
                && left.is_plain() && right.is_plain(),
        }
    }

    /// The tree is in conjunctive normal form: negations stand on variables
    /// only, the binary connectives are conjunction and disjunction, and no
    /// conjunction stands below a disjunction.
    pub open spec fn is_cnf(self) -> bool {
        self.is_nnf() && self.is_plain() && !self.cnf_forbidden()
    }

    /// The formula with each exclusive disjunction `a ^ b` written as
    /// `(a | b) & (!a | !b)`.
    pub open spec fn xor_free(self) -> VarNode
        decreases self,
    {
        match self {
            VarNode::Leaf(_) => self,
            VarNode::OneOp { left, op } => VarNode::OneOp { left: Box::new(left.xor_free()), op },
            VarNode::TwoOp { left, right, op } => if op == Op::Xor {
                let a = left.xor_free();
                let b = right.xor_free();
                VarNode::TwoOp {
                    left: Box::new(
                        VarNode::TwoOp { left: Box::new(a), right: Box::new(b), op: Op::Or },
                    ),
                    right: Box::new(
                        VarNode::TwoOp {
                            left: Box::new(VarNode::OneOp { left: Box::new(a), op: Op::Neg }),
                            right: Box::new(VarNode::OneOp { left: Box::new(b), op: Op::Neg }),
                            op: Op::Or,
                        },
                    ),
                    op: Op::And,
                }
            } else {
                VarNode::TwoOp {
                    left: Box::new(left.xor_free()),
                    right: Box::new(right.xor_free()),
                    op,
                }
            },
        }
    }

    /// The disjunction of `self` and `other` with the conjunctions at their
    /// roots distributed over it, those of `self` first.
    pub open spec fn or_distributed(self, other: VarNode) -> VarNode
        decreases self, other,
    {
        match self {
            VarNode::TwoOp { left: a, right: b, op: Op::And } => VarNode::TwoOp {
                left: Box::new(a.or_distributed(other)),
                right: Box::new(b.or_distributed(other)),
                op: Op::And,
            },
            _ => match other {
                VarNode::TwoOp { left: b, right: c, op: Op::And } => VarNode::TwoOp {
                    left: Box::new(self.or_distributed(*b)),
                    right: Box::new(self.or_distributed(*c)),
                    op: Op::And,
                },
                _ => VarNode::TwoOp { left: Box::new(self), right: Box::new(other), op: Op::Or },
            },
        }
    }

    /// The formula with every disjunction distributed over the conjunctions
    /// below it, innermost first.
    pub open spec fn distributed(self) -> VarNode
        decreases self,
    {
        match self {
            VarNode::TwoOp { left, right, op: Op::And } => VarNode::TwoOp {
                left: Box::new(left.distributed()),
                right: Box::new(right.distributed()),
                op: Op::And,
            },
            VarNode::TwoOp { left, right, op: Op::Or } => left.distributed().or_distributed(
                right.distributed(),
            ),
            _ => self,
        }
    }

    /// The conjunctive normal form of the formula.
    pub open spec fn cnf(self) -> VarNode {
        self.xor_free().nnf().distributed()
    }
}

impl VarNode {
    /// Whether the tree holds an exclusive disjunction.
    pub open spec fn has_xor(self) -> bool
        decreases self,
    {
        match self {
            VarNode::Leaf(_) => false,
            VarNode::OneOp { left, op } => left.has_xor(),
            VarNode::TwoOp { left, right, op } => op == Op::Xor || left.has_xor()
                || right.has_xor(),
        }
    }

    /// The chain of `op` that holds the operands of `self`, itself a
    /// right-nested chain of `op`, and then `other`.
    pub open spec fn chained(self, other: VarNode, op: Op) -> VarNode
        decreases self,
    {
        match self {
            VarNode::TwoOp { left, right, op: own } => if own == op {
                VarNode::TwoOp { left, right: Box::new(right.chained(other, op)), op }
            } else {
                VarNode::TwoOp { left: Box::new(self), right: Box::new(other), op }
            },
            _ => VarNode::TwoOp { left: Box::new(self), right: Box::new(other), op },
        }
    }

    /// The formula with every chain of conjunctions and every chain of
    /// disjunctions nested to the right: `(a | b) | c` becomes `a | (b | c)`.
    pub open spec fn flattened(self) -> VarNode
        decreases self,
    {
        match self {
            VarNode::Leaf(_) => self,
            VarNode::OneOp { left, op } => VarNode::OneOp { left: Box::new(left.flattened()), op },
            VarNode::TwoOp { left, right, op } => if op == Op::And || op == Op::Or {
                left.flattened().chained(right.flattened(), op)
            } else {
                VarNode::TwoOp {
                    left: Box::new(left.flattened()),
                    right: Box::new(right.flattened()),
                    op,
                }
            },
        }
    }

    /// Writes each exclusive disjunction `a ^ b` as `(a | b) & (!a | !b)`.
    pub fn eliminate_xor(node: VarNode) -> (r: VarNode)
        ensures
            r == node.xor_free(),
        decreases node,
    {
        match node {
            VarNode::Leaf(c) => VarNode::Leaf(c),
            VarNode::OneOp { left, op } => VarNode::OneOp {
                left: Box::new(VarNode::eliminate_xor(*left)),
                op,
            },
            VarNode::TwoOp { left, right, op } => {
                let a = VarNode::eliminate_xor(*left);
                let b = VarNode::eliminate_xor(*right);
                match op {
                    Op::Xor => {
                        let a_copy = a.clone();
                        let b_copy = b.clone();
                        VarNode::and(
                            VarNode::or(a, b),
                            VarNode::or(VarNode::negation(a_copy), VarNode::negation(b_copy)),
                        )
                    },
                    _ => VarNode::TwoOp { left: Box::new(a), right: Box::new(b), op },
                }
            },
        }
    }

    /// Tells whether the tree holds a conjunction.
    pub fn contains_and(&self) -> (r: bool)
        ensures
            r == self.has_and(),
        decreases self,
    {
        match self {
            VarNode::Leaf(_) => false,
            VarNode::OneOp { left, op: _ } => left.contains_and(),
            VarNode::TwoOp { left, right, op } => *op == Op::And || left.contains_and()
                || right.contains_and(),
        }
    }

    /// Tells whether a conjunction stands somewhere below a disjunction.
    pub fn has_cnf_forbidden(&self) -> (r: bool)
        ensures
            r == self.cnf_forbidden(),
        decreases self,
    {
        match self {
            VarNode::Leaf(_) => false,
            VarNode::OneOp { left, op: _ } => left.has_cnf_forbidden(),
            VarNode::TwoOp { left, right, op } => {
                if *op == Op::Or {
                    left.contains_and() || right.contains_and()
                } else {
                    left.has_cnf_forbidden() || right.has_cnf_forbidden()
                }
            },
        }
    }

    /// Builds the disjunction of two trees and distributes it over the
    /// conjunctions at their roots.
    pub fn distribute_or(left: VarNode, right: VarNode) -> (r: VarNode)
        ensures
            r == left.or_distributed(right),
        decreases left, right,
    {
        match left {
            VarNode::TwoOp { left: a, right: b, op: Op::And } => {
                let right_copy = right.clone();
                VarNode::and(
                    VarNode::distribute_or(*a, right),
                    VarNode::distribute_or(*b, right_copy),
                )
            },
            _ => match right {
                VarNode::TwoOp { left: b, right: c, op: Op::And } => {
                    let left_copy = left.clone();
                    VarNode::and(
                        VarNode::distribute_or(left, *b),
                        VarNode::distribute_or(left_copy, *c),
                    )
                },
                _ => VarNode::or(left, right),
            },
        }
    }

    /// Distributes every disjunction over the conjunctions below it,
    /// innermost first.
    pub fn distribute(node: VarNode) -> (r: VarNode)
        ensures
            r == node.distributed(),
        decreases node,
    {
        match node {
            VarNode::TwoOp { left, right, op: Op::And } => VarNode::and(
                VarNode::distribute(*left),
                VarNode::distribute(*right),
            ),
            VarNode::TwoOp { left, right, op: Op::Or } => {
                let l = VarNode::distribute(*left);
                let r = VarNode::distribute(*right);
                VarNode::distribute_or(l, r)
            },
            _ => node,
        }
    }

    /// Appends `other` to the right-nested chain of `op` that `chain` is.
    pub fn chain(chain: VarNode, other: VarNode, op: Op) -> (r: VarNode)
        ensures
            r == chain.chained(other, op),
        decreases chain,
    {
        match chain {
            VarNode::TwoOp { left, right, op: own } => {
                if own == op {
                    VarNode::TwoOp { left, right: Box::new(VarNode::chain(*right, other, op)), op }
                } else {
                    VarNode::TwoOp {
                        left: Box::new(VarNode::TwoOp { left, right, op: own }),
                        right: Box::new(other),
                        op,
                    }
                }
            },
            _ => VarNode::TwoOp { left: Box::new(chain), right: Box::new(other), op },
        }
    }

    /// Nests every chain of conjunctions and every chain of disjunctions to
    /// the right.
    pub fn flatten(node: VarNode) -> (r: VarNode)
        ensures
            r == node.flattened(),
        decreases node,
    {
        match node {
            VarNode::Leaf(c) => VarNode::Leaf(c),
            VarNode::OneOp { left, op } => VarNode::OneOp {
                left: Box::new(VarNode::flatten(*left)),
                op,
            },
            VarNode::TwoOp { left, right, op } => {
                let l = VarNode::flatten(*left);
                let r = VarNode::flatten(*right);
                match op {
                    Op::And => VarNode::chain(l, r, op),
                    Op::Or => VarNode::chain(l, r, op),
                    _ => VarNode::TwoOp { left: Box::new(l), right: Box::new(r), op },
                }
            },
        }
    }

    /// Rewrites the formula into conjunctive normal form: exclusive
    /// disjunctions are written out, negations are pushed down to the
    /// variables, and disjunctions are distributed over conjunctions until
    /// no conjunction is left below a disjunction.
    pub fn cnf_reduce(&mut self)
        requires
            old(self).wf(),
        ensures
            *final(self) == old(self).cnf(),
            final(self).wf(),
            final(self).is_cnf(),
            forall|sigma: spec_fn(char) -> bool|
                #[trigger] final(self).eval(sigma) == old(self).eval(sigma),
    {
        proof {
            lemma_cnf_is_cnf(*self);
            assert forall|sigma: spec_fn(char) -> bool| #[trigger]
                self.cnf().eval(sigma) == self.eval(sigma) by {
                lemma_cnf_preserves_eval(*self, sigma);
            }
            lemma_xor_free_wf(*self);
            lemma_xor_free_has_no_xor(*self);
            crate::nnf::lemma_nnf_is_nnf(self.xor_free(), false);
            lemma_nnf_is_plain(self.xor_free(), false);
        }
        *self = Self::eliminate_xor(self.clone());
        self.nnf_reduce();
        let mut not_finished = self.has_cnf_forbidden();
        while not_finished
            invariant
                self.wf(),
                self.is_nnf(),
                self.is_plain(),
                self.distributed() == old(self).cnf(),
                not_finished == self.cnf_forbidden(),
            decreases
                    (if not_finished {
                        1nat
                    } else {
                        0nat
                    }),
        {
            proof {
                lemma_distributed_is_cnf(*self);
                lemma_distributed_fixed_point(self.distributed());
            }
            *self = Self::distribute(self.clone());
            not_finished = self.has_cnf_forbidden();
        }
        proof {
            lemma_distributed_fixed_point(*self);
        }
    }
}

/// Writing out the exclusive disjunctions of a well-formed tree leaves it well-formed.
pub proof fn lemma_xor_free_wf(t: VarNode)
    requires
        t.wf(),
    ensures
        t.xor_free().wf(),
    decreases t,
{
    reveal_with_fuel(VarNode::wf, 3);
    match t {
        VarNode::Leaf(_) => {},
        VarNode::OneOp { left, op } => {
            lemma_xor_free_wf(*left);
        },
        VarNode::TwoOp { left, right, op } => {
            lemma_xor_free_wf(*left);
            lemma_xor_free_wf(*right);
        },
    }
}

/// Once the exclusive disjunctions are written out, none is left.
pub proof fn lemma_xor_free_has_no_xor(t: VarNode)
    ensures
        !t.xor_free().has_xor(),
    decreases t,
{
    reveal_with_fuel(VarNode::has_xor, 3);
    match t {
        VarNode::Leaf(_) => {},
        VarNode::OneOp { left, op } => {
            lemma_xor_free_has_no_xor(*left);
        },
        VarNode::TwoOp { left, right, op } => {
            lemma_xor_free_has_no_xor(*left);
            lemma_xor_free_has_no_xor(*right);
        },
    }
}

/// The negation normal form of a tree without exclusive disjunction holds
/// no binary connective but conjunction and disjunction.
pub proof fn lemma_nnf_is_plain(t: VarNode, negated: bool)
    requires
        t.wf(),
        !t.has_xor(),
    ensures
        t.push_negation(negated).is_plain(),
    decreases t,
{
    reveal_with_fuel(VarNode::is_plain, 3);
    match t {
        VarNode::Leaf(_) => {},
        VarNode::OneOp { left, op } => {
            lemma_nnf_is_plain(*left, !negated);
        },
        VarNode::TwoOp { left, right, op } => {
            lemma_nnf_is_plain(*left, negated);
            lemma_nnf_is_plain(*left, !negated);
            lemma_nnf_is_plain(*right, negated);
            lemma_nnf_is_plain(*right, !negated);
        },
    }
}

/// A tree in conjunctive normal form whose root is no conjunction holds none.
pub proof fn lemma_clause_has_no_and(t: VarNode)
    requires
        t.wf(),
        t.is_cnf(),
        !t.has_op(Op::And),
    ensures
        !t.has_and(),
{
    reveal_with_fuel(VarNode::has_and, 2);
}

/// The distributed disjunction of two trees in conjunctive normal form is
/// in conjunctive normal form.
pub proof fn lemma_or_distributed_is_cnf(x: VarNode, y: VarNode)
    requires
        x.wf(),
        y.wf(),
        x.is_cnf(),
        y.is_cnf(),
    ensures
        x.or_distributed(y).wf(),
        x.or_distributed(y).is_cnf(),
    decreases x, y,
{
    match x {
        VarNode::TwoOp { left: a, right: b, op: Op::And } => {
            lemma_or_distributed_is_cnf(*a, y);
            lemma_or_distributed_is_cnf(*b, y);
        },
        _ => match y {
            VarNode::TwoOp { left: b, right: c, op: Op::And } => {
                lemma_or_distributed_is_cnf(x, *b);
                lemma_or_distributed_is_cnf(x, *c);
            },
            _ => {
                lemma_clause_has_no_and(x);
                lemma_clause_has_no_and(y);
            },
        },
    }
}

/// Distribution takes a tree in negation normal form over conjunction and
/// disjunction alone into conjunctive normal form.
pub proof fn lemma_distributed_is_cnf(t: VarNode)
    requires
        t.wf(),
        t.is_nnf(),
        t.is_plain(),
    ensures
        t.distributed().wf(),
        t.distributed().is_cnf(),
    decreases t,
{
    reveal_with_fuel(VarNode::wf, 2);
    reveal_with_fuel(VarNode::is_plain, 2);
    reveal_with_fuel(VarNode::cnf_forbidden, 2);
    reveal_with_fuel(VarNode::nnf_forbidden, 2);
    match t {
        VarNode::TwoOp { left, right, op: Op::And } => {
            lemma_distributed_is_cnf(*left);
            lemma_distributed_is_cnf(*right);
        },
        VarNode::TwoOp { left, right, op: Op::Or } => {
            lemma_distributed_is_cnf(*left);
            lemma_distributed_is_cnf(*right);
            lemma_or_distributed_is_cnf(left.distributed(), right.distributed());
        },
        _ => {},
    }
}

/// Distribution changes nothing in a tree without conjunction.
pub proof fn lemma_distributed_without_and(t: VarNode)
    requires
        !t.has_and(),
    ensures
        t.distributed() == t,
    decreases t,
{
    reveal_with_fuel(VarNode::has_and, 2);
    match t {
        VarNode::TwoOp { left, right, op: Op::Or } => {
            lemma_distributed_without_and(*left);
            lemma_distributed_without_and(*right);
        },
        _ => {},
    }
}

/// Distribution changes nothing where no conjunction stands below a disjunction.
pub proof fn lemma_distributed_fixed_point(t: VarNode)
    requires
        !t.cnf_forbidden(),
    ensures
        t.distributed() == t,
    decreases t,
{
    reveal_with_fuel(VarNode::has_and, 2);
    match t {
        VarNode::TwoOp { left, right, op: Op::And } => {
            lemma_distributed_fixed_point(*left);
            lemma_distributed_fixed_point(*right);
        },
        VarNode::TwoOp { left, right, op: Op::Or } => {
            lemma_distributed_without_and(*left);
            lemma_distributed_without_and(*right);
        },
        _ => {},
    }
}

/// Writing out the exclusive disjunctions changes neither the truth value
/// of a formula nor the kind of its leaves.
pub proof fn lemma_xor_free_preserves_eval(t: VarNode, sigma: spec_fn(char) -> bool)
    ensures
        t.xor_free().eval(sigma) == t.eval(sigma),
        t.is_symbolic() ==> t.xor_free().is_symbolic(),
    decreases t,
{
    reveal_with_fuel(VarNode::eval, 3);
    reveal_with_fuel(VarNode::is_symbolic, 3);
    match t {
        VarNode::Leaf(_) => {},
        VarNode::OneOp { left, op } => {
            lemma_xor_free_preserves_eval(*left, sigma);
        },
        VarNode::TwoOp { left, right, op } => {
            lemma_xor_free_preserves_eval(*left, sigma);
            lemma_xor_free_preserves_eval(*right, sigma);
        },
    }
}

/// A distributed disjunction is true where one of the two trees is.
pub proof fn lemma_or_distributed_preserves_eval(
    x: VarNode,
    y: VarNode,
    sigma: spec_fn(char) -> bool,
)
    ensures
        x.or_distributed(y).eval(sigma) == (x.eval(sigma) || y.eval(sigma)),
        x.is_symbolic() && y.is_symbolic() ==> x.or_distributed(y).is_symbolic(),
    decreases x, y,
{
    match x {
        VarNode::TwoOp { left: a, right: b, op: Op::And } => {
            lemma_or_distributed_preserves_eval(*a, y, sigma);
            lemma_or_distributed_preserves_eval(*b, y, sigma);
        },
        _ => match y {
            VarNode::TwoOp { left: b, right: c, op: Op::And } => {
                lemma_or_distributed_preserves_eval(x, *b, sigma);
                lemma_or_distributed_preserves_eval(x, *c, sigma);
            },
            _ => {},
        },
    }
}

/// Distribution changes neither the truth value of a formula nor the kind
/// of its leaves.
pub proof fn lemma_distributed_preserves_eval(t: VarNode, sigma: spec_fn(char) -> bool)
    ensures
        t.distributed().eval(sigma) == t.eval(sigma),
        t.is_symbolic() ==> t.distributed().is_symbolic(),
    decreases t,
{
    match t {
        VarNode::TwoOp { left, right, op: Op::And } => {
            lemma_distributed_preserves_eval(*left, sigma);
            lemma_distributed_preserves_eval(*right, sigma);
        },
        VarNode::TwoOp { left, right, op: Op::Or } => {
            lemma_distributed_preserves_eval(*left, sigma);
            lemma_distributed_preserves_eval(*right, sigma);
            lemma_or_distributed_preserves_eval(left.distributed(), right.distributed(), sigma);
        },
        _ => {},
    }
}

/// What a chain keeps of the two trees it is made of.
pub proof fn lemma_chained_properties(x: VarNode, y: VarNode, op: Op, sigma: spec_fn(char) -> bool)
    requires
        op == Op::And || op == Op::Or,
    ensures
        x.chained(y, op).eval(sigma) == op.apply(x.eval(sigma), y.eval(sigma)),
        x.chained(y, op).wf() == (x.wf() && y.wf()),
        x.chained(y, op).is_symbolic() == (x.is_symbolic() && y.is_symbolic()),
        x.chained(y, op).is_nnf() == (x.is_nnf() && y.is_nnf()),
        x.chained(y, op).is_plain() == (x.is_plain() && y.is_plain()),
        x.chained(y, op).has_and() == (op == Op::And || x.has_and() || y.has_and()),
        x.chained(y, op).cnf_forbidden() == if op == Op::Or {
            x.has_and() || y.has_and()
        } else {
            x.cnf_forbidden() || y.cnf_forbidden()
        },
    decreases x,
{
    match x {
        VarNode::TwoOp { left, right, op: own } => {
            if own == op {
                lemma_chained_properties(*right, y, op, sigma);
            }
        },
        _ => {},
    }
}

/// Nesting the chains to the right changes neither the truth value of a
/// formula nor whether it is well-formed, over variable letters, or in one
/// of the normal forms.
pub proof fn lemma_flattened_properties(t: VarNode, sigma: spec_fn(char) -> bool)
    ensures
        t.flattened().eval(sigma) == t.eval(sigma),
        t.flattened().wf() == t.wf(),
        t.flattened().is_symbolic() == t.is_symbolic(),
        t.flattened().is_nnf() == t.is_nnf(),
        t.flattened().is_plain() == t.is_plain(),
        t.flattened().has_and() == t.has_and(),
        t.flattened().cnf_forbidden() == t.cnf_forbidden(),
        t.flattened() is Leaf == t is Leaf,
    decreases t,
{
    match t {
        VarNode::Leaf(_) => {},
        VarNode::OneOp { left, op } => {
            lemma_flattened_properties(*left, sigma);
        },
        VarNode::TwoOp { left, right, op } => {
            lemma_flattened_properties(*left, sigma);
            lemma_flattened_properties(*right, sigma);
            if op == Op::And || op == Op::Or {
                lemma_chained_properties(left.flattened(), right.flattened(), op, sigma);
            }
        },
    }
}

/// The conjunctive normal form of a well-formed formula is well-formed, in
/// conjunctive normal form, and over variable letters where the formula is.
pub proof fn lemma_cnf_is_cnf(t: VarNode)
    requires
        t.wf(),
    ensures
        t.cnf().wf(),
        t.cnf().is_cnf(),
        t.is_symbolic() ==> t.cnf().is_symbolic(),
{
    let sigma = |c: char| false;
    lemma_xor_free_wf(t);
    lemma_xor_free_has_no_xor(t);
    lemma_xor_free_preserves_eval(t, sigma);
    crate::nnf::lemma_nnf_is_nnf(t.xor_free(), false);
    lemma_nnf_is_plain(t.xor_free(), false);
    if t.is_symbolic() {
        crate::nnf::lemma_nnf_is_symbolic(t.xor_free(), false);
    }
    lemma_distributed_is_cnf(t.xor_free().nnf());
    lemma_distributed_preserves_eval(t.xor_free().nnf(), sigma);
}

/// The conjunctive normal form of a formula has the truth value of the
/// formula, whatever the variables hold.
pub proof fn lemma_cnf_preserves_eval(t: VarNode, sigma: spec_fn(char) -> bool)
    requires
        t.wf(),
    ensures
        t.cnf().eval(sigma) == t.eval(sigma),
{
    lemma_xor_free_wf(t);
    lemma_xor_free_preserves_eval(t, sigma);
    crate::nnf::lemma_nnf_preserves_eval(t.xor_free(), false, sigma);
    lemma_distributed_preserves_eval(t.xor_free().nnf(), sigma);
}

} // verus!
