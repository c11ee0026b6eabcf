//! Formula trees: the connectives, ground formulas with boolean leaves and
//! symbolic formulas with variable leaves.
use vstd::prelude::*;
use crate::text::push_char;
use vstd::std_specs::convert::FromSpecImpl;
use vstd::string::StringExecFns;

verus! {

/// The connectives of the notation.
#[derive(Debug, PartialEq, Eq, Copy, Clone, Structural)]
pub enum Op {
    Neg,
    And,
    Or,
    Xor,
    Cond,
    Eq,
}

impl Op {
    /// Number of operands the connective takes.
    pub open spec fn arity(self) -> nat {
        if self == Op::Neg {
            1
        } else {
            2
        }
    }

    /// The character that stands for the connective in postfix text.
    pub open spec fn symbol(self) -> char {
        match self {
            Op::Neg => '!',
            Op::And => '&',
            Op::Or => '|',
            Op::Xor => '^',
            Op::Cond => '>',
            Op::Eq => '=',
        }
    }

    /// Truth value of a binary connective on two truth values.
    pub open spec fn apply(self, a: bool, b: bool) -> bool {
        match self {
            Op::Neg => !a,
            Op::And => a && b,
            Op::Or => a || b,
            Op::Xor => a != b,
            Op::Cond => !a || b,
            Op::Eq => a == b,
        }
    }

    /// Tells whether the connective takes one operand.
    pub fn is_unary(&self) -> (r: bool)
        ensures
            r == (self.arity() == 1),
    {
        match self {
            Op::Neg => true,
            _ => false,
        }
    }

    /// The name of the connective.
    pub fn as_str(&self) -> (s: &'static str)
        ensures
            s@ == match *self {
                Op::Neg => "Neg"@,
                Op::And => "And"@,
                Op::Or => "Or"@,
                Op::Xor => "Xor"@,
                Op::Cond => "Cond"@,
                Op::Eq => "Eq"@,
            },
    {
        match self {
            Op::Neg => "Neg",
            Op::And => "And",
            Op::Or => "Or",
            Op::Xor => "Xor",
            Op::Cond => "Cond",
            Op::Eq => "Eq",
        }
    }

    /// The name of the connective in the written form of a ground tree.
    pub open spec fn name_text(self) -> Seq<char> {
        match self {
            Op::Neg => "NEG"@,
            Op::And => "AND"@,
            Op::Or => "OR"@,
            Op::Xor => "XOR"@,
            Op::Cond => "COND"@,
            Op::Eq => "EQ"@,
        }
    }

    /// The name of the connective in capitals.
    pub fn name(&self) -> (s: &'static str)
        ensures
            s@ == self.name_text(),
    {
        match self {
            Op::Neg => "NEG",
            Op::And => "AND",
            Op::Or => "OR",
            Op::Xor => "XOR",
            Op::Cond => "COND",
            Op::Eq => "EQ",
        }
    }

    /// The symbol of the connective in postfix text.
    pub fn as_symbol(&self) -> (s: &'static str)
        ensures
            s@ == seq![self.symbol()],
    {
        proof {
            reveal_strlit("!");
            reveal_strlit("&");
            reveal_strlit("|");
            reveal_strlit("^");
            reveal_strlit(">");
            reveal_strlit("=");
        }
        let s = match self {
            Op::Neg => "!",
            Op::And => "&",
            Op::Or => "|",
            Op::Xor => "^",
            Op::Cond => ">",
            Op::Eq => "=",
        };
        assert(s@ =~= seq![self.symbol()]);
        s
    }

    /// Computes the connective on two truth values; negation reads only the first.
    pub fn eval(&self, a: bool, b: bool) -> (r: bool)
        ensures
            r == self.apply(a, b),
    {
        match self {
            Op::Neg => !a,
            Op::And => a && b,
            Op::Or => a || b,
            Op::Xor => a != b,
            Op::Cond => !a || b,
            Op::Eq => a == b,
        }
    }
}

/// A ground formula: every leaf is a truth value.
#[derive(Debug, PartialEq, Eq)]
pub enum Node {
    Leaf(bool),
    TwoOp { left: Box<Node>, right: Box<Node>, op: Op },
    OneOp { left: Box<Node>, op: Op },
}

/// The tree that a ground formula is parsed into.
pub type BoolNode = Node;

impl Node {
    /// Every unary node carries negation and every binary node a binary connective.
    pub open spec fn wf(self) -> bool
        decreases self,
    {
        match self {
            Node::Leaf(_) => true,
            Node::OneOp { left, op } => op == Op::Neg && left.wf(),
            Node::TwoOp { left, right, op } => op != Op::Neg && left.wf() && right.wf(),
        }
    }

    /// The truth value of the formula.
    pub open spec fn truth(self) -> bool
        decreases self,
    {
        match self {
            Node::Leaf(value) => value,
            Node::OneOp { left, op } => op.apply(left.truth(), false),
            Node::TwoOp { left, right, op } => op.apply(left.truth(), right.truth()),
        }
    }

    /// The formula in postfix notation: operands first, then the connective.
    pub open spec fn postfix(self) -> Seq<char>
        decreases self,
    {
        match self {
            Node::Leaf(value) => seq![if value {
                '1'
            } else {
                '0'
            }],
            Node::OneOp { left, op } => left.postfix().push(op.symbol()),
            Node::TwoOp { left, right, op } => (left.postfix() + right.postfix()).push(op.symbol()),
        }
    }

    /// The leaf that holds `value`.
    pub fn new(value: bool) -> (node: Self)
        ensures
            node == Node::Leaf(value),
            node.wf(),
            node.truth() == value,
    {
        Node::Leaf(value)
    }

    /// The leaf that holds `value`, on the heap.
    pub fn new_boxed(value: bool) -> (node: Box<Self>)
        ensures
            *node == Node::Leaf(value),
    {
        Box::new(Node::Leaf(value))
    }

    /// Folds the tree to its truth value, children before their parent.
    pub fn value(self) -> (r: bool)
        ensures
            r == self.truth(),
        decreases self,
    {
        match self {
            Node::Leaf(value) => value,
            Node::OneOp { left, op } => {
                let l = (*left).value();
                op.eval(l, false)
            },
            Node::TwoOp { left, right, op } => {
                let l = (*left).value();
                let r = (*right).value();
                op.eval(l, r)
            },
        }
    }

    /// The tree written as nested applications, such as `AND(true, NEG(false))`.
    pub open spec fn display(self) -> Seq<char>
        decreases self,
    {
        match self {
            Node::Leaf(value) => if value {
                "true"@
            } else {
                "false"@
            },
            Node::OneOp { left, op } => op.name_text() + "("@ + left.display() + ")"@,
            Node::TwoOp { left, right, op } => op.name_text() + "("@ + left.display() + ", "@
                + right.display() + ")"@,
        }
    }

    /// Appends the tree, written as nested applications, to `out`.
    pub fn write_display(&self, out: &mut String)
        ensures
            final(out)@ == old(out)@ + self.display(),
        decreases self,
    {
        match self {
            Node::Leaf(value) => {
                if *value {
                    out.append("true");
                } else {
                    out.append("false");
                }
            },
            Node::OneOp { left, op } => {
                out.append(op.name());
                out.append("(");
                left.write_display(out);
                out.append(")");
                assert(out@ =~= old(out)@ + self.display());
            },
            Node::TwoOp { left, right, op } => {
                out.append(op.name());
                out.append("(");
                left.write_display(out);
                out.append(", ");
                right.write_display(out);
                out.append(")");
                assert(out@ =~= old(out)@ + self.display());
            },
        }
    }

    /// The tree written as nested applications.
    pub fn to_string(&self) -> (s: String)
        ensures
            s@ == self.display(),
    {
        let mut s = String::new();
        self.write_display(&mut s);
        s
    }

    /// The tree of `!left`.
    pub fn negation(left: Node) -> (node: Self)
        ensures
            node == (Node::OneOp { left: Box::new(left), op: Op::Neg }),
            node.wf() == left.wf(),
            node.truth() == !left.truth(),
    {
        Node::OneOp { left: Box::new(left), op: Op::Neg }
    }

    /// The tree of `left & right`.
    pub fn and(left: Node, right: Node) -> (node: Self)
        ensures
            node == (Node::TwoOp { left: Box::new(left), right: Box::new(right), op: Op::And }),
            node.wf() == (left.wf() && right.wf()),
            node.truth() == (left.truth() && right.truth()),
    {
        Node::TwoOp { left: Box::new(left), right: Box::new(right), op: Op::And }
    }

    /// The tree of `left | right`.
    pub fn or(left: Node, right: Node) -> (node: Self)
        ensures
            node == (Node::TwoOp { left: Box::new(left), right: Box::new(right), op: Op::Or }),
            node.wf() == (left.wf() && right.wf()),
            node.truth() == (left.truth() || right.truth()),
    {
        Node::TwoOp { left: Box::new(left), right: Box::new(right), op: Op::Or }
    }

    /// The tree of `left ^ right`.
    pub fn xor(left: Node, right: Node) -> (node: Self)
        ensures
            node == (Node::TwoOp { left: Box::new(left), right: Box::new(right), op: Op::Xor }),
            node.wf() == (left.wf() && right.wf()),
            node.truth() == (left.truth() != right.truth()),
    {
        Node::TwoOp { left: Box::new(left), right: Box::new(right), op: Op::Xor }
    }

    /// The tree of `left > right`.
    pub fn cond(left: Node, right: Node) -> (node: Self)
        ensures
            node == (Node::TwoOp { left: Box::new(left), right: Box::new(right), op: Op::Cond }),
            node.wf() == (left.wf() && right.wf()),
            node.truth() == (!left.truth() || right.truth()),
    {
        Node::TwoOp { left: Box::new(left), right: Box::new(right), op: Op::Cond }
    }

    /// The tree of `left = right`.
    pub fn eq(left: Node, right: Node) -> (node: Self)
        ensures
            node == (Node::TwoOp { left: Box::new(left), right: Box::new(right), op: Op::Eq }),
            node.wf() == (left.wf() && right.wf()),
            node.truth() == (left.truth() == right.truth()),
    {
        Node::TwoOp { left: Box::new(left), right: Box::new(right), op: Op::Eq }
    }
}

impl From<bool> for Node {
    fn from(value: bool) -> (node: Self) {
        Node::Leaf(value)
    }
}

impl FromSpecImpl<bool> for Node {
    open spec fn obeys_from_spec() -> bool {
        true
    }

    open spec fn from_spec(value: bool) -> Self {
        Node::Leaf(value)
    }
}

/// A symbolic formula: every leaf is a variable.
#[derive(Debug, PartialEq, Eq)]
pub enum VarNode {
    Leaf(char),
    TwoOp { left: Box<VarNode>, right: Box<VarNode>, op: Op },
    OneOp { left: Box<VarNode>, op: Op },
}

impl From<char> for VarNode {
    fn from(value: char) -> (node: Self) {
        VarNode::Leaf(value)
    }
}

impl FromSpecImpl<char> for VarNode {
    open spec fn obeys_from_spec() -> bool {
        true
    }

    open spec fn from_spec(value: char) -> Self {
        VarNode::Leaf(value)
    }
}

impl Clone for VarNode {
    fn clone(&self) -> (copy: Self)
        ensures
            copy == *self,
        decreases self,
    {
        match self {
            VarNode::Leaf(c) => VarNode::Leaf(*c),
            VarNode::OneOp { left, op } => VarNode::OneOp {
                left: Box::new((&**left).clone()),
                op: *op,
            },
            VarNode::TwoOp { left, right, op } => VarNode::TwoOp {
                left: Box::new((&**left).clone()),
                right: Box::new((&**right).clone()),
                op: *op,
            },
        }
    }
}

impl VarNode {
    /// Every unary node carries negation and every binary node a binary connective.
    pub open spec fn wf(self) -> bool
        decreases self,
    {
        match self {
            VarNode::Leaf(_) => true,
            VarNode::OneOp { left, op } => op == Op::Neg && left.wf(),
            VarNode::TwoOp { left, right, op } => op != Op::Neg && left.wf() && right.wf(),
        }
    }

    /// Every leaf is an uppercase letter.
    pub open spec fn is_symbolic(self) -> bool
        decreases self,
    {
        match self {
            VarNode::Leaf(c) => 'A' <= c <= 'Z',
            VarNode::OneOp { left, op } => left.is_symbolic(),
            VarNode::TwoOp { left, right, op } => left.is_symbolic() && right.is_symbolic(),
        }
    }

    /// The truth value of the formula when each variable `c` has the value `sigma(c)`.
    pub open spec fn eval(self, sigma: spec_fn(char) -> bool) -> bool
        decreases self,
    {
        match self {
            VarNode::Leaf(c) => sigma(c),
            VarNode::OneOp { left, op } => op.apply(left.eval(sigma), false),
            VarNode::TwoOp { left, right, op } => op.apply(left.eval(sigma), right.eval(sigma)),
        }
    }

    /// The ground formula obtained by putting `sigma(c)` in place of each variable `c`.
    pub open spec fn instance(self, sigma: spec_fn(char) -> bool) -> Node
        decreases self,
    {
        match self {
            VarNode::Leaf(c) => Node::Leaf(sigma(c)),
            VarNode::OneOp { left, op } => Node::OneOp { left: Box::new(left.instance(sigma)), op },
            VarNode::TwoOp { left, right, op } => Node::TwoOp {
                left: Box::new(left.instance(sigma)),
                right: Box::new(right.instance(sigma)),
                op,
            },
        }
    }

    /// The formula in postfix notation: operands first, then the connective.
    pub open spec fn postfix(self) -> Seq<char>
        decreases self,
    {
        match self {
            VarNode::Leaf(c) => seq![c],
            VarNode::OneOp { left, op } => left.postfix().push(op.symbol()),
            VarNode::TwoOp { left, right, op } => (left.postfix() + right.postfix()).push(
                op.symbol(),
            ),
        }
    }

    /// The leaf that holds the variable `value`.
    pub fn new(value: char) -> (node: Self)
        ensures
            node == VarNode::Leaf(value),
            node.wf(),
    {
        VarNode::Leaf(value)
    }

    /// The tree of `!left`.
    pub fn negation(left: VarNode) -> (node: Self)
        ensures
            node == (VarNode::OneOp { left: Box::new(left), op: Op::Neg }),
            node.wf() == left.wf(),
    {
        VarNode::OneOp { left: Box::new(left), op: Op::Neg }
    }

    /// The tree of `left & right`.
    pub fn and(left: VarNode, right: VarNode) -> (node: Self)
        ensures
            node == (VarNode::TwoOp { left: Box::new(left), right: Box::new(right), op: Op::And }),
            node.wf() == (left.wf() && right.wf()),
    {
        VarNode::TwoOp { left: Box::new(left), right: Box::new(right), op: Op::And }
    }

    /// The tree of `left | right`.
    pub fn or(left: VarNode, right: VarNode) -> (node: Self)
        ensures
            node == (VarNode::TwoOp { left: Box::new(left), right: Box::new(right), op: Op::Or }),
            node.wf() == (left.wf() && right.wf()),
    {
        VarNode::TwoOp { left: Box::new(left), right: Box::new(right), op: Op::Or }
    }

    /// The tree of `left ^ right`.
    pub fn xor(left: VarNode, right: VarNode) -> (node: Self)
        ensures
            node == (VarNode::TwoOp { left: Box::new(left), right: Box::new(right), op: Op::Xor }),
            node.wf() == (left.wf() && right.wf()),
    {
        VarNode::TwoOp { left: Box::new(left), right: Box::new(right), op: Op::Xor }
    }

    /// The tree of `left > right`.
    pub fn cond(left: VarNode, right: VarNode) -> (node: Self)
        ensures
            node == (VarNode::TwoOp { left: Box::new(left), right: Box::new(right), op: Op::Cond }),
            node.wf() == (left.wf() && right.wf()),
    {
        VarNode::TwoOp { left: Box::new(left), right: Box::new(right), op: Op::Cond }
    }

    /// The tree of `left = right`.
    pub fn eq(left: VarNode, right: VarNode) -> (node: Self)
        ensures
            node == (VarNode::TwoOp { left: Box::new(left), right: Box::new(right), op: Op::Eq }),
            node.wf() == (left.wf() && right.wf()),
    {
        VarNode::TwoOp { left: Box::new(left), right: Box::new(right), op: Op::Eq }
    }

    /// Whether the root is an operator node that carries `op_in`.
    pub open spec fn has_op(self, op_in: Op) -> bool {
        match self {
            VarNode::Leaf(_) => false,
            VarNode::OneOp { left, op } => op == op_in,
            VarNode::TwoOp { left, right, op } => op == op_in,
        }
    }

    /// Tells whether the root carries the connective `op_in`.
    pub fn is_op(&self, op_in: Op) -> (r: bool)
        ensures
            r == self.has_op(op_in),
    {
        match self {
            VarNode::Leaf(_) => false,
            VarNode::OneOp { left: _, op } => *op == op_in,
            VarNode::TwoOp { left: _, right: _, op } => *op == op_in,
        }
    }

    /// Tells whether the tree is a single variable.
    pub fn is_leaf(&self) -> (r: bool)
        ensures
            r == (*self is Leaf),
    {
        match self {
            VarNode::Leaf(_) => true,
            _ => false,
        }
    }

    /// The first operand of an operator node.
    pub open spec fn left_operand(self) -> Option<VarNode> {
        match self {
            VarNode::Leaf(_) => None,
            VarNode::OneOp { left, op } => Some(*left),
            VarNode::TwoOp { left, right, op } => Some(*left),
        }
    }

    /// The second operand of a binary node.
    pub open spec fn right_operand(self) -> Option<VarNode> {
        match self {
            VarNode::Leaf(_) => None,
            VarNode::OneOp { left, op } => None,
            VarNode::TwoOp { left, right, op } => Some(*right),
        }
    }

    /// A copy of the first operand of the root, if it has one.
    pub fn get_left(&self) -> (r: Option<VarNode>)
        ensures
            r == self.left_operand(),
    {
        match self {
            VarNode::Leaf(_) => None,
            VarNode::OneOp { left, op: _ } => Some((&**left).clone()),
            VarNode::TwoOp { left, right: _, op: _ } => Some((&**left).clone()),
        }
    }

    /// A copy of the second operand of the root, if it has one.
    pub fn get_right(&self) -> (r: Option<VarNode>)
        ensures
            r == self.right_operand(),
    {
        match self {
            VarNode::Leaf(_) => None,
            VarNode::OneOp { left: _, op: _ } => None,
            VarNode::TwoOp { left: _, right, op: _ } => Some((&**right).clone()),
        }
    }

    /// Appends the postfix notation of the formula to `out`.
    pub fn write_postfix(&self, out: &mut String)
        ensures
            final(out)@ == old(out)@ + self.postfix(),
        decreases self,
    {
        match self {
            VarNode::Leaf(c) => {
                push_char(out, *c);
            },
            VarNode::OneOp { left, op } => {
                left.write_postfix(out);
                out.append(op.as_symbol());
            },
            VarNode::TwoOp { left, right, op } => {
                left.write_postfix(out);
                right.write_postfix(out);
                out.append(op.as_symbol());
            },
        }
    }

    /// The formula as postfix text.
    pub fn to_string(&self) -> (s: String)
        ensures
            s@ == self.postfix(),
    {
        let mut s = String::new();
        self.write_postfix(&mut s);
        s
    }
}

} // verus!
