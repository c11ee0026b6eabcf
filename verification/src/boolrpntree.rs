//! A ground formula read straight from its postfix text.
use crate::ast::{Node, Op};
use crate::exptree::ExpNode;
use crate::parser::{
    fold_bool,
    lemma_parse_bool_sound,
    parse_bool,
    run_bool,
    step_bool,
    ParseError,
};
use crate::text::chars_of;
use crate::token::BoolToken;
use vstd::prelude::*;

verus! {

/// The tree of a ground formula.
pub struct BoolRpnTree {
    tree: ExpNode,
}

/// Tells whether a stack of `len` trees holds the `exp` operands that the
/// connective `op` needs.
pub fn stack_len_check(len: usize, exp: usize, op: Op) -> (r: Result<(), ParseError>)
    ensures
        r == if len < exp {
            Err::<(), ParseError>(ParseError::StackUnderflow { op, required: exp })
        } else {
            Ok::<(), ParseError>(())
        },
{
    if len < exp {
        Err(ParseError::StackUnderflow { op, required: exp })
    } else {
        Ok(())
    }
}

/// Takes two operands from the stack and puts the tree of `op` over them
/// in their place.
fn stack_add_binary(stack: &mut Vec<ExpNode>, op: Op) -> (r: Result<(), ParseError>)
    requires
        op != Op::Neg,
    ensures
        match fold_bool(old(stack)@, op) {
            Ok(next) => r is Ok && final(stack)@ == next,
            Err(e) => r == Err::<(), ParseError>(e) && final(stack)@ == old(stack)@,
        },
{
    match stack_len_check(stack.len(), 2, op) {
        Err(e) => Err(e),
        Ok(_) => {
            let right = stack.pop().unwrap();
            let left = stack.pop().unwrap();
            stack.push(Node::TwoOp { left: Box::new(left), right: Box::new(right), op });
            Ok(())
        },
    }
}

impl BoolRpnTree {
    #[verifier::type_invariant]
    spec fn well_formed(&self) -> bool {
        self.tree.wf()
    }

    /// The formula the tree stands for.
    pub closed spec fn formula(&self) -> Node {
        self.tree
    }

    /// Puts the negation of the top of the stack in its place.
    pub fn stack_add_negation(stack: &mut Vec<ExpNode>) -> (r: Result<(), ParseError>)
        ensures
            match fold_bool(old(stack)@, Op::Neg) {
                Ok(next) => r is Ok && final(stack)@ == next,
                Err(e) => r == Err::<(), ParseError>(e) && final(stack)@ == old(stack)@,
            },
    {
        match stack_len_check(stack.len(), 1, Op::Neg) {
            Err(e) => Err(e),
            Ok(_) => {
                let node = stack.pop().unwrap();
                stack.push(ExpNode::neg(node));
                Ok(())
            },
        }
    }

    /// Puts the conjunction of the two trees on top of the stack in their place.
    pub fn stack_add_conjunction(stack: &mut Vec<ExpNode>) -> (r: Result<(), ParseError>)
        ensures
            match fold_bool(old(stack)@, Op::And) {
                Ok(next) => r is Ok && final(stack)@ == next,
                Err(e) => r == Err::<(), ParseError>(e) && final(stack)@ == old(stack)@,
            },
    {
        stack_add_binary(stack, Op::And)
    }

    /// Puts the disjunction of the two trees on top of the stack in their place.
    pub fn stack_add_disjunction(stack: &mut Vec<ExpNode>) -> (r: Result<(), ParseError>)
        ensures
            match fold_bool(old(stack)@, Op::Or) {
                Ok(next) => r is Ok && final(stack)@ == next,
                Err(e) => r == Err::<(), ParseError>(e) && final(stack)@ == old(stack)@,
            },
    {
        stack_add_binary(stack, Op::Or)
    }

    /// Puts the exclusive disjunction of the two trees on top of the stack in
    /// their place.
    pub fn stack_add_exclusive_disjunction(stack: &mut Vec<ExpNode>) -> (r: Result<
        (),
        ParseError,
    >)
        ensures
            match fold_bool(old(stack)@, Op::Xor) {
                Ok(next) => r is Ok && final(stack)@ == next,
                Err(e) => r == Err::<(), ParseError>(e) && final(stack)@ == old(stack)@,
            },
    {
        stack_add_binary(stack, Op::Xor)
    }

    /// Puts the conditional of the two trees on top of the stack in their place.
    pub fn stack_add_material_condition(stack: &mut Vec<ExpNode>) -> (r: Result<(), ParseError>)
        ensures
            match fold_bool(old(stack)@, Op::Cond) {
                Ok(next) => r is Ok && final(stack)@ == next,
                Err(e) => r == Err::<(), ParseError>(e) && final(stack)@ == old(stack)@,
            },
    {
        stack_add_binary(stack, Op::Cond)
    }

    /// Puts the biconditional of the two trees on top of the stack in their place.
    pub fn stack_add_logical_equivalence(stack: &mut Vec<ExpNode>) -> (r: Result<(), ParseError>)
        ensures
            match fold_bool(old(stack)@, Op::Eq) {
                Ok(next) => r is Ok && final(stack)@ == next,
                Err(e) => r == Err::<(), ParseError>(e) && final(stack)@ == old(stack)@,
            },
    {
        stack_add_binary(stack, Op::Eq)
    }

    /// Reads the formula character by character onto a stack of trees.
    pub fn from(formula: &str) -> (r: Result<Self, ParseError>)
        ensures
            match parse_bool(formula@) {
                Ok(tree) => r matches Ok(rpn) && rpn.formula() == tree,
                Err(e) => r matches Err(err) && err == e,
            },
    {
        let chars = chars_of(formula);
        let mut stack: Vec<ExpNode> = Vec::new();
        let mut i: usize = 0;
        proof {
            lemma_parse_bool_sound(formula@);
            assert(chars@.skip(0) =~= chars@);
        }
        while i < chars.len()
            invariant
                i <= chars.len(),
                chars@ == formula@,
                run_bool(stack@, chars@.skip(i as int)) == run_bool(Seq::empty(), formula@),
            decreases chars.len() - i,
        {
            let c = chars[i];
            let ghost before = stack@;
            let ghost rest = chars@.skip(i as int);
            assert(rest.len() > 0 && rest[0] == c);
            assert(rest.drop_first() =~= chars@.skip(i + 1));
            let step = match c {
                '0' => {
                    stack.push(ExpNode::new(false));
                    Ok(())
                },
                '1' => {
                    stack.push(ExpNode::new(true));
                    Ok(())
                },
                '!' => Self::stack_add_negation(&mut stack),
                '&' => Self::stack_add_conjunction(&mut stack),
                '|' => Self::stack_add_disjunction(&mut stack),
                '^' => Self::stack_add_exclusive_disjunction(&mut stack),
                '>' => Self::stack_add_material_condition(&mut stack),
                '=' => Self::stack_add_logical_equivalence(&mut stack),
                _ => Err(ParseError::InvalidSymbol),
            };
            assert(match step_bool(before, BoolToken::of_char(c)) {
                Ok(next) => step is Ok && stack@ == next,
                Err(e) => step == Err::<(), ParseError>(e),
            });
            if let Err(e) = step {
                return Err(e);
            }
            i = i + 1;
        }
        assert(chars@.skip(i as int) =~= Seq::<char>::empty());
        if stack.len() != 1 {
            return Err(ParseError::MalformedFormula { depth: stack.len() });
        }
        Ok(Self { tree: stack.pop().unwrap() })
    }

    /// Consumes the tree and gives the truth value of the formula.
    pub fn result(self) -> (r: bool)
        ensures
            r == self.formula().truth(),
    {
        proof {
            use_type_invariant(&self);
        }
        self.tree.value()
    }
}

} // verus!
