//! Truth values for the variables, and formulas with them put in place.
use crate::ast::{Node, VarNode};
use crate::text::{chars_of, text_of};
use vstd::array::array_fill_for_copy_types;
use vstd::prelude::*;

verus! {

/// Whether `c` is one of the variable letters, `A` to `Z`.
pub open spec fn is_variable(c: char) -> bool {
    'A' <= c <= 'Z'
}

/// The character that stands in place of `c` once the variables have the
/// values `sigma` gives them: `1` or `0` for a variable, `c` itself otherwise.
pub open spec fn substituted_char(c: char, sigma: spec_fn(char) -> bool) -> char {
    if is_variable(c) {
        if sigma(c) {
            '1'
        } else {
            '0'
        }
    } else {
        c
    }
}

/// The text with each variable replaced by the constant for its value.
pub open spec fn substituted(text: Seq<char>, sigma: spec_fn(char) -> bool) -> Seq<char> {
    Seq::new(text.len(), |i: int| substituted_char(text[i], sigma))
}

/// Tells whether `c` is one of the variable letters.
pub fn is_variable_letter(c: char) -> (r: bool)
    ensures
        r == is_variable(c),
{
    'A' <= c && c <= 'Z'
}

/// One truth value for each of the variables `A` to `Z`.
#[derive(Clone, Copy, Debug)]
pub struct Assignment {
    values: [bool; 26],
}

impl Assignment {
    /// The value of the variable `c`; no other character holds.
    pub closed spec fn holds(&self, c: char) -> bool {
        is_variable(c) && self.values@[c as int - 'A' as int]
    }

    /// The assignment as a function from variables to truth values.
    pub open spec fn sigma(&self) -> spec_fn(char) -> bool {
        |c: char| self.holds(c)
    }

    /// The assignment that makes every variable false.
    pub fn new() -> (a: Self)
        ensures
            forall|c: char| !a.holds(c),
    {
        let values: [bool; 26] = array_fill_for_copy_types(false);
        Assignment { values }
    }

    /// Gives the variable `letter` the value `value`; any other character
    /// leaves the assignment as it is.
    pub fn set(&mut self, letter: char, value: bool)
        ensures
            forall|c: char|
                final(self).holds(c) == if c == letter && is_variable(letter) {
                    value
                } else {
                    old(self).holds(c)
                },
    {
        if is_variable_letter(letter) {
            let index = (letter as u32 - 'A' as u32) as usize;
            self.values[index] = value;
            assert forall|c: char|
                self.holds(c) == if c == letter {
                    value
                } else {
                    old(self).holds(c)
                } by {
                if is_variable(c) && c != letter {
                    assert(c as int - 'A' as int != index as int);
                }
            }
        }
    }

    /// The value of the variable `letter`; false for any other character.
    pub fn get(&self, letter: char) -> (r: bool)
        ensures
            r == self.holds(letter),
    {
        if is_variable_letter(letter) {
            let index = (letter as u32 - 'A' as u32) as usize;
            self.values[index]
        } else {
            false
        }
    }

    /// The formula with each variable replaced by `1` or `0`, its value here.
    pub fn substitute(&self, formula: &str) -> (text: String)
        ensures
            text@ == substituted(formula@, self.sigma()),
    {
        let chars = chars_of(formula);
        let mut out: Vec<char> = Vec::new();
        let mut i: usize = 0;
        while i < chars.len()
            invariant
                i <= chars.len(),
                out.len() == i,
                forall|j: int| 0 <= j < i ==> out@[j] == substituted_char(chars@[j], self.sigma()),
            decreases chars.len() - i,
        {
            let c = chars[i];
            if is_variable_letter(c) {
                if self.get(c) {
                    out.push('1');
                } else {
                    out.push('0');
                }
            } else {
                out.push(c);
            }
            i = i + 1;
        }
        assert(out@ =~= substituted(formula@, self.sigma()));
        text_of(&out)
    }
}

impl VarNode {
    /// Puts the values of `assignment` in place of the variables: the
    /// ground formula that is left.
    pub fn instantiate(&self, assignment: &Assignment) -> (node: Node)
        ensures
            node == self.instance(assignment.sigma()),
        decreases self,
    {
        match self {
            VarNode::Leaf(c) => Node::Leaf(assignment.get(*c)),
            VarNode::OneOp { left, op } => Node::OneOp {
                left: Box::new(left.instantiate(assignment)),
                op: *op,
            },
            VarNode::TwoOp { left, right, op } => Node::TwoOp {
                left: Box::new(left.instantiate(assignment)),
                right: Box::new(right.instantiate(assignment)),
                op: *op,
            },
        }
    }
}

} // verus!
