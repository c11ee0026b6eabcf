//! Propositional formulas in postfix notation over `0 1 ! & | ^ > =` and the
//! variables `A` to `Z`: parsing, evaluation, negation and conjunctive
//! normal form, satisfiability and truth tables.
use vstd::prelude::*;

pub mod adder;
pub mod assignment;
pub mod ast;
pub mod bitwise;
pub mod boolrpntree;
pub mod cnf;
pub mod exptree;
pub mod graycode;
pub mod gui;
pub mod laws;
pub mod lexer;
pub mod multiplier;
pub mod nnf;
pub mod parser;
pub mod powerset;
pub mod sat;
pub mod text;
pub mod token;
pub mod truth_table;

pub use adder::adder;
pub use assignment::Assignment;
pub use ast::{BoolNode, Node, Op, VarNode};
pub use graycode::gray_code;
pub use lexer::{Lexer, LexerTrait};
pub use multiplier::multiplier;
pub use parser::ParseError;
pub use powerset::powerset;
pub use sat::sat;
pub use token::{BoolToken, CharToken, Token};
pub use truth_table::truth_table;

verus! {

/// The truth value of the ground formula that `text` denotes, or why it
/// denotes none.
pub open spec fn evaluation(text: Seq<char>) -> Result<bool, ParseError> {
    match parser::parse_bool(text) {
        Ok(tree) => Ok(tree.truth()),
        Err(e) => Err(e),
    }
}

/// The truth value of the formula that `text` denotes when its variables
/// have the values `sigma` gives them.
pub open spec fn evaluation_under(text: Seq<char>, sigma: spec_fn(char) -> bool) -> Result<
    bool,
    ParseError,
> {
    evaluation(assignment::substituted(text, sigma))
}

/// The postfix text of the negation normal form of the symbolic formula
/// that `text` denotes.
pub open spec fn nnf_text(text: Seq<char>) -> Result<Seq<char>, ParseError> {
    match parser::parse_var(text) {
        Ok(tree) => Ok(tree.nnf().postfix()),
        Err(e) => Err(e),
    }
}

/// The postfix text of the conjunctive normal form of the symbolic formula
/// that `text` denotes, its chains of `&` and of `|` nested to the right.
pub open spec fn cnf_text(text: Seq<char>) -> Result<Seq<char>, ParseError> {
    match parser::parse_var(text) {
        Ok(tree) => Ok(tree.cnf().flattened().postfix()),
        Err(e) => Err(e),
    }
}

/// Evaluates a ground formula.
pub fn eval_formula(formula: &str) -> (r: Result<bool, ParseError>)
    ensures
        r == evaluation(formula@),
{
    match Node::from_lexer(Lexer::new(formula)) {
        Ok(rpn) => Ok(rpn.value()),
        Err(e) => Err(e),
    }
}

/// Evaluates a formula whose variables have the values of `assignment`.
pub fn parse_and_evaluate(formula: &str, assignment: &Assignment) -> (r: Result<bool, ParseError>)
    ensures
        r == evaluation_under(formula@, assignment.sigma()),
{
    let ground = assignment.substitute(formula);
    eval_formula(ground.as_str())
}

/// Rewrites a symbolic formula into negation normal form.
pub fn negation_normal_form(formula: &str) -> (r: Result<String, ParseError>)
    ensures
        match nnf_text(formula@) {
            Ok(text) => r matches Ok(out) && out@ == text,
            Err(e) => r matches Err(err) && err == e,
        },
{
    match VarNode::from_lexer(Lexer::new(formula)) {
        Ok(rpn) => {
            let mut rpn = rpn;
            rpn.nnf_reduce();
            Ok(rpn.to_string())
        },
        Err(e) => Err(e),
    }
}

/// Rewrites a symbolic formula into conjunctive normal form.
pub fn conjunctive_normal_form(formula: &str) -> (r: Result<String, ParseError>)
    ensures
        match cnf_text(formula@) {
            Ok(text) => r matches Ok(out) && out@ == text,
            Err(e) => r matches Err(err) && err == e,
        },
{
    match VarNode::from_lexer(Lexer::new(formula)) {
        Ok(rpn) => {
            let mut rpn = rpn;
            rpn.cnf_reduce();
            Ok(VarNode::flatten(rpn).to_string())
        },
        Err(e) => Err(e),
    }
}

} // verus!
