//! What holds of evaluation and of the normal forms, on every formula.
use crate::assignment::{is_variable, substituted};
use crate::ast::{Node, VarNode};
use crate::cnf::{lemma_cnf_is_cnf, lemma_cnf_preserves_eval, lemma_flattened_properties};
use crate::nnf::{
    lemma_nnf_idempotent,
    lemma_nnf_is_nnf,
    lemma_nnf_is_symbolic,
    lemma_nnf_preserves_eval,
};
use crate::parser::{
    lemma_parse_bool_postfix,
    lemma_parse_var_postfix,
    lemma_parse_var_sound,
    parse_var,
    ParseError,
};
use crate::{cnf_text, evaluation, evaluation_under, nnf_text};
use vstd::prelude::*;

verus! {

/// Putting values in place of the variables of a tree and writing it gives
/// the text of the tree with the constants in place of the variables.
pub proof fn lemma_substituted_postfix(t: VarNode, sigma: spec_fn(char) -> bool)
    requires
        t.is_symbolic(),
    ensures
        substituted(t.postfix(), sigma) == t.instance(sigma).postfix(),
        t.instance(sigma).wf() == t.wf(),
        t.instance(sigma).truth() == t.eval(sigma),
    decreases t,
{
    match t {
        VarNode::Leaf(c) => {
            assert(substituted(t.postfix(), sigma) =~= t.instance(sigma).postfix());
        },
        VarNode::OneOp { left, op } => {
            lemma_substituted_postfix(*left, sigma);
            assert(substituted(t.postfix(), sigma) =~= substituted(left.postfix(), sigma).push(
                op.symbol(),
            ));
        },
        VarNode::TwoOp { left, right, op } => {
            lemma_substituted_postfix(*left, sigma);
            lemma_substituted_postfix(*right, sigma);
            assert(substituted(t.postfix(), sigma) =~= (substituted(left.postfix(), sigma)
                + substituted(right.postfix(), sigma)).push(op.symbol()));
        },
    }
}

/// A symbolic formula evaluates, under any values of its variables, to the
/// truth value of its tree.
pub proof fn lemma_evaluation_of_symbolic(text: Seq<char>, sigma: spec_fn(char) -> bool)
    ensures
        parse_var(text) matches Ok(t) ==> evaluation_under(text, sigma) == Ok::<bool, ParseError>(
            t.eval(sigma),
        ),
{
    lemma_parse_var_sound(text);
    match parse_var(text) {
        Ok(t) => {
            lemma_substituted_postfix(t, sigma);
            lemma_parse_bool_postfix(t.instance(sigma));
        },
        Err(_) => {},
    }
}

/// Evaluation gives the truth value that the connectives' truth tables give:
/// the text of any well-formed ground tree evaluates to the truth value of
/// that tree.
pub proof fn law_evaluation_is_truth(t: Node)
    requires
        t.wf(),
    ensures
        evaluation(t.postfix()) == Ok::<bool, ParseError>(t.truth()),
{
    lemma_parse_bool_postfix(t);
}

/// The negation normal form of a negation normal form is that same text.
pub proof fn law_nnf_idempotent(text: Seq<char>)
    ensures
        nnf_text(text) matches Ok(once) ==> nnf_text(once) == Ok::<Seq<char>, ParseError>(once),
{
    lemma_parse_var_sound(text);
    match parse_var(text) {
        Ok(t) => {
            lemma_nnf_is_nnf(t, false);
            lemma_nnf_is_symbolic(t, false);
            lemma_parse_var_postfix(t.nnf());
            lemma_nnf_idempotent(t);
        },
        Err(_) => {},
    }
}

/// A formula, its negation normal form and its conjunctive normal form
/// have the same truth value under every assignment.
pub proof fn law_normal_forms_preserve_truth(text: Seq<char>, sigma: spec_fn(char) -> bool)
    requires
        parse_var(text) is Ok,
    ensures
        nnf_text(text) is Ok,
        cnf_text(text) is Ok,
        evaluation_under(text, sigma) is Ok,
        evaluation_under(nnf_text(text)->Ok_0, sigma) == evaluation_under(text, sigma),
        evaluation_under(cnf_text(text)->Ok_0, sigma) == evaluation_under(text, sigma),
{
    lemma_parse_var_sound(text);
    let t = parse_var(text)->Ok_0;
    lemma_evaluation_of_symbolic(text, sigma);
    // negation normal form
    lemma_nnf_is_nnf(t, false);
    lemma_nnf_is_symbolic(t, false);
    lemma_nnf_preserves_eval(t, false, sigma);
    lemma_parse_var_postfix(t.nnf());
    lemma_evaluation_of_symbolic(t.nnf().postfix(), sigma);
    // conjunctive normal form
    lemma_cnf_is_cnf(t);
    lemma_cnf_preserves_eval(t, sigma);
    lemma_flattened_properties(t.cnf(), sigma);
    lemma_parse_var_postfix(t.cnf().flattened());
    lemma_evaluation_of_symbolic(t.cnf().flattened().postfix(), sigma);
}

/// No `>` and no `=` stands in the text, and every `!` stands right behind
/// a variable.
pub open spec fn text_in_nnf(text: Seq<char>) -> bool {
    forall|i: int|
        0 <= i < text.len() ==> {
            &&& #[trigger] text[i] != '>'
            &&& text[i] != '='
            &&& (text[i] == '!' ==> i > 0 && is_variable(text[i - 1]))
        }
}

/// The text of a tree in negation normal form holds no `>` and no `=`, and
/// every `!` in it stands right behind a variable.
pub proof fn lemma_nnf_postfix(t: VarNode)
    requires
        t.wf(),
        t.is_symbolic(),
        t.is_nnf(),
    ensures
        text_in_nnf(t.postfix()),
        t.postfix().len() >= 1,
        is_variable(t.postfix()[0]),
    decreases t,
{
    let text = t.postfix();
    match t {
        VarNode::Leaf(c) => {},
        VarNode::OneOp { left, op } => {
            lemma_nnf_postfix(*left);
        },
        VarNode::TwoOp { left, right, op } => {
            lemma_nnf_postfix(*left);
            lemma_nnf_postfix(*right);
            let l = left.postfix();
            let r = right.postfix();
            assert forall|i: int| 0 <= i < text.len() implies {
                &&& #[trigger] text[i] != '>'
                &&& text[i] != '='
                &&& (text[i] == '!' ==> i > 0 && is_variable(text[i - 1]))
            } by {
                if i < l.len() {
                    assert(text[i] == l[i]);
                    if i > 0 {
                        assert(text[i - 1] == l[i - 1]);
                    }
                } else if i < l.len() + r.len() {
                    assert(text[i] == r[i - l.len()]);
                    if i > l.len() {
                        assert(text[i - 1] == r[i - l.len() - 1]);
                    }
                } else {
                    assert(text[i] == op.symbol());
                }
            }
        },
    }
}

/// The negation normal form holds neither a conditional nor a
/// biconditional, and negates nothing but variables: in its text, and in
/// the tree its text denotes.
pub proof fn law_nnf_shape(text: Seq<char>)
    ensures
        nnf_text(text) matches Ok(out) ==> text_in_nnf(out) && (parse_var(out) matches Ok(tree)
            && tree.is_nnf()),
{
    lemma_parse_var_sound(text);
    match parse_var(text) {
        Ok(t) => {
            lemma_nnf_is_nnf(t, false);
            lemma_nnf_is_symbolic(t, false);
            lemma_parse_var_postfix(t.nnf());
            lemma_nnf_postfix(t.nnf());
        },
        Err(_) => {},
    }
}

/// The conjunctive normal form, read as a tree, is a conjunction of
/// disjunctions of variables and negated variables: no conjunction stands
/// below a disjunction.
pub proof fn law_cnf_shape(text: Seq<char>)
    ensures
        cnf_text(text) matches Ok(out) ==> (parse_var(out) matches Ok(tree) && tree.is_cnf()
            && !tree.cnf_forbidden()),
{
    lemma_parse_var_sound(text);
    match parse_var(text) {
        Ok(t) => {
            let sigma = |c: char| false;
            lemma_cnf_is_cnf(t);
            lemma_flattened_properties(t.cnf(), sigma);
            lemma_parse_var_postfix(t.cnf().flattened());
        },
        Err(_) => {},
    }
}

} // verus!
