//! The truth table of a formula as lines of text.
use crate::assignment::Assignment;
use crate::parser::ParseError;
use crate::sat::{
    all_false,
    bit,
    indexed,
    lemma_evaluation_agrees,
    lemma_evaluation_shape,
    letters,
    sorted_variables,
    variables,
};
use crate::text::text_of;
use crate::{evaluation_under, parse_and_evaluate};
use vstd::prelude::*;

verus! {

/// The digit that stands for a truth value.
pub open spec fn digit(value: bool) -> char {
    if value {
        '1'
    } else {
        '0'
    }
}

/// One cell of the table without its closing bar.
pub open spec fn cell(c: char) -> Seq<char> {
    seq!['|', ' ', c, ' ']
}

/// The cells that name the first `n` of the variables.
pub open spec fn header_cells(labels: Seq<char>, n: nat) -> Seq<char>
    decreases n,
{
    if n == 0 {
        Seq::empty()
    } else {
        header_cells(labels, (n - 1) as nat) + cell(labels[n - 1])
    }
}

/// The first line: a cell for each variable, then one for the result.
pub open spec fn header_line(labels: Seq<char>) -> Seq<char> {
    header_cells(labels, labels.len()) + seq!['|', ' ', '=', ' ', '|']
}

/// The cells of the rule under the names of `n` variables.
pub open spec fn rule_cells(n: nat) -> Seq<char>
    decreases n,
{
    if n == 0 {
        Seq::empty()
    } else {
        rule_cells((n - 1) as nat) + seq!['|', '-', '-', '-']
    }
}

/// The second line: a rule under each cell of the first.
pub open spec fn rule_line(n: nat) -> Seq<char> {
    rule_cells(n) + seq!['|', '-', '-', '-', '|']
}

/// The cells with the values that the assignment with the number `i` gives
/// the first `n` of the variables.
pub open spec fn row_cells(labels: Seq<char>, i: u32, n: nat) -> Seq<char>
    decreases n,
{
    if n == 0 {
        Seq::empty()
    } else {
        row_cells(labels, i, (n - 1) as nat) + cell(digit(bit(i, (labels.len() - n) as u32)))
    }
}

/// The line of the assignment with the number `i`: the values of the
/// variables, then the truth value of the formula.
pub open spec fn row_line(labels: Seq<char>, i: u32, result: bool) -> Seq<char> {
    row_cells(labels, i, labels.len()) + seq!['|', ' ', digit(result), ' ', '|']
}

/// The lines are the truth table of the formula `text`: the names of its
/// variables, a rule, and one line for each assignment in the order of
/// their numbers.
pub open spec fn is_truth_table(lines: Seq<Seq<char>>, text: Seq<char>) -> bool {
    let labels = letters(text);
    let count = 1u32 << (labels.len() as u32);
    &&& lines.len() == count + 2
    &&& lines[0] == header_line(labels)
    &&& lines[1] == rule_line(labels.len())
    &&& forall|i: u32|
        i < count ==> (#[trigger] evaluation_under(text, indexed(labels, i)) matches Ok(value)
            && lines[i + 2] == row_line(labels, i, value))
}

/// The texts of the lines.
pub open spec fn line_views(lines: Seq<String>) -> Seq<Seq<char>> {
    Seq::new(lines.len(), |i: int| lines[i]@)
}

fn push_cell(out: &mut Vec<char>, c: char)
    ensures
        final(out)@ == old(out)@ + cell(c),
{
    out.push('|');
    out.push(' ');
    out.push(c);
    out.push(' ');
    assert(out@ =~= old(out)@ + cell(c));
}

fn push_cell_rule(out: &mut Vec<char>)
    ensures
        final(out)@ == old(out)@ + seq!['|', '-', '-', '-'],
{
    out.push('|');
    out.push('-');
    out.push('-');
    out.push('-');
    assert(out@ =~= old(out)@ + seq!['|', '-', '-', '-']);
}

/// The first line of the table over the variables `labels`.
pub fn header(labels: &Vec<char>) -> (line: String)
    ensures
        line@ == header_line(labels@),
{
    let mut out: Vec<char> = Vec::new();
    let mut n: usize = 0;
    while n < labels.len()
        invariant
            n <= labels.len(),
            out@ == header_cells(labels@, n as nat),
        decreases labels.len() - n,
    {
        push_cell(&mut out, labels[n]);
        n = n + 1;
    }
    push_cell(&mut out, '=');
    out.push('|');
    assert(out@ =~= header_line(labels@));
    text_of(&out)
}

/// The second line of the table over `count` variables.
pub fn rule(count: usize) -> (line: String)
    ensures
        line@ == rule_line(count as nat),
{
    let mut out: Vec<char> = Vec::new();
    let mut n: usize = 0;
    while n < count
        invariant
            n <= count,
            out@ == rule_cells(n as nat),
        decreases count - n,
    {
        push_cell_rule(&mut out);
        n = n + 1;
    }
    push_cell_rule(&mut out);
    out.push('|');
    assert(out@ =~= rule_line(count as nat));
    text_of(&out)
}

/// The line of the assignment with the number `i` and the truth value `result`.
pub fn row(labels: &Vec<char>, i: u32, result: bool) -> (line: String)
    requires
        labels.len() <= 26,
    ensures
        line@ == row_line(labels@, i, result),
{
    let l = labels.len();
    let mut out: Vec<char> = Vec::new();
    let mut n: usize = 0;
    while n < l
        invariant
            n <= l,
            l == labels.len(),
            l <= 26,
            out@ == row_cells(labels@, i, n as nat),
        decreases l - n,
    {
        let shift = (l - 1 - n) as u32;
        if i & (1u32 << shift) != 0 {
            push_cell(&mut out, '1');
        } else {
            push_cell(&mut out, '0');
        }
        n = n + 1;
    }
    push_cell(&mut out, if result {
        '1'
    } else {
        '0'
    });
    out.push('|');
    assert(out@ =~= row_line(labels@, i, result));
    text_of(&out)
}

/// Builds the truth table of the formula.
pub fn truth_table(formula: &str) -> (r: Result<Vec<String>, ParseError>)
    ensures
        match evaluation_under(formula@, all_false()) {
            Ok(_) => r matches Ok(lines) && is_truth_table(line_views(lines@), formula@),
            Err(e) => r matches Err(err) && err == e,
        },
{
    let labels = variables(formula);
    let l = labels.len();
    let shift = l as u32;
    assert(1 <= (1u32 << shift) <= 0x4000000) by (bit_vector)
        requires
            shift <= 26,
    ;
    let count: u32 = 1u32 << shift;
    let mut lines: Vec<String> = Vec::new();
    lines.push(header(&labels));
    lines.push(rule(l));
    let mut i: u32 = 0;
    while i < count
        invariant
            i <= count,
            count == 1u32 << shift,
            count <= 0x4000000,
            shift == labels.len(),
            labels@ == letters(formula@),
            sorted_variables(labels@),
            labels.len() <= 26,
            lines.len() == i + 2,
            lines@[0]@ == header_line(labels@),
            lines@[1]@ == rule_line(labels@.len()),
            forall|j: u32|
                j < i ==> (#[trigger] evaluation_under(formula@, indexed(labels@, j)) matches Ok(
                    value,
                ) && lines@[j + 2]@ == row_line(labels@, j, value)),
        decreases count - i,
    {
        let assignment = Assignment::from_index(&labels, i);
        proof {
            assert forall|n: int| 0 <= n < labels.len() implies (assignment.sigma())(
                #[trigger] labels@[n],
            ) == (indexed(labels@, i))(labels@[n]) by {}
            lemma_evaluation_agrees(formula@, assignment.sigma(), indexed(labels@, i));
            lemma_evaluation_shape(formula@, indexed(labels@, i), all_false());
        }
        match parse_and_evaluate(formula, &assignment) {
            Err(e) => {
                return Err(e);
            },
            Ok(value) => {
                lines.push(row(&labels, i, value));
            },
        }
        i = i + 1;
    }
    proof {
        assert(evaluation_under(formula@, indexed(labels@, 0)) is Ok);
        lemma_evaluation_shape(formula@, indexed(labels@, 0), all_false());
        let views = line_views(lines@);
        assert forall|j: u32| j < count implies (#[trigger] evaluation_under(
            formula@,
            indexed(labels@, j),
        ) matches Ok(value) && views[j + 2] == row_line(labels@, j, value)) by {}
    }
    Ok(lines)
}

} // verus!
