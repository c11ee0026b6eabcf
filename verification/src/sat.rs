//! Satisfiability by trying every assignment of the variables of a formula.
use crate::assignment::{is_variable, substituted, Assignment};
use crate::ast::Node;
use crate::parser::{run_bool, step_bool, ParseError};
use crate::text::chars_of;
use crate::token::BoolToken;
use crate::{evaluation_under, parse_and_evaluate};
use vstd::prelude::*;

verus! {

/// The variable with the number `n`, counted from `A` as 0.
pub open spec fn letter(n: int) -> char {
    ('A' as int + n) as char
}

/// The variables among the first `n` letters that occur in `text`, in
/// alphabetical order.
pub open spec fn letters_upto(text: Seq<char>, n: nat) -> Seq<char>
    decreases n,
{
    if n == 0 {
        Seq::empty()
    } else {
        let before = letters_upto(text, (n - 1) as nat);
        if text.contains(letter(n - 1)) {
            before.push(letter(n - 1))
        } else {
            before
        }
    }
}

/// The variables that occur in `text`, each once, in alphabetical order.
pub open spec fn letters(text: Seq<char>) -> Seq<char> {
    letters_upto(text, 26)
}

/// Whether the bit of `i` at position `pos`, counted from the least
/// significant one, is set.
pub open spec fn bit(i: u32, pos: u32) -> bool {
    i & (1u32 << pos) != 0
}

/// The value of the variable `c` in the assignment with the number `i`
/// over the variables `labels`: the bits of `i` from the most significant
/// to the least are the values of the variables from the first to the last.
pub open spec fn indexed_value(labels: Seq<char>, i: u32, c: char) -> bool {
    exists|n: int|
        0 <= n < labels.len() && #[trigger] labels[n] == c && bit(
            i,
            (labels.len() - 1 - n) as u32,
        )
}

/// The assignment with the number `i` over the variables `labels`.
pub open spec fn indexed(labels: Seq<char>, i: u32) -> spec_fn(char) -> bool {
    |c: char| indexed_value(labels, i, c)
}

/// Each of `labels` is a variable, and they stand in alphabetical order,
/// none twice.
pub open spec fn sorted_variables(labels: Seq<char>) -> bool {
    &&& forall|n: int| 0 <= n < labels.len() ==> is_variable(#[trigger] labels[n])
    &&& forall|m: int, n: int| 0 <= m < n < labels.len() ==> labels[m] < labels[n]
}

/// Some assignment of the variables makes the formula true.
pub open spec fn satisfiable(text: Seq<char>) -> bool {
    exists|sigma: spec_fn(char) -> bool|
        #[trigger] evaluation_under(text, sigma) == Ok::<bool, ParseError>(true)
}

/// The assignment that makes every variable false.
pub open spec fn all_false() -> spec_fn(char) -> bool {
    |c: char| false
}

/// The variables of `text` are variables that occur in it, in alphabetical
/// order, and every variable that occurs in it is among them.
pub proof fn lemma_letters(text: Seq<char>, n: nat)
    requires
        n <= 26,
    ensures
        sorted_variables(letters_upto(text, n)),
        letters_upto(text, n).len() <= n,
        forall|k: int|
            0 <= k < letters_upto(text, n).len() ==> text.contains(
                #[trigger] letters_upto(text, n)[k],
            ) && letters_upto(text, n)[k] < letter(n as int),
        forall|j: int|
            0 <= j < n && text.contains(#[trigger] letter(j)) ==> letters_upto(text, n).contains(
                letter(j),
            ),
    decreases n,
{
    if n > 0 {
        let before = letters_upto(text, (n - 1) as nat);
        lemma_letters(text, (n - 1) as nat);
        let now = letters_upto(text, n);
        if text.contains(letter(n - 1)) {
            assert(now == before.push(letter(n - 1)));
            assert forall|j: int|
                0 <= j < n && text.contains(#[trigger] letter(j)) implies now.contains(
                letter(j),
            ) by {
                if j < n - 1 {
                    let k = choose|k: int| 0 <= k < before.len() && before[k] == letter(j);
                    assert(now[k] == letter(j));
                } else {
                    assert(now[now.len() - 1] == letter(j));
                }
            }
        }
    }
}

/// Tells whether `c` is among `chars`.
pub fn occurs(chars: &Vec<char>, c: char) -> (found: bool)
    ensures
        found == chars@.contains(c),
{
    let mut i: usize = 0;
    while i < chars.len()
        invariant
            i <= chars.len(),
            forall|j: int| 0 <= j < i ==> chars@[j] != c,
        decreases chars.len() - i,
    {
        if chars[i] == c {
            return true;
        }
        i = i + 1;
    }
    false
}

/// Collects the variables that occur in the formula, each once, in
/// alphabetical order.
pub fn variables(formula: &str) -> (labels: Vec<char>)
    ensures
        labels@ == letters(formula@),
        sorted_variables(labels@),
        labels.len() <= 26,
{
    let chars = chars_of(formula);
    let mut labels: Vec<char> = Vec::new();
    let mut n: u8 = 0;
    while n < 26
        invariant
            n <= 26,
            chars@ == formula@,
            labels@ == letters_upto(formula@, n as nat),
        decreases 26 - n,
    {
        let c = (65u8 + n) as char;
        assert(c == letter(n as int));
        if occurs(&chars, c) {
            labels.push(c);
        }
        n = n + 1;
    }
    proof {
        lemma_letters(formula@, 26);
    }
    labels
}

impl Assignment {
    /// The assignment with the number `i` over the variables `labels`.
    pub fn from_index(labels: &Vec<char>, i: u32) -> (a: Assignment)
        requires
            sorted_variables(labels@),
            labels.len() <= 26,
        ensures
            forall|c: char| a.holds(c) == indexed_value(labels@, i, c),
    {
        let l = labels.len();
        let mut a = Assignment::new();
        let mut n: usize = 0;
        while n < l
            invariant
                n <= l,
                l == labels.len(),
                l <= 26,
                sorted_variables(labels@),
                forall|c: char|
                    a.holds(c) == exists|m: int|
                        0 <= m < n && #[trigger] labels@[m] == c && bit(i, (l - 1 - m) as u32),
            decreases l - n,
        {
            let ghost before = a;
            let shift = (l - 1 - n) as u32;
            let value = i & (1u32 << shift) != 0;
            a.set(labels[n], value);
            assert forall|c: char|
                a.holds(c) == exists|m: int|
                    0 <= m < n + 1 && #[trigger] labels@[m] == c && bit(
                        i,
                        (l - 1 - m) as u32,
                    ) by {
                if c == labels@[n as int] {
                    if value {
                        assert(labels@[n as int] == c && bit(i, (l - 1 - n) as u32));
                    } else {
                        assert forall|m: int| 0 <= m < n + 1 && labels@[m] == c implies !bit(
                            i,
                            (l - 1 - m) as u32,
                        ) by {
                            if m < n {
                                assert(labels@[m] < labels@[n as int]);
                            }
                        }
                    }
                } else {
                    if before.holds(c) {
                        let m = choose|m: int|
                            0 <= m < n && #[trigger] labels@[m] == c && bit(i, (l - 1 - m) as u32);
                        assert(0 <= m < n + 1 && labels@[m] == c && bit(i, (l - 1 - m) as u32));
                    }
                }
            }
            n = n + 1;
        }
        a
    }
}

/// Whether `c` is one of the two constants.
pub open spec fn is_constant(c: char) -> bool {
    c == '0' || c == '1'
}

/// Two texts of one length that differ only in which constant stands where.
pub open spec fn same_shape(a: Seq<char>, b: Seq<char>) -> bool {
    &&& a.len() == b.len()
    &&& forall|i: int|
        0 <= i < a.len() ==> #[trigger] a[i] == b[i] || (is_constant(a[i]) && is_constant(b[i]))
}

/// On two texts of the same shape and two stacks of the same depth the
/// machine fails with the same error or leaves stacks of the same depth.
pub proof fn lemma_run_bool_shape(s1: Seq<Node>, s2: Seq<Node>, a: Seq<char>, b: Seq<char>)
    requires
        s1.len() == s2.len(),
        same_shape(a, b),
    ensures
        match run_bool(s1, a) {
            Ok(f1) => run_bool(s2, b) matches Ok(f2) && f1.len() == f2.len(),
            Err(e) => run_bool(s2, b) == Err::<Seq<Node>, ParseError>(e),
        },
    decreases a.len(),
{
    if a.len() > 0 {
        assert(a[0] == b[0] || (is_constant(a[0]) && is_constant(b[0])));
        match step_bool(s1, BoolToken::of_char(a[0])) {
            Ok(n1) => {
                let n2 = step_bool(s2, BoolToken::of_char(b[0]))->Ok_0;
                let x = a.drop_first();
                let y = b.drop_first();
                assert forall|i: int| 0 <= i < x.len() implies #[trigger] x[i] == y[i] || (
                is_constant(x[i]) && is_constant(y[i])) by {
                    assert(a[i + 1] == b[i + 1] || (is_constant(a[i + 1]) && is_constant(
                        b[i + 1],
                    )));
                }
                lemma_run_bool_shape(n1, n2, a.drop_first(), b.drop_first());
            },
            Err(_) => {},
        }
    }
}

/// Whether a formula evaluates, and the error where it does not, is the
/// same under every assignment.
pub proof fn lemma_evaluation_shape(
    text: Seq<char>,
    sigma: spec_fn(char) -> bool,
    tau: spec_fn(char) -> bool,
)
    ensures
        match evaluation_under(text, sigma) {
            Ok(_) => evaluation_under(text, tau) is Ok,
            Err(e) => evaluation_under(text, tau) == Err::<bool, ParseError>(e),
        },
{
    let a = substituted(text, sigma);
    let b = substituted(text, tau);
    assert(same_shape(a, b));
    lemma_run_bool_shape(Seq::empty(), Seq::empty(), a, b);
}

/// An assignment that agrees with another on the variables of a formula
/// gives the formula the same truth value.
pub proof fn lemma_evaluation_agrees(
    text: Seq<char>,
    sigma: spec_fn(char) -> bool,
    tau: spec_fn(char) -> bool,
)
    requires
        forall|n: int| 0 <= n < letters(text).len() ==> sigma(#[trigger] letters(text)[n]) == tau(
            letters(text)[n],
        ),
    ensures
        evaluation_under(text, sigma) == evaluation_under(text, tau),
{
    lemma_letters(text, 26);
    let labels = letters(text);
    assert forall|i: int| 0 <= i < text.len() && is_variable(text[i]) implies sigma(text[i]) == tau(
        text[i],
    ) by {
        let c = text[i];
        let j = c as int - 'A' as int;
        assert(letter(j) == c);
        assert(text.contains(letter(j)));
        assert(labels.contains(letter(j)));
        let n = choose|n: int| 0 <= n < labels.len() && labels[n] == c;
        assert(sigma(labels[n]) == tau(labels[n]));
    }
    assert(substituted(text, sigma) =~= substituted(text, tau));
}

/// Every choice of values for the variables `labels` is the assignment
/// with some number below two to the power of their count.
pub proof fn lemma_index_exists(labels: Seq<char>, sigma: spec_fn(char) -> bool, m: nat) -> (i: u32)
    requires
        m <= labels.len(),
        m <= 26,
    ensures
        i < (1u32 << (m as u32)),
        forall|n: int| 0 <= n < m ==> bit(i, (m - 1 - n) as u32) == sigma(#[trigger] labels[n]),
    decreases m,
{
    if m == 0 {
        assert(0u32 < (1u32 << 0u32)) by (bit_vector);
        0u32
    } else {
        let x = lemma_index_exists(labels, sigma, (m - 1) as nat);
        let b: u32 = if sigma(labels[m - 1]) {
            1
        } else {
            0
        };
        let w: u32 = m as u32;
        let i: u32 = (x << 1u32) | b;
        assert(i < (1u32 << w)) by (bit_vector)
            requires
                i == (x << 1u32) | b,
                x < (1u32 << ((w - 1) as u32)),
                b <= 1,
                1 <= w <= 26,
        ;
        assert((i & (1u32 << 0u32) != 0) == (b == 1)) by (bit_vector)
            requires
                i == (x << 1u32) | b,
                b <= 1,
        ;
        assert forall|n: int| 0 <= n < m implies bit(i, (m - 1 - n) as u32) == sigma(
            #[trigger] labels[n],
        ) by {
            if n < m - 1 {
                let p: u32 = (m - 1 - n) as u32;
                let q: u32 = (p - 1) as u32;
                assert((i & (1u32 << p) != 0) == (x & (1u32 << q) != 0)) by (bit_vector)
                    requires
                        i == (x << 1u32) | b,
                        b <= 1,
                        1 <= p < 32,
                        q == p - 1,
                ;
                assert(bit(x, ((m - 1) - 1 - n) as u32) == sigma(labels[n]));
            }
        }
        i
    }
}

/// Tells whether some assignment of its variables makes the formula true,
/// trying the assignments in the order of their numbers.
pub fn sat(formula: &str) -> (r: Result<bool, ParseError>)
    ensures
        match evaluation_under(formula@, all_false()) {
            Ok(_) => r == Ok::<bool, ParseError>(satisfiable(formula@)),
            Err(e) => r == Err::<bool, ParseError>(e),
        },
{
    let labels = variables(formula);
    let l = labels.len();
    let shift = l as u32;
    assert((1u32 << shift) >= 1) by (bit_vector)
        requires
            shift <= 26,
    ;
    let count: u32 = 1u32 << shift;
    let mut i: u32 = 0;
    while i < count
        invariant
            i <= count,
            count == 1u32 << shift,
            shift == labels.len(),
            labels@ == letters(formula@),
            sorted_variables(labels@),
            labels.len() <= 26,
            forall|j: u32|
                j < i ==> #[trigger] evaluation_under(formula@, indexed(labels@, j)) == Ok::<
                    bool,
                    ParseError,
                >(false),
        decreases count - i,
    {
        let assignment = Assignment::from_index(&labels, i);
        proof {
            assert forall|n: int| 0 <= n < labels.len() implies (assignment.sigma())(
                #[trigger] labels@[n],
            ) == (indexed(labels@, i))(labels@[n]) by {}
            lemma_evaluation_agrees(formula@, assignment.sigma(), indexed(labels@, i));
            lemma_evaluation_shape(formula@, indexed(labels@, i), all_false());
        }
        match parse_and_evaluate(formula, &assignment) {
            Err(e) => {
                return Err(e);
            },
            Ok(true) => {
                assert(evaluation_under(formula@, indexed(labels@, i)) == Ok::<bool, ParseError>(
                    true,
                ));
                return Ok(true);
            },
            Ok(false) => {},
        }
        i = i + 1;
    }
    proof {
        assert(evaluation_under(formula@, indexed(labels@, 0)) == Ok::<bool, ParseError>(false));
        lemma_evaluation_shape(formula@, indexed(labels@, 0), all_false());
        assert forall|sigma: spec_fn(char) -> bool| #[trigger]
            evaluation_under(formula@, sigma) != Ok::<bool, ParseError>(true) by {
            let j = lemma_index_exists(labels@, sigma, labels@.len());
            assert forall|n: int| 0 <= n < labels@.len() implies sigma(#[trigger] labels@[n]) == (
            indexed(labels@, j))(labels@[n]) by {
                assert(bit(j, (labels@.len() - 1 - n) as u32) == sigma(labels@[n]));
                if sigma(labels@[n]) {
                    assert(indexed_value(labels@, j, labels@[n]));
                } else {
                    assert forall|m: int|
                        0 <= m < labels@.len() && labels@[m] == labels@[n] implies !bit(
                        j,
                        (labels@.len() - 1 - m) as u32,
                    ) by {
                        if m < n {
                            assert(labels@[m] < labels@[n]);
                        } else if n < m {
                            assert(labels@[n] < labels@[m]);
                        }
                    }
                }
            }
            lemma_evaluation_agrees(formula@, sigma, indexed(labels@, j));
            assert(evaluation_under(formula@, indexed(labels@, j)) == Ok::<bool, ParseError>(
                false,
            ));
        }
    }
    Ok(false)
}

} // verus!
