//! The postfix parser: a stack machine that builds a formula tree from tokens.
use crate::ast::{Node, Op, VarNode};
use crate::lexer::{after_first, first_token, Lexer, LexerTrait};
use crate::token::{BoolToken, CharToken};
use vstd::prelude::*;

verus! {

/// Why a text is not a formula.
#[derive(Debug, Clone, Copy, PartialEq, Eq, Structural)]
pub enum ParseError {
    /// A character is none of the recognised ones.
    InvalidSymbol,
    /// The connective `op` needs `required` operands and the stack holds fewer.
    StackUnderflow { op: Op, required: usize },
    /// At the end of the text the stack holds `depth` trees, not exactly one.
    MalformedFormula { depth: usize },
}

/// The stack after a leaf was pushed.
pub open spec fn shift<N>(stack: Seq<N>, leaf: N) -> Result<Seq<N>, ParseError> {
    Ok(stack.push(leaf))
}

/// The stack of ground trees after the connective `op` took its operands from
/// the top: the operand pushed last is the right one.
pub open spec fn fold_bool(stack: Seq<Node>, op: Op) -> Result<Seq<Node>, ParseError> {
    if op == Op::Neg {
        if stack.len() < 1 {
            Err(ParseError::StackUnderflow { op, required: 1 })
        } else {
            Ok(stack.drop_last().push(Node::OneOp { left: Box::new(stack.last()), op }))
        }
    } else {
        if stack.len() < 2 {
            Err(ParseError::StackUnderflow { op, required: 2 })
        } else {
            Ok(
                stack.drop_last().drop_last().push(
                    Node::TwoOp {
                        left: Box::new(stack[stack.len() - 2]),
                        right: Box::new(stack.last()),
                        op,
                    },
                ),
            )
        }
    }
}

/// One step of the machine on ground formulas.
pub open spec fn step_bool(stack: Seq<Node>, token: BoolToken) -> Result<Seq<Node>, ParseError> {
    match token {
        BoolToken::False => shift(stack, Node::Leaf(false)),
        BoolToken::True => shift(stack, Node::Leaf(true)),
        BoolToken::Negation => fold_bool(stack, Op::Neg),
        BoolToken::And => fold_bool(stack, Op::And),
        BoolToken::Or => fold_bool(stack, Op::Or),
        BoolToken::Xor => fold_bool(stack, Op::Xor),
        BoolToken::Cond => fold_bool(stack, Op::Cond),
        BoolToken::Eq => fold_bool(stack, Op::Eq),
        BoolToken::EOF => Err(ParseError::InvalidSymbol),
        BoolToken::Illegal => Err(ParseError::InvalidSymbol),
    }
}

/// The stack after the machine read all of `input`, or the first error met.
pub open spec fn run_bool(stack: Seq<Node>, input: Seq<char>) -> Result<Seq<Node>, ParseError>
    decreases input.len(),
{
    if input.len() == 0 {
        Ok(stack)
    } else {
        match step_bool(stack, BoolToken::of_char(input[0])) {
            Ok(next) => run_bool(next, input.drop_first()),
            Err(e) => Err(e),
        }
    }
}

/// What the end of the input makes of the machine's outcome: the one tree
/// left on the stack, or an error.
pub open spec fn finish<N>(outcome: Result<Seq<N>, ParseError>) -> Result<N, ParseError> {
    match outcome {
        Err(e) => Err(e),
        Ok(stack) => if stack.len() == 1 {
            Ok(stack[0])
        } else {
            Err(ParseError::MalformedFormula { depth: stack.len() as usize })
        },
    }
}

/// The ground formula that `input` denotes, or why it denotes none.
pub open spec fn parse_bool(input: Seq<char>) -> Result<Node, ParseError> {
    finish(run_bool(Seq::empty(), input))
}

/// The stack of symbolic trees after the connective `op` took its operands.
pub open spec fn fold_var(stack: Seq<VarNode>, op: Op) -> Result<Seq<VarNode>, ParseError> {
    if op == Op::Neg {
        if stack.len() < 1 {
            Err(ParseError::StackUnderflow { op, required: 1 })
        } else {
            Ok(stack.drop_last().push(VarNode::OneOp { left: Box::new(stack.last()), op }))
        }
    } else {
        if stack.len() < 2 {
            Err(ParseError::StackUnderflow { op, required: 2 })
        } else {
            Ok(
                stack.drop_last().drop_last().push(
                    VarNode::TwoOp {
                        left: Box::new(stack[stack.len() - 2]),
                        right: Box::new(stack.last()),
                        op,
                    },
                ),
            )
        }
    }
}

/// One step of the machine on symbolic formulas.
pub open spec fn step_var(stack: Seq<VarNode>, token: CharToken) -> Result<
    Seq<VarNode>,
    ParseError,
> {
    match token {
        CharToken::Value(c) => shift(stack, VarNode::Leaf(c)),
        CharToken::Negation => fold_var(stack, Op::Neg),
        CharToken::And => fold_var(stack, Op::And),
        CharToken::Or => fold_var(stack, Op::Or),
        CharToken::Xor => fold_var(stack, Op::Xor),
        CharToken::Cond => fold_var(stack, Op::Cond),
        CharToken::Eq => fold_var(stack, Op::Eq),
        CharToken::EOF => Err(ParseError::InvalidSymbol),
        CharToken::Illegal => Err(ParseError::InvalidSymbol),
    }
}

/// The stack after the machine read all of `input`, or the first error met.
pub open spec fn run_var(stack: Seq<VarNode>, input: Seq<char>) -> Result<
    Seq<VarNode>,
    ParseError,
>
    decreases input.len(),
{
    if input.len() == 0 {
        Ok(stack)
    } else {
        match step_var(stack, CharToken::of_char(input[0])) {
            Ok(next) => run_var(next, input.drop_first()),
            Err(e) => Err(e),
        }
    }
}

/// The symbolic formula that `input` denotes, or why it denotes none.
pub open spec fn parse_var(input: Seq<char>) -> Result<VarNode, ParseError> {
    finish(run_var(Seq::empty(), input))
}

/// Applies the connective `op` to the top of the stack of ground trees.
fn apply_bool(stack: &mut Vec<Node>, op: Op) -> (r: Result<(), ParseError>)
    ensures
        match fold_bool(old(stack)@, op) {
            Ok(next) => r is Ok && final(stack)@ == next,
            Err(e) => r == Err::<(), ParseError>(e),
        },
{
    if op.is_unary() {
        match stack.pop() {
            None => Err(ParseError::StackUnderflow { op, required: 1 }),
            Some(operand) => {
                stack.push(Node::OneOp { left: Box::new(operand), op });
                Ok(())
            },
        }
    } else {
        if stack.len() < 2 {
            return Err(ParseError::StackUnderflow { op, required: 2 });
        }
        let right = stack.pop().unwrap();
        let left = stack.pop().unwrap();
        stack.push(Node::TwoOp { left: Box::new(left), right: Box::new(right), op });
        Ok(())
    }
}

/// Applies the connective `op` to the top of the stack of symbolic trees.
fn apply_var(stack: &mut Vec<VarNode>, op: Op) -> (r: Result<(), ParseError>)
    ensures
        match fold_var(old(stack)@, op) {
            Ok(next) => r is Ok && final(stack)@ == next,
            Err(e) => r == Err::<(), ParseError>(e),
        },
{
    if op.is_unary() {
        match stack.pop() {
            None => Err(ParseError::StackUnderflow { op, required: 1 }),
            Some(operand) => {
                stack.push(VarNode::OneOp { left: Box::new(operand), op });
                Ok(())
            },
        }
    } else {
        if stack.len() < 2 {
            return Err(ParseError::StackUnderflow { op, required: 2 });
        }
        let right = stack.pop().unwrap();
        let left = stack.pop().unwrap();
        stack.push(VarNode::TwoOp { left: Box::new(left), right: Box::new(right), op });
        Ok(())
    }
}

impl Node {
    /// Builds the ground formula that the lexer's remaining text denotes.
    pub fn from_lexer(lexer: Lexer) -> (r: Result<Node, ParseError>)
        ensures
            r == parse_bool(lexer@),
            r matches Ok(t) ==> t.wf() && t.postfix() == lexer@,
    {
        proof {
            lemma_parse_bool_sound(lexer@);
        }
        let ghost input = lexer@;
        let mut source = lexer;
        let mut rpn_stack: Vec<Node> = Vec::new();
        let ghost mut pending = input;
        let mut current_token: BoolToken = source.next_token();
        while current_token != BoolToken::EOF
            invariant
                current_token == first_token::<BoolToken>(pending),
                input == lexer@,
                source@ == after_first(pending),
                run_bool(rpn_stack@, pending) == run_bool(Seq::empty(), input),
            decreases pending.len(),
        {
            let ghost before = rpn_stack@;
            assert(pending.len() > 0);
            let step = match current_token {
                BoolToken::False => {
                    rpn_stack.push(Node::Leaf(false));
                    Ok(())
                },
                BoolToken::True => {
                    rpn_stack.push(Node::Leaf(true));
                    Ok(())
                },
                BoolToken::Negation => apply_bool(&mut rpn_stack, Op::Neg),
                BoolToken::And => apply_bool(&mut rpn_stack, Op::And),
                BoolToken::Or => apply_bool(&mut rpn_stack, Op::Or),
                BoolToken::Xor => apply_bool(&mut rpn_stack, Op::Xor),
                BoolToken::Cond => apply_bool(&mut rpn_stack, Op::Cond),
                BoolToken::Eq => apply_bool(&mut rpn_stack, Op::Eq),
                BoolToken::EOF => Err(ParseError::InvalidSymbol),
                BoolToken::Illegal => Err(ParseError::InvalidSymbol),
            };
            assert(match step_bool(before, current_token) {
                Ok(next) => step is Ok && rpn_stack@ == next,
                Err(e) => step == Err::<(), ParseError>(e),
            });
            if let Err(e) = step {
                return Err(e);
            }
            proof {
                pending = pending.drop_first();
            }
            current_token = source.next_token();
        }
        if rpn_stack.len() != 1 {
            return Err(ParseError::MalformedFormula { depth: rpn_stack.len() });
        }
        Ok(rpn_stack.pop().unwrap())
    }
}

impl VarNode {
    /// Builds the symbolic formula that the lexer's remaining text denotes.
    pub fn from_lexer(lexer: Lexer) -> (r: Result<VarNode, ParseError>)
        ensures
            r == parse_var(lexer@),
            r matches Ok(t) ==> t.wf() && t.is_symbolic() && t.postfix() == lexer@,
    {
        proof {
            lemma_parse_var_sound(lexer@);
        }
        let ghost input = lexer@;
        let mut source = lexer;
        let mut rpn_stack: Vec<VarNode> = Vec::new();
        let ghost mut pending = input;
        let mut current_token: CharToken = source.next_token();
        while current_token != CharToken::EOF
            invariant
                current_token == first_token::<CharToken>(pending),
                input == lexer@,
                source@ == after_first(pending),
                run_var(rpn_stack@, pending) == run_var(Seq::empty(), input),
            decreases pending.len(),
        {
            let ghost before = rpn_stack@;
            assert(pending.len() > 0);
            let step = match current_token {
                CharToken::Value(c) => {
                    rpn_stack.push(VarNode::Leaf(c));
                    Ok(())
                },
                CharToken::Negation => apply_var(&mut rpn_stack, Op::Neg),
                CharToken::And => apply_var(&mut rpn_stack, Op::And),
                CharToken::Or => apply_var(&mut rpn_stack, Op::Or),
                CharToken::Xor => apply_var(&mut rpn_stack, Op::Xor),
                CharToken::Cond => apply_var(&mut rpn_stack, Op::Cond),
                CharToken::Eq => apply_var(&mut rpn_stack, Op::Eq),
                CharToken::EOF => Err(ParseError::InvalidSymbol),
                CharToken::Illegal => Err(ParseError::InvalidSymbol),
            };
            assert(match step_var(before, current_token) {
                Ok(next) => step is Ok && rpn_stack@ == next,
                Err(e) => step == Err::<(), ParseError>(e),
            });
            if let Err(e) = step {
                return Err(e);
            }
            proof {
                pending = pending.drop_first();
            }
            current_token = source.next_token();
        }
        if rpn_stack.len() != 1 {
            return Err(ParseError::MalformedFormula { depth: rpn_stack.len() });
        }
        Ok(rpn_stack.pop().unwrap())
    }
}

/// The texts of the trees on a stack, one after the other from the bottom.
pub open spec fn bool_stack_text(stack: Seq<Node>) -> Seq<char>
    decreases stack.len(),
{
    if stack.len() == 0 {
        Seq::empty()
    } else {
        bool_stack_text(stack.drop_last()) + stack.last().postfix()
    }
}

/// The texts of the trees on a stack, one after the other from the bottom.
pub open spec fn var_stack_text(stack: Seq<VarNode>) -> Seq<char>
    decreases stack.len(),
{
    if stack.len() == 0 {
        Seq::empty()
    } else {
        var_stack_text(stack.drop_last()) + stack.last().postfix()
    }
}

/// Reading the postfix text of a ground tree puts that tree on the stack.
pub proof fn lemma_run_bool_postfix(t: Node, stack: Seq<Node>, rest: Seq<char>)
    requires
        t.wf(),
    ensures
        run_bool(stack, t.postfix() + rest) == run_bool(stack.push(t), rest),
    decreases t,
{
    match t {
        Node::Leaf(value) => {
            let text = t.postfix() + rest;
            assert(text.drop_first() =~= rest);
        },
        Node::OneOp { left, op } => {
            let tail = seq![op.symbol()] + rest;
            assert(t.postfix() + rest =~= left.postfix() + tail);
            lemma_run_bool_postfix(*left, stack, tail);
            assert(tail.drop_first() =~= rest);
            assert(stack.push(*left).drop_last() =~= stack);
        },
        Node::TwoOp { left, right, op } => {
            let tail = seq![op.symbol()] + rest;
            let middle = right.postfix() + tail;
            assert(t.postfix() + rest =~= left.postfix() + middle);
            lemma_run_bool_postfix(*left, stack, middle);
            lemma_run_bool_postfix(*right, stack.push(*left), tail);
            assert(tail.drop_first() =~= rest);
            let full = stack.push(*left).push(*right);
            assert(full.drop_last().drop_last() =~= stack);
        },
    }
}

/// Reading the postfix text of a symbolic tree puts that tree on the stack.
pub proof fn lemma_run_var_postfix(t: VarNode, stack: Seq<VarNode>, rest: Seq<char>)
    requires
        t.wf(),
        t.is_symbolic(),
    ensures
        run_var(stack, t.postfix() + rest) == run_var(stack.push(t), rest),
    decreases t,
{
    match t {
        VarNode::Leaf(c) => {
            let text = t.postfix() + rest;
            assert(text.drop_first() =~= rest);
        },
        VarNode::OneOp { left, op } => {
            let tail = seq![op.symbol()] + rest;
            assert(t.postfix() + rest =~= left.postfix() + tail);
            lemma_run_var_postfix(*left, stack, tail);
            assert(tail.drop_first() =~= rest);
            assert(stack.push(*left).drop_last() =~= stack);
        },
        VarNode::TwoOp { left, right, op } => {
            let tail = seq![op.symbol()] + rest;
            let middle = right.postfix() + tail;
            assert(t.postfix() + rest =~= left.postfix() + middle);
            lemma_run_var_postfix(*left, stack, middle);
            lemma_run_var_postfix(*right, stack.push(*left), tail);
            assert(tail.drop_first() =~= rest);
            let full = stack.push(*left).push(*right);
            assert(full.drop_last().drop_last() =~= stack);
        },
    }
}

/// Parsing is the inverse of writing: the postfix text of a well-formed
/// ground tree parses to that tree.
pub proof fn lemma_parse_bool_postfix(t: Node)
    requires
        t.wf(),
    ensures
        parse_bool(t.postfix()) == Ok::<Node, ParseError>(t),
{
    let empty = Seq::<Node>::empty();
    lemma_run_bool_postfix(t, empty, Seq::empty());
    assert(t.postfix() + Seq::<char>::empty() =~= t.postfix());
    assert(empty.push(t)[0] == t);
}

/// Parsing is the inverse of writing: the postfix text of a well-formed
/// tree over variable letters parses to that tree.
pub proof fn lemma_parse_var_postfix(t: VarNode)
    requires
        t.wf(),
        t.is_symbolic(),
    ensures
        parse_var(t.postfix()) == Ok::<VarNode, ParseError>(t),
{
    let empty = Seq::<VarNode>::empty();
    lemma_run_var_postfix(t, empty, Seq::empty());
    assert(t.postfix() + Seq::<char>::empty() =~= t.postfix());
    assert(empty.push(t)[0] == t);
}

/// Every tree on the stack is well-formed.
pub open spec fn bool_stack_wf(stack: Seq<Node>) -> bool {
    forall|i: int| 0 <= i < stack.len() ==> (#[trigger] stack[i]).wf()
}

/// A connective that finds its operands adds its symbol to the text of the stack.
pub proof fn lemma_fold_bool_text(stack: Seq<Node>, op: Op)
    requires
        bool_stack_wf(stack),
    ensures
        fold_bool(stack, op) matches Ok(next) ==> bool_stack_wf(next) && bool_stack_text(next)
            == bool_stack_text(stack).push(op.symbol()),
{
    match fold_bool(stack, op) {
        Err(_) => {},
        Ok(next) => {
            assert forall|i: int| 0 <= i < next.len() implies (#[trigger] next[i]).wf() by {
                if i < next.len() - 1 {
                    assert(next[i] == stack[i]);
                } else {
                    assert(stack.last() == stack[stack.len() - 1]);
                    if op != Op::Neg {
                        assert(stack[stack.len() - 2].wf());
                    }
                    assert(stack[stack.len() - 1].wf());
                }
            }
            assert(bool_stack_text(next) == bool_stack_text(next.drop_last())
                + next.last().postfix());
            assert(bool_stack_text(stack) == bool_stack_text(stack.drop_last())
                + stack.last().postfix());
            if op == Op::Neg {
                assert(next.drop_last() =~= stack.drop_last());
                assert(bool_stack_text(next) =~= bool_stack_text(stack).push(op.symbol()));
            } else {
                let upper = stack.drop_last();
                let below = upper.drop_last();
                assert(next.drop_last() =~= below);
                assert(upper.last() == stack[stack.len() - 2]);
                assert(bool_stack_text(upper) == bool_stack_text(below) + upper.last().postfix());
                assert(bool_stack_text(next) =~= bool_stack_text(stack).push(op.symbol()));
            }
        },
    }
}

/// A step that succeeds adds the character it read to the text of the stack.
pub proof fn lemma_step_bool_text(stack: Seq<Node>, c: char)
    requires
        bool_stack_wf(stack),
    ensures
        step_bool(stack, BoolToken::of_char(c)) matches Ok(next) ==> bool_stack_wf(next)
            && bool_stack_text(next) == bool_stack_text(stack).push(c),
{
    lemma_fold_bool_text(stack, Op::Neg);
    lemma_fold_bool_text(stack, Op::And);
    lemma_fold_bool_text(stack, Op::Or);
    lemma_fold_bool_text(stack, Op::Xor);
    lemma_fold_bool_text(stack, Op::Cond);
    lemma_fold_bool_text(stack, Op::Eq);
    match step_bool(stack, BoolToken::of_char(c)) {
        Err(_) => {},
        Ok(next) => {
            if next.len() == stack.len() + 1 {
                assert(next.drop_last() =~= stack);
                assert(bool_stack_text(next) =~= bool_stack_text(stack).push(c));
            }
        },
    }
}

/// What the machine leaves on the stack spells, tree after tree, what was
/// there before and then the text it read.
pub proof fn lemma_run_bool_sound(stack: Seq<Node>, input: Seq<char>)
    requires
        bool_stack_wf(stack),
    ensures
        run_bool(stack, input) matches Ok(fin) ==> bool_stack_wf(fin) && bool_stack_text(fin)
            == bool_stack_text(stack) + input,
    decreases input.len(),
{
    if input.len() == 0 {
        assert(bool_stack_text(stack) + input =~= bool_stack_text(stack));
    } else {
        let c = input[0];
        lemma_step_bool_text(stack, c);
        match step_bool(stack, BoolToken::of_char(c)) {
            Err(_) => {},
            Ok(next) => {
                lemma_run_bool_sound(next, input.drop_first());
                assert(bool_stack_text(stack).push(c) + input.drop_first()
                    =~= bool_stack_text(stack) + input);
            },
        }
    }
}

/// Every tree on the stack is well-formed and over variable letters.
pub open spec fn var_stack_wf(stack: Seq<VarNode>) -> bool {
    forall|i: int| 0 <= i < stack.len() ==> (#[trigger] stack[i]).wf() && stack[i].is_symbolic()
}

/// A connective that finds its operands adds its symbol to the text of the stack.
pub proof fn lemma_fold_var_text(stack: Seq<VarNode>, op: Op)
    requires
        var_stack_wf(stack),
    ensures
        fold_var(stack, op) matches Ok(next) ==> var_stack_wf(next) && var_stack_text(next)
            == var_stack_text(stack).push(op.symbol()),
{
    match fold_var(stack, op) {
        Err(_) => {},
        Ok(next) => {
            assert forall|i: int| 0 <= i < next.len() implies (#[trigger] next[i]).wf()
                && next[i].is_symbolic() by {
                if i < next.len() - 1 {
                    assert(next[i] == stack[i]);
                } else {
                    assert(stack.last() == stack[stack.len() - 1]);
                    if op != Op::Neg {
                        assert(stack[stack.len() - 2].wf());
                    }
                    assert(stack[stack.len() - 1].wf());
                }
            }
            assert(var_stack_text(next) == var_stack_text(next.drop_last())
                + next.last().postfix());
            assert(var_stack_text(stack) == var_stack_text(stack.drop_last())
                + stack.last().postfix());
            if op == Op::Neg {
                assert(next.drop_last() =~= stack.drop_last());
                assert(var_stack_text(next) =~= var_stack_text(stack).push(op.symbol()));
            } else {
                let upper = stack.drop_last();
                let below = upper.drop_last();
                assert(next.drop_last() =~= below);
                assert(upper.last() == stack[stack.len() - 2]);
                assert(var_stack_text(upper) == var_stack_text(below) + upper.last().postfix());
                assert(var_stack_text(next) =~= var_stack_text(stack).push(op.symbol()));
            }
        },
    }
}

/// A step that succeeds adds the character it read to the text of the stack.
pub proof fn lemma_step_var_text(stack: Seq<VarNode>, c: char)
    requires
        var_stack_wf(stack),
    ensures
        step_var(stack, CharToken::of_char(c)) matches Ok(next) ==> var_stack_wf(next)
            && var_stack_text(next) == var_stack_text(stack).push(c),
{
    lemma_fold_var_text(stack, Op::Neg);
    lemma_fold_var_text(stack, Op::And);
    lemma_fold_var_text(stack, Op::Or);
    lemma_fold_var_text(stack, Op::Xor);
    lemma_fold_var_text(stack, Op::Cond);
    lemma_fold_var_text(stack, Op::Eq);
    match step_var(stack, CharToken::of_char(c)) {
        Err(_) => {},
        Ok(next) => {
            if next.len() == stack.len() + 1 {
                assert(next.drop_last() =~= stack);
                assert(var_stack_text(next) =~= var_stack_text(stack).push(c));
            }
        },
    }
}

/// What the machine leaves on the stack spells, tree after tree, what was
/// there before and then the text it read.
pub proof fn lemma_run_var_sound(stack: Seq<VarNode>, input: Seq<char>)
    requires
        var_stack_wf(stack),
    ensures
        run_var(stack, input) matches Ok(fin) ==> var_stack_wf(fin) && var_stack_text(fin)
            == var_stack_text(stack) + input,
    decreases input.len(),
{
    if input.len() == 0 {
        assert(var_stack_text(stack) + input =~= var_stack_text(stack));
    } else {
        let c = input[0];
        lemma_step_var_text(stack, c);
        match step_var(stack, CharToken::of_char(c)) {
            Err(_) => {},
            Ok(next) => {
                lemma_run_var_sound(next, input.drop_first());
                assert(var_stack_text(stack).push(c) + input.drop_first()
                    =~= var_stack_text(stack) + input);
            },
        }
    }
}

/// A text that parses as a ground formula is the postfix text of the
/// well-formed tree it parses to.
pub proof fn lemma_parse_bool_sound(input: Seq<char>)
    ensures
        parse_bool(input) matches Ok(t) ==> t.wf() && t.postfix() == input,
{
    let empty = Seq::<Node>::empty();
    lemma_run_bool_sound(empty, input);
    match run_bool(empty, input) {
        Ok(fin) => {
            if fin.len() == 1 {
                assert(fin[0].wf());
                assert(fin.drop_last() =~= empty);
                assert(bool_stack_text(fin) =~= fin[0].postfix());
                assert(bool_stack_text(empty) + input =~= input);
            }
        },
        Err(_) => {},
    }
}

/// A text that parses as a symbolic formula is the postfix text of the
/// well-formed tree over variable letters it parses to.
pub proof fn lemma_parse_var_sound(input: Seq<char>)
    ensures
        parse_var(input) matches Ok(t) ==> t.wf() && t.is_symbolic() && t.postfix() == input,
{
    let empty = Seq::<VarNode>::empty();
    lemma_run_var_sound(empty, input);
    match run_var(empty, input) {
        Ok(fin) => {
            if fin.len() == 1 {
                assert(fin[0].wf());
                assert(fin.drop_last() =~= empty);
                assert(var_stack_text(fin) =~= fin[0].postfix());
                assert(var_stack_text(empty) + input =~= input);
            }
        },
        Err(_) => {},
    }
}

} // verus!
