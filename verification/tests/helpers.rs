use rsb_lib::boolrpntree::{stack_len_check, BoolRpnTree};
use rsb_lib::sat::occurs;
use rsb_lib::text::{chars_of, text_of};
use rsb_lib::{Lexer, Node, Op, ParseError, VarNode};

#[test]
fn stack_checks_name_the_connective() {
    assert_eq!(Ok(()), stack_len_check(2, 2, Op::And));
    assert_eq!(Ok(()), stack_len_check(3, 1, Op::Neg));
    assert_eq!(
        Err(ParseError::StackUnderflow { op: Op::Xor, required: 2 }),
        stack_len_check(1, 2, Op::Xor)
    );
    assert_eq!(
        Err(ParseError::StackUnderflow { op: Op::Neg, required: 1 }),
        stack_len_check(0, 1, Op::Neg)
    );
}

#[test]
fn stack_steps_take_the_right_operand_from_the_top() {
    let mut stack = vec![Node::new(true), Node::new(false)];
    assert_eq!(Ok(()), BoolRpnTree::stack_add_material_condition(&mut stack));
    assert_eq!(vec![Node::cond(Node::new(true), Node::new(false))], stack);
    assert_eq!(Ok(()), BoolRpnTree::stack_add_negation(&mut stack));
    assert_eq!(
        vec![Node::negation(Node::cond(Node::new(true), Node::new(false)))],
        stack
    );
    assert_eq!(
        Err(ParseError::StackUnderflow { op: Op::And, required: 2 }),
        BoolRpnTree::stack_add_conjunction(&mut stack)
    );
    assert_eq!(1, stack.len());
    stack.push(Node::new(true));
    assert_eq!(Ok(()), BoolRpnTree::stack_add_disjunction(&mut stack));
    stack.push(Node::new(true));
    assert_eq!(Ok(()), BoolRpnTree::stack_add_exclusive_disjunction(&mut stack));
    stack.push(Node::new(false));
    assert_eq!(Ok(()), BoolRpnTree::stack_add_logical_equivalence(&mut stack));
    stack.push(Node::new(false));
    assert_eq!(Ok(()), BoolRpnTree::stack_add_conjunction(&mut stack));
    assert_eq!(1, stack.len());
    assert_eq!("AND(EQ(XOR(OR(NEG(COND(true, false)), true), true), false), false)", stack[0].to_string());
    let mut empty: Vec<Node> = Vec::new();
    assert_eq!(
        Err(ParseError::StackUnderflow { op: Op::Neg, required: 1 }),
        BoolRpnTree::stack_add_negation(&mut empty)
    );
}

#[test]
fn texts_and_characters() {
    assert_eq!(vec!['A', 'B', '&'], chars_of("AB&"));
    assert_eq!(Vec::<char>::new(), chars_of(""));
    assert_eq!(vec!['é', '1'], chars_of("é1"));
    assert_eq!("AB&", text_of(&vec!['A', 'B', '&']));
    assert_eq!("", text_of(&vec![]));
    assert!(occurs(&vec!['A', 'B'], 'B'));
    assert!(!occurs(&vec!['A', 'B'], 'C'));
    assert!(!occurs(&vec![], 'A'));
}

#[test]
fn connectives_by_name_and_arity() {
    let all = [Op::Neg, Op::And, Op::Or, Op::Xor, Op::Cond, Op::Eq];
    let names = ["Neg", "And", "Or", "Xor", "Cond", "Eq"];
    let capitals = ["NEG", "AND", "OR", "XOR", "COND", "EQ"];
    let symbols = ["!", "&", "|", "^", ">", "="];
    for (n, op) in all.iter().enumerate() {
        assert_eq!(names[n], op.as_str());
        assert_eq!(capitals[n], op.name());
        assert_eq!(symbols[n], op.as_symbol());
        assert_eq!(n == 0, op.is_unary());
    }
}

#[test]
fn writing_appends_to_what_is_there() {
    let tree = VarNode::from_lexer(Lexer::new("AB&C|")).unwrap();
    let mut out = String::from("x: ");
    tree.write_postfix(&mut out);
    assert_eq!("x: AB&C|", out);
    assert!(tree.contains_and());
    assert!(tree.has_cnf_forbidden());
    assert!(!VarNode::from_lexer(Lexer::new("AB|C|")).unwrap().contains_and());
    let ground = Node::from_lexer(Lexer::new("10&1|")).unwrap();
    let mut out = String::from("y: ");
    ground.write_display(&mut out);
    assert_eq!("y: OR(AND(true, false), true)", out);
    let a = VarNode::and(VarNode::new('A'), VarNode::new('B'));
    let b = VarNode::and(VarNode::new('C'), VarNode::new('D'));
    assert_eq!("AC|AD|&BC|BD|&&", VarNode::distribute_or(a, b).to_string());
    let chain = VarNode::or(VarNode::new('A'), VarNode::new('B'));
    assert_eq!("ABC||", VarNode::chain(chain, VarNode::new('C'), Op::Or).to_string());
}
