use rsb_lib::boolrpntree::BoolRpnTree;
use rsb_lib::{
    eval_formula, parse_and_evaluate, Assignment, BoolNode, BoolToken, CharToken, Lexer,
    LexerTrait, Node, Op, ParseError, Token, VarNode,
};

#[test]
fn test_next_booltoken() {
    let input = "01!&|^>=7";
    let mut lexer = Lexer::new(&input);

    let token: BoolToken = lexer.next_token();
    assert_eq!(token, BoolToken::False);
    let token: BoolToken = lexer.next_token();
    assert_eq!(token, BoolToken::True);
    let token: BoolToken = lexer.next_token();
    assert_eq!(token, BoolToken::Negation);
    let token: BoolToken = lexer.next_token();
    assert_eq!(token, BoolToken::And);
    let token: BoolToken = lexer.next_token();
    assert_eq!(token, BoolToken::Or);
    let token: BoolToken = lexer.next_token();
    assert_eq!(token, BoolToken::Xor);
    let token: BoolToken = lexer.next_token();
    assert_eq!(token, BoolToken::Cond);
    let token: BoolToken = lexer.next_token();
    assert_eq!(token, BoolToken::Eq);
    let token: BoolToken = lexer.next_token();
    assert_eq!(token, BoolToken::Illegal);
    let token: BoolToken = lexer.next_token();
    assert_eq!(token, BoolToken::EOF);
}

#[test]
fn lexer_ends_with_end_tokens_only() {
    let mut lexer = Lexer::new("1");
    let token: BoolToken = lexer.next_token();
    assert_eq!(token, BoolToken::True);
    for _ in 0..3 {
        let token: BoolToken = lexer.next_token();
        assert_eq!(token, BoolToken::EOF);
    }
    let mut empty = Lexer::new("");
    let token: CharToken = empty.next_token();
    assert_eq!(token, CharToken::EOF);
}

#[test]
fn char_tokens_cover_the_alphabet() {
    let mut lexer = Lexer::new("AMZ!&|^>=a0 ");
    let expected = [
        CharToken::Value('A'),
        CharToken::Value('M'),
        CharToken::Value('Z'),
        CharToken::Negation,
        CharToken::And,
        CharToken::Or,
        CharToken::Xor,
        CharToken::Cond,
        CharToken::Eq,
        CharToken::Illegal,
        CharToken::Illegal,
        CharToken::Illegal,
        CharToken::EOF,
    ];
    for want in expected.iter() {
        let token: CharToken = lexer.next_token();
        assert_eq!(*want, token);
    }
    assert_eq!(CharToken::EOF, CharToken::eof());
    assert_eq!(BoolToken::EOF, BoolToken::eof());
    assert_eq!(CharToken::Value('Q'), CharToken::from('Q'));
    assert_eq!(BoolToken::Illegal, BoolToken::from('Q'));
}

#[test]
fn test_rpn_bool_basic() {
    let tests: Vec<(bool, &str)> = vec![
        (false, "0"),
        (true, "1"),
        (false, "1!"),
        (false, "10&"),
        (true, "10|"),
        (true, "10^"),
        (false, "00^"),
        (false, "10>"),
        (true, "01>"),
        (true, "11="),
    ];
    for (exp, test) in tests.iter() {
        let lexer = Lexer::new(test);
        let rpn: BoolNode = BoolNode::from_lexer(lexer).unwrap();
        assert_eq!(*exp, rpn.value(), "Case: \"{}\"", *test);
    }
}

#[test]
fn test_rpn_bool_subject() {
    let tests: Vec<(bool, &str)> = vec![
        (true, "10|1&"),
        (true, "101|&"),
        (false, "10&"),
        (true, "10|"),
        (true, "11>"),
        (false, "10="),
        (true, "1011||="),
    ];
    for (exp, test) in tests.iter() {
        let lexer = Lexer::new(test);
        let rpn: BoolNode = BoolNode::from_lexer(lexer).unwrap();
        assert_eq!(*exp, rpn.value(), "Case: \"{}\"", *test);
    }
}

#[test]
fn tree_basic() {
    let tests: Vec<(bool, &str)> = vec![
        (false, "0"),
        (true, "1"),
        (false, "1!"),
        (false, "10&"),
        (true, "10|"),
        (true, "10^"),
        (false, "00^"),
        (false, "10>"),
        (true, "01>"),
        (true, "11="),
    ];
    for (exp, test) in tests.iter() {
        let rpn = BoolRpnTree::from(*test).unwrap();
        assert_eq!(*exp, rpn.result(), "Case: \"{}\"", *test);
    }
}

#[test]
fn boolean_evaluation_basic() {
    let tests: Vec<(bool, &str)> = vec![
        (false, "0"),
        (true, "1"),
        (false, "1!"),
        (false, "10&"),
        (true, "10|"),
        (true, "10^"),
        (false, "00^"),
        (false, "10>"),
        (true, "01>"),
        (true, "11="),
    ];
    for (exp, test) in tests.iter() {
        assert_eq!(Ok(*exp), eval_formula(*test), "Case: \"{}\"", *test);
    }
}

#[test]
fn boolean_evaluation_subject() {
    let tests: Vec<(bool, &str)> = vec![
        (false, "10&"),
        (true, "10|"),
        (true, "11>"),
        (false, "10="),
        (true, "1011||="),
    ];
    for (exp, test) in tests.iter() {
        assert_eq!(Ok(*exp), eval_formula(*test), "Case: \"{}\"", *test);
    }
}

#[test]
fn every_connective_has_its_truth_table() {
    let rows = [(false, false), (false, true), (true, false), (true, true)];
    for (a, b) in rows.iter() {
        let (a, b) = (*a, *b);
        let text = |op: char| format!("{}{}{}", a as u8, b as u8, op);
        assert_eq!(Ok(a && b), eval_formula(&text('&')));
        assert_eq!(Ok(a || b), eval_formula(&text('|')));
        assert_eq!(Ok(a != b), eval_formula(&text('^')));
        assert_eq!(Ok(!a || b), eval_formula(&text('>')));
        assert_eq!(Ok(a == b), eval_formula(&text('=')));
        assert_eq!(Ok(!a), eval_formula(&format!("{}!", a as u8)));
        assert_eq!(a && b, Op::And.eval(a, b));
        assert_eq!(a || b, Op::Or.eval(a, b));
        assert_eq!(a != b, Op::Xor.eval(a, b));
        assert_eq!(!a || b, Op::Cond.eval(a, b));
        assert_eq!(a == b, Op::Eq.eval(a, b));
        assert_eq!(!a, Op::Neg.eval(a, b));
    }
}

#[test]
fn operand_pushed_first_is_the_left_one() {
    assert_eq!(Ok(false), eval_formula("10>"));
    assert_eq!(Ok(true), eval_formula("01>"));
    let tree = Node::from_lexer(Lexer::new("10>")).unwrap();
    assert_eq!(Node::cond(Node::new(true), Node::new(false)), tree);
}

#[test]
fn malformed_formulas_are_rejected() {
    assert_eq!(Err(ParseError::InvalidSymbol), eval_formula("a"));
    assert_eq!(Err(ParseError::InvalidSymbol), eval_formula("10!x"));
    assert_eq!(
        Err(ParseError::StackUnderflow { op: Op::Or, required: 2 }),
        eval_formula("01!&|^>=7")
    );
    assert_eq!(Err(ParseError::InvalidSymbol), eval_formula("01!&7|^>="));
    assert_eq!(Err(ParseError::MalformedFormula { depth: 2 }), eval_formula("10"));
    assert_eq!(Err(ParseError::MalformedFormula { depth: 0 }), eval_formula(""));
    assert_eq!(
        Err(ParseError::StackUnderflow { op: Op::And, required: 2 }),
        eval_formula("1&")
    );
    assert_eq!(
        Err(ParseError::StackUnderflow { op: Op::Neg, required: 1 }),
        eval_formula("!")
    );
    assert_eq!(
        Err(ParseError::StackUnderflow { op: Op::Eq, required: 2 }),
        eval_formula("=")
    );
    // the first error met is the one reported
    assert_eq!(
        Err(ParseError::StackUnderflow { op: Op::Or, required: 2 }),
        eval_formula("1|x")
    );
    assert_eq!(Err(ParseError::InvalidSymbol), eval_formula("1x|"));
}

#[test]
fn text_tree_rejects_what_the_lexer_tree_rejects() {
    let cases = ["", "a", "10", "1&", "!", "1|x", "1x|", "10!x", "11&&"];
    for text in cases.iter() {
        let direct = BoolRpnTree::from(*text).map(|tree| tree.result());
        assert_eq!(eval_formula(*text), direct, "Case: \"{}\"", *text);
        assert!(direct.is_err());
    }
}

#[test]
fn evaluation_under_an_assignment() {
    let mut assignment = Assignment::new();
    assert_eq!(Ok(false), parse_and_evaluate("AB|", &assignment));
    assignment.set('B', true);
    assert!(assignment.get('B'));
    assert!(!assignment.get('A'));
    assert_eq!(Ok(true), parse_and_evaluate("AB|", &assignment));
    assert_eq!(Ok(false), parse_and_evaluate("AB&", &assignment));
    assert_eq!(Ok(true), parse_and_evaluate("AB>", &assignment));
    assert_eq!(Ok(true), parse_and_evaluate("A1|B&", &assignment));
    assignment.set('B', false);
    assert_eq!(Ok(false), parse_and_evaluate("AB|", &assignment));
    assignment.set('Z', true);
    assert_eq!(Ok(true), parse_and_evaluate("AZ^", &assignment));
    // no variable in other characters
    assignment.set('a', true);
    assert!(!assignment.get('a'));
    assert_eq!(Err(ParseError::InvalidSymbol), parse_and_evaluate("a", &assignment));
    assert_eq!(
        Err(ParseError::MalformedFormula { depth: 2 }),
        parse_and_evaluate("AB", &assignment)
    );
    assert_eq!("01|0&", assignment.substitute("AZ|B&"));
    let tree = VarNode::from_lexer(Lexer::new("AZ|B!&")).unwrap();
    let ground = tree.instantiate(&assignment);
    assert_eq!(Node::from_lexer(Lexer::new("01|0!&")).unwrap(), ground);
    assert_eq!("AND(OR(false, true), NEG(false))", ground.to_string());
    assert!(ground.value());
}

#[test]
fn ground_trees_evaluate_to_their_truth() {
    let tree = Node::eq(
        Node::xor(Node::new(true), Node::new(false)),
        Node::or(Node::negation(Node::new(true)), Node::and(Node::new(true), Node::new(true))),
    );
    assert!(tree.value());
    assert_eq!(Node::new(true), Node::from(true));
    assert_eq!(VarNode::new('A'), VarNode::from('A'));
    let boxed = Node::new_boxed(true);
    assert!(boxed.value());
    assert!(!Node::neg(Node::new(true)).value());
    assert!(!Node::mat_condition(Node::new(true), Node::new(false)).value());
    assert!(Node::mat_condition(Node::new(false), Node::new(false)).value());
}
