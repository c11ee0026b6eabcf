use rsb_lib::{
    conjunctive_normal_form, negation_normal_form, parse_and_evaluate, Assignment, Lexer, Op,
    ParseError, VarNode,
};

#[test]
fn test_nnf() {
    let formula = "A!!";
    let expected = "A";
    let mut rpn: VarNode = VarNode::from_lexer(Lexer::new(formula)).unwrap();
    rpn.nnf_reduce();
    assert_eq!(expected, rpn.to_string(), "Formula {}", formula);

    let formula = "AB&!";
    let expected = "A!B!|";
    let mut rpn: VarNode = VarNode::from_lexer(Lexer::new(formula)).unwrap();
    rpn.nnf_reduce();
    assert_eq!(expected, rpn.to_string(), "Formula {}", formula);

    let formula = "AB|!";
    let expected = "A!B!&";
    let mut rpn: VarNode = VarNode::from_lexer(Lexer::new(formula)).unwrap();
    rpn.nnf_reduce();
    assert_eq!(expected, rpn.to_string(), "Formula {}", formula);

    let formula = "AB>";
    let expected = "A!B|";
    let mut rpn: VarNode = VarNode::from_lexer(Lexer::new(formula)).unwrap();
    rpn.nnf_reduce();
    assert_eq!(expected, rpn.to_string(), "Formula {}", formula);

    let formula = "AB=";
    let expected = "A!B|B!A|&";
    let mut rpn: VarNode = VarNode::from_lexer(Lexer::new(formula)).unwrap();
    rpn.nnf_reduce();
    assert_eq!(expected, rpn.to_string(), "Formula {}", formula);

    let formula = "AB|C&!";
    let expected = "A!B!&C!|";
    let mut rpn: VarNode = VarNode::from_lexer(Lexer::new(formula)).unwrap();
    rpn.nnf_reduce();
    assert_eq!(expected, rpn.to_string(), "Formula {}", formula);

    let formula = "AB>!";
    let expected = "AB!&";
    let mut rpn: VarNode = VarNode::from_lexer(Lexer::new(formula)).unwrap();
    rpn.nnf_reduce();
    assert_eq!(expected, rpn.to_string(), "Formula {}", formula);
}

#[test]
fn negation_normal_form_of_texts() {
    let cases = [
        ("A", "A"),
        ("A!", "A!"),
        ("A!!", "A"),
        ("A!!!", "A!"),
        ("AB&!", "A!B!|"),
        ("AB|!", "A!B!&"),
        ("AB>", "A!B|"),
        ("AB=", "A!B|B!A|&"),
        ("AB|C&!", "A!B!&C!|"),
        ("AB>!", "AB!&"),
        ("AB=!", "AB!&BA!&|"),
        ("AB^", "AB^"),
        ("AB^!", "A!B^"),
        ("AB&C|!!", "AB&C|"),
        ("AB|C&", "AB|C&"),
    ];
    for (formula, expected) in cases.iter() {
        assert_eq!(
            Ok(expected.to_string()),
            negation_normal_form(formula),
            "Formula {}",
            formula
        );
    }
}

#[test]
fn conjunctive_normal_form_of_texts() {
    let cases = [
        ("AB&!", "A!B!|"),
        ("AB|!", "A!B!&"),
        ("AB|C&", "AB|C&"),
        ("AB|C|D|", "ABCD|||"),
        ("AB&C&D&", "ABCD&&&"),
        ("AB&!C!|", "A!B!C!||"),
        ("AB|!C!&", "A!B!C!&&"),
        ("ABCD|||", "ABCD|||"),
        ("A", "A"),
        ("A!!", "A"),
        ("AB&C|", "AC|BC|&"),
        ("ABC&|", "AB|AC|&"),
        ("AB&CD&|", "AC|AD|BC|BD|&&&"),
        ("AB>", "A!B|"),
        ("AB=", "A!B|B!A|&"),
        ("AB^", "AB|A!B!|&"),
    ];
    for (formula, expected) in cases.iter() {
        assert_eq!(
            Ok(expected.to_string()),
            conjunctive_normal_form(formula),
            "Formula {}",
            formula
        );
    }
}

#[test]
fn normal_forms_reject_malformed_text() {
    assert_eq!(Err(ParseError::InvalidSymbol), negation_normal_form("A1&"));
    assert_eq!(Err(ParseError::InvalidSymbol), conjunctive_normal_form("Ab&"));
    assert_eq!(Err(ParseError::MalformedFormula { depth: 0 }), negation_normal_form(""));
    assert_eq!(Err(ParseError::MalformedFormula { depth: 2 }), conjunctive_normal_form("AB"));
    assert_eq!(
        Err(ParseError::StackUnderflow { op: Op::Cond, required: 2 }),
        negation_normal_form("A>")
    );
    assert_eq!(
        Err(ParseError::StackUnderflow { op: Op::Neg, required: 1 }),
        conjunctive_normal_form("!A")
    );
}

const FORMULAS: [&str; 12] = [
    "A",
    "AB&!",
    "AB|C&!",
    "AB=",
    "AB>!",
    "AB=!C^",
    "AB^C^!",
    "AB&CD&|E|",
    "AB>C>D=",
    "AB|C&D!>!",
    "AB^CD^=!",
    "ABC&|D!E=^",
];

fn assignment_of(bits: u32) -> Assignment {
    let mut assignment = Assignment::new();
    for (n, letter) in ['A', 'B', 'C', 'D', 'E'].iter().enumerate() {
        assignment.set(*letter, bits & (1 << n) != 0);
    }
    assignment
}

#[test]
fn normal_forms_keep_the_truth_value() {
    for formula in FORMULAS.iter() {
        let nnf = negation_normal_form(formula).unwrap();
        let cnf = conjunctive_normal_form(formula).unwrap();
        for bits in 0..32 {
            let assignment = assignment_of(bits);
            let value = parse_and_evaluate(formula, &assignment).unwrap();
            assert_eq!(Ok(value), parse_and_evaluate(&nnf, &assignment), "{} {}", formula, nnf);
            assert_eq!(Ok(value), parse_and_evaluate(&cnf, &assignment), "{} {}", formula, cnf);
        }
    }
}

#[test]
fn negation_normal_form_is_idempotent() {
    for formula in FORMULAS.iter() {
        let once = negation_normal_form(formula).unwrap();
        assert_eq!(Ok(once.clone()), negation_normal_form(&once), "{}", formula);
    }
}

#[test]
fn negation_normal_form_negates_variables_only() {
    for formula in FORMULAS.iter() {
        let nnf = negation_normal_form(formula).unwrap();
        let chars: Vec<char> = nnf.chars().collect();
        for (i, c) in chars.iter().enumerate() {
            assert_ne!('>', *c, "{}", nnf);
            assert_ne!('=', *c, "{}", nnf);
            if *c == '!' {
                assert!(i > 0 && chars[i - 1].is_ascii_uppercase(), "{}", nnf);
            }
        }
        let tree = VarNode::from_lexer(Lexer::new(&nnf)).unwrap();
        assert!(!tree.has_nnf_forbidden());
    }
}

#[test]
fn conjunctive_normal_form_has_no_and_below_or() {
    for formula in FORMULAS.iter() {
        let cnf = conjunctive_normal_form(formula).unwrap();
        let tree = VarNode::from_lexer(Lexer::new(&cnf)).unwrap();
        assert!(!tree.has_cnf_forbidden(), "{}", cnf);
        assert!(!tree.has_nnf_forbidden(), "{}", cnf);
        assert!(!cnf.contains('^'), "{}", cnf);
    }
}

#[test]
fn one_pass_applies_one_rule_at_each_place() {
    let parse = |text: &str| VarNode::from_lexer(Lexer::new(text)).unwrap();
    // the negation of a conditional needs two passes
    let first = VarNode::reduce(parse("AB>!"));
    assert_eq!("A!B|!", first.to_string());
    assert!(first.has_nnf_forbidden());
    let second = VarNode::reduce(first);
    assert_eq!("AB!&", second.to_string());
    assert!(!second.has_nnf_forbidden());
    // after a double negation the pass goes on below the root of what is left
    assert_eq!("AB>", VarNode::reduce(parse("AB>!!")).to_string());
    assert_eq!("A!B|C&", VarNode::reduce(parse("AB>C!!&!!")).to_string());
    let mut tree = parse("AB>C!!&");
    tree.reduce_children();
    assert_eq!("A!B|C&", tree.to_string());
}

#[test]
fn trees_are_written_as_they_were_read() {
    for formula in FORMULAS.iter() {
        let tree = VarNode::from_lexer(Lexer::new(formula)).unwrap();
        assert_eq!(*formula, tree.to_string());
        assert_eq!(tree, tree.clone());
    }
    let built = VarNode::or(
        VarNode::negation(VarNode::and(VarNode::new('A'), VarNode::new('B'))),
        VarNode::eq(
            VarNode::xor(VarNode::new('C'), VarNode::new('D')),
            VarNode::cond(VarNode::new('E'), VarNode::new('F')),
        ),
    );
    assert_eq!("AB&!CD^EF>=|", built.to_string());
    assert_eq!(Ok(built.clone()), VarNode::from_lexer(Lexer::new("AB&!CD^EF>=|")));
    assert!(built.is_op(Op::Or));
    assert!(!built.is_op(Op::And));
    assert!(!built.is_leaf());
    assert!(VarNode::new('A').is_leaf());
    assert_eq!(None, VarNode::new('A').get_left());
    assert_eq!(Some(VarNode::new('A')), VarNode::negation(VarNode::new('A')).get_left());
    assert_eq!(None, VarNode::negation(VarNode::new('A')).get_right());
    assert_eq!(
        Some(VarNode::new('B')),
        VarNode::and(VarNode::new('A'), VarNode::new('B')).get_right()
    );
    assert_eq!("&", Op::And.as_symbol());
    assert_eq!("!", Op::Neg.as_symbol());
    assert_eq!("Cond", Op::Cond.as_str());
}

#[test]
fn chains_are_nested_to_the_right() {
    let parse = |text: &str| VarNode::from_lexer(Lexer::new(text)).unwrap();
    assert_eq!("ABCD|||", VarNode::flatten(parse("AB|C|D|")).to_string());
    assert_eq!("ABCD|||", VarNode::flatten(parse("AB|CD||")).to_string());
    assert_eq!("AB|CD&&", VarNode::flatten(parse("AB|C&D&")).to_string());
    assert_eq!("AB^C^", VarNode::flatten(parse("AB^C^")).to_string());
    let mut tree = parse("AB&!C!|");
    tree.cnf_reduce();
    assert_eq!("A!B!|C!|", tree.to_string());
    assert_eq!("AC|BC|&", VarNode::distribute(parse("AB&C|")).to_string());
    assert_eq!("AB|A!B!|&", VarNode::eliminate_xor(parse("AB^")).to_string());
}
