use rsb_lib::sat::variables;
use rsb_lib::truth_table::{header, row, rule};
use rsb_lib::{sat, truth_table, Assignment, Op, ParseError};

#[test]
fn sat_subject() {
    let tests: Vec<(bool, &str)> = vec![
        (true, "AB|"),
        (true, "AB&"),
        (false, "AA!&"),
        (false, "AA^"),
    ];
    for (exp, test) in tests.iter() {
        assert_eq!(Ok(*exp), sat(*test), "Case \"{}\"", *test);
    }
}

#[test]
fn subject() {
    let tests: Vec<(bool, &str)> = vec![
        (true, "AB|"),
        (true, "AB&"),
        (false, "AA!&"),
        (false, "AA^"),
    ];
    for (exp, test) in tests.iter() {
        assert_eq!(Ok(*exp), sat(*test), "Case \"{}\"", *test);
    }
}

#[test]
fn sat_of_ground_and_malformed_formulas() {
    assert_eq!(Ok(true), sat("1"));
    assert_eq!(Ok(false), sat("0"));
    assert_eq!(Ok(true), sat("A0|"));
    assert_eq!(Ok(false), sat("A0&"));
    assert_eq!(Ok(true), sat("AB=C^D>Z&"));
    assert_eq!(Ok(false), sat("AB|A!&B!&"));
    assert_eq!(Err(ParseError::MalformedFormula { depth: 0 }), sat(""));
    assert_eq!(Err(ParseError::MalformedFormula { depth: 2 }), sat("AB"));
    assert_eq!(Err(ParseError::InvalidSymbol), sat("Ab|"));
    assert_eq!(Err(ParseError::StackUnderflow { op: Op::And, required: 2 }), sat("A&"));
}

#[test]
fn variables_are_sorted_and_distinct() {
    assert_eq!(vec!['A', 'B', 'C'], variables("CB&A|B!="));
    assert_eq!(Vec::<char>::new(), variables("10&a|"));
    assert_eq!(vec!['Z'], variables("ZZ&"));
}

#[test]
fn assignments_count_from_the_most_significant_variable() {
    let labels = vec!['A', 'B', 'C'];
    let assignment = Assignment::from_index(&labels, 0b100);
    assert!(assignment.get('A'));
    assert!(!assignment.get('B'));
    assert!(!assignment.get('C'));
    let assignment = Assignment::from_index(&labels, 0b011);
    assert!(!assignment.get('A'));
    assert!(assignment.get('B'));
    assert!(assignment.get('C'));
    assert!(!assignment.get('D'));
}

#[test]
fn truth_table_basic() {
    let lines = truth_table("AB&C|D^B!=").unwrap();
    assert_eq!(18, lines.len());
    assert_eq!("| A | B | C | D | = |", lines[0]);
    assert_eq!("|---|---|---|---|---|", lines[1]);
    assert_eq!("| 0 | 0 | 0 | 0 | 0 |", lines[2]);
    assert_eq!("| 0 | 0 | 0 | 1 | 1 |", lines[3]);
    assert_eq!("| 1 | 1 | 1 | 1 | 1 |", lines[17]);
}

#[test]
fn truth_table_subject() {
    let lines = truth_table("AB&C|").unwrap();
    let expected = vec![
        "| A | B | C | = |",
        "|---|---|---|---|",
        "| 0 | 0 | 0 | 0 |",
        "| 0 | 0 | 1 | 1 |",
        "| 0 | 1 | 0 | 0 |",
        "| 0 | 1 | 1 | 1 |",
        "| 1 | 0 | 0 | 0 |",
        "| 1 | 0 | 1 | 1 |",
        "| 1 | 1 | 0 | 1 |",
        "| 1 | 1 | 1 | 1 |",
    ];
    assert_eq!(expected, lines);
}

#[test]
fn truth_table_edges() {
    assert_eq!(vec!["| = |", "|---|", "| 1 |"], truth_table("10|").unwrap());
    assert_eq!(
        vec!["| A | = |", "|---|---|", "| 0 | 1 |", "| 1 | 0 |"],
        truth_table("A!").unwrap()
    );
    assert_eq!(Err(ParseError::MalformedFormula { depth: 2 }), truth_table("AB"));
    assert_eq!(Err(ParseError::InvalidSymbol), truth_table("A?"));
    assert_eq!("| X | Y | = |", header(&vec!['X', 'Y']));
    assert_eq!("|---|---|---|", rule(2));
    assert_eq!("| 1 | 0 | 1 |", row(&vec!['X', 'Y'], 2, true));
}
