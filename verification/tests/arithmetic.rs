use rsb_lib::bitwise;
use rsb_lib::{adder, gray_code, multiplier, powerset};

const ADDER_CASES: [(u32, u32); 13] = [
    (0, 0),
    (1, 0),
    (0, 1),
    (1, 1),
    (7, 3),
    (3, 7),
    (123, 123),
    (0b101010, 0b010101),
    (0b111111, 0b010101),
    (0b111111, 0b011101),
    (0b111111, 0b011001),
    (2147483647, 1073741823),
    (1073741823, 2147483647),
];

const MULTIPLIER_CASES: [(u32, u32); 11] = [
    (0, 0),
    (0, 1),
    (1, 0),
    (1, 1),
    (7, 3),
    (3, 7),
    (123, 123),
    (0b101010, 0b010101),
    (0b111111, 0b010101),
    (0b111111, 0b011101),
    (0b111111, 0b011001),
];

#[test]
fn adder_test_adder() {
    let mut a: u32;
    let mut b: u32;

    a = 0;
    b = 0;
    assert_eq!(a + b, adder(a, b), "{} + {}", a, b);

    a = 1;
    b = 0;
    assert_eq!(a + b, adder(a, b), "{} + {}", a, b);

    a = 0;
    b = 1;
    assert_eq!(a + b, adder(a, b), "{} + {}", a, b);

    a = 1;
    b = 1;
    assert_eq!(a + b, adder(a, b), "{} + {}", a, b);

    a = 7;
    b = 3;
    assert_eq!(a + b, adder(a, b), "{} + {}", a, b);

    a = 3;
    b = 7;
    assert_eq!(a + b, adder(a, b), "{} + {}", a, b);

    a = 123;
    b = 123;
    assert_eq!(a + b, adder(a, b), "{} + {}", a, b);

    a = 0b101010;
    b = 0b010101;
    assert_eq!(a + b, adder(a, b), "{} + {}", a, b);

    a = 0b111111;
    b = 0b010101;
    assert_eq!(a + b, adder(a, b), "{} + {}", a, b);

    a = 0b111111;
    b = 0b011101;
    assert_eq!(a + b, adder(a, b), "{} + {}", a, b);

    a = 0b111111;
    b = 0b011001;
    assert_eq!(a + b, adder(a, b), "{} + {}", a, b);

    a = 2147483647;
    b = 1073741823;
    assert_eq!(a + b, adder(a, b), "{} + {}", a, b);

    a = 1073741823;
    b = 2147483647;
    assert_eq!(a + b, adder(a, b), "{} + {}", a, b);
}

#[test]
fn test_adder() {
    let mut a: u32;
    let mut b: u32;

    a = 0;
    b = 0;
    assert_eq!(a + b, bitwise::adder(a, b), "{} + {}", a, b);

    a = 1;
    b = 0;
    assert_eq!(a + b, bitwise::adder(a, b), "{} + {}", a, b);

    a = 0;
    b = 1;
    assert_eq!(a + b, bitwise::adder(a, b), "{} + {}", a, b);

    a = 1;
    b = 1;
    assert_eq!(a + b, bitwise::adder(a, b), "{} + {}", a, b);

    a = 7;
    b = 3;
    assert_eq!(a + b, bitwise::adder(a, b), "{} + {}", a, b);

    a = 3;
    b = 7;
    assert_eq!(a + b, bitwise::adder(a, b), "{} + {}", a, b);

    a = 123;
    b = 123;
    assert_eq!(a + b, bitwise::adder(a, b), "{} + {}", a, b);

    a = 0b101010;
    b = 0b010101;
    assert_eq!(a + b, bitwise::adder(a, b), "{} + {}", a, b);

    a = 0b111111;
    b = 0b010101;
    assert_eq!(a + b, bitwise::adder(a, b), "{} + {}", a, b);

    a = 0b111111;
    b = 0b011101;
    assert_eq!(a + b, bitwise::adder(a, b), "{} + {}", a, b);

    a = 0b111111;
    b = 0b011001;
    assert_eq!(a + b, bitwise::adder(a, b), "{} + {}", a, b);

    a = 2147483647;
    b = 1073741823;
    assert_eq!(a + b, bitwise::adder(a, b), "{} + {}", a, b);

    a = 1073741823;
    b = 2147483647;
    assert_eq!(a + b, bitwise::adder(a, b), "{} + {}", a, b);
}

#[test]
fn test_adder2() {
    let mut a: u32;
    let mut b: u32;

    a = 0;
    b = 0;
    assert_eq!(a + b, bitwise::adder2(a, b), "{} + {}", a, b);

    a = 1;
    b = 0;
    assert_eq!(a + b, bitwise::adder2(a, b), "{} + {}", a, b);

    a = 0;
    b = 1;
    assert_eq!(a + b, bitwise::adder2(a, b), "{} + {}", a, b);

    a = 1;
    b = 1;
    assert_eq!(a + b, bitwise::adder2(a, b), "{} + {}", a, b);

    a = 7;
    b = 3;
    assert_eq!(a + b, bitwise::adder2(a, b), "{} + {}", a, b);

    a = 3;
    b = 7;
    assert_eq!(a + b, bitwise::adder2(a, b), "{} + {}", a, b);

    a = 123;
    b = 123;
    assert_eq!(a + b, bitwise::adder2(a, b), "{} + {}", a, b);

    a = 0b101010;
    b = 0b010101;
    assert_eq!(a + b, bitwise::adder2(a, b), "{} + {}", a, b);

    a = 0b111111;
    b = 0b010101;
    assert_eq!(a + b, bitwise::adder2(a, b), "{} + {}", a, b);

    a = 0b111111;
    b = 0b011101;
    assert_eq!(a + b, bitwise::adder2(a, b), "{} + {}", a, b);

    a = 0b111111;
    b = 0b011001;
    assert_eq!(a + b, bitwise::adder2(a, b), "{} + {}", a, b);

    a = 2147483647;
    b = 1073741823;
    assert_eq!(a + b, bitwise::adder2(a, b), "{} + {}", a, b);

    a = 1073741823;
    b = 2147483647;
    assert_eq!(a + b, bitwise::adder2(a, b), "{} + {}", a, b);
}

#[test]
fn adder_ref_is_plain_addition() {
    for (a, b) in ADDER_CASES.iter() {
        assert_eq!(*a + *b, bitwise::adder_ref(*a, *b));
    }
}

#[test]
fn adder_wraps_round() {
    assert_eq!(4, adder(u32::MAX, 5));
    assert_eq!(4, bitwise::adder2(u32::MAX, 5));
    assert_eq!(0, adder(u32::MAX, 1));
    assert_eq!(u32::MAX.wrapping_add(u32::MAX), adder(u32::MAX, u32::MAX));
    assert_eq!(u32::MAX, bitwise::adder(u32::MAX, 0));
    assert_eq!(u32::MAX, bitwise::adder(0x8000_0000, 0x7fff_ffff));
}

#[test]
fn multiplier_test_multiplier() {
    let mut a: u32;
    let mut b: u32;

    a = 0;
    b = 0;
    assert_eq!(a * b, multiplier(a, b), "{} * {}", a, b);

    a = 0;
    b = 1;
    assert_eq!(a * b, multiplier(a, b), "{} * {}", a, b);

    a = 1;
    b = 0;
    assert_eq!(a * b, multiplier(a, b), "{} * {}", a, b);

    a = 1;
    b = 1;
    assert_eq!(a * b, multiplier(a, b), "{} * {}", a, b);

    a = 7;
    b = 3;
    assert_eq!(a * b, multiplier(a, b), "{} * {}", a, b);

    a = 3;
    b = 7;
    assert_eq!(a * b, multiplier(a, b), "{} * {}", a, b);

    a = 123;
    b = 123;
    assert_eq!(a * b, multiplier(a, b), "{} * {}", a, b);

    a = 0b101010;
    b = 0b010101;
    assert_eq!(a * b, multiplier(a, b), "{} * {}", a, b);

    a = 0b111111;
    b = 0b010101;
    assert_eq!(a * b, multiplier(a, b), "{} * {}", a, b);

    a = 0b111111;
    b = 0b011101;
    assert_eq!(a * b, multiplier(a, b), "{} * {}", a, b);

    a = 0b111111;
    b = 0b011001;
    assert_eq!(a * b, multiplier(a, b), "{} * {}", a, b);
}

#[test]
fn test_multiplier() {
    let mut a: u32;
    let mut b: u32;

    a = 0;
    b = 0;
    assert_eq!(a * b, bitwise::multiplier(a, b), "{} * {}", a, b);

    a = 0;
    b = 1;
    assert_eq!(a * b, bitwise::multiplier(a, b), "{} * {}", a, b);

    a = 1;
    b = 0;
    assert_eq!(a * b, bitwise::multiplier(a, b), "{} * {}", a, b);

    a = 1;
    b = 1;
    assert_eq!(a * b, bitwise::multiplier(a, b), "{} * {}", a, b);

    a = 7;
    b = 3;
    assert_eq!(a * b, bitwise::multiplier(a, b), "{} * {}", a, b);

    a = 3;
    b = 7;
    assert_eq!(a * b, bitwise::multiplier(a, b), "{} * {}", a, b);

    a = 123;
    b = 123;
    assert_eq!(a * b, bitwise::multiplier(a, b), "{} * {}", a, b);

    a = 0b101010;
    b = 0b010101;
    assert_eq!(a * b, bitwise::multiplier(a, b), "{} * {}", a, b);

    a = 0b111111;
    b = 0b010101;
    assert_eq!(a * b, bitwise::multiplier(a, b), "{} * {}", a, b);

    a = 0b111111;
    b = 0b011101;
    assert_eq!(a * b, bitwise::multiplier(a, b), "{} * {}", a, b);

    a = 0b111111;
    b = 0b011001;
    assert_eq!(a * b, bitwise::multiplier(a, b), "{} * {}", a, b);
}

#[test]
fn multiplier_variants_agree() {
    for (a, b) in MULTIPLIER_CASES.iter() {
        let (a, b) = (*a, *b);
        assert_eq!(a * b, bitwise::multiplier2(a, b), "{} * {}", a, b);
        assert_eq!(a * b, bitwise::multiplier_easy(a, b), "{} * {}", a, b);
        assert_eq!(a * b, bitwise::multiplier_ref(a, b), "{} * {}", a, b);
    }
}

#[test]
fn multiplier_wraps_round() {
    let a = u32::MAX / 4;
    let b = 5;
    assert_eq!(a.wrapping_mul(b), multiplier(a, b));
    assert_eq!(a.wrapping_mul(b), bitwise::multiplier2(a, b));
    assert_eq!(a.wrapping_mul(b), bitwise::multiplier_easy(a, b));
    assert_eq!(0, multiplier(0x8000_0000, 2));
    assert_eq!(u32::MAX, bitwise::multiplier(u32::MAX, 1));
    assert_eq!(0xfffe_0001, bitwise::multiplier(0xffff, 0xffff));
}

#[test]
fn gray_code_test_gray_code() {
    let mut n: u32;
    let mut expected: u32;

    n = 0;
    expected = 0;
    assert_eq!(expected, gray_code(n));

    n = 1;
    expected = 1;
    assert_eq!(expected, gray_code(n));

    n = 2;
    expected = 3;
    assert_eq!(expected, gray_code(n));

    n = 3;
    expected = 2;
    assert_eq!(expected, gray_code(n));

    n = 4;
    expected = 6;
    assert_eq!(expected, gray_code(n));

    n = 0b010111001;
    expected = 0b011100101;
    assert_eq!(expected, gray_code(n));

    n = 0b101011110101101110;
    expected = 0b111110001111011001;
    assert_eq!(expected, gray_code(n));
}

#[test]
fn graycode_test_gray_code() {
    let n = 0;
    assert_eq!(0, gray_code(n));

    let n = 1;
    assert_eq!(1, gray_code(n));

    let n = 2;
    assert_eq!(3, gray_code(n));

    let n = 3;
    assert_eq!(2, gray_code(n));

    let n = 4;
    assert_eq!(6, gray_code(n));

    let n = 5;
    assert_eq!(7, gray_code(n));

    let n = 6;
    assert_eq!(5, gray_code(n));

    let n = 7;
    assert_eq!(4, gray_code(n));

    let n = 8;
    assert_eq!(12, gray_code(n));
}

#[test]
fn gray_code_neighbours_differ_in_one_bit() {
    for n in 0u32..1000 {
        let difference = gray_code(n) ^ gray_code(n + 1);
        assert_eq!(1, difference.count_ones(), "{}", n);
    }
    assert_eq!(0xc000_0000, gray_code(0x8000_0000));
    assert_eq!(0x8000_0000, gray_code(u32::MAX));
}

#[test]
fn powerset_lists_every_subset() {
    let empty: Vec<Vec<i32>> = vec![vec![]];
    assert_eq!(empty, powerset(vec![]));
    assert_eq!(vec![vec![], vec![4]], powerset(vec![4]));
    assert_eq!(
        vec![
            vec![],
            vec![1],
            vec![2],
            vec![1, 2],
            vec![3],
            vec![1, 3],
            vec![2, 3],
            vec![1, 2, 3]
        ],
        powerset(vec![1, 2, 3])
    );
    assert_eq!(1024, powerset(vec![0, 1, 2, 3, 4, 5, 6, 7, 8, 9]).len());
}
