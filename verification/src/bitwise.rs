//! Further ways to add and to multiply 32-bit numbers by bitwise
//! operations, bit by bit over all 32 places, beside the plain operators
//! they are measured against.
use crate::adder::wrapped;
use crate::multiplier::{lemma_double, lemma_halve, lemma_peasant_step, lemma_wrapped_shift};
use vstd::prelude::*;

verus! {

/// The value of the lowest `i` bits of `x`.
pub open spec fn low_bits(x: u32, i: u32) -> u64 {
    (x as u64) & (((1u64 << i) - 1) as u64)
}

/// One place of the ripple-carry addition: the sum bit goes to place `i`
/// and the carry to the place above.
proof fn lemma_ripple_step(a: u32, b: u32, i: u32, ret: u32, carry: u32, ret2: u32, carry2: u32)
    by (bit_vector)
    requires
        i < 32,
        carry <= 1,
        (ret as u64) <= (((1u64 << i) - 1) as u64),
        (ret as u64) + ((carry as u64) << i) == low_bits(a, i) + low_bits(b, i),
        ret2 == ret | ((((a >> i) & 1) ^ ((b >> i) & 1) ^ carry) << i),
        carry2 == (((a >> i) & 1) & ((b >> i) & 1)) | ((((a >> i) & 1) ^ ((b >> i) & 1)) & carry),
    ensures
        carry2 <= 1,
        (ret2 as u64) <= (((1u64 << ((i + 1) as u32)) - 1) as u64),
        (ret2 as u64) + ((carry2 as u64) << ((i + 1) as u32)) == low_bits(a, (i + 1) as u32)
            + low_bits(b, (i + 1) as u32),
{
}

/// Adds two numbers whose sum fits in 32 bits, place by place from the
/// lowest, with the carry handed up.
pub fn adder(a: u32, b: u32) -> (sum: u32)
    requires
        a + b <= u32::MAX,
    ensures
        sum == a + b,
{
    let mut carry: u32 = 0;
    let mut ret: u32 = 0;
    assert((ret as u64) <= (((1u64 << 0u32) - 1) as u64) && (ret as u64) + ((carry as u64) << 0u32)
        == low_bits(a, 0) + low_bits(b, 0)) by (bit_vector)
        requires
            ret == 0,
            carry == 0,
    ;
    for i in 0u32..32
        invariant
            carry <= 1,
            (ret as u64) <= (((1u64 << i) - 1) as u64),
            (ret as u64) + ((carry as u64) << i) == low_bits(a, i) + low_bits(b, i),
    {
        // align the bits of interest
        let a0 = (a >> i) & 1;
        let b0 = (b >> i) & 1;
        let ghost ret1 = ret;
        let ghost carry1 = carry;
        assert(a0 <= 1 && b0 <= 1 && (a0 ^ b0 ^ carry) <= 1 && ((a0 ^ b0 ^ carry) << i)
            <= 0xffff_ffffu32) by (bit_vector)
            requires
                a0 == (a >> i) & 1,
                b0 == (b >> i) & 1,
                carry <= 1,
                i < 32,
        ;
        // the sum bit goes to its place in the result
        ret = ret | ((a0 ^ b0 ^ carry) << i);
        // a carry comes up where both bits are set, or where one is set
        // and a carry came in
        carry = (a0 & b0) | ((a0 ^ b0) & carry);
        proof {
            lemma_ripple_step(a, b, i, ret1, carry1, ret, carry);
        }
    }
    assert(carry == 0 && ret == a + b) by (bit_vector)
        requires
            carry <= 1,
            (ret as u64) + ((carry as u64) << 32u32) == low_bits(a, 32) + low_bits(b, 32),
            a + b <= 0xffff_ffffu32,
    ;
    ret
}

/// One round of carry propagation keeps the sum and moves the carries up.
proof fn lemma_carry_round(result: u32, carry: u32, k: u32, result2: u32, carry2: u32)
    by (bit_vector)
    requires
        k <= 32,
        carry != 0,
        (carry as u64) & (((1u64 << k) - 1) as u64) == 0,
        carry2 == result & (carry << 1),
        result2 == result ^ (carry << 1),
    ensures
        k < 32,
        (carry2 as u64) & (((1u64 << ((k + 1) as u32)) - 1) as u64) == 0,
        (result2 + 2 * carry2) % 0x1_0000_0000 == (result + 2 * carry) % 0x1_0000_0000,
{
}

/// Adds two numbers, wrapping round at two to the power of 32, by handing
/// all carries up at once until none is left.
pub fn adder2(a: u32, b: u32) -> (sum: u32)
    ensures
        sum == wrapped(a + b),
{
    let mut carry = a & b;
    let mut result = a ^ b;
    let ghost mut k: u32 = 0;
    assert((carry as u64) & (((1u64 << 0u32) - 1) as u64) == 0 && (result + 2 * carry)
        % 0x1_0000_0000 == (a + b) % 0x1_0000_0000) by (bit_vector)
        requires
            carry == a & b,
            result == a ^ b,
    ;
    while carry != 0
        invariant
            k <= 32,
            (carry as u64) & (((1u64 << k) - 1) as u64) == 0,
            wrapped(result + 2 * carry) == wrapped(a + b),
        decreases 32 - k,
    {
        let shifted_carry = carry << 1;
        proof {
            lemma_carry_round(result, carry, k, result ^ shifted_carry, result & shifted_carry);
            k = (k + 1) as u32;
        }
        carry = result & shifted_carry;
        result = result ^ shifted_carry;
    }
    result
}

/// The sum by the addition operator.
pub fn adder_ref(a: u32, b: u32) -> (sum: u32)
    requires
        a + b <= u32::MAX,
    ensures
        sum == a + b,
{
    a + b
}

/// The product by the multiplication operator.
pub fn multiplier_ref(a: u32, b: u32) -> (product: u32)
    requires
        a * b <= u32::MAX,
    ensures
        product == a * b,
{
    a * b
}

/// After `i` of the 32 rounds nothing is left of the second factor above
/// its lowest `32 - i` bits.
proof fn lemma_rounds_left(b: u32, i: u32)
    by (bit_vector)
    requires
        i < 32,
        (b as u64) < (1u64 << ((32 - i) as u32)),
    ensures
        ((b >> 1) as u64) < (1u64 << ((32 - (i + 1)) as u32)),
        i == 31 ==> (b >> 1) == 0,
{
}

/// The weight of the next place is twice the weight of this one.
proof fn lemma_next_weight(i: u32)
    by (bit_vector)
    requires
        i < 32,
    ensures
        (1u64 << ((i + 1) as u32)) == 2 * (1u64 << i),
        (1u64 << i) >= 1,
{
}

/// One round of the multiplication of two numbers whose product fits in
/// 32 bits: what was added up so far is the first factor times the bits of
/// the second that were seen.
proof fn lemma_exact_round(
    a0: int,
    b0: int,
    a: int,
    b: int,
    b2: int,
    bit: int,
    weight: int,
    low: int,
    ret: int,
)
    requires
        0 <= a0,
        0 <= b2,
        0 <= bit <= 1,
        a0 * b0 <= u32::MAX,
        b == 2 * b2 + bit,
        1 <= weight,
        0 <= low < weight,
        b0 == b * weight + low,
        ret == a0 * low,
        a == wrapped(a0 * weight),
    ensures
        bit == 1 ==> a == a0 * weight && ret + a <= u32::MAX,
        b0 == b2 * (2 * weight) + (low + bit * weight),
        0 <= low + bit * weight < 2 * weight,
        ret + bit * a == a0 * (low + bit * weight),
        wrapped(2 * a) == wrapped(a0 * (2 * weight)),
{
    assert(b0 == b2 * (2 * weight) + (low + bit * weight)) by (nonlinear_arith)
        requires
            b0 == b * weight + low,
            b == 2 * b2 + bit,
    ;
    assert(0 <= bit * weight <= weight) by (nonlinear_arith)
        requires
            0 <= bit <= 1,
            1 <= weight,
    ;
    if bit == 1 {
        assert(a0 * (weight + low) <= a0 * b0) by (nonlinear_arith)
            requires
                0 <= a0,
                0 <= b2,
                1 <= weight,
                b0 == b2 * (2 * weight) + (low + weight),
        ;
        assert(a0 * (weight + low) == a0 * weight + a0 * low) by (nonlinear_arith);
        assert(0 <= a0 * weight && 0 <= a0 * low) by (nonlinear_arith)
            requires
                0 <= a0,
                1 <= weight,
                0 <= low,
        ;
        assert(a == a0 * weight);
        assert(bit * a == a && bit * weight == weight) by (nonlinear_arith)
            requires
                bit == 1,
        ;
    } else {
        assert(bit * a == 0 && bit * weight == 0) by (nonlinear_arith)
            requires
                bit == 0,
        ;
    }
    let q = (a0 * weight) / 0x1_0000_0000;
    assert(a0 * (2 * weight) == 2 * (a0 * weight)) by (nonlinear_arith);
    assert(2 * a == a0 * (2 * weight) + (-2 * q) * 0x1_0000_0000);
    lemma_wrapped_shift(a0 * (2 * weight), -2 * q);
}

/// Multiplies two numbers whose product fits in 32 bits, in 32 rounds of
/// doubling and halving.
pub fn multiplier(a: u32, b: u32) -> (product: u32)
    requires
        a * b <= u32::MAX,
    ensures
        product == a * b,
{
    let ghost a0 = a;
    let ghost b0 = b;
    let ghost mut low: int = 0;
    let mut a = a;
    let mut b = b;
    let mut ret: u32 = 0;
    assert((b as u64) < (1u64 << 32u32) && (1u64 << 0u32) == 1) by (bit_vector);
    assert(a0 * 1 == a0 && b * 1 == b && a0 * 0 == 0) by (nonlinear_arith);
    for i in 0u32..32
        invariant
            a0 * b0 <= u32::MAX,
            0 <= low < (1u64 << i),
            b0 == b * (1u64 << i) + low,
            ret == a0 * low,
            a == wrapped(a0 * (1u64 << i)),
            (b as u64) < (1u64 << ((32 - i) as u32)),
            i == 32 ==> b == 0,
    {
        let ghost weight = (1u64 << i) as int;
        let ghost bit = (b & 1) as int;
        proof {
            lemma_halve(b);
            lemma_double(a);
            lemma_rounds_left(b, i);
            lemma_next_weight(i);
            lemma_exact_round(
                a0 as int,
                b0 as int,
                a as int,
                b as int,
                (b >> 1) as int,
                bit,
                weight,
                low,
                ret as int,
            );
        }
        if b & 1 == 1 {
            ret = adder(ret, a);
        }
        proof {
            low = low + bit * weight;
        }
        b = b >> 1;
        a = a << 1;
    }
    assert(b * (1u64 << 32u32) == 0) by (nonlinear_arith)
        requires
            b == 0,
    ;
    ret
}

/// Multiplies two numbers, wrapping round at two to the power of 32, in 32
/// rounds of doubling and halving.
pub fn multiplier2(a: u32, b: u32) -> (product: u32)
    ensures
        product == wrapped(a * b),
{
    let ghost a0 = a;
    let ghost b0 = b;
    let mut a = a;
    let mut b = b;
    let mut ret: u32 = 0;
    assert((b as u64) < (1u64 << 32u32)) by (bit_vector);
    for i in 0u32..32
        invariant
            wrapped(ret + a * b) == wrapped(a0 * b0),
            (b as u64) < (1u64 << ((32 - i) as u32)),
            i == 32 ==> b == 0,
    {
        let ghost ret1 = ret;
        proof {
            lemma_halve(b);
            lemma_double(a);
            lemma_rounds_left(b, i);
        }
        if b & 1 == 1 {
            ret = adder2(ret, a);
        }
        proof {
            let bit = (b & 1) as int;
            assert(bit * a == if bit == 1 { a as int } else { 0 }) by (nonlinear_arith)
                requires
                    0 <= bit <= 1,
            ;
            lemma_peasant_step(
                ret1 as int,
                a as int,
                b as int,
                ret as int,
                (a << 1) as int,
                (b >> 1) as int,
                bit,
            );
        }
        b = b >> 1;
        a = a << 1;
    }
    assert(a * b == 0) by (nonlinear_arith)
        requires
            b == 0,
    ;
    ret
}

/// Multiplies two numbers, wrapping round at two to the power of 32: the
/// second factor is doubled and the first halved until nothing is left of it.
pub fn multiplier_easy(a: u32, b: u32) -> (product: u32)
    ensures
        product == wrapped(a * b),
{
    let ghost a0 = a;
    let ghost b0 = b;
    let mut a = a;
    let mut b = b;
    let mut result: u32 = 0;
    assert(a * b == b * a) by (nonlinear_arith);
    while a != 0
        invariant
            wrapped(result + b * a) == wrapped(a0 * b0),
        decreases a,
    {
        let ghost result1 = result;
        proof {
            lemma_halve(a);
            lemma_double(b);
        }
        if a & 1 == 1 {
            result = adder2(result, b);
        }
        proof {
            let bit = (a & 1) as int;
            assert(bit * b == if bit == 1 { b as int } else { 0 }) by (nonlinear_arith)
                requires
                    0 <= bit <= 1,
            ;
            lemma_peasant_step(
                result1 as int,
                b as int,
                a as int,
                result as int,
                (b << 1) as int,
                (a >> 1) as int,
                bit,
            );
        }
        a = a >> 1;
        b = b << 1;
    }
    assert(b * a == 0) by (nonlinear_arith)
        requires
            a == 0,
    ;
    result
}

} // verus!
