//! Addition of two 32-bit numbers by bitwise operations alone.
use vstd::prelude::*;

verus! {

/// The 32-bit number that the integer `n` wraps to.
pub open spec fn wrapped(n: int) -> int {
    n % 0x1_0000_0000
}

/// The lowest set bit of `a`, or zero where `a` has none.
pub open spec fn lowest_bit(a: u32) -> u32 {
    if a == 0 {
        0
    } else {
        a ^ (a & ((a - 1) as u32))
    }
}

/// How far the lowest carry is from leaving the 32 bits.
pub open spec fn carry_distance(a: u32) -> int {
    if a == 0 {
        0
    } else {
        0x1_0000_0000 - lowest_bit(a)
    }
}

/// Adds two numbers, wrapping round at two to the power of 32: the bits
/// that differ are the sum without carries, the bits that both have are
/// the carries, and the carries are added in turn one place higher.
pub fn adder(a: u32, b: u32) -> (sum: u32)
    ensures
        sum == wrapped(a + b),
    decreases carry_distance(a),
{
    let carry: u32 = (a & b) << 1;
    let result: u32 = a ^ b;
    if carry == 0 {
        assert(result == (a + b) % 0x1_0000_0000) by (bit_vector)
            requires
                (a & b) << 1 == 0,
                result == a ^ b,
        ;
        return result;
    }
    assert(a != 0 && lowest_bit(carry) > lowest_bit(a)) by (bit_vector)
        requires
            carry == (a & b) << 1,
            carry != 0,
    ;
    assert((carry + result) % 0x1_0000_0000 == (a + b) % 0x1_0000_0000) by (bit_vector)
        requires
            carry == (a & b) << 1,
            result == a ^ b,
    ;
    adder(carry, result)
}

} // verus!
