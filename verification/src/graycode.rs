//! The reflected binary Gray code.
use vstd::prelude::*;

verus! {

/// The Gray code of `n`: each bit of `n` combined with the bit above it.
pub open spec fn gray(n: u32) -> u32 {
    n ^ (n >> 1)
}

/// Computes the Gray code of `n`.
pub fn gray_code(n: u32) -> (code: u32)
    ensures
        code == gray(n),
{
    n ^ (n >> 1)
}

/// The Gray codes of two numbers that follow each other differ in exactly
/// one bit.
pub proof fn law_gray_neighbours_differ_in_one_bit(n: u32)
    requires
        n < u32::MAX,
    ensures
        ({
            let difference = gray(n) ^ gray((n + 1) as u32);
            difference != 0 && difference & ((difference - 1) as u32) == 0
        }),
{
    assert({
        let difference = gray(n) ^ gray((n + 1) as u32);
        difference != 0 && difference & ((difference - 1) as u32) == 0
    }) by (bit_vector)
        requires
            n < 0xffff_ffffu32,
    ;
}

/// Two numbers with the same Gray code are the same number.
pub proof fn law_gray_is_injective(m: u32, n: u32)
    requires
        gray(m) == gray(n),
    ensures
        m == n,
{
    assert(m == n) by (bit_vector)
        requires
            gray(m) == gray(n),
    ;
}

} // verus!
