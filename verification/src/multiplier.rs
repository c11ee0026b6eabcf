//! Multiplication of two 32-bit numbers by shifts and additions.
use crate::adder::{adder, wrapped};
use vstd::arithmetic::div_mod::lemma_fundamental_div_mod_converse;
use vstd::prelude::*;

verus! {

/// A number is twice its upper bits plus its lowest bit.
pub proof fn lemma_halve(b: u32)
    by (bit_vector)
    ensures
        b & 1 <= 1,
        b == 2 * (b >> 1) + (b & 1),
        b > 0 ==> (b >> 1) < b,
{
}

/// Shifting one place to the left doubles a number, wrapping round at two
/// to the power of 32.
pub proof fn lemma_double(a: u32)
    by (bit_vector)
    ensures
        (a << 1) == (2 * a) % 0x1_0000_0000,
{
}

/// Doubling one factor and halving the other keeps the product, but for
/// the first factor once where the second is odd; multiples of two to the
/// power of 32 do not count.
pub proof fn lemma_peasant_step(res: int, a: int, b: int, res2: int, a2: int, b2: int, bit: int)
    requires
        0 <= bit <= 1,
        b == 2 * b2 + bit,
        a2 == wrapped(2 * a),
        res2 == wrapped(res + bit * a),
    ensures
        wrapped(res2 + a2 * b2) == wrapped(res + a * b),
{
    let m = 0x1_0000_0000int;
    let q1 = (2 * a) / m;
    let q2 = (res + bit * a) / m;
    assert(a2 == 2 * a - q1 * m);
    assert(res2 == res + bit * a - q2 * m);
    assert(a2 * b2 == 2 * (a * b2) - (q1 * b2) * m) by (nonlinear_arith)
        requires
            a2 == 2 * a - q1 * m,
    ;
    assert(a * b == 2 * (a * b2) + bit * a) by (nonlinear_arith)
        requires
            b == 2 * b2 + bit,
    ;
    let k = q2 + q1 * b2;
    assert(res2 + a2 * b2 == (res + a * b) - k * m) by (nonlinear_arith)
        requires
            res2 == res + bit * a - q2 * m,
            a2 * b2 == 2 * (a * b2) - (q1 * b2) * m,
            a * b == 2 * (a * b2) + bit * a,
            k == q2 + q1 * b2,
    ;
    lemma_wrapped_shift(res + a * b, -k);
}

/// Adding a multiple of two to the power of 32 changes nothing in what a
/// number wraps to.
pub proof fn lemma_wrapped_shift(n: int, k: int)
    ensures
        wrapped(n + k * 0x1_0000_0000) == wrapped(n),
{
    let m = 0x1_0000_0000int;
    let q = n / m;
    let r = n % m;
    assert(n + k * m == (q + k) * m + r) by (nonlinear_arith)
        requires
            n == q * m + r,
    ;
    lemma_fundamental_div_mod_converse(n + k * m, m, q + k, r);
}

/// Multiplies two numbers, wrapping round at two to the power of 32: the
/// first factor is doubled and the second halved until nothing is left of
/// it, and the first is added up wherever the second is odd.
pub fn multiplier(a: u32, b: u32) -> (product: u32)
    ensures
        product == wrapped(a * b),
{
    let ghost a0 = a;
    let ghost b0 = b;
    let mut res: u32 = 0;
    let mut a = a;
    let mut b = b;
    while b > 0
        invariant
            wrapped(res + a * b) == wrapped(a0 * b0),
        decreases b,
    {
        let ghost res1 = res;
        proof {
            lemma_halve(b);
            lemma_double(a);
        }
        if b & 1 != 0 {
            res = adder(res, a)
        }
        proof {
            let bit = (b & 1) as int;
            assert(bit * a == if bit == 1 { a as int } else { 0 }) by (nonlinear_arith)
                requires
                    0 <= bit <= 1,
            ;
            lemma_peasant_step(
                res1 as int,
                a as int,
                b as int,
                res as int,
                (a << 1) as int,
                (b >> 1) as int,
                bit,
            );
        }
        a = a << 1;
        b = b >> 1;
    }
    assert(a * b == 0) by (nonlinear_arith)
        requires
            b == 0,
    ;
    res
}

} // verus!
