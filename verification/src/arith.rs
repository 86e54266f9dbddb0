//! Rounding division on mathematical integers, and the facts the other modules use.

use vstd::arithmetic::div_mod::{
    lemma_div_is_ordered, lemma_fundamental_div_mod, lemma_fundamental_div_mod_converse,
};
use vstd::arithmetic::mul::{lemma_mul_inequality, lemma_mul_is_commutative};
use vstd::prelude::*;

verus! {

/// 2⁶⁴, one more than the largest `u64`.
pub open spec fn two64() -> int {
    0x1_0000_0000_0000_0000
}

/// `n / d` rounded to the nearest integer, a half rounded up.
pub open spec fn round_div(n: int, d: int) -> int {
    (n + d / 2) / d
}

/// Whether a number can be held by an `i128`.
pub open spec fn fits_i128(n: int) -> bool {
    i128::MIN <= n <= i128::MAX
}

/// `a - b`, or zero where that is negative.
pub open spec fn monus(a: int, b: int) -> int {
    if a > b {
        a - b
    } else {
        0
    }
}

pub open spec fn abs(n: int) -> int {
    if n < 0 {
        -n
    } else {
        n
    }
}

pub open spec fn min_of(a: int, b: int) -> int {
    if a <= b {
        a
    } else {
        b
    }
}

pub open spec fn max_of(a: int, b: int) -> int {
    if a >= b {
        a
    } else {
        b
    }
}

/// The rounded quotient is the nearest integer: it is off by at most half the divisor.
pub proof fn lemma_round_div_nearest(n: int, d: int)
    requires
        d > 0,
    ensures
        -d < 2 * (round_div(n, d) * d - n) <= d,
{
    let q = round_div(n, d);
    lemma_fundamental_div_mod(n + d / 2, d);
    lemma_mul_is_commutative(q, d);
}

/// An integer within less than half a divisor is the rounded quotient.
pub proof fn lemma_round_div_unique(n: int, d: int, q: int)
    requires
        d > 0,
        -d < 2 * (q * d - n) <= d,
    ensures
        round_div(n, d) == q,
{
    lemma_fundamental_div_mod_converse(n + d / 2, d, q, n + d / 2 - q * d);
}

/// A larger number has a rounded quotient at least as large.
pub proof fn lemma_round_div_monotonic(a: int, b: int, d: int)
    requires
        d > 0,
        a <= b,
    ensures
        round_div(a, d) <= round_div(b, d),
{
    lemma_div_is_ordered(a + d / 2, b + d / 2, d);
}

/// The product of two bounded non-negative numbers is bounded by the product of the bounds.
pub proof fn lemma_product_bound(a: int, a_max: int, b: int, b_max: int)
    requires
        0 <= a <= a_max,
        0 <= b <= b_max,
    ensures
        0 <= a * b <= a_max * b_max,
{
    lemma_mul_inequality(0, a, b);
    lemma_mul_inequality(a, a_max, b);
    lemma_mul_inequality(b, b_max, a_max);
    lemma_mul_is_commutative(a_max, b);
    lemma_mul_is_commutative(a_max, b_max);
}

/// The low sixty-four bits of a wide number, as the remainder they are.
pub fn low64(x: u128) -> (r: u64)
    ensures
        r == (x as int) % two64(),
{
    let r: u64 = #[verifier::truncate] (x as u64);
    assert(r == x % 0x1_0000_0000_0000_0000u128) by (bit_vector)
        requires
            r == x as u64,
    ;
    r
}

/// The low sixty-four bits of a signed number, as the remainder they are.
pub fn low64_signed(x: i128) -> (r: u64)
    ensures
        r == (x as int) % two64(),
{
    let r: u64 = #[verifier::truncate] (x as u64);
    proof {
        let bits: u128 = #[verifier::truncate] (x as u128);
        assert(bits as int == if x >= 0 {
            x as int
        } else {
            x + 0x1_0000_0000_0000_0000_0000_0000_0000_0000
        }) by (bit_vector)
            requires
                bits == x as u128,
        ;
        assert(r == bits % 0x1_0000_0000_0000_0000u128) by (bit_vector)
            requires
                r == x as u64,
                bits == x as u128,
        ;
        if x < 0 {
            vstd::arithmetic::div_mod::lemma_mod_multiples_vanish(
                0x1_0000_0000_0000_0000,
                x as int,
                two64(),
            );
        }
    }
    r
}

/// A number held in sixty-four bits with a sign, what does not fit left out.
pub open spec fn wrap_i64(n: int) -> int {
    let low = n % two64();
    if low < 0x8000_0000_0000_0000 {
        low
    } else {
        low - two64()
    }
}

pub fn low_i64(x: i128) -> (r: i64)
    ensures
        r == wrap_i64(x as int),
{
    let low: u64 = low64_signed(x);
    if low < 0x8000_0000_0000_0000 {
        low as i64
    } else {
        (low as i128 - 0x1_0000_0000_0000_0000) as i64
    }
}

/// What sixty-four bits with a sign hold of a number differs from it by whole turns, and is in
/// range; a number in range is held as it is.
pub proof fn wrapping_leaves_out_whole_turns(n: int)
    ensures
        i64::MIN <= wrap_i64(n) <= i64::MAX,
        (n - wrap_i64(n)) % 0x1_0000_0000_0000_0000 == 0,
        i64::MIN <= n <= i64::MAX ==> wrap_i64(n) == n,
{
}

/// A distance is not negative, is the same both ways, and is nothing just between equals.
pub proof fn distances_are_distances(a: int, b: int, c: int)
    ensures
        abs(a - b) >= 0,
        abs(a - b) == abs(b - a),
        abs(a - b) == 0 <==> a == b,
        abs(a - c) <= abs(a - b) + abs(b - c),
        a <= b ==> abs(a - b) == b - a,
{
}

/// The smaller and the larger of two numbers are the two numbers, in order.
pub proof fn the_smaller_and_the_larger(a: int, b: int)
    ensures
        min_of(a, b) <= max_of(a, b),
        min_of(a, b) + max_of(a, b) == a + b,
        min_of(a, b) == a || min_of(a, b) == b,
        monus(a, b) == max_of(a, b) - b,
{
}

} // verus!
