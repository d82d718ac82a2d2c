//! Exact integer helpers for the tone curve: powers, and the comparison of two
//! products that do not fit a machine word.

use vstd::prelude::*;
use vstd::arithmetic::power::{pow, lemma_pow_positive};

verus! {

/// Two to the sixty-fourth, the base in which wide products are written.
pub(crate) const LIMB: u128 = 0x1_0000_0000_0000_0000;

/// Upper bound, exclusive, of the larger factor of a wide product: `2^88`.
pub(crate) const LARGE_FACTOR: u128 = 0x100_0000_0000_0000_0000_0000;

/// Upper bound, exclusive, of the smaller factor of a wide product: `2^80`.
pub(crate) const SMALL_FACTOR: u128 = 0x1_0000_0000_0000_0000_0000;

/// Powers grow with their base.
pub(crate) proof fn lemma_pow_base_increases(a: int, b: int, e: nat)
    requires
        0 <= a <= b,
    ensures
        0 <= pow(a, e) <= pow(b, e),
    decreases e,
{
    reveal(pow);
    if e > 0 {
        lemma_pow_base_increases(a, b, (e - 1) as nat);
        let x = pow(a, (e - 1) as nat);
        let y = pow(b, (e - 1) as nat);
        assert(0 <= a * x <= b * y) by (nonlinear_arith)
            requires
                0 <= a <= b,
                0 <= x <= y,
        ;
    }
}

/// Powers of a positive base grow strictly with the base.
pub(crate) proof fn lemma_pow_base_strictly_increases(a: int, b: int, e: nat)
    requires
        0 <= a < b,
        e > 0,
    ensures
        pow(a, e) < pow(b, e),
    decreases e,
{
    reveal(pow);
    lemma_pow_base_increases(a, b, (e - 1) as nat);
    lemma_pow_positive(b, (e - 1) as nat);
    let x = pow(a, (e - 1) as nat);
    let y = pow(b, (e - 1) as nat);
    assert(a * x < b * y) by (nonlinear_arith)
        requires
            0 <= a < b,
            0 <= x <= y,
            0 < y,
    ;
}

/// `base` raised to `exponent`, for a result that fits the machine word.
pub(crate) fn power(base: u128, exponent: u32) -> (r: u128)
    requires
        pow(base as int, exponent as nat) <= u128::MAX,
    ensures
        r == pow(base as int, exponent as nat),
{
    let mut r: u128 = 1;
    let mut i: u32 = 0;
    proof {
        reveal(pow);
    }
    while i < exponent
        invariant
            i <= exponent,
            r == pow(base as int, i as nat),
            pow(base as int, exponent as nat) <= u128::MAX,
        decreases exponent - i,
    {
        proof {
            lemma_pow_step_bounded(base as int, i as nat, exponent as nat);
            reveal(pow);
        }
        r = r * base;
        i = i + 1;
    }
    r
}

/// A partial product of a power never passes the whole power, unless the base
/// is zero, where it is zero.
proof fn lemma_pow_step_bounded(base: int, i: nat, e: nat)
    requires
        0 <= base,
        i < e,
    ensures
        0 <= base * pow(base, i) <= pow(base, e),
        base * pow(base, i) == pow(base, i + 1),
{
    reveal(pow);
    if base == 0 {
        assert(base * pow(base, i) == 0) by (nonlinear_arith)
            requires
                base == 0,
        ;
        lemma_pow_base_increases(0, 0, e);
    } else {
        vstd::arithmetic::power::lemma_pow_increases(base as nat, i + 1, e);
        lemma_pow_positive(base, i + 1);
    }
}

/// The product `a * b` written in base [`LIMB`] as `(high, low)`.
pub(crate) fn wide_product(a: u128, b: u128) -> (r: (u128, u128))
    requires
        a < LARGE_FACTOR,
        b < SMALL_FACTOR,
    ensures
        r.1 < LIMB,
        r.0 * LIMB + r.1 == a * b,
{
    let a1 = a / LIMB;
    let a0 = a % LIMB;
    let b1 = b / LIMB;
    let b0 = b % LIMB;
    assert(a1 < 0x100_0000 && b1 < 0x1_0000);
    assert(a1 * b0 < 0x100_0000 * LIMB && a0 * b1 < 0x1_0000 * LIMB && a1 * b1 < 0x100_0000
        * 0x1_0000 && a0 * b0 <= (LIMB - 1) * (LIMB - 1)) by (nonlinear_arith)
        requires
            a1 < 0x100_0000,
            b1 < 0x1_0000,
            a0 < LIMB,
            b0 < LIMB,
    ;
    let low = a0 * b0;
    let cross = a1 * b0 + a0 * b1;
    let top = (a1 * b1) * LIMB;
    let high = cross + top + low / LIMB;
    assert(a * b == (a1 * b1) * LIMB * LIMB + (a1 * b0 + a0 * b1) * LIMB + a0 * b0)
        by (nonlinear_arith)
        requires
            a == a1 * LIMB + a0,
            b == b1 * LIMB + b0,
    ;
    (high, low % LIMB)
}

/// Whether `a * b <= c * d`, decided exactly.
pub(crate) fn product_le(a: u128, b: u128, c: u128, d: u128) -> (le: bool)
    requires
        a < LARGE_FACTOR,
        b < SMALL_FACTOR,
        c < LARGE_FACTOR,
        d < SMALL_FACTOR,
    ensures
        le == (a * b <= c * d),
{
    let (left_high, left_low) = wide_product(a, b);
    let (right_high, right_low) = wide_product(c, d);
    left_high < right_high || (left_high == right_high && left_low <= right_low)
}

} // verus!
