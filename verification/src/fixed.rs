//! Saturating fixed-point scalar arithmetic.
//!
//! A scalar is an `i64` holding a multiple of `1 / ONE`. Every operation
//! saturates into `[-SAT_MAX, SAT_MAX]`; the symmetric range makes
//! negation total. Multiplication and division truncate toward zero,
//! and the square root rounds down; each operation's contract states the
//! exact integer it returns.

use vstd::prelude::*;

verus! {

/// Number of fixed-point steps in one unit: scalars count millionths.
pub const ONE: i64 = 1_000_000;

/// Largest scalar magnitude; results are clamped into `[-SAT_MAX, SAT_MAX]`.
pub const SAT_MAX: i64 = i64::MAX;

/// Clamp a mathematical integer into the representable scalar range.
pub open spec fn sat(x: int) -> int {
    if x > SAT_MAX as int {
        SAT_MAX as int
    } else if x < -(SAT_MAX as int) {
        -(SAT_MAX as int)
    } else {
        x
    }
}

/// Absolute value on mathematical integers.
pub open spec fn iabs(x: int) -> int {
    if x < 0 {
        -x
    } else {
        x
    }
}

/// Quotient of `p / q` truncated toward zero (the rounding that the
/// executable operations use).
pub open spec fn tdiv(p: int, q: int) -> int
    recommends
        q != 0,
{
    if (p < 0) == (q < 0) {
        iabs(p) / iabs(q)
    } else {
        -(iabs(p) / iabs(q))
    }
}

/// The exact value of fixed-point multiplication.
pub open spec fn fmul(a: int, b: int) -> int {
    sat(tdiv(a * b, ONE as int))
}

/// The exact value of fixed-point division.
pub open spec fn fdiv(a: int, b: int) -> int
    recommends
        b != 0,
{
    sat(tdiv(a * (ONE as int), b))
}

/// Saturating addition.
pub fn fp_add(a: i64, b: i64) -> (r: i64)
    ensures
        r == sat(a + b),
{
    let s: i128 = a as i128 + b as i128;
    if s > SAT_MAX as i128 {
        SAT_MAX
    } else if s < -(SAT_MAX as i128) {
        -SAT_MAX
    } else {
        s as i64
    }
}

/// Saturating subtraction.
pub fn fp_sub(a: i64, b: i64) -> (r: i64)
    ensures
        r == sat(a - b),
{
    let s: i128 = a as i128 - b as i128;
    if s > SAT_MAX as i128 {
        SAT_MAX
    } else if s < -(SAT_MAX as i128) {
        -SAT_MAX
    } else {
        s as i64
    }
}

/// Saturating negation.
pub fn fp_neg(a: i64) -> (r: i64)
    ensures
        r == sat(-a),
{
    if a == i64::MIN {
        SAT_MAX
    } else {
        -a
    }
}

/// The smaller of two scalars.
pub fn fp_min(a: i64, b: i64) -> (r: i64)
    ensures
        r == if a <= b { a as int } else { b as int },
{
    if a <= b {
        a
    } else {
        b
    }
}

/// A whole number of units as a scalar.
pub fn int_to_fp(k: i64) -> (r: i64)
    requires
        -9_223_372_036_854 <= k <= 9_223_372_036_854,
    ensures
        r == k * (ONE as int),
{
    k * ONE
}

/// Saturating fixed-point multiplication, truncating toward zero.
pub fn fp_mul(a: i64, b: i64) -> (r: i64)
    ensures
        r == fmul(a as int, b as int),
{
    proof {
        assert((a as int) * (b as int) <= i128::MAX as int && (a as int) * (b as int)
            >= -(i128::MAX as int)) by (nonlinear_arith)
            requires
                i64::MIN <= a <= i64::MAX,
                i64::MIN <= b <= i64::MAX,
        ;
    }
    let p: i128 = (a as i128) * (b as i128);
    let m: u128 = if p < 0 {
        (-p) as u128
    } else {
        p as u128
    };
    let q: u128 = m / (ONE as u128);
    if p < 0 {
        if q >= SAT_MAX as u128 {
            -SAT_MAX
        } else {
            -(q as i64)
        }
    } else {
        if q >= SAT_MAX as u128 {
            SAT_MAX
        } else {
            q as i64
        }
    }
}

/// Saturating fixed-point division, truncating toward zero.
pub fn fp_div(a: i64, b: i64) -> (r: i64)
    requires
        b != 0,
    ensures
        r == fdiv(a as int, b as int),
{
    let p: i128 = (a as i128) * (ONE as i128);
    proof {
        assert(-(i128::MAX as int) <= (a as int) * (ONE as int) <= i128::MAX as int)
            by (nonlinear_arith)
            requires
                i64::MIN <= a <= i64::MAX,
        ;
    }
    let m: u128 = if p < 0 {
        (-p) as u128
    } else {
        p as u128
    };
    let d: u128 = if b < 0 {
        (-(b as i128)) as u128
    } else {
        b as u128
    };
    let q: u128 = m / d;
    if (p < 0) != (b < 0) {
        if q >= SAT_MAX as u128 {
            -SAT_MAX
        } else {
            -(q as i64)
        }
    } else {
        if q >= SAT_MAX as u128 {
            SAT_MAX
        } else {
            q as i64
        }
    }
}

/// Truncating division is monotone in the dividend for a positive
/// divisor.
pub proof fn lemma_tdiv_monotone(p1: int, p2: int, q: int)
    requires
        p1 <= p2,
        q > 0,
    ensures
        tdiv(p1, q) <= tdiv(p2, q),
{
    if 0 <= p1 {
        vstd::arithmetic::div_mod::lemma_div_is_ordered(p1, p2, q);
    } else if p2 < 0 {
        vstd::arithmetic::div_mod::lemma_div_is_ordered(-p2, -p1, q);
    } else {
        vstd::arithmetic::div_mod::lemma_div_pos_is_pos(-p1, q);
        vstd::arithmetic::div_mod::lemma_div_pos_is_pos(p2, q);
    }
}

/// Fixed-point division is monotone in the dividend for a positive
/// divisor.
pub proof fn lemma_fdiv_monotone(a1: int, a2: int, b: int)
    requires
        a1 <= a2,
        b > 0,
    ensures
        fdiv(a1, b) <= fdiv(a2, b),
{
    lemma_tdiv_monotone(a1 * (ONE as int), a2 * (ONE as int), b);
}

/// A product of nonnegative scalars is nonnegative.
pub proof fn lemma_fmul_nonneg(a: int, b: int)
    requires
        a >= 0,
        b >= 0,
    ensures
        fmul(a, b) >= 0,
{
    assert(a * b >= 0) by (nonlinear_arith)
        requires
            a >= 0,
            b >= 0,
    ;
    vstd::arithmetic::div_mod::lemma_div_pos_is_pos(a * b, ONE as int);
}

/// Scaling by a factor in `[0, 1]` contracts a nonnegative scalar
/// toward zero: attenuation never brightens a channel.
pub proof fn lemma_fmul_unit_contract(a: int, b: int)
    requires
        0 <= a <= ONE,
        0 <= b,
    ensures
        0 <= fmul(a, b) <= b,
{
    assert(0 <= a * b <= (ONE as int) * b) by (nonlinear_arith)
        requires
            0 <= a <= ONE,
            0 <= b,
    ;
    vstd::arithmetic::div_mod::lemma_div_pos_is_pos(a * b, ONE as int);
    vstd::arithmetic::div_mod::lemma_div_is_ordered(a * b, (ONE as int) * b, ONE as int);
    vstd::arithmetic::div_mod::lemma_div_multiples_vanish(b, ONE as int);
}

/// A quotient of nonnegative by positive is nonnegative.
pub proof fn lemma_fdiv_nonneg(a: int, b: int)
    requires
        a >= 0,
        b > 0,
    ensures
        fdiv(a, b) >= 0,
{
    vstd::arithmetic::div_mod::lemma_div_pos_is_pos(a * (ONE as int), b);
}

/// Negating the divisor negates a fixed-point quotient.
pub proof fn lemma_fdiv_neg_divisor(a: int, b: int)
    requires
        b != 0,
    ensures
        fdiv(a, -b) == -fdiv(a, b),
{
    assert(iabs(-b) == iabs(b));
}

/// Largest integer whose square does not exceed `n` (0 for negative `n`).
pub open spec fn sqrt_floor(n: int) -> int
    decreases n,
{
    if n <= 0 {
        0
    } else {
        let p = sqrt_floor(n - 1);
        if (p + 1) * (p + 1) <= n {
            p + 1
        } else {
            p
        }
    }
}

/// The exact value of the fixed-point square root.
pub open spec fn fsqrt(a: int) -> int {
    sqrt_floor(a * (ONE as int))
}

/// `sqrt_floor(n)` really is the floor of the square root of `n`.
pub proof fn lemma_sqrt_floor_bounds(n: int)
    requires
        n >= 0,
    ensures
        sqrt_floor(n) >= 0,
        sqrt_floor(n) * sqrt_floor(n) <= n,
        (sqrt_floor(n) + 1) * (sqrt_floor(n) + 1) > n,
    decreases n,
{
    if n == 0 {
        assert(sqrt_floor(0) == 0);
    } else {
        lemma_sqrt_floor_bounds(n - 1);
        let p = sqrt_floor(n - 1);
        if (p + 1) * (p + 1) <= n {
            assert((p + 2) * (p + 2) > n) by (nonlinear_arith)
                requires
                    p >= 0,
                    (p + 1) * (p + 1) > n - 1,
            ;
        }
    }
}

/// Any integer trapped between the same squares equals `sqrt_floor(n)`.
pub proof fn lemma_sqrt_floor_unique(n: int, r: int)
    requires
        n >= 0,
        r >= 0,
        r * r <= n,
        (r + 1) * (r + 1) > n,
    ensures
        r == sqrt_floor(n),
{
    let s = sqrt_floor(n);
    lemma_sqrt_floor_bounds(n);
    if r < s {
        assert(false) by (nonlinear_arith)
            requires
                0 <= r < s,
                (r + 1) * (r + 1) > n,
                s * s <= n,
        ;
    }
    if s < r {
        assert(false) by (nonlinear_arith)
            requires
                0 <= s < r,
                (s + 1) * (s + 1) > n,
                r * r <= n,
        ;
    }
}

/// Fixed-point square root, rounded down.
pub fn fp_sqrt(a: i64) -> (r: i64)
    requires
        a >= 0,
    ensures
        r == fsqrt(a as int),
        r >= 0,
{
    proof {
        assert((a as int) * (ONE as int) <= u128::MAX as int) by (nonlinear_arith)
            requires
                0 <= a <= i64::MAX,
        ;
    }
    let n: u128 = (a as u128) * (ONE as u128);
    let mut lo: u64 = 0;
    let mut hi: u64 = 3_100_000_000_000;
    proof {
        assert(n < (3_100_000_000_000 + 1) * (3_100_000_000_000 + 1)) by (nonlinear_arith)
            requires
                n == (a as int) * (ONE as int),
                0 <= a <= i64::MAX,
        ;
    }
    while lo < hi
        invariant
            lo <= hi <= 3_100_000_000_000,
            (lo as int) * (lo as int) <= n as int,
            (n as int) < ((hi as int) + 1) * ((hi as int) + 1),
        decreases hi - lo,
    {
        let mid: u64 = lo + (hi - lo + 1) / 2;
        proof {
            assert((mid as int) * (mid as int) <= u128::MAX as int) by (nonlinear_arith)
                requires
                    0 <= mid <= 3_100_000_000_000,
            ;
        }
        if (mid as u128) * (mid as u128) <= n {
            lo = mid;
        } else {
            hi = mid - 1;
        }
    }
    proof {
        lemma_sqrt_floor_unique(n as int, lo as int);
    }
    lo as i64
}

} // verus!
