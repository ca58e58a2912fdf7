//! Exact integer models of the fixed-point arithmetic the kernel uses:
//! truncating division, fixed-point multiplication and division, and the
//! integer square root.

use vstd::arithmetic::div_mod::{
    lemma_div_is_ordered, lemma_div_is_ordered_by_denominator, lemma_div_multiples_vanish,
    lemma_div_nonincreasing, lemma_div_pos_is_pos,
};
use vstd::prelude::*;

verus! {

/// Division truncating toward zero, as machine division does; total, with
/// a guard value of zero for non-positive divisors (never relied upon).
pub open spec fn tdiv(a: int, d: int) -> int {
    if d <= 0 {
        0
    } else if a >= 0 {
        a / d
    } else {
        -((-a) / d)
    }
}

/// Fixed-point product: the exact product scaled back down, truncated
/// toward zero.
pub open spec fn fmul(a: int, b: int) -> int {
    tdiv(a * b, crate::SCALE as int)
}

/// Fixed-point quotient: the dividend scaled up, then divided with
/// truncation toward zero.
pub open spec fn fdiv(a: int, d: int) -> int {
    tdiv(a * (crate::SCALE as int), d)
}

/// Floor of the square root of `n` (zero for negative `n`).
pub open spec fn sqrt_floor(n: int) -> int
    decreases n,
{
    if n <= 0 {
        0
    } else {
        let s = sqrt_floor(n - 1);
        if (s + 1) * (s + 1) <= n {
            s + 1
        } else {
            s
        }
    }
}

/// Truncating division stays within the scaled bound of its dividend.
pub proof fn lemma_tdiv_bounds(a: int, d: int, m: int)
    requires
        d > 0,
        0 <= m,
        -m <= a <= m,
    ensures
        -(m / d) <= tdiv(a, d) <= m / d,
        0 <= m / d <= m,
        a >= 0 ==> tdiv(a, d) >= 0,
{
    lemma_div_pos_is_pos(m, d);
    lemma_div_nonincreasing(m, d);
    if a >= 0 {
        lemma_div_pos_is_pos(a, d);
        lemma_div_is_ordered(a, m, d);
    } else {
        lemma_div_pos_is_pos(-a, d);
        lemma_div_is_ordered(-a, m, d);
    }
}

/// A bound on the divisor from below bounds the truncated quotient from
/// above, through the bound of the dividend.
pub proof fn lemma_tdiv_denominator(a: int, d: int, m: int, dmin: int)
    requires
        1 <= dmin <= d,
        0 <= m,
        -m <= a <= m,
    ensures
        -(m / dmin) <= tdiv(a, d) <= m / dmin,
{
    lemma_tdiv_bounds(a, d, m);
    lemma_div_is_ordered_by_denominator(m, dmin, d);
}

/// Dividing an exact multiple of the divisor recovers the other factor.
pub proof fn lemma_tdiv_multiples(x: int, d: int)
    requires
        0 <= x,
        0 < d,
    ensures
        tdiv(d * x, d) == x,
{
    lemma_div_multiples_vanish(x, d);
    assert(d * x >= 0) by (nonlinear_arith)
        requires
            0 <= x,
            0 < d,
    ;
}

/// Truncating division is monotone in the magnitude of a nonnegative
/// dividend.
pub proof fn lemma_tdiv_ordered(a: int, b: int, d: int)
    requires
        d > 0,
        0 <= a <= b,
    ensures
        0 <= tdiv(a, d) <= tdiv(b, d),
{
    lemma_div_pos_is_pos(a, d);
    lemma_div_is_ordered(a, b, d);
}

/// Negating the dividend negates the truncated quotient exactly.
pub proof fn lemma_tdiv_neg(a: int, d: int)
    ensures
        tdiv(-a, d) == -tdiv(a, d),
{
}

/// Magnitude bound for a fixed-point product, given bounds on the factors.
pub proof fn lemma_fmul_bounds(a: int, b: int, ma: int, mb: int)
    requires
        0 <= ma,
        0 <= mb,
        -ma <= a <= ma,
        -mb <= b <= mb,
    ensures
        -tdiv(ma * mb, crate::SCALE as int) <= fmul(a, b) <= tdiv(ma * mb, crate::SCALE as int),
        0 <= tdiv(ma * mb, crate::SCALE as int) <= ma * mb,
        -(ma * mb) <= a * b <= ma * mb,
{
    assert(-(ma * mb) <= a * b <= ma * mb) by (nonlinear_arith)
        requires
            0 <= ma,
            0 <= mb,
            -ma <= a <= ma,
            -mb <= b <= mb,
    ;
    assert(0 <= ma * mb) by (nonlinear_arith)
        requires
            0 <= ma,
            0 <= mb,
    ;
    lemma_tdiv_bounds(a * b, crate::SCALE as int, ma * mb);
}

/// Negating one factor negates a fixed-point product exactly.
pub proof fn lemma_fmul_neg_left(a: int, b: int)
    ensures
        fmul(-a, b) == -fmul(a, b),
{
    assert((-a) * b == -(a * b)) by (nonlinear_arith);
    lemma_tdiv_neg(a * b, crate::SCALE as int);
}

/// A fixed-point product with a zero factor is zero.
pub proof fn lemma_fmul_zero_left(b: int)
    ensures
        fmul(0, b) == 0,
{
    assert(0 * b == 0) by (nonlinear_arith);
}

/// A fixed-point product with a zero second factor is zero.
pub proof fn lemma_fmul_zero_right(a: int)
    ensures
        fmul(a, 0) == 0,
{
    assert(a * 0 == 0) by (nonlinear_arith);
}

/// Negating the second factor negates a fixed-point product exactly.
pub proof fn lemma_fmul_neg_right(a: int, b: int)
    ensures
        fmul(a, -b) == -fmul(a, b),
{
    assert(a * (-b) == -(a * b)) by (nonlinear_arith);
    lemma_tdiv_neg(a * b, crate::SCALE as int);
}

/// A fixed-point square is nonnegative, and negation does not change it.
pub proof fn lemma_fmul_square(a: int)
    ensures
        fmul(a, a) >= 0,
        fmul(-a, -a) == fmul(a, a),
{
    assert(a * a >= 0) by (nonlinear_arith);
    assert((-a) * (-a) == a * a) by (nonlinear_arith);
    lemma_div_pos_is_pos(a * a, crate::SCALE as int);
}

/// The characterizing properties of the integer square root.
pub proof fn lemma_sqrt_props(n: int)
    requires
        n >= 0,
    ensures
        sqrt_floor(n) >= 0,
        sqrt_floor(n) * sqrt_floor(n) <= n,
        (sqrt_floor(n) + 1) * (sqrt_floor(n) + 1) > n,
    decreases n,
{
    if n > 0 {
        lemma_sqrt_props(n - 1);
        let s = sqrt_floor(n - 1);
        if (s + 1) * (s + 1) <= n {
            assert((s + 2) * (s + 2) > n) by (nonlinear_arith)
                requires
                    s >= 0,
                    (s + 1) * (s + 1) > n - 1,
                    (s + 1) * (s + 1) <= n,
            ;
        }
    }
}

/// Any integer whose square brackets `n` is the integer square root of `n`.
pub proof fn lemma_sqrt_unique(n: int, r: int)
    requires
        n >= 0,
        r >= 0,
        r * r <= n,
        (r + 1) * (r + 1) > n,
    ensures
        r == sqrt_floor(n),
{
    lemma_sqrt_props(n);
    let s = sqrt_floor(n);
    if r < s {
        assert((r + 1) * (r + 1) <= s * s) by (nonlinear_arith)
            requires
                0 <= r,
                r + 1 <= s,
        ;
    }
    if s < r {
        assert((s + 1) * (s + 1) <= r * r) by (nonlinear_arith)
            requires
                0 <= s,
                s + 1 <= r,
        ;
    }
}

/// The square root is bounded below by any integer whose square is at
/// most `n`, and above by any integer whose square exceeds `n`.
pub proof fn lemma_sqrt_bounds(n: int, lo: int, hi: int)
    requires
        n >= 0,
        lo >= 0,
        hi >= 0,
        lo * lo <= n,
        (hi + 1) * (hi + 1) > n,
    ensures
        lo <= sqrt_floor(n) <= hi,
{
    lemma_sqrt_props(n);
    let s = sqrt_floor(n);
    if s < lo {
        assert((s + 1) * (s + 1) <= lo * lo) by (nonlinear_arith)
            requires
                0 <= s,
                s + 1 <= lo,
        ;
    }
    if hi < s {
        assert((hi + 1) * (hi + 1) <= s * s) by (nonlinear_arith)
            requires
                0 <= hi,
                hi + 1 <= s,
        ;
    }
}

/// Truncating division of a machine integer, computed through unsigned
/// division so that the result is exactly `tdiv`.
pub(crate) fn tdiv_i128(a: i128, d: i128) -> (r: i128)
    requires
        d > 0,
        a > i128::MIN,
    ensures
        r as int == tdiv(a as int, d as int),
{
    if a >= 0 {
        let q: u128 = (a as u128) / (d as u128);
        proof {
            lemma_div_pos_is_pos(a as int, d as int);
            lemma_div_nonincreasing(a as int, d as int);
        }
        q as i128
    } else {
        let q: u128 = ((-a) as u128) / (d as u128);
        proof {
            lemma_div_pos_is_pos(-(a as int), d as int);
            lemma_div_nonincreasing(-(a as int), d as int);
        }
        -(q as i128)
    }
}

/// Fixed-point multiplication on machine integers.
pub(crate) fn fmul_i128(a: i128, b: i128) -> (r: i128)
    requires
        -0x40000000000000000000000000000000 <= (a as int) * (b as int)
            <= 0x40000000000000000000000000000000,
    ensures
        r as int == fmul(a as int, b as int),
{
    let p: i128 = a * b;
    tdiv_i128(p, crate::SCALE as i128)
}

/// Fixed-point division on machine integers.
pub(crate) fn fdiv_i128(a: i128, d: i128) -> (r: i128)
    requires
        d > 0,
        -0x40000000000000000000000000000000 <= (a as int) * (crate::SCALE as int)
            <= 0x40000000000000000000000000000000,
    ensures
        r as int == fdiv(a as int, d as int),
{
    let p: i128 = a * (crate::SCALE as i128);
    tdiv_i128(p, d)
}

/// Floor of the square root of a machine integer, by bisection.
pub(crate) fn isqrt_u128(n: u128) -> (r: u128)
    requires
        n < 0x10000000000000000000000000000,
    ensures
        r as int == sqrt_floor(n as int),
        r < 0x1000000000000000,
{
    let mut lo: u128 = 0;
    let mut hi: u128 = 0xfffffffffffffff;
    proof {
        assert((0xfffffffffffffff + 1) * (0xfffffffffffffff + 1) > n as int) by (nonlinear_arith)
            requires
                n < 0x10000000000000000000000000000,
        ;
    }
    while lo < hi
        invariant
            lo <= hi,
            hi <= 0xfffffffffffffff,
            (lo as int) * (lo as int) <= n as int,
            (hi as int + 1) * (hi as int + 1) > n as int,
        decreases hi - lo,
    {
        let mid: u128 = lo + (hi - lo + 1) / 2;
        proof {
            assert((mid as int) * (mid as int) < 0x1000000000000000000000000000000) by (nonlinear_arith)
                requires
                    mid <= 0xfffffffffffffff,
            ;
        }
        let sq: u128 = mid * mid;
        if sq <= n {
            lo = mid;
        } else {
            hi = mid - 1;
        }
    }
    proof {
        lemma_sqrt_unique(n as int, lo as int);
    }
    lo
}

} // verus!
