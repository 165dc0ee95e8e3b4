//! Fixed-point arithmetic: scene coordinates are held as `i64` multiples
//! of `1/SCALE`, so every computation of the renderer is exact integer
//! arithmetic with truncating division, and an integer square root stands
//! in for the real one.

use vstd::prelude::*;

verus! {

/// Number of fixed-point units that make one whole unit of scene space.
pub const SCALE: i64 = 65536;

/// Largest magnitude, in fixed-point units, allowed for a scene
/// coordinate, a radius or a ray-direction component; keeps every
/// intermediate product inside `i128` and every quotient inside `i64`.
pub const COORD_LIMIT: i64 = 16777216;

/// Sentinel ray parameter standing for "no intersection": larger than
/// every representable hit distance.
pub const T_INF: i64 = i64::MAX;

/// Division truncating toward zero, as the machine division of signed
/// integers behaves (`/` on `int` alone would round toward minus
/// infinity for negative dividends).
pub open spec fn tdiv(a: int, b: int) -> int {
    if a >= 0 {
        a / b
    } else {
        -((-a) / b)
    }
}

/// Truncating division of two `i128` values with a positive divisor.
pub fn div_trunc(a: i128, b: i128) -> (r: i128)
    requires
        b > 0,
        a > i128::MIN,
    ensures
        r == tdiv(a as int, b as int),
{
    a / b
}

/// The magnitude of a truncating quotient is at most `m / b` whenever the
/// dividend's magnitude is at most `m`.
pub proof fn lemma_tdiv_abs_bound(a: int, b: int, m: int)
    requires
        b >= 1,
        -m <= a <= m,
    ensures
        -(m / b) <= tdiv(a, b) <= m / b,
{
    if a >= 0 {
        vstd::arithmetic::div_mod::lemma_div_is_ordered(0, a, b);
        vstd::arithmetic::div_mod::lemma_div_is_ordered(a, m, b);
    } else {
        vstd::arithmetic::div_mod::lemma_div_is_ordered(0, -a, b);
        vstd::arithmetic::div_mod::lemma_div_is_ordered(-a, m, b);
        vstd::arithmetic::div_mod::lemma_div_is_ordered(0, m, b);
    }
}

/// Truncating division by a positive divisor is monotone in the dividend.
pub proof fn lemma_tdiv_monotone(a1: int, a2: int, b: int)
    requires
        a1 <= a2,
        b >= 1,
    ensures
        tdiv(a1, b) <= tdiv(a2, b),
{
    if a1 >= 0 {
        vstd::arithmetic::div_mod::lemma_div_is_ordered(a1, a2, b);
    } else if a2 >= 0 {
        vstd::arithmetic::div_mod::lemma_div_is_ordered(0, -a1, b);
        vstd::arithmetic::div_mod::lemma_div_is_ordered(0, a2, b);
    } else {
        vstd::arithmetic::div_mod::lemma_div_is_ordered(-a2, -a1, b);
    }
}

/// The integer square root: the largest `r` with `r * r <= n`.
pub open spec fn sqrt_floor(n: nat) -> nat
    decreases n,
{
    if n == 0 {
        0
    } else {
        let s = sqrt_floor((n - 1) as nat);
        if (s + 1) * (s + 1) <= n {
            (s + 1) as nat
        } else {
            s
        }
    }
}

/// `sqrt_floor(n)` is indeed the floor of the square root of `n`.
pub proof fn lemma_sqrt_floor_bounds(n: nat)
    ensures
        sqrt_floor(n) * sqrt_floor(n) <= n,
        n < (sqrt_floor(n) + 1) * (sqrt_floor(n) + 1),
    decreases n,
{
    if n > 0 {
        let s = sqrt_floor((n - 1) as nat);
        lemma_sqrt_floor_bounds((n - 1) as nat);
        if (s + 1) * (s + 1) <= n {
            assert(sqrt_floor(n) == s + 1);
            assert(n <= (s + 1) * (s + 1));
            assert((s + 1) * (s + 1) < (s + 2) * (s + 2)) by (nonlinear_arith);
            assert(n < (s + 1 + 1) * (s + 1 + 1));
        } else {
            assert(sqrt_floor(n) == s);
        }
    } else {
        let s0 = sqrt_floor(n);
        assert(s0 == 0);
        assert(n < (s0 + 1) * (s0 + 1)) by (nonlinear_arith)
            requires
                s0 == 0,
                n == 0,
        ;
    }
}

/// Any `r` whose square brackets `n` is the integer square root of `n`.
pub proof fn lemma_sqrt_floor_unique(n: nat, r: nat)
    requires
        r * r <= n,
        n < (r + 1) * (r + 1),
    ensures
        r == sqrt_floor(n),
{
    let s = sqrt_floor(n);
    lemma_sqrt_floor_bounds(n);
    if r < s {
        assert((r + 1) * (r + 1) <= s * s) by (nonlinear_arith)
            requires
                r + 1 <= s,
        ;
    }
    if s < r {
        assert((s + 1) * (s + 1) <= r * r) by (nonlinear_arith)
            requires
                s + 1 <= r,
        ;
    }
}

/// Upper bound on the arguments `isqrt` accepts; the square of
/// `ISQRT_ROOT_LIMIT`.
pub const ISQRT_ARG_LIMIT: u128 = 1329227995784915872903807060280344576;

/// Initial upper end of the square-root binary search.
pub const ISQRT_ROOT_LIMIT: u128 = 1152921504606846976;

/// Floor of the square root of `n`, by binary search.
pub fn isqrt(n: u128) -> (r: u128)
    requires
        n < ISQRT_ARG_LIMIT,
    ensures
        r == sqrt_floor(n as nat),
        r * r <= n,
{
    proof {
        assert((ISQRT_ROOT_LIMIT as int) * (ISQRT_ROOT_LIMIT as int) == ISQRT_ARG_LIMIT as int)
            by (nonlinear_arith);
    }
    let mut lo: u128 = 0;
    let mut hi: u128 = ISQRT_ROOT_LIMIT;
    while lo + 1 < hi
        invariant
            lo < hi <= ISQRT_ROOT_LIMIT,
            (lo as int) * (lo as int) <= n as int,
            (n as int) < (hi as int) * (hi as int),
        decreases hi - lo,
    {
        let mid: u128 = lo + (hi - lo) / 2;
        proof {
            assert((mid as int) * (mid as int) < (ISQRT_ROOT_LIMIT as int) * (ISQRT_ROOT_LIMIT
                as int)) by (nonlinear_arith)
                requires
                    0 <= mid < ISQRT_ROOT_LIMIT,
            ;
        }
        if mid * mid <= n {
            lo = mid;
        } else {
            hi = mid;
        }
    }
    proof {
        lemma_sqrt_floor_unique(n as nat, lo as nat);
    }
    lo
}

} // verus!
