//! Scalar helpers: truncating division and integer square roots.

use vstd::prelude::*;
use vstd::arithmetic::div_mod::lemma_div_is_ordered;
use vstd::arithmetic::div_mod::lemma_div_is_ordered_by_denominator;
use vstd::arithmetic::div_mod::lemma_div_multiples_vanish;
use vstd::arithmetic::div_mod::lemma_div_pos_is_pos;
use vstd::arithmetic::div_mod::lemma_fundamental_div_mod;
use vstd::arithmetic::mul::lemma_mul_is_commutative;

verus! {

/// Division of `a` by a positive `b` rounding toward zero, as Rust's `/` on
/// signed integers does (spec-level `/` rounds toward negative infinity).
pub open spec fn tdiv(a: int, b: int) -> int {
    if a >= 0 {
        a / b
    } else {
        -((-a) / b)
    }
}

/// `tdiv` never grows the magnitude of what it divides: the quotient times
/// the divisor stays between zero and the dividend, within one divisor of
/// the dividend.
pub proof fn lemma_tdiv_times_divisor(a: int, d: int)
    requires
        0 < d,
    ensures
        a >= 0 ==> 0 <= tdiv(a, d) * d <= a && a - d < tdiv(a, d) * d,
        a < 0 ==> a <= tdiv(a, d) * d <= 0 && tdiv(a, d) * d < a + d,
{
    if a >= 0 {
        lemma_fundamental_div_mod(a, d);
        lemma_div_pos_is_pos(a, d);
        let q = a / d;
        assert(0 <= tdiv(a, d) * d <= a && a - d < tdiv(a, d) * d) by (nonlinear_arith)
            requires
                0 < d,
                a == d * q + a % d,
                0 <= a % d < d,
                0 <= q,
                tdiv(a, d) == q,
        ;
    } else {
        lemma_fundamental_div_mod(-a, d);
        lemma_div_pos_is_pos(-a, d);
        let p = (-a) / d;
        assert(a <= tdiv(a, d) * d <= 0 && tdiv(a, d) * d < a + d) by (nonlinear_arith)
            requires
                0 < d,
                -a == d * p + (-a) % d,
                0 <= (-a) % d < d,
                0 <= p,
                tdiv(a, d) == -p,
        ;
    }
}

/// When `d` divides `a` evenly, scaling the dividend by `k` scales the
/// quotient by `k`.
pub proof fn lemma_tdiv_exact_scale(a: int, k: int, d: int)
    requires
        0 < d,
        a % d == 0,
    ensures
        tdiv(k * a, d) == k * tdiv(a, d),
        tdiv(a, d) * d == a,
{
    lemma_fundamental_div_mod(a, d);
    let t = a / d;
    assert(a == d * t);
    lemma_div_multiples_vanish(t, d);
    if a >= 0 {
        assert(tdiv(a, d) == t);
    } else {
        assert(-a == d * (-t)) by (nonlinear_arith)
            requires
                a == d * t,
        ;
        lemma_div_multiples_vanish(-t, d);
        assert(tdiv(a, d) == t);
    }
    assert(k * a == d * (k * t) && -(k * a) == d * (-(k * t))) by (nonlinear_arith)
        requires
            a == d * t,
    ;
    if k * a >= 0 {
        lemma_div_multiples_vanish(k * t, d);
        assert(tdiv(k * a, d) == k * t);
    } else {
        lemma_div_multiples_vanish(-(k * t), d);
        assert(tdiv(k * a, d) == k * t);
    }
    assert(tdiv(a, d) * d == a) by (nonlinear_arith)
        requires
            tdiv(a, d) == t,
            a == d * t,
    ;
}

/// A dividend bounded by `m` times the divisor has a quotient bounded by `m`.
pub proof fn lemma_tdiv_bounded(a: int, d: int, m: int)
    requires
        0 < d,
        0 <= m,
        -(m * d) <= a <= m * d,
    ensures
        -m <= tdiv(a, d) <= m,
{
    lemma_mul_is_commutative(m, d);
    lemma_div_multiples_vanish(m, d);
    if a >= 0 {
        lemma_div_is_ordered(a, m * d, d);
        lemma_div_pos_is_pos(a, d);
    } else {
        lemma_div_is_ordered(-a, m * d, d);
        lemma_div_pos_is_pos(-a, d);
    }
}

/// Truncating division, matching `tdiv`.
pub fn div_trunc(a: i64, b: i64) -> (q: i64)
    requires
        0 < b,
        i64::MIN < a,
    ensures
        q == tdiv(a as int, b as int),
{
    if a >= 0 {
        let q0: u64 = (a as u64) / (b as u64);
        proof {
            lemma_div_is_ordered_by_denominator(a as int, 1, b as int);
        }
        q0 as i64
    } else {
        let na: i64 = -a;
        let q0: u64 = (na as u64) / (b as u64);
        proof {
            lemma_div_is_ordered_by_denominator(na as int, 1, b as int);
        }
        -(q0 as i64)
    }
}

/// `r` is the integer square root of `n`, rounded down.
pub open spec fn is_sqrt_floor(n: int, r: int) -> bool {
    &&& 0 <= r
    &&& r * r <= n
    &&& n < (r + 1) * (r + 1)
}

/// The integer square root of `n`, rounded down (meaningful for `n >= 0`;
/// see `lemma_sqrt_floor_is_sqrt`).
pub open spec fn sqrt_floor(n: int) -> int {
    choose|r: int| is_sqrt_floor(n, r)
}

/// The integer square root of `n`, rounded up.
pub open spec fn sqrt_ceil(n: int) -> int {
    if sqrt_floor(n) * sqrt_floor(n) == n {
        sqrt_floor(n)
    } else {
        sqrt_floor(n) + 1
    }
}

/// Every nonnegative integer has a rounded-down square root, and
/// `sqrt_floor` denotes it.
pub proof fn lemma_sqrt_floor_is_sqrt(n: int)
    requires
        0 <= n,
    ensures
        is_sqrt_floor(n, sqrt_floor(n)),
    decreases n,
{
    if n == 0 {
        assert(is_sqrt_floor(0, 0));
    } else {
        lemma_sqrt_floor_is_sqrt(n - 1);
        let r0 = sqrt_floor(n - 1);
        if (r0 + 1) * (r0 + 1) <= n {
            assert(is_sqrt_floor(n, r0 + 1)) by (nonlinear_arith)
                requires
                    0 <= r0,
                    (r0 + 1) * (r0 + 1) <= n,
                    n - 1 < (r0 + 1) * (r0 + 1),
            ;
        } else {
            assert(is_sqrt_floor(n, r0));
        }
    }
}

/// The rounded-down square root is unique.
pub proof fn lemma_sqrt_floor_unique(n: int, r: int)
    requires
        is_sqrt_floor(n, r),
    ensures
        r == sqrt_floor(n),
{
    let s = sqrt_floor(n);
    assert(is_sqrt_floor(n, s));
    assert(r == s) by (nonlinear_arith)
        requires
            0 <= r,
            r * r <= n,
            n < (r + 1) * (r + 1),
            0 <= s,
            s * s <= n,
            n < (s + 1) * (s + 1),
    ;
}

/// Integer square root, rounded down.
pub fn isqrt(n: u64) -> (r: u64)
    requires
        n < 4_611_686_018_427_387_904u64,
    ensures
        r == sqrt_floor(n as int),
        is_sqrt_floor(n as int, r as int),
{
    let mut lo: u64 = 0;
    let mut hi: u64 = 2_147_483_648;
    assert(n < hi * hi) by (nonlinear_arith)
        requires
            n < 4_611_686_018_427_387_904u64,
            hi == 2_147_483_648u64,
    ;
    while lo + 1 < hi
        invariant
            lo < hi,
            hi <= 2_147_483_648,
            lo * lo <= n,
            n < hi * hi,
        decreases hi - lo,
    {
        let mid: u64 = lo + (hi - lo) / 2;
        assert(mid * mid < 4_611_686_018_427_387_905u64) by (nonlinear_arith)
            requires
                mid <= 2_147_483_648u64,
        ;
        if mid * mid <= n {
            lo = mid;
        } else {
            hi = mid;
        }
    }
    proof {
        assert(is_sqrt_floor(n as int, lo as int));
        lemma_sqrt_floor_unique(n as int, lo as int);
    }
    lo
}

/// Integer square root, rounded up.
pub fn isqrt_ceil(n: u64) -> (r: u64)
    requires
        n < 4_611_686_018_427_387_904u64,
    ensures
        r == sqrt_ceil(n as int),
        n <= (r as int) * (r as int),
        r <= 2_147_483_648,
{
    let f = isqrt(n);
    proof {
        assert((f as int) * (f as int) <= n as int);
        assert(f < 2_147_483_648u64 && (f as int) * (f as int)
            < 4_611_686_018_427_387_904) by (nonlinear_arith)
            requires
                (f as int) * (f as int) <= n as int,
                n < 4_611_686_018_427_387_904u64,
                0 <= f,
        ;
    }
    if f * f == n {
        f
    } else {
        f + 1
    }
}

} // verus!
