//! Integer helpers the engines share: clamping, truncating division with an
//! always-positive divisor, and an exact integer square root.

use vstd::prelude::*;

verus! {

/// `v` pushed into `[lo, hi]`.
pub open spec fn clamped(v: int, lo: int, hi: int) -> int {
    if v < lo {
        lo
    } else if v > hi {
        hi
    } else {
        v
    }
}

pub fn clamp_i64(v: i64, lo: i64, hi: i64) -> (out: i64)
    requires
        lo <= hi,
    ensures
        out == clamped(v as int, lo as int, hi as int),
{
    if v < lo {
        lo
    } else if v > hi {
        hi
    } else {
        v
    }
}

/// Division rounded toward zero, defined for positive divisors; this is the
/// rounding executable signed division uses.
pub open spec fn div_towards_zero(a: int, b: int) -> int
    recommends
        b > 0,
{
    if a >= 0 {
        a / b
    } else {
        -((-a) / b)
    }
}

/// Magnitude never grows under division by a positive value.
pub proof fn lemma_div_towards_zero_bound(a: int, b: int)
    requires
        b > 0,
    ensures
        a >= 0 ==> 0 <= div_towards_zero(a, b) <= a,
        a < 0 ==> a <= div_towards_zero(a, b) <= 0,
        b == 1 ==> div_towards_zero(a, b) == a,
{
    if a >= 0 {
        assert(0 <= a / b <= a) by (nonlinear_arith)
            requires
                a >= 0 && b > 0,
        ;
        if b == 1 {
            assert(a / 1 == a) by (nonlinear_arith);
        }
    } else {
        assert(0 <= (-a) / b <= -a) by (nonlinear_arith)
            requires
                a < 0 && b > 0,
        ;
        if b == 1 {
            assert((-a) / 1 == -a) by (nonlinear_arith);
        }
    }
}

/// The quotient shrinks when the divisor grows: `|a/b| <= |a|/c` for `c <= b`.
pub proof fn lemma_div_towards_zero_mono(a: int, b: int, c: int)
    requires
        0 < c <= b,
    ensures
        a >= 0 ==> div_towards_zero(a, b) <= a / c,
        a < 0 ==> div_towards_zero(a, b) >= -((-a) / c),
{
    if a >= 0 {
        assert(a / b <= a / c) by (nonlinear_arith)
            requires
                a >= 0 && 0 < c <= b,
        ;
    } else {
        assert((-a) / b <= (-a) / c) by (nonlinear_arith)
            requires
                -a >= 0 && 0 < c <= b,
        ;
    }
}

/// Truncating division of a wide value by a positive wide divisor.
pub fn div_i128(a: i128, b: i128) -> (q: i128)
    requires
        b > 0,
        a > i128::MIN,
    ensures
        q == div_towards_zero(a as int, b as int),
{
    if a >= 0 {
        let q = (a as u128) / (b as u128);
        q as i128
    } else {
        let m = ((-(a as i128)) as u128) / (b as u128);
        proof {
            assert(m <= (-a) as u128) by {
                lemma_div_towards_zero_bound(-(a as int), b as int);
            }
        }
        -(m as i128)
    }
}

/// Truncating division on `i64`, for positive divisors.
pub fn div_i64(a: i64, b: i64) -> (q: i64)
    requires
        b > 0,
    ensures
        q == div_towards_zero(a as int, b as int),
{
    proof {
        lemma_div_towards_zero_bound(a as int, b as int);
    }
    div_i128(a as i128, b as i128) as i64
}

/// The exact integer square root: the greatest `r` with `r * r <= n`.
pub fn isqrt_u128(n: u128) -> (r: u64)
    ensures
        r * r <= n < (r + 1) * (r + 1),
{
    let mut lo: u128 = 0;
    let mut hi: u128 = 0xFFFF_FFFF_FFFF_FFFF;
    if n < hi {
        hi = n;
    }
    proof {
        assert((hi + 1) * (hi + 1) > n) by (nonlinear_arith)
            requires
                hi >= n || hi == 0xFFFF_FFFF_FFFF_FFFFu128 && n <= u128::MAX,
        ;
    }
    while lo < hi
        invariant
            lo <= hi <= 0xFFFF_FFFF_FFFF_FFFF,
            lo * lo <= n,
            (hi + 1) * (hi + 1) > n,
        decreases hi - lo,
    {
        let mid = lo + (hi - lo + 1) / 2;
        proof {
            assert(lo < mid <= hi);
            assert(mid * mid <= 0xFFFF_FFFF_FFFF_FFFFu128 * 0xFFFF_FFFF_FFFF_FFFFu128)
                by (nonlinear_arith)
                requires
                    mid <= 0xFFFF_FFFF_FFFF_FFFFu128,
            ;
        }
        if mid * mid <= n {
            lo = mid;
        } else {
            hi = mid - 1;
        }
    }
    lo as u64
}

/// Clamps a wide value into `[-lim, lim]`.
pub fn clamp_i128_to(v: i128, lim: i64) -> (out: i64)
    requires
        lim > 0,
    ensures
        out == clamped(v as int, -lim as int, lim as int),
{
    if v < -(lim as i128) {
        -lim
    } else if v > lim as i128 {
        lim
    } else {
        v as i64
    }
}

/// The floor of the square root, as a specification: defined by counting up.
pub open spec fn sqrt_floor(n: int) -> int
    decreases n,
{
    if n < 1 {
        0
    } else {
        let r = sqrt_floor(n - 1);
        if (r + 1) * (r + 1) <= n {
            r + 1
        } else {
            r
        }
    }
}

/// `sqrt_floor` is exactly the greatest integer whose square is within `n`.
pub proof fn lemma_sqrt_floor(n: int)
    requires
        n >= 0,
    ensures
        sqrt_floor(n) >= 0,
        sqrt_floor(n) * sqrt_floor(n) <= n,
        (sqrt_floor(n) + 1) * (sqrt_floor(n) + 1) > n,
    decreases n,
{
    if n < 1 {
        assert(sqrt_floor(n) == 0);
    } else {
        lemma_sqrt_floor(n - 1);
        let r = sqrt_floor(n - 1);
        if (r + 1) * (r + 1) <= n {
            assert((r + 2) * (r + 2) > n) by (nonlinear_arith)
                requires
                    (r + 1) * (r + 1) > n - 1 && r >= 0,
            ;
        }
    }
}

/// Two integers that both bracket `n` between consecutive squares are equal.
pub proof fn lemma_sqrt_unique(n: int, r1: int, r2: int)
    requires
        r1 >= 0,
        r2 >= 0,
        r1 * r1 <= n,
        (r1 + 1) * (r1 + 1) > n,
        r2 * r2 <= n,
        (r2 + 1) * (r2 + 1) > n,
    ensures
        r1 == r2,
{
    assert(r1 == r2) by (nonlinear_arith)
        requires
            r1 >= 0 && r2 >= 0 && r1 * r1 <= n && (r1 + 1) * (r1 + 1) > n && r2 * r2 <= n && (r2
                + 1) * (r2 + 1) > n,
    ;
}

/// The exact integer square root of a wide value, tied to the
/// specification-level `sqrt_floor`.
pub fn isqrt_i128(n: i128) -> (r: i64)
    requires
        0 <= n < 0x1000000000000000000000,
    ensures
        r == sqrt_floor(n as int),
        0 <= r < 0x40000000000,
{
    let r = isqrt_u128(n as u128);
    proof {
        lemma_sqrt_floor(n as int);
        lemma_sqrt_unique(n as int, r as int, sqrt_floor(n as int));
        assert(r as int * (r as int) <= n < 0x1000000000000000000000int ==> r
            < 0x40000000000u64) by (nonlinear_arith);
    }
    r as i64
}

/// Truncating division is an odd function of the dividend.
pub proof fn lemma_div_towards_zero_neg(a: int, b: int)
    requires
        b > 0,
    ensures
        div_towards_zero(-a, b) == -div_towards_zero(a, b),
{
}

/// Dividing an exact multiple recovers the factor.
pub proof fn lemma_div_exact(a: int, b: int)
    requires
        b > 0,
    ensures
        div_towards_zero(a * b, b) == a,
{
    if a >= 0 {
        assert((a * b) / b == a && a * b >= 0) by (nonlinear_arith)
            requires
                a >= 0 && b > 0,
        ;
    } else {
        assert((-(a * b)) / b == -a && a * b < 0 && -(a * b) == (-a) * b) by (nonlinear_arith)
            requires
                a < 0 && b > 0,
        ;
    }
}

/// The square root of a perfect square is its root.
pub proof fn lemma_sqrt_perfect(k: int)
    requires
        k >= 0,
    ensures
        sqrt_floor(k * k) == k,
{
    assert(k * k >= 0) by (nonlinear_arith);
    lemma_sqrt_floor(k * k);
    assert((k + 1) * (k + 1) > k * k) by (nonlinear_arith)
        requires
            k >= 0,
    ;
    lemma_sqrt_unique(k * k, sqrt_floor(k * k), k);
}

} // verus!
