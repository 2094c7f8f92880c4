//! Integer helpers shared by the fixed-point arithmetic of the crate.

use vstd::prelude::*;
use vstd::arithmetic::div_mod::{lemma_fundamental_div_mod, lemma_fundamental_div_mod_converse};

verus! {

/// `r` is the integer square root of `n`: the largest whole number whose
/// square does not exceed `n`.
pub open spec fn is_isqrt(n: int, r: int) -> bool {
    0 <= r && r * r <= n && n < (r + 1) * (r + 1)
}

/// The integer square root of `n` (rounded down). For a negative `n` the value is
/// unspecified.
pub open spec fn isqrt(n: int) -> int {
    choose|r: int| is_isqrt(n, r)
}

/// Squaring preserves the order of non-negative numbers.
pub proof fn lemma_square_monotonic(a: int, b: int)
    requires
        0 <= a <= b,
    ensures
        a * a <= b * b,
{
    assert(a * a <= b * b) by (nonlinear_arith)
        requires
            0 <= a <= b,
    ;
}

/// A number has at most one integer square root.
pub proof fn lemma_isqrt_unique(n: int, r1: int, r2: int)
    requires
        is_isqrt(n, r1),
        is_isqrt(n, r2),
    ensures
        r1 == r2,
{
    if r1 < r2 {
        lemma_square_monotonic(r1 + 1, r2);
    } else if r2 < r1 {
        lemma_square_monotonic(r2 + 1, r1);
    }
}

/// Whatever satisfies `is_isqrt(n, ·)` is `isqrt(n)`.
pub proof fn lemma_isqrt_is(n: int, r: int)
    requires
        is_isqrt(n, r),
    ensures
        isqrt(n) == r,
{
    lemma_isqrt_unique(n, r, isqrt(n));
}

/// Computes the integer square root by bisection.
pub fn isqrt_u128(n: u128) -> (r: u64)
    ensures
        is_isqrt(n as int, r as int),
        r as int == isqrt(n as int),
{
    let mut lo: u128 = 0;
    let mut hi: u128 = 0x1_0000_0000_0000_0000;
    assert(0x1_0000_0000_0000_0000int * 0x1_0000_0000_0000_0000int > u128::MAX);
    while hi - lo > 1
        invariant
            lo < hi <= 0x1_0000_0000_0000_0000,
            lo * lo <= n,
            n < hi * hi,
        decreases hi - lo,
    {
        let mid: u128 = lo + (hi - lo) / 2;
        assert(mid * mid <= 0xffff_ffff_ffff_ffff * 0xffff_ffff_ffff_ffff) by (nonlinear_arith)
            requires
                0 <= mid <= 0xffff_ffff_ffff_ffff,
        ;
        assert(0xffff_ffff_ffff_ffffint * 0xffff_ffff_ffff_ffffint <= u128::MAX);
        if mid * mid <= n {
            lo = mid;
        } else {
            hi = mid;
        }
    }
    proof {
        lemma_isqrt_is(n as int, lo as int);
    }
    lo as u64
}

/// The square of the distance between two points of the plane.
pub open spec fn sq_dist(x0: int, y0: int, x1: int, y1: int) -> int {
    (x1 - x0) * (x1 - x0) + (y1 - y0) * (y1 - y0)
}

/// The square of a difference of two `i32` fits in 64 bits.
pub proof fn lemma_sq_diff_bound(a: int, b: int)
    requires
        i32::MIN <= a <= i32::MAX,
        i32::MIN <= b <= i32::MAX,
    ensures
        0 <= (b - a) * (b - a) <= 0xFFFF_FFFF * 0xFFFF_FFFF,
{
    let d = b - a;
    assert(0 <= d * d <= 0xFFFF_FFFF * 0xFFFF_FFFF) by (nonlinear_arith)
        requires
            -0xFFFF_FFFF <= d <= 0xFFFF_FFFF,
    ;
}

/// Computes `sq_dist`.
pub fn sq_dist_i32(x0: i32, y0: i32, x1: i32, y1: i32) -> (r: u128)
    ensures
        r == sq_dist(x0 as int, y0 as int, x1 as int, y1 as int),
        r <= 2 * (0xFFFF_FFFF * 0xFFFF_FFFF),
{
    proof {
        lemma_sq_diff_bound(x0 as int, x1 as int);
        lemma_sq_diff_bound(y0 as int, y1 as int);
    }
    let dx: i128 = x1 as i128 - x0 as i128;
    let dy: i128 = y1 as i128 - y0 as i128;
    (dx * dx) as u128 + (dy * dy) as u128
}

/// The distance between two points of the plane, rounded down.
pub open spec fn dist(x0: int, y0: int, x1: int, y1: int) -> int {
    isqrt(sq_dist(x0, y0, x1, y1))
}

/// Computes `dist`.
pub fn dist_i32(x0: i32, y0: i32, x1: i32, y1: i32) -> (r: u64)
    ensures
        r == dist(x0 as int, y0 as int, x1 as int, y1 as int),
        is_isqrt(sq_dist(x0 as int, y0 as int, x1 as int, y1 as int), r as int),
        r < 0x2_0000_0000,
{
    let r: u64 = isqrt_u128(sq_dist_i32(x0, y0, x1, y1));
    proof {
        if r >= 0x2_0000_0000 {
            lemma_square_monotonic(0x2_0000_0000, r as int);
        }
    }
    r
}

/// `a / b` rounded toward zero, for a positive `b`.
pub open spec fn div_toward_zero(a: int, b: int) -> int {
    if a >= 0 {
        a / b
    } else {
        -((-a) / b)
    }
}

/// `v` brought into the range of `i32`.
pub open spec fn clamp_i32(v: int) -> i32 {
    if v < i32::MIN {
        i32::MIN
    } else if v > i32::MAX {
        i32::MAX
    } else {
        v as i32
    }
}

/// Computes `clamp_i32` for a value that fits in `i64`.
pub fn clamp_to_i32(v: i64) -> (r: i32)
    ensures
        r == clamp_i32(v as int),
{
    if v < i32::MIN as i64 {
        i32::MIN
    } else if v > i32::MAX as i64 {
        i32::MAX
    } else {
        v as i32
    }
}

/// Computes `div_toward_zero`.
pub fn div_i64_toward_zero(a: i64, b: i64) -> (r: i64)
    requires
        b > 0,
        a > i64::MIN,
    ensures
        r == div_toward_zero(a as int, b as int),
{
    if a >= 0 {
        a / b
    } else {
        let q: i64 = (-a) / b;
        -q
    }
}

/// Quotient and remainder of the division that rounds down: the remainder is
/// never negative.
pub fn floor_div_mod(a: i128, n: i128) -> (r: (i128, i128))
    requires
        n > 0,
        a > i128::MIN,
    ensures
        r.0 == a as int / n as int,
        r.1 == a as int % n as int,
        0 <= r.1 < n,
{
    if a >= 0 {
        (a / n, a % n)
    } else {
        let m: i128 = -a;
        let q1: i128 = m / n;
        let r1: i128 = m % n;
        proof {
            lemma_fundamental_div_mod(m as int, n as int);
            assert(q1 * n <= m) by (nonlinear_arith)
                requires
                    m == n * q1 + r1,
                    r1 >= 0,
            ;
            assert(q1 <= m) by (nonlinear_arith)
                requires
                    q1 * n <= m,
                    n >= 1,
                    q1 >= 0,
            ;
        }
        if r1 == 0 {
            proof {
                assert(a == (-q1) * n + 0) by (nonlinear_arith)
                    requires
                        -a == n * q1 + r1,
                        r1 == 0,
                ;
                lemma_fundamental_div_mod_converse(a as int, n as int, -q1 as int, 0);
            }
            (-q1, 0)
        } else {
            proof {
                assert(a == (-q1 - 1) * n + (n - r1)) by (nonlinear_arith)
                    requires
                        -a == n * q1 + r1,
                ;
                lemma_fundamental_div_mod_converse(
                    a as int,
                    n as int,
                    -q1 - 1 as int,
                    n - r1 as int,
                );
            }
            (-q1 - 1, n - r1)
        }
    }
}

} // verus!
