//! Fixed-point arithmetic for the canvas.
//!
//! Every length, coordinate, scale factor and direction cosine of the editor
//! is an integer count of millionths: a coordinate of `1_000_000` is one
//! pixel, a scale factor of `1_000_000` is the factor one. Quotients are
//! rounded toward zero.

use vstd::prelude::*;

verus! {

/// Millionths in one whole: one pixel, the scale factor one, the cosine one.
pub const UNIT: i64 = 1_000_000;

/// Largest magnitude of a canvas coordinate: 2^32 pixels, which is more
/// than the width or height of any canvas.
pub const COORD_MAX: i64 = 4_294_967_296_000_000;

/// Largest magnitude of a scale factor: one thousand. An extent of
/// `COORD_MAX` stretched that far still fits in sixty-four bits.
pub const SCALE_MAX: i64 = 1_000_000_000;

/// Whether `v` is a coordinate the canvas can hold.
pub open spec fn in_range(v: int) -> bool {
    -COORD_MAX <= v <= COORD_MAX
}

/// The quotient of `a` by a positive `b`, rounded toward zero.
pub open spec fn trunc_div(a: int, b: int) -> int
    recommends
        b > 0,
{
    if a >= 0 {
        a / b
    } else {
        -((-a) / b)
    }
}

/// The magnitude of `v`.
pub open spec fn magnitude(v: int) -> int {
    if v < 0 {
        -v
    } else {
        v
    }
}

/// `v` held between `lo` and `hi`.
pub open spec fn clamp(v: int, lo: int, hi: int) -> int
    recommends
        lo <= hi,
{
    if v < lo {
        lo
    } else if v > hi {
        hi
    } else {
        v
    }
}

/// Whether `r` is the integer square root of `n`: the one natural number
/// whose square does not exceed `n` while the square of its successor does.
pub open spec fn is_floor_sqrt(n: int, r: int) -> bool {
    &&& 0 <= r
    &&& r * r <= n
    &&& n < (r + 1) * (r + 1)
}

/// The integer square root of `n`.
pub open spec fn floor_sqrt(n: int) -> int
    recommends
        n >= 0,
{
    choose|r: int| is_floor_sqrt(n, r)
}

/// The magnitude of a truncated quotient never exceeds that of the dividend
/// over the divisor, and the quotient keeps the dividend's sign.
pub proof fn lemma_trunc_div_bounds(a: int, b: int, m: int)
    requires
        b > 0,
        m >= 0,
        -m * b <= a <= m * b,
    ensures
        -m <= trunc_div(a, b) <= m,
        a >= 0 ==> trunc_div(a, b) >= 0,
        a <= 0 ==> trunc_div(a, b) <= 0,
{
    if a >= 0 {
        assert(0 <= a / b <= m) by (nonlinear_arith)
            requires
                b > 0,
                0 <= a <= m * b,
        ;
    } else {
        let n = -a;
        assert((-m) * b == -(m * b)) by (nonlinear_arith);
        assert(0 <= n / b <= m) by (nonlinear_arith)
            requires
                b > 0,
                0 <= n <= m * b,
        ;
    }
}

/// Dividing a multiple of `b` by `b` is exact.
pub proof fn lemma_trunc_div_exact(q: int, b: int)
    requires
        b > 0,
    ensures
        trunc_div(q * b, b) == q,
{
    if q >= 0 {
        assert(q * b >= 0 && (q * b) / b == q) by (nonlinear_arith)
            requires
                b > 0,
                q >= 0,
        ;
    } else {
        let p = -q;
        assert(q * b < 0 && -(q * b) == p * b && (p * b) / b == p) by (nonlinear_arith)
            requires
                b > 0,
                p > 0,
                p == -q,
        ;
    }
}

/// What is left over when `a` is divided by `b` toward zero has the sign of
/// `a` and is smaller than `b` in magnitude.
pub proof fn lemma_trunc_div_remainder(a: int, b: int)
    requires
        b > 0,
    ensures
        ({
            let q = trunc_div(a, b);
            let r = a - q * b;
            &&& a >= 0 ==> q >= 0 && 0 <= r < b
            &&& a <= 0 ==> q <= 0 && -b < r <= 0
        }),
{
    if a >= 0 {
        assert(a / b >= 0 && 0 <= a - (a / b) * b < b) by (nonlinear_arith)
            requires
                a >= 0,
                b > 0,
        ;
    } else {
        let m = -a;
        let p = m / b;
        assert(p >= 0 && 0 <= m - p * b < b) by (nonlinear_arith)
            requires
                m >= 0,
                b > 0,
                p == m / b,
        ;
        assert((-p) * b == -(p * b)) by (nonlinear_arith);
    }
}

/// Two integer square roots of one number are equal.
pub proof fn lemma_floor_sqrt_unique(n: int, r1: int, r2: int)
    requires
        is_floor_sqrt(n, r1),
        is_floor_sqrt(n, r2),
    ensures
        r1 == r2,
{
    if r1 < r2 {
        assert((r1 + 1) * (r1 + 1) <= r2 * r2) by (nonlinear_arith)
            requires
                0 <= r1,
                r1 + 1 <= r2,
        ;
    } else if r2 < r1 {
        assert((r2 + 1) * (r2 + 1) <= r1 * r1) by (nonlinear_arith)
            requires
                0 <= r2,
                r2 + 1 <= r1,
        ;
    }
}

/// A number with the defining property is the integer square root.
pub proof fn lemma_floor_sqrt_is(n: int, r: int)
    requires
        is_floor_sqrt(n, r),
    ensures
        floor_sqrt(n) == r,
{
    let c = choose|c: int| is_floor_sqrt(n, c);
    lemma_floor_sqrt_unique(n, r, c);
}

/// Every natural number has an integer square root.
pub proof fn lemma_floor_sqrt_exists(n: int)
    requires
        n >= 0,
    ensures
        is_floor_sqrt(n, floor_sqrt(n)),
    decreases n,
{
    if n == 0 {
        assert(is_floor_sqrt(0, 0));
    } else {
        lemma_floor_sqrt_exists(n - 1);
        let r = floor_sqrt(n - 1);
        if n < (r + 1) * (r + 1) {
            assert(is_floor_sqrt(n, r));
        } else {
            assert((r + 2) * (r + 2) > (r + 1) * (r + 1)) by (nonlinear_arith)
                requires
                    r >= 0,
            ;
            assert(is_floor_sqrt(n, r + 1));
        }
    }
}

/// The quotient of `a` by `b`, rounded toward zero.
pub fn div_toward_zero(a: i128, b: i128) -> (q: i128)
    requires
        b > 0,
    ensures
        q == trunc_div(a as int, b as int),
{
    a / b
}

/// `v` held between `lo` and `hi`.
pub fn clamp_to(v: i128, lo: i64, hi: i64) -> (r: i64)
    requires
        lo <= hi,
    ensures
        r == clamp(v as int, lo as int, hi as int),
{
    if v < lo as i128 {
        lo
    } else if v > hi as i128 {
        hi
    } else {
        v as i64
    }
}

/// Whether `v` is a coordinate the canvas can hold.
pub fn is_in_range(v: i64) -> (ok: bool)
    ensures
        ok == in_range(v as int),
{
    -COORD_MAX <= v && v <= COORD_MAX
}

/// A whole number of pixels as a coordinate.
pub fn pixels(whole: i32) -> (v: i64)
    ensures
        v == whole * UNIT,
        in_range(v as int),
{
    whole as i64 * UNIT
}

/// A coordinate brought into the range the canvas can hold.
pub fn clamp_coordinate(v: i64) -> (r: i64)
    ensures
        r == clamp(v as int, -COORD_MAX as int, COORD_MAX as int),
        in_range(r as int),
        in_range(v as int) ==> r == v,
{
    clamp_to(v as i128, -COORD_MAX, COORD_MAX)
}

/// The integer square root of `n`, found by bisection.
pub fn integer_sqrt(n: u128) -> (r: u128)
    ensures
        is_floor_sqrt(n as int, r as int),
        r == floor_sqrt(n as int),
        r < 0x1_0000_0000_0000_0000,
{
    let mut lo: u128 = 0;
    let mut hi: u128 = 0x1_0000_0000_0000_0000;
    assert(n < hi * hi) by (nonlinear_arith)
        requires
            hi == 0x1_0000_0000_0000_0000,
            n <= u128::MAX,
    ;
    while hi - lo > 1
        invariant
            lo < hi <= 0x1_0000_0000_0000_0000,
            lo * lo <= n < hi * hi,
        decreases hi - lo,
    {
        let mid: u128 = lo + (hi - lo) / 2;
        assert(mid * mid < 0x1_0000_0000_0000_0000 * 0x1_0000_0000_0000_0000)
            by (nonlinear_arith)
            requires
                0 <= mid < 0x1_0000_0000_0000_0000,
        ;
        if mid * mid <= n {
            lo = mid;
        } else {
            hi = mid;
        }
    }
    proof {
        lemma_floor_sqrt_is(n as int, lo as int);
    }
    lo
}

} // verus!
