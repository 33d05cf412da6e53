//! Fixed-point scalar arithmetic.
//!
//! Every scalar of the simulation, be it a length, a speed, a force, an
//! angle in degrees, a time in seconds or a plain ratio, is an `i64` that
//! counts millionths: the number 1 is [`ONE`]. Every operation is total: a
//! result that does not fit in `i64` saturates, and every quotient rounds
//! toward zero.

use vstd::prelude::*;

verus! {

/// The fixed-point representation of the ratio 1.
pub const ONE: i64 = 1_000_000;

/// `v` limited to the range of `i64`.
pub open spec fn clamp_i64(v: int) -> int {
    if v < i64::MIN {
        i64::MIN as int
    } else if v > i64::MAX {
        i64::MAX as int
    } else {
        v
    }
}

/// The absolute value of `v`.
pub open spec fn magnitude(v: int) -> int {
    if v < 0 {
        -v
    } else {
        v
    }
}

/// The quotient `n / d` rounded toward zero, for a positive divisor.
pub open spec fn div_toward_zero(n: int, d: int) -> int
    recommends
        d > 0,
{
    if n >= 0 {
        n / d
    } else {
        -((-n) / d)
    }
}

/// `a * b / d`, rounded toward zero and limited to the range of `i64`.
pub open spec fn mul_div_spec(a: int, b: int, d: int) -> int
    recommends
        d > 0,
{
    clamp_i64(div_toward_zero(a * b, d))
}

/// `r` is the integer square root of `n`, rounded down.
pub open spec fn is_floor_sqrt(n: int, r: int) -> bool {
    0 <= r && r * r <= n < (r + 1) * (r + 1)
}

/// The integer square root of `n`, rounded down.
pub open spec fn sqrt_floor(n: int) -> int {
    choose|r: int| is_floor_sqrt(n, r)
}

/// A number has at most one floor square root, so any witness is `sqrt_floor`.
pub proof fn lemma_sqrt_floor_unique(n: int, r: int)
    requires
        is_floor_sqrt(n, r),
    ensures
        sqrt_floor(n) == r,
{
    let s = sqrt_floor(n);
    assert(is_floor_sqrt(n, s));
    if s < r {
        assert((s + 1) * (s + 1) <= r * r) by (nonlinear_arith)
            requires
                0 <= s,
                s + 1 <= r,
        ;
    } else if r < s {
        assert((r + 1) * (r + 1) <= s * s) by (nonlinear_arith)
            requires
                0 <= r,
                r + 1 <= s,
        ;
    }
}

/// Every non-negative number has a floor square root.
pub proof fn lemma_sqrt_floor_exists(n: int)
    requires
        n >= 0,
    ensures
        is_floor_sqrt(n, sqrt_floor(n)),
    decreases n,
{
    if n == 0 {
        assert(is_floor_sqrt(0, 0));
    } else {
        lemma_sqrt_floor_exists(n - 1);
        let r = sqrt_floor(n - 1);
        if (r + 1) * (r + 1) <= n {
            assert((r + 1) * (r + 1) == n);
            assert(n < (r + 2) * (r + 2)) by (nonlinear_arith)
                requires
                    (r + 1) * (r + 1) == n,
                    r >= 0,
            ;
            assert(is_floor_sqrt(n, r + 1));
        } else {
            assert(r * r <= n);
            assert(is_floor_sqrt(n, r));
        }
    }
}

/// Scaling by a ratio `num / den` of at most 1 never grows a value and keeps
/// its sign.
pub proof fn lemma_scale_down_bounds(a: int, num: int, den: int)
    requires
        0 <= num <= den,
        den > 0,
    ensures
        magnitude(div_toward_zero(a * num, den)) <= magnitude(a),
        a >= 0 ==> 0 <= div_toward_zero(a * num, den) <= a,
        a <= 0 ==> a <= div_toward_zero(a * num, den) <= 0,
{
    let m = magnitude(a);
    assert(0 <= (m * num) / den <= m) by (nonlinear_arith)
        requires
            m >= 0,
            0 <= num <= den,
            den > 0,
    ;
    if a >= 0 {
        assert(a * num >= 0) by (nonlinear_arith)
            requires
                a >= 0,
                num >= 0,
        ;
    } else {
        assert(a * num <= 0 && -(a * num) == m * num) by (nonlinear_arith)
            requires
                a < 0,
                num >= 0,
                m == -a,
        ;
        if a * num == 0 {
            assert(0int / den == 0) by (nonlinear_arith)
                requires
                    den > 0,
            ;
            assert(m * num == 0);
        }
    }
}

/// The product of two `i64` values fits in `i128` with room to spare.
pub proof fn lemma_product_fits(a: int, b: int)
    requires
        i64::MIN <= a <= i64::MAX,
        i64::MIN <= b <= i64::MAX,
    ensures
        -0x4000_0000_0000_0000_0000_0000_0000_0000 <= a * b
            <= 0x4000_0000_0000_0000_0000_0000_0000_0000,
{
    assert(-0x4000_0000_0000_0000_0000_0000_0000_0000 <= a * b
        <= 0x4000_0000_0000_0000_0000_0000_0000_0000) by (nonlinear_arith)
        requires
            -0x8000_0000_0000_0000 <= a <= 0x7fff_ffff_ffff_ffff,
            -0x8000_0000_0000_0000 <= b <= 0x7fff_ffff_ffff_ffff,
    ;
}

/// Limits a wide value to the range of `i64`.
pub fn saturate(v: i128) -> (r: i64)
    ensures
        r == clamp_i64(v as int),
{
    if v < i64::MIN as i128 {
        i64::MIN
    } else if v > i64::MAX as i128 {
        i64::MAX
    } else {
        v as i64
    }
}

/// Saturating sum.
pub fn add_sat(a: i64, b: i64) -> (r: i64)
    ensures
        r == clamp_i64(a + b),
{
    saturate(a as i128 + b as i128)
}

/// Saturating difference.
pub fn sub_sat(a: i64, b: i64) -> (r: i64)
    ensures
        r == clamp_i64(a - b),
{
    saturate(a as i128 - b as i128)
}

/// Saturating negation.
pub fn neg_sat(a: i64) -> (r: i64)
    ensures
        r == clamp_i64(-a),
{
    saturate(-(a as i128))
}

/// The absolute value of `a` as an unsigned number.
pub fn abs_u64(a: i64) -> (r: u64)
    ensures
        r == magnitude(a as int),
{
    if a < 0 {
        (-(a as i128)) as u64
    } else {
        a as u64
    }
}

/// `a * b / d` with a 128-bit intermediate product, rounded toward zero and
/// saturated.
pub fn mul_div(a: i64, b: i64, d: i64) -> (r: i64)
    requires
        d > 0,
    ensures
        r == mul_div_spec(a as int, b as int, d as int),
{
    proof {
        lemma_product_fits(a as int, b as int);
    }
    let p: i128 = (a as i128) * (b as i128);
    let q: i128 = p / (d as i128);
    saturate(q)
}

/// `a * num / den` for a ratio `num / den` of at most 1. The result is exact
/// up to rounding toward zero and never exceeds `a` in magnitude.
pub fn scale_down(a: i64, num: u64, den: u64) -> (r: i64)
    requires
        0 < den,
        num <= den,
    ensures
        r == div_toward_zero(a * num, den as int),
        magnitude(r as int) <= magnitude(a as int),
        a >= 0 ==> 0 <= r <= a,
        a <= 0 ==> a <= r <= 0,
{
    proof {
        lemma_scale_down_bounds(a as int, num as int, den as int);
        assert(-0x7fff_ffff_ffff_ffff_ffff_ffff_ffff_ffff <= a * num
            <= 0x7fff_ffff_ffff_ffff_ffff_ffff_ffff_ffff) by (nonlinear_arith)
            requires
                -0x8000_0000_0000_0000 <= a <= 0x7fff_ffff_ffff_ffff,
                0 <= num <= 0xffff_ffff_ffff_ffff,
        ;
    }
    let p: i128 = (a as i128) * (num as i128);
    let q: i128 = p / (den as i128);
    q as i64
}

/// The integer square root of `n`, rounded down.
pub fn isqrt(n: u128) -> (r: u64)
    ensures
        is_floor_sqrt(n as int, r as int),
        r == sqrt_floor(n as int),
{
    let mut lo: u128 = 0;
    let mut hi: u128 = 0x1_0000_0000_0000_0000;
    assert(hi * hi > n) by (nonlinear_arith)
        requires
            hi == 0x1_0000_0000_0000_0000,
            n <= 0xffff_ffff_ffff_ffff_ffff_ffff_ffff_ffff,
    ;
    while hi - lo > 1
        invariant
            lo < hi <= 0x1_0000_0000_0000_0000,
            lo * lo <= n < hi * hi,
        decreases hi - lo,
    {
        let mid: u128 = lo + (hi - lo) / 2;
        assert(mid * mid <= 0xffff_ffff_ffff_ffff_ffff_ffff_ffff_ffff) by (nonlinear_arith)
            requires
                0 <= mid <= 0xffff_ffff_ffff_ffff,
        ;
        if mid * mid <= n {
            lo = mid;
        } else {
            hi = mid;
        }
    }
    proof {
        assert(hi == lo + 1);
        lemma_sqrt_floor_unique(n as int, lo as int);
    }
    lo as u64
}

} // verus!
