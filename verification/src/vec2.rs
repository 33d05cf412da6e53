//! Two-dimensional fixed-point vectors.
//!
//! A [`Vec2`] holds a position, a velocity or a force, or a direction, which
//! is a vector of length [`ONE`](crate::fixed::ONE).

use vstd::prelude::*;
use crate::fixed::{
    add_sat, abs_u64, clamp_i64, div_toward_zero, is_floor_sqrt, isqrt, lemma_product_fits,
    magnitude, mul_div, mul_div_spec, neg_sat, saturate, scale_down, sqrt_floor, sub_sat, ONE,
};

verus! {

/// A vector with fixed-point components.
#[derive(Clone, Copy, Debug, PartialEq, Eq, Structural)]
pub struct Vec2 {
    pub x: i64,
    pub y: i64,
}

/// The largest squared distance that [`Vec2::distance_squared`] reports.
pub open spec fn distance_cap() -> int {
    u128::MAX as int
}

impl Vec2 {
    /// The componentwise saturating sum.
    pub open spec fn plus_spec(self, o: Vec2) -> Vec2 {
        Vec2 { x: clamp_i64(self.x + o.x) as i64, y: clamp_i64(self.y + o.y) as i64 }
    }

    /// The componentwise saturating difference.
    pub open spec fn minus_spec(self, o: Vec2) -> Vec2 {
        Vec2 { x: clamp_i64(self.x - o.x) as i64, y: clamp_i64(self.y - o.y) as i64 }
    }

    /// The componentwise saturating negation.
    pub open spec fn negated_spec(self) -> Vec2 {
        Vec2 { x: clamp_i64(-self.x) as i64, y: clamp_i64(-self.y) as i64 }
    }

    /// The vector turned a quarter turn counter-clockwise: `(-y, x)`.
    pub open spec fn perp_spec(self) -> Vec2 {
        Vec2 { x: clamp_i64(-self.y) as i64, y: self.x }
    }

    /// Each component multiplied by `num / den`, rounded toward zero and
    /// saturated.
    pub open spec fn scaled_spec(self, num: int, den: int) -> Vec2 {
        Vec2 {
            x: mul_div_spec(self.x as int, num, den) as i64,
            y: mul_div_spec(self.y as int, num, den) as i64,
        }
    }

    /// The exact dot product.
    pub open spec fn dot_spec(self, o: Vec2) -> int {
        self.x * o.x + self.y * o.y
    }

    /// The exact two-dimensional cross product `x * o.y - y * o.x`.
    pub open spec fn perp_dot_spec(self, o: Vec2) -> int {
        self.x * o.y - self.y * o.x
    }

    /// The exact squared length.
    pub open spec fn length_squared_spec(self) -> int {
        self.x * self.x + self.y * self.y
    }

    /// The length, rounded down.
    pub open spec fn length_spec(self) -> int {
        sqrt_floor(self.length_squared_spec())
    }

    /// The exact squared distance to `o`.
    pub open spec fn distance_squared_spec(self, o: Vec2) -> int {
        (self.x - o.x) * (self.x - o.x) + (self.y - o.y) * (self.y - o.y)
    }

    /// The direction of the vector: each component times `ONE` over the
    /// length, rounded toward zero. The zero vector has the zero direction.
    pub open spec fn normalized_spec(self) -> Vec2 {
        let len = self.length_spec();
        if len == 0 {
            Vec2 { x: 0, y: 0 }
        } else {
            Vec2 {
                x: div_toward_zero(self.x * ONE, len) as i64,
                y: div_toward_zero(self.y * ONE, len) as i64,
            }
        }
    }

    /// Whether the direction is no longer than a unit vector.
    pub open spec fn at_most_unit(self) -> bool {
        self.length_squared_spec() <= ONE * ONE
    }

    pub fn new(x: i64, y: i64) -> (v: Vec2)
        ensures
            v == (Vec2 { x, y }),
    {
        Vec2 { x, y }
    }

    pub fn zero() -> (v: Vec2)
        ensures
            v == (Vec2 { x: 0, y: 0 }),
    {
        Vec2 { x: 0, y: 0 }
    }

    pub fn plus(self, o: Vec2) -> (v: Vec2)
        ensures
            v == self.plus_spec(o),
    {
        Vec2 { x: add_sat(self.x, o.x), y: add_sat(self.y, o.y) }
    }

    pub fn minus(self, o: Vec2) -> (v: Vec2)
        ensures
            v == self.minus_spec(o),
    {
        Vec2 { x: sub_sat(self.x, o.x), y: sub_sat(self.y, o.y) }
    }

    pub fn negated(self) -> (v: Vec2)
        ensures
            v == self.negated_spec(),
    {
        Vec2 { x: neg_sat(self.x), y: neg_sat(self.y) }
    }

    pub fn perp(self) -> (v: Vec2)
        ensures
            v == self.perp_spec(),
    {
        Vec2 { x: neg_sat(self.y), y: self.x }
    }

    pub fn scaled(self, num: i64, den: i64) -> (v: Vec2)
        requires
            den > 0,
        ensures
            v == self.scaled_spec(num as int, den as int),
    {
        Vec2 { x: mul_div(self.x, num, den), y: mul_div(self.y, num, den) }
    }

    /// The dot product divided by `ONE`: the projection of `o` on `self`
    /// when `self` is a direction.
    pub fn dot_scaled(self, o: Vec2) -> (r: i64)
        ensures
            r == clamp_i64(div_toward_zero(self.dot_spec(o), ONE as int)),
    {
        proof {
            lemma_product_fits(self.x as int, o.x as int);
            lemma_product_fits(self.y as int, o.y as int);
        }
        let p1: i128 = (self.x as i128) * (o.x as i128);
        let p2: i128 = (self.y as i128) * (o.y as i128);
        if p1 > 0 && p2 > i128::MAX - p1 {
            assert(p1 + p2 >= 0x8000_0000_0000_0000_0000_0000_0000_0000);
            assert((p1 + p2) / 1_000_000 >= 0x8000_0000_0000_0000);
            i64::MAX
        } else {
            saturate((p1 + p2) / (ONE as i128))
        }
    }

    /// The cross product with `o` divided by `ONE`, saturated.
    pub fn perp_dot_scaled(self, o: Vec2) -> (r: i64)
        ensures
            r == clamp_i64(div_toward_zero(self.perp_dot_spec(o), ONE as int)),
    {
        proof {
            lemma_product_fits(self.x as int, o.y as int);
            lemma_product_fits(self.y as int, o.x as int);
        }
        let p1: i128 = (self.x as i128) * (o.y as i128);
        let p2: i128 = (self.y as i128) * (o.x as i128);
        if p1 >= 0 && p2 < 0 && p1 > i128::MAX + p2 {
            assert(p1 - p2 >= 0x8000_0000_0000_0000_0000_0000_0000_0000);
            assert((p1 - p2) / 1_000_000 >= 0x8000_0000_0000_0000);
            i64::MAX
        } else if p1 < 0 && p2 > 0 && p1 < i128::MIN + p2 {
            assert(-(p1 - p2) >= 0x8000_0000_0000_0000_0000_0000_0000_0000);
            assert((-(p1 - p2)) / 1_000_000 >= 0x8000_0000_0000_0000);
            i64::MIN
        } else {
            saturate((p1 - p2) / (ONE as i128))
        }
    }

    pub fn length_squared(self) -> (r: u128)
        ensures
            r == self.length_squared_spec(),
    {
        let ax: u128 = abs_u64(self.x) as u128;
        let ay: u128 = abs_u64(self.y) as u128;
        assert(ax * ax == self.x * self.x && ax * ax <= 0x4000_0000_0000_0000_0000_0000_0000_0000)
            by (nonlinear_arith)
            requires
                ax == magnitude(self.x as int),
                0 <= ax <= 0x8000_0000_0000_0000,
        ;
        assert(ay * ay == self.y * self.y && ay * ay <= 0x4000_0000_0000_0000_0000_0000_0000_0000)
            by (nonlinear_arith)
            requires
                ay == magnitude(self.y as int),
                0 <= ay <= 0x8000_0000_0000_0000,
        ;
        ax * ax + ay * ay
    }

    pub fn length(self) -> (r: u64)
        ensures
            r == self.length_spec(),
            is_floor_sqrt(self.length_squared_spec(), r as int),
    {
        isqrt(self.length_squared())
    }

    /// The direction of the vector, scaled by `ONE`.
    pub fn normalized(self) -> (v: Vec2)
        ensures
            v == self.normalized_spec(),
            magnitude(v.x as int) <= ONE,
            magnitude(v.y as int) <= ONE,
    {
        let len = self.length();
        if len == 0 {
            return Vec2 { x: 0, y: 0 };
        }
        proof {
            lemma_component_at_most_length(self, len as int);
        }
        let ax = abs_u64(self.x);
        let ay = abs_u64(self.y);
        let ux = scale_down(ONE, ax, len);
        let uy = scale_down(ONE, ay, len);
        proof {
            assert(ONE * ax == ax * ONE) by (nonlinear_arith);
            assert(ONE * ay == ay * ONE) by (nonlinear_arith);
            assert(self.x < 0 ==> -(self.x * ONE) == ax * ONE) by (nonlinear_arith)
                requires
                    ax == magnitude(self.x as int),
            ;
            assert(self.x >= 0 ==> self.x * ONE == ax * ONE && self.x * ONE >= 0)
                by (nonlinear_arith)
                requires
                    ax == magnitude(self.x as int),
            ;
            assert(self.y < 0 ==> -(self.y * ONE) == ay * ONE) by (nonlinear_arith)
                requires
                    ay == magnitude(self.y as int),
            ;
            assert(self.y >= 0 ==> self.y * ONE == ay * ONE && self.y * ONE >= 0)
                by (nonlinear_arith)
                requires
                    ay == magnitude(self.y as int),
            ;
            assert(self.x < 0 ==> self.x * ONE < 0) by (nonlinear_arith);
            assert(self.y < 0 ==> self.y * ONE < 0) by (nonlinear_arith);
        }
        Vec2 {
            x: if self.x < 0 {
                -ux
            } else {
                ux
            },
            y: if self.y < 0 {
                -uy
            } else {
                uy
            },
        }
    }

    /// The squared distance to `o`, limited to `u128::MAX`.
    pub fn distance_squared(self, o: Vec2) -> (r: u128)
        ensures
            r == if self.distance_squared_spec(o) > distance_cap() {
                distance_cap()
            } else {
                self.distance_squared_spec(o)
            },
    {
        let dx: i128 = self.x as i128 - o.x as i128;
        let dy: i128 = self.y as i128 - o.y as i128;
        let ax: u128 = if dx < 0 {
            (-dx) as u128
        } else {
            dx as u128
        };
        let ay: u128 = if dy < 0 {
            (-dy) as u128
        } else {
            dy as u128
        };
        assert(ax * ax == dx * dx && ax * ax <= 0xffff_ffff_ffff_ffff_ffff_ffff_ffff_ffff)
            by (nonlinear_arith)
            requires
                ax == magnitude(dx as int),
                0 <= ax <= 0xffff_ffff_ffff_ffff,
        ;
        assert(ay * ay == dy * dy && ay * ay <= 0xffff_ffff_ffff_ffff_ffff_ffff_ffff_ffff)
            by (nonlinear_arith)
            requires
                ay == magnitude(dy as int),
                0 <= ay <= 0xffff_ffff_ffff_ffff,
        ;
        let sx: u128 = ax * ax;
        let sy: u128 = ay * ay;
        if sy > u128::MAX - sx {
            u128::MAX
        } else {
            sx + sy
        }
    }

    /// Whether `o` lies strictly closer than `range`.
    pub fn within(self, o: Vec2, range: u64) -> (b: bool)
        ensures
            b == (self.distance_squared_spec(o) < range * range),
    {
        let d = self.distance_squared(o);
        let r: u128 = range as u128;
        assert(r * r <= 0xffff_ffff_ffff_ffff_ffff_ffff_ffff_ffff) by (nonlinear_arith)
            requires
                0 <= r <= 0xffff_ffff_ffff_ffff,
        ;
        d < r * r
    }
}

/// Neither component of a vector is longer than the vector itself, and a
/// vector with a component is not of length zero.
pub proof fn lemma_component_at_most_length(v: Vec2, len: int)
    requires
        is_floor_sqrt(v.length_squared_spec(), len),
    ensures
        magnitude(v.x as int) <= len,
        magnitude(v.y as int) <= len,
{
    let ax = magnitude(v.x as int);
    let ay = magnitude(v.y as int);
    assert(ax * ax == v.x * v.x) by (nonlinear_arith)
        requires
            ax == magnitude(v.x as int),
    ;
    assert(ay * ay == v.y * v.y) by (nonlinear_arith)
        requires
            ay == magnitude(v.y as int),
    ;
    assert(ax * ax >= 0 && ay * ay >= 0) by (nonlinear_arith);
    if ax > len {
        assert(ax * ax >= (len + 1) * (len + 1)) by (nonlinear_arith)
            requires
                ax >= len + 1,
                len >= 0,
        ;
    }
    if ay > len {
        assert(ay * ay >= (len + 1) * (len + 1)) by (nonlinear_arith)
            requires
                ay >= len + 1,
                len >= 0,
        ;
    }
}

/// Scaling a direction no longer than a unit vector by a length `r` gives a
/// vector no longer than `r`.
pub proof fn lemma_scaled_by_unit_within(heading: Vec2, r: int)
    requires
        heading.at_most_unit(),
        0 <= r <= i64::MAX,
    ensures
        heading.scaled_spec(r, ONE as int).length_squared_spec() <= r * r,
        heading.scaled_spec(r, ONE as int).x == div_toward_zero(heading.x * r, ONE as int),
        heading.scaled_spec(r, ONE as int).y == div_toward_zero(heading.y * r, ONE as int),
{
    let hx = magnitude(heading.x as int);
    let hy = magnitude(heading.y as int);
    let px = div_toward_zero(heading.x * r, ONE as int);
    let py = div_toward_zero(heading.y * r, ONE as int);
    let ax = magnitude(px);
    let ay = magnitude(py);
    assert(hx * hx == heading.x * heading.x && hy * hy == heading.y * heading.y
        && hx * hx >= 0 && hy * hy >= 0) by (nonlinear_arith)
        requires
            hx == magnitude(heading.x as int),
            hy == magnitude(heading.y as int),
    ;
    assert(hx <= ONE && hy <= ONE) by (nonlinear_arith)
        requires
            hx * hx + hy * hy <= ONE * ONE,
            hx >= 0,
            hy >= 0,
            hx * hx >= 0,
            hy * hy >= 0,
    ;
    lemma_truncated_product(heading.x as int, r, hx, ax);
    lemma_truncated_product(heading.y as int, r, hy, ay);
    assert(ax <= r && ay <= r) by (nonlinear_arith)
        requires
            ax * ONE <= hx * r,
            ay * ONE <= hy * r,
            hx <= ONE,
            hy <= ONE,
            r >= 0,
            ax >= 0,
            ay >= 0,
    ;
    assert(px == clamp_i64(px) && py == clamp_i64(py));
    assert(ax * ax + ay * ay <= r * r) by (nonlinear_arith)
        requires
            0 <= ax,
            0 <= ay,
            ax * ONE <= hx * r,
            ay * ONE <= hy * r,
            hx * hx + hy * hy <= ONE * ONE,
            0 <= hx,
            0 <= hy,
            0 <= r,
    ;
    assert(ax * ax == px * px && ay * ay == py * py) by (nonlinear_arith)
        requires
            ax == magnitude(px),
            ay == magnitude(py),
    ;
}

/// The magnitude `q` of `a * r / ONE`, rounded toward zero, satisfies
/// `q * ONE <= |a| * r < (q + 1) * ONE`.
pub proof fn lemma_truncated_product(a: int, r: int, m: int, q: int)
    requires
        r >= 0,
        m == magnitude(a),
        q == magnitude(div_toward_zero(a * r, ONE as int)),
    ensures
        0 <= q,
        q * ONE <= m * r,
        m * r < (q + 1) * ONE,
{
    assert(m * r >= 0) by (nonlinear_arith)
        requires
            m >= 0,
            r >= 0,
    ;
    if a >= 0 {
        assert(a * r == m * r);
    } else {
        assert(-(a * r) == m * r) by (nonlinear_arith)
            requires
                m == -a,
        ;
        assert(a * r <= 0);
        if a * r == 0 {
            assert(0int / (ONE as int) == 0);
        }
    }
    assert(q == (m * r) / (ONE as int));
    assert(((m * r) / (ONE as int)) * ONE <= m * r && m * r < ((m * r) / (ONE as int) + 1) * ONE)
        by (nonlinear_arith)
        requires
            m * r >= 0,
            ONE == 1_000_000,
    ;
}

} // verus!
