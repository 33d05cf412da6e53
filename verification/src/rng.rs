//! Random sampling.

use vstd::prelude::*;
use rand::Rng;
use crate::fixed::{isqrt, sqrt_floor, ONE};
use crate::vec2::Vec2;

verus! {

/// Draws from the thread's generator with `rand::Rng::random_range` on the
/// range `0..bound`. The generator panics on an empty range, so the bound is
/// positive; all that is claimed of the draw is that it lies in the range.
#[verifier::external_body]
fn random_below(bound: u128) -> (r: u128)
    requires
        bound > 0,
    ensures
        r < bound,
{
    let mut rng = rand::rng();
    rng.random_range(0..bound)
}

/// A random fixed-point value in `lo..hi`.
pub fn random_float(lo: i64, hi: i64) -> (r: i64)
    requires
        lo < hi,
    ensures
        lo <= r < hi,
{
    let width: u128 = (hi as i128 - lo as i128) as u128;
    let offset = random_below(width);
    (lo as i128 + offset as i128) as i64
}

/// The point at distance `sqrt(r_squared)` from the origin in the direction
/// `heading`.
pub open spec fn donut_point_spec(heading: Vec2, r_squared: int) -> Vec2 {
    heading.scaled_spec(sqrt_floor(r_squared), ONE as int)
}

/// How far a heading may fall short of the length `ONE`.
pub const HEADING_SLACK: i64 = 4;

/// Whether `heading` is a unit vector as far as fixed-point numbers allow:
/// no longer than `ONE`, and shorter by `HEADING_SLACK` at most.
pub open spec fn is_heading_spec(heading: Vec2) -> bool {
    999_996 * 999_996 <= heading.length_squared_spec() <= 1_000_000 * 1_000_000
}

/// The strip at the inner edge of a ring with the outer radius `r_outer`
/// from which no radius is drawn. A point is placed by scaling a heading and
/// rounding toward zero, which can bring it closer to the center than the
/// radius drawn, by less than this margin:
/// `(HEADING_SLACK * r_outer + 2 * ONE) / (ONE - HEADING_SLACK) + 1`.
pub open spec fn ring_margin_spec(r_outer: int) -> int {
    (4 * r_outer + 2_000_000) / 999_996 + 1
}

/// Whether `point` is a sample of the ring between `r_inner` and `r_outer`
/// in the direction `heading`: its squared radius was taken from the ring
/// less the margin at its inner edge.
pub open spec fn is_donut_sample(heading: Vec2, r_inner: int, r_outer: int, point: Vec2) -> bool {
    exists|q: int|
        (r_inner + ring_margin_spec(r_outer)) * (r_inner + ring_margin_spec(r_outer)) <= q
            < r_outer * r_outer && point == #[trigger] donut_point_spec(heading, q)
}

/// Whether `heading` is a unit vector as far as fixed-point numbers allow.
pub fn is_heading(heading: Vec2) -> (b: bool)
    ensures
        b == is_heading_spec(heading),
{
    let length_squared = heading.length_squared();
    999_992_000_016 <= length_squared && length_squared <= 1_000_000_000_000
}

/// The margin at the inner edge of a ring with the outer radius `r_outer`.
pub fn ring_margin(r_outer: i64) -> (margin: i64)
    requires
        0 <= r_outer,
    ensures
        margin == ring_margin_spec(r_outer as int),
        0 < margin,
{
    ((4 * (r_outer as i128) + 2_000_000) / 999_996 + 1) as i64
}

/// The point at distance `sqrt(r_squared)` from the origin in the direction
/// `heading`, whose components are the cosine and the sine of an angle scaled
/// by `ONE`.
pub fn donut_point(heading: Vec2, r_squared: u128) -> (p: Vec2)
    requires
        r_squared <= i64::MAX * i64::MAX,
    ensures
        p == donut_point_spec(heading, r_squared as int),
{
    let r = isqrt(r_squared);
    proof {
        assert(r <= i64::MAX) by (nonlinear_arith)
            requires
                r * r <= r_squared,
                r_squared <= i64::MAX * i64::MAX,
                r >= 0,
        ;
    }
    heading.scaled(r as i64, ONE)
}

/// A random point of the ring between the radii `r_inner` and `r_outer`, in
/// the direction `heading`. The squared radius is drawn uniformly, so that
/// over uniformly drawn directions the points are spread evenly over the
/// ring's area. The ring must be wider than the margin at its inner edge.
pub fn random_point_in_donut(r_inner: i64, r_outer: i64, heading: Vec2) -> (p: Vec2)
    requires
        0 <= r_inner,
        r_inner + ring_margin_spec(r_outer as int) < r_outer,
    ensures
        is_donut_sample(heading, r_inner as int, r_outer as int, p),
{
    let least: i64 = r_inner + ring_margin(r_outer);
    assert(0 <= least * least < r_outer * r_outer <= i64::MAX * i64::MAX
        <= 0xffff_ffff_ffff_ffff_ffff_ffff_ffff_ffff) by (nonlinear_arith)
        requires
            0 <= least < r_outer <= i64::MAX,
            i64::MAX == 0x7fff_ffff_ffff_ffff,
    ;
    let lo: u128 = (least as u128) * (least as u128);
    let hi: u128 = (r_outer as u128) * (r_outer as u128);
    let q = lo + random_below(hi - lo);
    donut_point(heading, q)
}

/// A ring sample along a unit heading lies in the ring: no closer to the
/// center than the inner radius, and closer than the outer radius.
pub proof fn lemma_donut_sample_in_ring(heading: Vec2, r_inner: int, r_outer: int, point: Vec2)
    requires
        is_heading_spec(heading),
        0 <= r_inner,
        r_inner + ring_margin_spec(r_outer) < r_outer <= i64::MAX,
        is_donut_sample(heading, r_inner, r_outer, point),
    ensures
        r_inner * r_inner <= point.length_squared_spec() < r_outer * r_outer,
{
    let margin = ring_margin_spec(r_outer);
    let least = r_inner + margin;
    let q = choose|q: int|
        least * least <= q < r_outer * r_outer && point == #[trigger] donut_point_spec(heading, q);
    assert(0 <= least * least && r_outer * r_outer <= i64::MAX * i64::MAX) by (nonlinear_arith)
        requires
            0 <= least < r_outer <= i64::MAX,
    ;
    crate::fixed::lemma_sqrt_floor_exists(q);
    let r = sqrt_floor(q);
    assert(least <= r < r_outer) by (nonlinear_arith)
        requires
            0 <= r,
            0 <= least,
            0 <= r_outer,
            r * r <= q < (r + 1) * (r + 1),
            least * least <= q < r_outer * r_outer,
    ;
    assert(heading.at_most_unit());
    crate::vec2::lemma_scaled_by_unit_within(heading, r);
    assert(r * r < r_outer * r_outer) by (nonlinear_arith)
        requires
            0 <= r < r_outer,
    ;
    let x = crate::fixed::magnitude(heading.x as int);
    let y = crate::fixed::magnitude(heading.y as int);
    let a = crate::fixed::magnitude(point.x as int);
    let b = crate::fixed::magnitude(point.y as int);
    crate::vec2::lemma_truncated_product(heading.x as int, r, x, a);
    crate::vec2::lemma_truncated_product(heading.y as int, r, y, b);
    assert(x * x == heading.x * heading.x && y * y == heading.y * heading.y) by (nonlinear_arith)
        requires
            x == crate::fixed::magnitude(heading.x as int),
            y == crate::fixed::magnitude(heading.y as int),
    ;
    assert(a * a == point.x * point.x && b * b == point.y * point.y) by (nonlinear_arith)
        requires
            a == crate::fixed::magnitude(point.x as int),
            b == crate::fixed::magnitude(point.y as int),
    ;
    lemma_ring_floor(x, y, a, b, r, r_inner, r_outer);
}

/// The arithmetic of the inner bound. A point with the components `a` and
/// `b`, each the rounded-down share `x / ONE` or `y / ONE` of a radius `r`
/// beyond the margin, along a heading `(x, y)` that is short of a unit
/// vector by the slack at most, is no closer to the center than `inner`.
proof fn lemma_ring_floor(x: int, y: int, a: int, b: int, r: int, inner: int, outer: int)
    requires
        0 <= x,
        0 <= y,
        0 <= a,
        0 <= b,
        0 <= inner <= outer,
        inner + ring_margin_spec(outer) <= r,
        999_996 * 999_996 <= x * x + y * y,
        x * r < (a + 1) * 1_000_000,
        y * r < (b + 1) * 1_000_000,
    ensures
        inner * inner <= a * a + b * b,
{
    let margin = ring_margin_spec(outer);
    assert(999_996 * margin > 4 * outer + 2_000_000) by {
        let n = 4 * outer + 2_000_000;
        assert(n == 999_996 * (n / 999_996) + n % 999_996);
        assert(0 <= n % 999_996 < 999_996);
    }
    if a * a + b * b < inner * inner {
        assert(inner >= 1) by (nonlinear_arith)
            requires
                a * a + b * b < inner * inner,
                0 <= inner,
                0 <= a,
                0 <= b,
        ;
        assert(2 * (a + b) < 3 * inner) by (nonlinear_arith)
            requires
                a * a + b * b < inner * inner,
                1 <= inner,
                0 <= a,
                0 <= b,
        ;
        let big = (a + 1) * (a + 1) + (b + 1) * (b + 1);
        assert(big < (inner + 2) * (inner + 2)) by (nonlinear_arith)
            requires
                big == (a + 1) * (a + 1) + (b + 1) * (b + 1),
                a * a + b * b < inner * inner,
                2 * (a + b) < 3 * inner,
                1 <= inner,
        ;
        assert((x * r) * (x * r) < ((a + 1) * 1_000_000) * ((a + 1) * 1_000_000))
            by (nonlinear_arith)
            requires
                0 <= x,
                0 <= r,
                x * r < (a + 1) * 1_000_000,
        ;
        assert((y * r) * (y * r) < ((b + 1) * 1_000_000) * ((b + 1) * 1_000_000))
            by (nonlinear_arith)
            requires
                0 <= y,
                0 <= r,
                y * r < (b + 1) * 1_000_000,
        ;
        assert((999_996 * r) * (999_996 * r) <= (x * r) * (x * r) + (y * r) * (y * r))
            by (nonlinear_arith)
            requires
                999_996 * 999_996 <= x * x + y * y,
                0 <= r,
        ;
        assert(((a + 1) * 1_000_000) * ((a + 1) * 1_000_000) + ((b + 1) * 1_000_000) * ((b + 1)
            * 1_000_000) == big * (1_000_000 * 1_000_000)) by (nonlinear_arith)
            requires
                big == (a + 1) * (a + 1) + (b + 1) * (b + 1),
        ;
        assert(big * (1_000_000 * 1_000_000) < ((inner + 2) * 1_000_000) * ((inner + 2)
            * 1_000_000)) by (nonlinear_arith)
            requires
                big < (inner + 2) * (inner + 2),
        ;
        assert(999_996 * r < (inner + 2) * 1_000_000) by (nonlinear_arith)
            requires
                (999_996 * r) * (999_996 * r) < ((inner + 2) * 1_000_000) * ((inner + 2)
                    * 1_000_000),
                0 <= r,
                0 <= inner,
        ;
        assert(999_996 * r >= 999_996 * inner + 999_996 * margin);
        assert(false);
    }
}

} // verus!
