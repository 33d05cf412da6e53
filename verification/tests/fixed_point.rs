use zo_sim::fixed::{abs_u64, add_sat, isqrt, mul_div, neg_sat, saturate, scale_down, sub_sat, ONE};
use zo_sim::vec2::Vec2;

#[test]
fn one_is_a_million() {
    assert_eq!(ONE, 1_000_000);
}

#[test]
fn isqrt_rounds_down() {
    assert_eq!(isqrt(0), 0);
    assert_eq!(isqrt(1), 1);
    assert_eq!(isqrt(2), 1);
    assert_eq!(isqrt(3), 1);
    assert_eq!(isqrt(4), 2);
    assert_eq!(isqrt(24), 4);
    assert_eq!(isqrt(25), 5);
    assert_eq!(isqrt(26), 5);
    assert_eq!(isqrt(1_000_000_000_000), 1_000_000);
}

#[test]
fn isqrt_of_the_largest_number() {
    assert_eq!(isqrt(u128::MAX), u64::MAX);
    assert_eq!(isqrt((u64::MAX as u128) * (u64::MAX as u128)), u64::MAX);
    assert_eq!(isqrt((u64::MAX as u128) * (u64::MAX as u128) - 1), u64::MAX - 1);
}

#[test]
fn mul_div_rounds_toward_zero() {
    assert_eq!(mul_div(7, 1, 2), 3);
    assert_eq!(mul_div(-7, 1, 2), -3);
    assert_eq!(mul_div(7, -1, 2), -3);
    assert_eq!(mul_div(-7, -1, 2), 3);
    assert_eq!(mul_div(1, 1, 3), 0);
    assert_eq!(mul_div(-1, 1, 3), 0);
}

#[test]
fn mul_div_uses_a_wide_product() {
    assert_eq!(mul_div(i64::MAX, i64::MAX, i64::MAX), i64::MAX);
    assert_eq!(mul_div(4_000_000_000_000, 5_000_000_000, 1_000_000), 20_000_000_000_000_000);
}

#[test]
fn mul_div_saturates() {
    assert_eq!(mul_div(i64::MAX, 2, 1), i64::MAX);
    assert_eq!(mul_div(i64::MAX, -2, 1), i64::MIN);
    assert_eq!(mul_div(i64::MIN, i64::MIN, 1), i64::MAX);
}

#[test]
fn mul_div_by_one_multiplies_by_a_ratio() {
    assert_eq!(mul_div(10 * ONE, ONE / 2, ONE), 5 * ONE);
    assert_eq!(mul_div(-3, 700_000, ONE), -2);
    assert_eq!(mul_div(3, 700_000, ONE), 2);
}

#[test]
fn scale_down_never_grows() {
    assert_eq!(scale_down(100, 1, 3), 33);
    assert_eq!(scale_down(-100, 1, 3), -33);
    assert_eq!(scale_down(i64::MIN, 5, 5), i64::MIN);
    assert_eq!(scale_down(i64::MAX, u64::MAX, u64::MAX), i64::MAX);
    assert_eq!(scale_down(77, 0, 9), 0);
}

#[test]
fn saturating_arithmetic() {
    assert_eq!(add_sat(i64::MAX, 1), i64::MAX);
    assert_eq!(add_sat(i64::MIN, -1), i64::MIN);
    assert_eq!(add_sat(2, 3), 5);
    assert_eq!(sub_sat(i64::MIN, 1), i64::MIN);
    assert_eq!(sub_sat(i64::MAX, -1), i64::MAX);
    assert_eq!(sub_sat(2, 3), -1);
    assert_eq!(neg_sat(i64::MIN), i64::MAX);
    assert_eq!(neg_sat(5), -5);
    assert_eq!(saturate(i128::MAX), i64::MAX);
    assert_eq!(saturate(i128::MIN), i64::MIN);
    assert_eq!(saturate(-12), -12);
    assert_eq!(abs_u64(i64::MIN), 1u64 << 63);
    assert_eq!(abs_u64(-4), 4);
}

#[test]
fn vector_sums_saturate_by_component() {
    let a = Vec2::new(i64::MAX, -5);
    let b = Vec2::new(1, 7);
    assert_eq!(a.plus(b), Vec2::new(i64::MAX, 2));
    assert_eq!(b.minus(a), Vec2::new(1 - i64::MAX, 12));
    assert_eq!(Vec2::new(i64::MIN, 3).negated(), Vec2::new(i64::MAX, -3));
    assert_eq!(Vec2::zero(), Vec2::new(0, 0));
}

#[test]
fn perp_is_a_quarter_turn_to_the_left() {
    assert_eq!(Vec2::new(1, 0).perp(), Vec2::new(0, 1));
    assert_eq!(Vec2::new(0, 1).perp(), Vec2::new(-1, 0));
    assert_eq!(Vec2::new(3, -4).perp(), Vec2::new(4, 3));
}

#[test]
fn length_of_a_three_four_five_triangle() {
    let v = Vec2::new(3 * ONE, 4 * ONE);
    assert_eq!(v.length_squared(), 25_000_000_000_000);
    assert_eq!(v.length(), (5 * ONE) as u64);
    assert_eq!(Vec2::new(1, 1).length(), 1);
    assert_eq!(Vec2::new(i64::MIN, i64::MIN).length(), 13043817825332782212);
}

#[test]
fn normalized_has_unit_length() {
    assert_eq!(Vec2::new(3 * ONE, 4 * ONE).normalized(), Vec2::new(600_000, 800_000));
    assert_eq!(Vec2::new(-3, 4).normalized(), Vec2::new(-600_000, 800_000));
    assert_eq!(Vec2::new(100 * ONE, 0).normalized(), Vec2::new(ONE, 0));
    assert_eq!(Vec2::new(0, -7).normalized(), Vec2::new(0, -ONE));
    assert_eq!(Vec2::new(1, 1).normalized(), Vec2::new(ONE, ONE));
}

#[test]
fn normalized_zero_is_zero() {
    assert_eq!(Vec2::new(0, 0).normalized(), Vec2::new(0, 0));
}

#[test]
fn scaled_multiplies_each_component() {
    assert_eq!(Vec2::new(600_000, -800_000).scaled(5 * ONE, ONE), Vec2::new(3 * ONE, -4 * ONE));
    assert_eq!(Vec2::new(7, -7).scaled(1, 2), Vec2::new(3, -3));
}

#[test]
fn dot_scaled_projects_on_a_direction() {
    let right = Vec2::new(ONE, 0);
    assert_eq!(right.dot_scaled(Vec2::new(7 * ONE, 3 * ONE)), 7 * ONE);
    let diagonal = Vec2::new(600_000, 800_000);
    assert_eq!(diagonal.dot_scaled(Vec2::new(10 * ONE, 5 * ONE)), 10 * ONE);
    assert_eq!(Vec2::new(i64::MIN, i64::MIN).dot_scaled(Vec2::new(i64::MIN, i64::MIN)), i64::MAX);
}

#[test]
fn perp_dot_scaled_is_the_cross_product() {
    let offset = Vec2::new(2 * ONE, 0);
    let force = Vec2::new(0, 3 * ONE);
    assert_eq!(offset.perp_dot_scaled(force), 6 * ONE);
    assert_eq!(force.perp_dot_scaled(offset), -6 * ONE);
    assert_eq!(Vec2::new(i64::MAX, i64::MIN).perp_dot_scaled(Vec2::new(i64::MAX, i64::MAX)), i64::MAX);
    assert_eq!(Vec2::new(i64::MIN, i64::MAX).perp_dot_scaled(Vec2::new(i64::MAX, i64::MAX)), i64::MIN);
}

#[test]
fn distance_squared_is_exact_until_it_is_capped() {
    assert_eq!(Vec2::new(1, 2).distance_squared(Vec2::new(4, 6)), 25);
    assert_eq!(
        Vec2::new(i64::MIN, i64::MIN).distance_squared(Vec2::new(i64::MAX, i64::MAX)),
        u128::MAX
    );
    assert_eq!(
        Vec2::new(i64::MIN, 0).distance_squared(Vec2::new(i64::MAX, 0)),
        (u64::MAX as u128) * (u64::MAX as u128)
    );
}

#[test]
fn within_is_strict() {
    let origin = Vec2::new(0, 0);
    assert!(Vec2::new(3, 4).within(origin, 6));
    assert!(!Vec2::new(3, 4).within(origin, 5));
    assert!(!Vec2::new(3, 4).within(origin, 0));
    assert!(!Vec2::new(i64::MIN, i64::MIN).within(Vec2::new(i64::MAX, i64::MAX), u64::MAX));
}
