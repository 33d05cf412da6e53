use zo_sim::camera_follow::CameraFollow;
use zo_sim::fixed::ONE;
use zo_sim::force::ExternalForce;
use zo_sim::scheduler::{IntervalTimer, AGRO_INTERVAL, POPULATION_INTERVAL};
use zo_sim::transform::{Rotation, Transform};
use zo_sim::utils::{position, query_double};
use zo_sim::vec2::Vec2;

#[test]
fn a_new_buffer_is_empty() {
    let acc = ExternalForce::new();
    assert_eq!(acc.force, Vec2::new(0, 0));
    assert_eq!(acc.torque, 0);
}

#[test]
fn apply_force_adds_no_torque() {
    let mut acc = ExternalForce::new();
    acc.apply_force(Vec2::new(3, -4));
    acc.apply_force(Vec2::new(10, 10));
    assert_eq!(acc.force, Vec2::new(13, 6));
    assert_eq!(acc.torque, 0);
}

#[test]
fn apply_force_at_point_adds_torque() {
    let mut acc = ExternalForce::new();
    acc.apply_force_at_point(Vec2::new(0, 3 * ONE), Vec2::new(5 * ONE, 7 * ONE), Vec2::new(3 * ONE, 7 * ONE));
    assert_eq!(acc.force, Vec2::new(0, 3 * ONE));
    assert_eq!(acc.torque, 6 * ONE);
    acc.apply_force_at_point(Vec2::new(0, 3 * ONE), Vec2::new(ONE, 7 * ONE), Vec2::new(3 * ONE, 7 * ONE));
    assert_eq!(acc.force, Vec2::new(0, 6 * ONE));
    assert_eq!(acc.torque, 0);
}

#[test]
fn a_force_through_the_center_adds_no_torque() {
    let mut acc = ExternalForce::new();
    acc.apply_force_at_point(Vec2::new(0, 3 * ONE), Vec2::new(3 * ONE, 99 * ONE), Vec2::new(3 * ONE, 7 * ONE));
    assert_eq!(acc.torque, 0);
}

#[test]
fn contributions_commute() {
    let center = Vec2::new(ONE, ONE);
    let f = (Vec2::new(3 * ONE, -2 * ONE), Vec2::new(5 * ONE, 0));
    let g = (Vec2::new(-7 * ONE, 11 * ONE), Vec2::new(0, -4 * ONE));
    let mut a = ExternalForce::new();
    a.apply_force_at_point(f.0, f.1, center);
    a.apply_force_at_point(g.0, g.1, center);
    let mut b = ExternalForce::new();
    b.apply_force_at_point(g.0, g.1, center);
    b.apply_force_at_point(f.0, f.1, center);
    assert_eq!(a, b);
    assert_eq!(a.force, Vec2::new(-4 * ONE, 9 * ONE));
}

#[test]
fn the_buffer_saturates() {
    let mut acc = ExternalForce::new();
    acc.apply_force(Vec2::new(i64::MAX, i64::MIN));
    acc.apply_force(Vec2::new(1, -1));
    assert_eq!(acc.force, Vec2::new(i64::MAX, i64::MIN));
}

#[test]
fn clear_empties_the_buffer() {
    let mut acc = ExternalForce::new();
    acc.apply_force_at_point(Vec2::new(0, 3 * ONE), Vec2::new(5 * ONE, 0), Vec2::new(0, 0));
    acc.clear();
    assert_eq!(acc, ExternalForce::new());
}

#[test]
fn identity_rotation_axes() {
    let r = Rotation::identity();
    assert_eq!(r.right(), Vec2::new(ONE, 0));
    assert_eq!(r.up(), Vec2::new(0, ONE));
}

#[test]
fn quarter_turn_axes() {
    let r = Rotation { cos: 0, sin: ONE };
    assert_eq!(r.right(), Vec2::new(0, ONE));
    assert_eq!(r.up(), Vec2::new(-ONE, 0));
}

#[test]
fn facing_points_the_forward_axis() {
    for direction in [Vec2::new(ONE, 0), Vec2::new(0, ONE), Vec2::new(-600_000, 800_000), Vec2::new(0, -ONE)] {
        assert_eq!(Rotation::facing(direction).up(), direction);
    }
    assert_eq!(Rotation::facing(Vec2::new(ONE, 0)), Rotation { cos: 0, sin: -ONE });
    assert_eq!(Rotation::facing(Vec2::new(0, ONE)), Rotation::identity());
}

#[test]
fn from_translation_is_not_turned() {
    let t = Transform::from_translation(Vec2::new(4, 5));
    assert_eq!(t.translation, Vec2::new(4, 5));
    assert_eq!(t.rotation, Rotation::identity());
}

#[test]
fn position_finds_the_first_occurrence() {
    let table = vec![5, 9, 5, 2];
    assert_eq!(position(&table, 5), Some(0));
    assert_eq!(position(&table, 2), Some(3));
    assert_eq!(position(&table, 1), None);
    assert_eq!(position(&Vec::new(), 1), None);
}

#[test]
fn query_double_accepts_either_order() {
    let cars = vec![10, 11];
    let zombies = vec![20, 21, 22];
    assert_eq!(query_double(&cars, &zombies, 11, 22), Some((1, 2)));
    assert_eq!(query_double(&cars, &zombies, 22, 11), Some((1, 2)));
    assert_eq!(query_double(&cars, &zombies, 10, 11), None);
    assert_eq!(query_double(&cars, &zombies, 20, 21), None);
    assert_eq!(query_double(&cars, &zombies, 10, 99), None);
}

#[test]
fn query_double_prefers_the_given_order() {
    let first = vec![1, 2];
    let second = vec![2, 1];
    assert_eq!(query_double(&first, &second, 1, 2), Some((0, 0)));
    assert_eq!(query_double(&first, &second, 2, 1), Some((1, 1)));
}

#[test]
fn camera_closes_in_on_its_target() {
    let camera = CameraFollow::new(5, 4 * ONE);
    assert_eq!(camera.follow, 5);
    assert_eq!(camera.speed, 4 * ONE);
    assert_eq!(camera.step(Vec2::new(0, 0), Vec2::new(10 * ONE, 0), 20_000), Vec2::new(800_000, 0));
    assert_eq!(camera.step(Vec2::new(0, 0), Vec2::new(10 * ONE, -10 * ONE), 250_000), Vec2::new(10 * ONE, -10 * ONE));
    assert_eq!(camera.step(Vec2::new(3, 3), Vec2::new(3, 3), 20_000), Vec2::new(3, 3));
    assert_eq!(camera.step(Vec2::new(3, 3), Vec2::new(9, 9), 0), Vec2::new(3, 3));
}

#[test]
fn a_timer_fires_once_an_interval_has_gathered() {
    assert_eq!(POPULATION_INTERVAL, 100_000);
    assert_eq!(AGRO_INTERVAL, 500_000);
    let mut timer = IntervalTimer::new(100_000);
    assert_eq!(timer, IntervalTimer { interval: 100_000, elapsed: 0 });
    assert!(!timer.tick(16_667));
    assert!(!timer.tick(16_667));
    assert!(!timer.tick(16_667));
    assert!(!timer.tick(16_667));
    assert!(!timer.tick(16_667));
    assert_eq!(timer.elapsed, 83_335);
    assert!(timer.tick(16_667));
    assert_eq!(timer.elapsed, 2);
    assert!(!timer.tick(99_997));
    assert!(timer.tick(1));
    assert_eq!(timer.elapsed, 0);
}

#[test]
fn a_timer_fires_once_for_several_intervals() {
    let mut timer = IntervalTimer::new(100);
    assert!(timer.tick(350));
    assert_eq!(timer.elapsed, 50);
    assert!(timer.tick(u64::MAX));
    assert_eq!(timer.elapsed, u64::MAX % 100);
    let mut always = IntervalTimer::new(0);
    assert!(always.tick(0));
    assert!(always.tick(7));
    assert_eq!(always.elapsed, 0);
}
