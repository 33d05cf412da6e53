use zo_sim::car::tire::{
    apply_tire, body_index, drive_direction, grip, grip_force, lateral_correction, point_velocity,
    power, power_force, rolling_resistance, rolling_resistance_force, tire_force, CarBody,
    Contribution, Tire, TireView, SLIP_RESOLUTION,
};
use zo_sim::car::Car;
use zo_sim::fixed::ONE;
use zo_sim::force::ExternalForce;
use zo_sim::transform::{Rotation, Transform};
use zo_sim::vec2::Vec2;

fn body(entity: u64, velocity: Vec2) -> CarBody {
    CarBody {
        entity,
        car: Car::new(4000 * ONE, 4000 * ONE),
        position: Vec2::new(0, 0),
        linear_velocity: velocity,
        angular_velocity: 0,
        force: ExternalForce::new(),
    }
}

fn tire_at(parent: u64, x: i64, y: i64, powered: bool) -> TireView {
    TireView {
        parent,
        transform: Transform::from_translation(Vec2::new(x, y)),
        tire: Tire::new(powered, None, 500_000, 700_000),
    }
}

#[test]
fn tire_new_keeps_its_arguments() {
    let tire = Tire::new(true, Some(30 * ONE), 500_000, 700_000);
    assert!(tire.current_powered);
    assert_eq!(tire.turning_radius, Some(30 * ONE));
    assert_eq!(tire.rolling_resistance, 500_000);
    assert_eq!(tire.grip, 700_000);
    let car = Car::new(1, 2);
    assert_eq!(car.current_power, 1);
    assert_eq!(car.max_power, 2);
}

#[test]
fn rolling_resistance_of_a_fast_body_is_the_tire_limit() {
    let f = rolling_resistance_force(500_000, Vec2::new(3 * ONE, 4 * ONE));
    assert_eq!(f, Vec2::new(-300_000, -400_000));
}

#[test]
fn rolling_resistance_of_a_slow_body_is_its_velocity_reversed() {
    assert_eq!(rolling_resistance_force(500_000, Vec2::new(300_000, -400_000)), Vec2::new(-300_000, 400_000));
    assert_eq!(rolling_resistance_force(500_000, Vec2::new(30, 40)), Vec2::new(-30, -40));
    assert_eq!(rolling_resistance_force(u64::MAX, Vec2::new(-7, 0)), Vec2::new(7, 0));
}

#[test]
fn rolling_resistance_of_a_body_at_rest_is_zero() {
    assert_eq!(rolling_resistance_force(500_000, Vec2::new(0, 0)), Vec2::new(0, 0));
    assert_eq!(rolling_resistance_force(0, Vec2::new(5, 5)), Vec2::new(0, 0));
}

#[test]
fn rolling_resistance_never_exceeds_the_speed() {
    let values = [i64::MIN, -4_000_000_123, -ONE, -3, -1, 0, 1, 2, 77, ONE, 9_999_999_999, i64::MAX];
    let limits = [0u64, 1, 3, 500_000, 10_000_000_000, u64::MAX];
    for &x in values.iter() {
        for &y in values.iter() {
            for &limit in limits.iter() {
                let v = Vec2::new(x, y);
                let f = rolling_resistance_force(limit, v);
                assert!(f.length_squared() <= v.length_squared());
                assert!(f.x.unsigned_abs() <= x.unsigned_abs());
                assert!(f.y.unsigned_abs() <= y.unsigned_abs());
                assert!(x == 0 || f.x == 0 || (f.x < 0) != (x < 0));
                assert!(y == 0 || f.y == 0 || (f.y < 0) != (y < 0));
            }
        }
    }
}

#[test]
fn point_velocity_adds_the_spin() {
    let v = point_velocity(Vec2::new(ONE, 0), 2 * ONE, Vec2::new(0, 3 * ONE));
    assert_eq!(v, Vec2::new(-5 * ONE, 0));
    assert_eq!(point_velocity(Vec2::new(ONE, 2), 0, Vec2::new(9, 9)), Vec2::new(ONE, 2));
}

#[test]
fn full_grip_cancels_the_sideways_speed() {
    let right = Vec2::new(ONE, 0);
    let velocity = Vec2::new(7 * ONE, 3 * ONE);
    let f = grip_force(right, velocity, ONE, ONE);
    assert_eq!(f, Vec2::new(-7 * ONE, 0));
    let after = velocity.plus(f);
    assert_eq!(right.dot_scaled(after), 0);
    assert_eq!(after, Vec2::new(0, 3 * ONE));
    assert_eq!(grip_force(right, after, ONE, ONE), Vec2::new(0, 0));
}

#[test]
fn full_grip_on_the_other_axes() {
    let velocity = Vec2::new(-7 * ONE, 3 * ONE);
    for right in [Vec2::new(-ONE, 0), Vec2::new(0, ONE), Vec2::new(0, -ONE)] {
        let after = velocity.plus(grip_force(right, velocity, ONE, ONE));
        assert_eq!(right.dot_scaled(after), 0);
    }
}

#[test]
fn nominal_and_drift_grip_cancel_a_share() {
    let right = Vec2::new(ONE, 0);
    let velocity = Vec2::new(7 * ONE, 3 * ONE);
    assert_eq!(grip_force(right, velocity, 700_000, ONE), Vec2::new(-4_900_000, 0));
    assert_eq!(grip_force(right, velocity, 200_000, ONE), Vec2::new(-1_400_000, 0));
    assert_eq!(grip_force(right, velocity, 0, ONE), Vec2::new(0, 0));
    assert_eq!(grip_force(right, velocity, 700_000, ONE / 2), Vec2::new(-2_450_000, 0));
}

#[test]
fn grip_along_a_slanted_axis() {
    let right = Vec2::new(600_000, 800_000);
    let f = grip_force(right, Vec2::new(10 * ONE, 5 * ONE), ONE, ONE);
    assert_eq!(f, Vec2::new(-6 * ONE, -8 * ONE));
}

#[test]
fn lateral_correction_rounds_toward_zero() {
    assert_eq!(lateral_correction(1, 700_000, ONE), 0);
    assert_eq!(lateral_correction(-1, 700_000, ONE), 0);
    assert_eq!(lateral_correction(10, 700_000, ONE), 7);
    assert_eq!(lateral_correction(-10, 700_000, ONE), -7);
    assert_eq!(lateral_correction(-10, ONE, ONE), -10);
}

#[test]
fn grip_never_overshoots() {
    for &lateral in [i64::MIN, -ONE, -3, 0, 1, 5, ONE, i64::MAX].iter() {
        for &g in [0, 1, 200_000, 700_000, ONE].iter() {
            for &ts in [0, 1, ONE / 2, ONE].iter() {
                let c = lateral_correction(lateral, g, ts);
                assert!(c.unsigned_abs() <= lateral.unsigned_abs());
                assert!(c == 0 || (c < 0) == (lateral < 0));
            }
        }
    }
}

#[test]
fn drive_direction_prefers_forward() {
    assert_eq!(drive_direction(true, false), 1);
    assert_eq!(drive_direction(true, true), 1);
    assert_eq!(drive_direction(false, true), -1);
    assert_eq!(drive_direction(false, false), 0);
}

#[test]
fn power_force_along_the_forward_axis() {
    let up = Vec2::new(0, ONE);
    assert_eq!(power_force(up, 4000 * ONE, 1, 20_000), Vec2::new(0, 80 * ONE));
    assert_eq!(power_force(up, 4000 * ONE, -1, 20_000), Vec2::new(0, -80 * ONE));
    assert_eq!(power_force(up, 4000 * ONE, 0, 20_000), Vec2::new(0, 0));
    assert_eq!(power_force(Vec2::new(600_000, 800_000), 1000 * ONE, 1, ONE), Vec2::new(600 * ONE, 800 * ONE));
}

#[test]
fn body_index_finds_the_first() {
    let cars = vec![body(4, Vec2::zero()), body(9, Vec2::zero()), body(4, Vec2::zero())];
    assert_eq!(body_index(&cars, 4), Some(0));
    assert_eq!(body_index(&cars, 9), Some(1));
    assert_eq!(body_index(&cars, 5), None);
}

#[test]
fn rolling_resistance_is_applied_at_the_tire() {
    let mut cars = vec![body(1, Vec2::new(3 * ONE, 4 * ONE))];
    let tires = vec![tire_at(1, 8 * ONE, 16 * ONE, false)];
    rolling_resistance(&tires, &mut cars, ONE);
    assert_eq!(cars[0].force.force, Vec2::new(-300_000, -400_000));
    assert_eq!(cars[0].force.torque, 1_600_000);
    assert_eq!(cars[0].linear_velocity, Vec2::new(3 * ONE, 4 * ONE));
}

#[test]
fn rolling_resistance_scales_with_the_time_step() {
    let mut cars = vec![body(1, Vec2::new(3 * ONE, 4 * ONE))];
    let tires = vec![tire_at(1, 8 * ONE, 16 * ONE, false)];
    rolling_resistance(&tires, &mut cars, 20_000);
    assert_eq!(cars[0].force.force, Vec2::new(-6_000, -8_000));
    assert_eq!(cars[0].force.torque, 32_000);
}

#[test]
fn a_tire_without_its_vehicle_does_nothing() {
    let mut cars = vec![body(1, Vec2::new(3 * ONE, 4 * ONE))];
    let tires = vec![tire_at(99, 8 * ONE, 16 * ONE, true)];
    rolling_resistance(&tires, &mut cars, ONE);
    grip(&tires, &mut cars, ONE);
    power(true, false, &tires, &mut cars, ONE);
    assert_eq!(cars[0].force, ExternalForce::new());
    let mut none: Vec<CarBody> = Vec::new();
    rolling_resistance(&tires, &mut none, ONE);
    assert!(none.is_empty());
    rolling_resistance(&Vec::new(), &mut cars, ONE);
    assert_eq!(cars[0].force, ExternalForce::new());
}

#[test]
fn four_tires_add_up_on_one_body() {
    let mut cars = vec![body(1, Vec2::new(3 * ONE, 4 * ONE)), body(2, Vec2::new(0, 0))];
    let tires = vec![
        tire_at(1, 8 * ONE, 16 * ONE, true),
        tire_at(1, -8 * ONE, 16 * ONE, true),
        tire_at(1, 8 * ONE, -16 * ONE, false),
        tire_at(1, -8 * ONE, -16 * ONE, false),
    ];
    rolling_resistance(&tires, &mut cars, ONE);
    assert_eq!(cars[0].force.force, Vec2::new(-1_200_000, -1_600_000));
    assert_eq!(cars[0].force.torque, 0);
    assert_eq!(cars[1].force, ExternalForce::new());
}

#[test]
fn tire_order_does_not_matter() {
    let tires = vec![
        tire_at(1, 8 * ONE, 16 * ONE, true),
        tire_at(1, -8 * ONE, 16 * ONE, true),
        tire_at(1, 8 * ONE, -16 * ONE, false),
    ];
    let reversed: Vec<TireView> = tires.iter().rev().cloned().collect();
    let mut a = vec![body(1, Vec2::new(3 * ONE, 4 * ONE))];
    let mut b = vec![body(1, Vec2::new(3 * ONE, 4 * ONE))];
    rolling_resistance(&tires, &mut a, 16_667);
    grip(&tires, &mut a, 16_667);
    power(true, false, &tires, &mut a, 16_667);
    power(true, false, &reversed, &mut b, 16_667);
    grip(&reversed, &mut b, 16_667);
    rolling_resistance(&reversed, &mut b, 16_667);
    assert_eq!(a, b);
}

#[test]
fn grip_system_uses_sixty_ticks_per_second() {
    let mut cars = vec![body(1, Vec2::new(7 * ONE, 0))];
    let tires = vec![tire_at(1, 0, 0, false)];
    grip(&tires, &mut cars, 16_667);
    assert_eq!(cars[0].force.force, Vec2::new(-4_900_098, 0));
    assert_eq!(cars[0].force.torque, 0);
}

#[test]
fn grip_system_sees_the_spin_at_the_tire() {
    let mut cars = vec![body(1, Vec2::new(0, 0))];
    cars[0].angular_velocity = ONE;
    let tires = vec![tire_at(1, 0, 10 * ONE, false)];
    grip(&tires, &mut cars, ONE / 60);
    let share = 700_000i64 * (ONE / 60 * 60) / ONE;
    let expected = 10 * share;
    assert_eq!(cars[0].force.force, Vec2::new(expected, 0));
    assert_eq!(cars[0].force.torque, -10 * expected);
}

#[test]
fn power_drives_the_powered_tires_only() {
    let mut cars = vec![body(1, Vec2::new(0, 0))];
    let tires = vec![tire_at(1, 8 * ONE, 16 * ONE, true), tire_at(1, 8 * ONE, -16 * ONE, false)];
    power(true, false, &tires, &mut cars, 20_000);
    assert_eq!(cars[0].force.force, Vec2::new(0, 80 * ONE));
    assert_eq!(cars[0].force.torque, 8 * 80 * ONE);
    let mut back = vec![body(1, Vec2::new(0, 0))];
    power(false, true, &tires, &mut back, 20_000);
    assert_eq!(back[0].force.force, Vec2::new(0, -80 * ONE));
    let mut idle = vec![body(1, Vec2::new(0, 0))];
    power(false, false, &tires, &mut idle, 20_000);
    assert_eq!(idle[0].force, ExternalForce::new());
}

#[test]
fn power_follows_the_steered_tire() {
    let mut cars = vec![body(1, Vec2::new(0, 0))];
    let mut tire = tire_at(1, 0, 0, true);
    tire.transform.rotation = Rotation { cos: 0, sin: ONE };
    power(true, false, &vec![tire], &mut cars, ONE);
    assert_eq!(cars[0].force.force, Vec2::new(-4000 * ONE, 0));
}

#[test]
fn tire_force_of_each_kind() {
    let car = body(1, Vec2::new(3 * ONE, 4 * ONE));
    let tire = tire_at(1, 0, 0, true);
    assert_eq!(tire_force(Contribution::RollingResistance, &tire, &car, ONE), Vec2::new(-300_000, -400_000));
    assert_eq!(tire_force(Contribution::Grip, &tire, &car, ONE / 60), Vec2::new(-2_099_916, 0));
    assert_eq!(tire_force(Contribution::Power { direction: 1 }, &tire, &car, ONE), Vec2::new(0, 4000 * ONE));
}

#[test]
fn grip_on_a_slanted_axis_shrinks_the_slip_to_the_resolution() {
    let right = Vec2::new(707_106, 707_106);
    let mut velocity = Vec2::new(7 * ONE, -2 * ONE);
    let mut slip = right.dot_scaled(velocity);
    assert_eq!(slip, 3_535_530);
    for _ in 0..10 {
        velocity = velocity.plus(grip_force(right, velocity, ONE, ONE));
        let next = right.dot_scaled(velocity);
        assert!(0 <= next && next <= slip);
        slip = next;
    }
    assert!(slip <= 2);
    let stuck = Vec2::new(2, 0);
    assert_eq!(right.dot_scaled(stuck), 1);
    assert_eq!(grip_force(right, stuck, ONE, ONE), Vec2::new(0, 0));
}

#[test]
fn apply_tire_adds_to_the_first_body_with_the_handle() {
    let mut cars = vec![body(2, Vec2::new(0, 0)), body(1, Vec2::new(0, 0)), body(1, Vec2::new(0, 0))];
    let tire = tire_at(1, 8 * ONE, 16 * ONE, true);
    apply_tire(Contribution::Power { direction: 1 }, &tire, &mut cars, ONE);
    assert_eq!(cars[0].force, ExternalForce::new());
    assert_eq!(cars[1].force.force, Vec2::new(0, 4000 * ONE));
    assert_eq!(cars[1].force.torque, 8 * 4000 * ONE);
    assert_eq!(cars[2].force, ExternalForce::new());
}

#[test]
fn full_grip_settles_the_slip_within_four_ticks() {
    let axes = [
        Vec2::new(707_106, 707_106),
        Vec2::new(-600_000, 800_000),
        Vec2::new(999_996, 0),
        Vec2::new(28_001, -999_607),
        Vec2::new(-866_025, -499_999),
        Vec2::new(ONE, 0),
    ];
    let speeds = [0, 1, 2, 7, 999_999, 3 * ONE, -123_456_789_012, 1i64 << 50, -(1i64 << 50)];
    for &right in axes.iter() {
        for &x in speeds.iter() {
            for &y in speeds.iter() {
                let mut velocity = Vec2::new(x, y);
                for _ in 0..4 {
                    velocity = velocity.plus(grip_force(right, velocity, ONE, ONE));
                }
                assert!(right.dot_scaled(velocity).abs() <= SLIP_RESOLUTION);
            }
        }
    }
}

#[test]
fn grip_takes_its_share_of_the_slip() {
    let right = Vec2::new(707_106, 707_106);
    let velocity = Vec2::new(7 * ONE, -2 * ONE);
    let slip = right.dot_scaled(velocity);
    for (g, ts) in [(700_000, ONE), (200_000, ONE), (700_000, ONE / 2), (ONE, ONE), (0, ONE)] {
        let correction = lateral_correction(slip, g, ts);
        let after = velocity.plus(grip_force(right, velocity, g, ts));
        let left = right.dot_scaled(after);
        assert!(0 <= left && left <= slip);
        assert!(left * ONE < (slip - correction + 3) * ONE + 8 * correction);
        assert!(left >= slip - correction);
    }
}
