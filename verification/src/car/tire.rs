//! The tire model.
//!
//! Every tick each tire contributes three forces to the body of its vehicle:
//! rolling resistance, which opposes the motion without ever reversing it;
//! grip, which cancels the sideways slip at the tire; and power, which
//! drives the powered tires along their forward axis. Each force is applied
//! at the tire's position, so that off-center tires also turn the body.

use vstd::prelude::*;
use crate::car::Car;
use crate::fixed::{
    clamp_i64, div_toward_zero, lemma_scale_down_bounds, lemma_sqrt_floor_exists, magnitude,
    mul_div, mul_div_spec, neg_sat, saturate, scale_down, ONE,
};
use crate::force::ExternalForce;
use crate::ids::Entity;
use crate::transform::Transform;
use crate::vec2::{lemma_component_at_most_length, Vec2};

verus! {

/// How many nominal ticks pass in a second: the grip force is tuned for a
/// time step of one sixtieth of a second.
pub const NOMINAL_TICK_RATE: i64 = 60;

/// One wheel of a vehicle.
#[derive(Clone, Copy, Debug, PartialEq, Eq)]
pub struct Tire {
    /// Whether the engine drives this tire.
    pub current_powered: bool,
    /// The steering lock in degrees; `None` on an axle that does not steer.
    pub turning_radius: Option<i64>,
    /// The largest force with which the tire opposes the motion.
    pub rolling_resistance: u64,
    /// The share of the sideways slip that the tire cancels.
    pub grip: i64,
}

/// A tire as the force model sees it.
#[derive(Clone, Copy, Debug, PartialEq, Eq)]
pub struct TireView {
    /// The vehicle that the tire is attached to.
    pub parent: Entity,
    /// The tire's pose in the world.
    pub transform: Transform,
    pub tire: Tire,
}

/// The rigid body of a vehicle as the force model sees it.
#[derive(Clone, Copy, Debug, PartialEq, Eq)]
pub struct CarBody {
    pub entity: Entity,
    pub car: Car,
    /// The center of the body in the world.
    pub position: Vec2,
    pub linear_velocity: Vec2,
    /// In radians per second, counter-clockwise.
    pub angular_velocity: i64,
    pub force: ExternalForce,
}

/// One of the three forces of a tire.
#[derive(Clone, Copy, Debug, PartialEq, Eq)]
pub enum Contribution {
    RollingResistance,
    Grip,
    /// Engine power along `direction`: 1 forward, -1 backward, 0 idle.
    Power { direction: i64 },
}

impl Tire {
    pub fn new(
        current_powered: bool,
        turning_radius: Option<i64>,
        rolling_resistance: u64,
        grip: i64,
    ) -> (tire: Tire)
        ensures
            tire == (Tire { current_powered, turning_radius, rolling_resistance, grip }),
    {
        Tire { current_powered, turning_radius, rolling_resistance, grip }
    }
}

/// The rolling resistance on a body that moves with `velocity`: a force
/// against the motion whose size is the smaller of `resistance` and the
/// speed.
pub open spec fn rolling_resistance_spec(resistance: u64, velocity: Vec2) -> Vec2 {
    let speed = velocity.length_spec();
    if speed == 0 {
        Vec2 { x: 0, y: 0 }
    } else {
        let size = if resistance <= speed {
            resistance as int
        } else {
            speed
        };
        Vec2 {
            x: clamp_i64(-div_toward_zero(velocity.x * size, speed)) as i64,
            y: clamp_i64(-div_toward_zero(velocity.y * size, speed)) as i64,
        }
    }
}

/// The rolling resistance as it is applied over a step of `dt` seconds.
pub open spec fn tire_resistance_spec(resistance: u64, velocity: Vec2, dt: i64) -> Vec2 {
    rolling_resistance_spec(resistance, velocity).scaled_spec(dt as int, ONE as int)
}

/// The velocity of the point of a body that lies at `offset` from its
/// center.
pub open spec fn point_velocity_spec(linear: Vec2, angular: i64, offset: Vec2) -> Vec2 {
    linear.plus_spec(offset.perp_spec().scaled_spec(angular as int, ONE as int))
}

/// The sideways speed of a tire: the part of `tire_velocity` along the
/// tire's `right` axis.
pub open spec fn lateral_velocity_spec(right: Vec2, tire_velocity: Vec2) -> int {
    clamp_i64(div_toward_zero(right.dot_spec(tire_velocity), ONE as int))
}

/// The part of the sideways speed `lateral` that a tire with `grip` takes
/// away in a step of `timestep_scale` nominal ticks.
pub open spec fn lateral_correction_spec(lateral: int, grip: int, timestep_scale: int) -> int {
    mul_div_spec(lateral, mul_div_spec(grip, timestep_scale, ONE as int), ONE as int)
}

/// The grip force: against the `right` axis, as large as the correction of
/// the sideways speed.
pub open spec fn grip_force_spec(right: Vec2, tire_velocity: Vec2, grip: i64, timestep_scale: i64) -> Vec2 {
    right.scaled_spec(
        lateral_correction_spec(
            lateral_velocity_spec(right, tire_velocity),
            grip as int,
            timestep_scale as int,
        ),
        ONE as int,
    ).negated_spec()
}

/// The engine force on a tire over a step of `dt` seconds: `power` along
/// `direction` on the forward axis `up`.
pub open spec fn power_force_spec(up: Vec2, power: i64, direction: i64, dt: i64) -> Vec2 {
    up.scaled_spec(mul_div_spec(clamp_i64(power * direction), dt as int, ONE as int), ONE as int)
}

/// Which way the engine drives: forward wins over backward, and with neither
/// held the engine idles.
pub open spec fn drive_direction_spec(forward: bool, backward: bool) -> i64 {
    if forward {
        1i64
    } else if backward {
        (-1i64) as i64
    } else {
        0i64
    }
}

/// The force that `tire` contributes to `body` in a step of `dt` seconds.
pub open spec fn tire_force_spec(kind: Contribution, tire: TireView, body: CarBody, dt: i64) -> Vec2 {
    match kind {
        Contribution::RollingResistance => tire_resistance_spec(
            tire.tire.rolling_resistance,
            body.linear_velocity,
            dt,
        ),
        Contribution::Grip => grip_force_spec(
            tire.transform.rotation.right_spec(),
            point_velocity_spec(
                body.linear_velocity,
                body.angular_velocity,
                tire.transform.translation.minus_spec(body.position),
            ),
            tire.tire.grip,
            clamp_i64(dt * NOMINAL_TICK_RATE) as i64,
        ),
        Contribution::Power { direction } => if tire.tire.current_powered {
            power_force_spec(tire.transform.rotation.up_spec(), body.car.current_power, direction, dt)
        } else {
            Vec2 { x: 0, y: 0 }
        },
    }
}

/// The index of the first body with the handle `entity`.
pub open spec fn body_index_spec(cars: Seq<CarBody>, entity: Entity) -> Option<int> {
    if exists|i: int| 0 <= i < cars.len() && (#[trigger] cars[i]).entity == entity {
        Some(
            choose|i: int|
                0 <= i < cars.len() && (#[trigger] cars[i]).entity == entity && forall|k: int|
                    0 <= k < i ==> (#[trigger] cars[k]).entity != entity,
        )
    } else {
        None
    }
}

/// The bodies after `tire` has contributed its force. A tire whose vehicle
/// is not among the bodies contributes nothing.
#[verifier::opaque]
pub open spec fn apply_tire_spec(kind: Contribution, tire: TireView, cars: Seq<CarBody>, dt: i64) -> Seq<
    CarBody,
> {
    match body_index_spec(cars, tire.parent) {
        None => cars,
        Some(i) => cars.update(
            i,
            CarBody {
                force: cars[i].force.apply_force_at_point_spec(
                    tire_force_spec(kind, tire, cars[i], dt),
                    tire.transform.translation,
                    cars[i].position,
                ),
                ..cars[i]
            },
        ),
    }
}

/// The bodies after every tire, in order, has contributed its force.
pub open spec fn apply_tires_spec(kind: Contribution, tires: Seq<TireView>, cars: Seq<CarBody>, dt: i64) -> Seq<
    CarBody,
>
    decreases tires.len(),
{
    if tires.len() == 0 {
        cars
    } else {
        apply_tire_spec(
            kind,
            tires.last(),
            apply_tires_spec(kind, tires.drop_last(), cars, dt),
            dt,
        )
    }
}

/// The rolling resistance on a body that moves with `velocity`. It never
/// exceeds the velocity, in either component or in length, and points
/// against it: added to the velocity it can stop the body but not turn it
/// around.
pub fn rolling_resistance_force(resistance: u64, velocity: Vec2) -> (f: Vec2)
    ensures
        f == rolling_resistance_spec(resistance, velocity),
        magnitude(f.x as int) <= magnitude(velocity.x as int),
        magnitude(f.y as int) <= magnitude(velocity.y as int),
        f.length_squared_spec() <= velocity.length_squared_spec(),
        velocity.x >= 0 ==> 0 <= velocity.x + f.x <= velocity.x,
        velocity.x <= 0 ==> velocity.x <= velocity.x + f.x <= 0,
        velocity.y >= 0 ==> 0 <= velocity.y + f.y <= velocity.y,
        velocity.y <= 0 ==> velocity.y <= velocity.y + f.y <= 0,
{
    let speed = velocity.length();
    if speed == 0 {
        proof {
            lemma_component_at_most_length(velocity, 0);
        }
        return Vec2 { x: 0, y: 0 };
    }
    let size = if resistance <= speed {
        resistance
    } else {
        speed
    };
    let rx = scale_down(velocity.x, size, speed);
    let ry = scale_down(velocity.y, size, speed);
    let f = Vec2 { x: neg_sat(rx), y: neg_sat(ry) };
    proof {
        lemma_squares_ordered(f.x as int, velocity.x as int);
        lemma_squares_ordered(f.y as int, velocity.y as int);
    }
    f
}

/// The rolling resistance that is applied over a step of at most a second
/// does not exceed the velocity either, in any component.
pub proof fn lemma_applied_resistance_bounded(resistance: u64, velocity: Vec2, dt: i64)
    requires
        0 <= dt <= ONE,
    ensures
        magnitude(
            tire_resistance_spec(resistance, velocity, dt).x as int,
        ) <= magnitude(velocity.x as int),
        magnitude(
            tire_resistance_spec(resistance, velocity, dt).y as int,
        ) <= magnitude(velocity.y as int),
{
    assert(velocity.length_squared_spec() >= 0) by (nonlinear_arith)
        requires
            velocity.length_squared_spec() == velocity.x * velocity.x + velocity.y * velocity.y,
    ;
    lemma_sqrt_floor_exists(velocity.length_squared_spec());
    let speed = velocity.length_spec();
    let f = rolling_resistance_spec(resistance, velocity);
    if speed == 0 {
        lemma_component_at_most_length(velocity, 0);
        assert(0int * dt == 0) by (nonlinear_arith);
    } else {
        let size = if resistance <= speed {
            resistance as int
        } else {
            speed
        };
        lemma_scale_down_bounds(velocity.x as int, size, speed);
        lemma_scale_down_bounds(velocity.y as int, size, speed);
    }
    lemma_scale_down_bounds(f.x as int, dt as int, ONE as int);
    lemma_scale_down_bounds(f.y as int, dt as int, ONE as int);
}

/// A number no larger in magnitude has no larger a square.
pub proof fn lemma_squares_ordered(a: int, b: int)
    requires
        magnitude(a) <= magnitude(b),
    ensures
        a * a <= b * b,
{
    let ma = magnitude(a);
    let mb = magnitude(b);
    assert(a * a == ma * ma && b * b == mb * mb) by (nonlinear_arith)
        requires
            ma == magnitude(a),
            mb == magnitude(b),
    ;
    assert(ma * ma <= mb * mb) by (nonlinear_arith)
        requires
            0 <= ma <= mb,
    ;
}

/// The velocity of the point of a body that lies at `offset` from its
/// center.
pub fn point_velocity(linear: Vec2, angular: i64, offset: Vec2) -> (v: Vec2)
    ensures
        v == point_velocity_spec(linear, angular, offset),
{
    linear.plus(offset.perp().scaled(angular, ONE))
}

/// The part of the sideways speed `lateral` that a tire with `grip` takes
/// away in a step of `timestep_scale` nominal ticks.
pub fn lateral_correction(lateral: i64, grip: i64, timestep_scale: i64) -> (c: i64)
    ensures
        c == lateral_correction_spec(lateral as int, grip as int, timestep_scale as int),
{
    mul_div(lateral, mul_div(grip, timestep_scale, ONE), ONE)
}

/// The grip force of a tire with the axis `right` that moves with
/// `tire_velocity`.
pub fn grip_force(right: Vec2, tire_velocity: Vec2, grip: i64, timestep_scale: i64) -> (f: Vec2)
    ensures
        f == grip_force_spec(right, tire_velocity, grip, timestep_scale),
{
    let lateral = right.dot_scaled(tire_velocity);
    let correction = lateral_correction(lateral, grip, timestep_scale);
    right.scaled(correction, ONE).negated()
}

/// Which way the engine drives, from the state of the two drive keys.
pub fn drive_direction(forward: bool, backward: bool) -> (d: i64)
    ensures
        d == drive_direction_spec(forward, backward),
{
    if forward {
        1
    } else if backward {
        -1
    } else {
        0
    }
}

/// The engine force on a tire with the forward axis `up`.
pub fn power_force(up: Vec2, power: i64, direction: i64, dt: i64) -> (f: Vec2)
    ensures
        f == power_force_spec(up, power, direction, dt),
{
    proof {
        crate::fixed::lemma_product_fits(power as int, direction as int);
    }
    let thrust = saturate((power as i128) * (direction as i128));
    up.scaled(mul_div(thrust, dt, ONE), ONE)
}

/// The force that `tire` contributes to `body` in a step of `dt` seconds.
pub fn tire_force(kind: Contribution, tire: &TireView, body: &CarBody, dt: i64) -> (f: Vec2)
    ensures
        f == tire_force_spec(kind, *tire, *body, dt),
{
    match kind {
        Contribution::RollingResistance => rolling_resistance_force(
            tire.tire.rolling_resistance,
            body.linear_velocity,
        ).scaled(dt, ONE),
        Contribution::Grip => {
            let offset = tire.transform.translation.minus(body.position);
            let tire_velocity = point_velocity(body.linear_velocity, body.angular_velocity, offset);
            let rate: i128 = NOMINAL_TICK_RATE as i128;
            assert(rate == 60);
            let timestep_scale = saturate((dt as i128) * rate);
            grip_force(tire.transform.rotation.right(), tire_velocity, tire.tire.grip, timestep_scale)
        },
        Contribution::Power { direction } => {
            if tire.tire.current_powered {
                power_force(tire.transform.rotation.up(), body.car.current_power, direction, dt)
            } else {
                Vec2 { x: 0, y: 0 }
            }
        },
    }
}

/// Finds the body with the handle `entity`: the first, should there be more
/// than one.
pub fn body_index(cars: &Vec<CarBody>, entity: Entity) -> (found: Option<usize>)
    ensures
        match found {
            Some(i) => body_index_spec(cars@, entity) == Some(i as int) && i < cars.len()
                && cars[i as int].entity == entity,
            None => body_index_spec(cars@, entity) == None::<int>,
        },
{
    let mut i: usize = 0;
    while i < cars.len()
        invariant
            i <= cars.len(),
            forall|k: int| 0 <= k < i ==> (#[trigger] cars@[k]).entity != entity,
        decreases cars.len() - i,
    {
        if cars[i].entity == entity {
            proof {
                let c = choose|c: int|
                    0 <= c < cars@.len() && (#[trigger] cars@[c]).entity == entity && forall|k: int|
                        0 <= k < c ==> (#[trigger] cars@[k]).entity != entity;
                assert(c == i);
            }
            return Some(i);
        }
        i += 1;
    }
    None
}

/// Adds one force of a tire to the body of its vehicle, if the vehicle is
/// there.
pub fn apply_tire(kind: Contribution, tire: &TireView, cars: &mut Vec<CarBody>, dt: i64)
    ensures
        final(cars)@ == apply_tire_spec(kind, *tire, old(cars)@, dt),
{
    proof {
        reveal(apply_tire_spec);
    }
    match body_index(cars, tire.parent) {
        Some(i) => {
            let body = cars[i];
            let force = tire_force(kind, tire, &body, dt);
            let mut acc = body.force;
            acc.apply_force_at_point(force, tire.transform.translation, body.position);
            cars[i] = CarBody {
                entity: body.entity,
                car: body.car,
                position: body.position,
                linear_velocity: body.linear_velocity,
                angular_velocity: body.angular_velocity,
                force: acc,
            };
        },
        None => {},
    }
}

/// Adds one force of every tire to the body of its vehicle.
fn apply_contribution(kind: Contribution, tires: &Vec<TireView>, cars: &mut Vec<CarBody>, dt: i64)
    ensures
        final(cars)@ == apply_tires_spec(kind, tires@, old(cars)@, dt),
{
    let mut t: usize = 0;
    while t < tires.len()
        invariant
            t <= tires.len(),
            cars@ == apply_tires_spec(kind, tires@.take(t as int), old(cars)@, dt),
        decreases tires.len() - t,
    {
        proof {
            assert(tires@.take(t as int + 1).drop_last() =~= tires@.take(t as int));
            assert(tires@.take(t as int + 1).last() == tires@[t as int]);
        }
        apply_tire(kind, &tires[t], cars, dt);
        t += 1;
    }
    proof {
        assert(tires@.take(t as int) =~= tires@);
    }
}

/// Adds the rolling resistance of every tire to the body of its vehicle.
pub fn rolling_resistance(tires: &Vec<TireView>, cars: &mut Vec<CarBody>, dt: i64)
    ensures
        final(cars)@ == apply_tires_spec(
            Contribution::RollingResistance,
            tires@,
            old(cars)@,
            dt,
        ),
{
    apply_contribution(Contribution::RollingResistance, tires, cars, dt)
}

/// Adds the grip force of every tire to the body of its vehicle.
pub fn grip(tires: &Vec<TireView>, cars: &mut Vec<CarBody>, dt: i64)
    ensures
        final(cars)@ == apply_tires_spec(Contribution::Grip, tires@, old(cars)@, dt),
{
    apply_contribution(Contribution::Grip, tires, cars, dt)
}

/// Adds the engine force of every powered tire to the body of its vehicle,
/// in the direction that the drive keys ask for.
pub fn power(forward: bool, backward: bool, tires: &Vec<TireView>, cars: &mut Vec<CarBody>, dt: i64)
    ensures
        final(cars)@ == apply_tires_spec(
            Contribution::Power { direction: drive_direction_spec(forward, backward) },
            tires@,
            old(cars)@,
            dt,
        ),
{
    let direction = drive_direction(forward, backward);
    apply_contribution(Contribution::Power { direction }, tires, cars, dt)
}

/// The velocity of a test rig after one tick of grip: a body of unit mass
/// with a single tire at its center, on which nothing else acts, gains the
/// grip force as velocity.
pub open spec fn rig_step_spec(right: Vec2, velocity: Vec2, grip: i64, timestep_scale: i64) -> Vec2 {
    velocity.plus_spec(grip_force_spec(right, velocity, grip, timestep_scale))
}

/// Whether `axis` is one of the four unit vectors along the coordinate axes.
pub open spec fn is_cardinal(axis: Vec2) -> bool {
    ||| axis == (Vec2 { x: ONE, y: 0 })
    ||| axis == (Vec2 { x: (-ONE) as i64, y: 0 })
    ||| axis == (Vec2 { x: 0, y: ONE })
    ||| axis == (Vec2 { x: 0, y: (-ONE) as i64 })
}

/// A value times `ONE` over `ONE` is the value.
pub proof fn lemma_scale_by_one(a: int)
    ensures
        div_toward_zero(a * ONE, ONE as int) == a,
        div_toward_zero(ONE * a, ONE as int) == a,
        div_toward_zero(-ONE * a, ONE as int) == -a,
        div_toward_zero(a * -ONE, ONE as int) == -a,
{
    assert(a * ONE == ONE * a && -ONE * a == -(a * ONE) && a * -ONE == -(a * ONE))
        by (nonlinear_arith);
    assert(a >= 0 ==> (a * ONE) / (ONE as int) == a) by (nonlinear_arith);
    assert(a < 0 ==> (-(a * ONE)) / (ONE as int) == -a) by (nonlinear_arith);
    assert(a >= 0 ==> a * ONE >= 0) by (nonlinear_arith);
    assert(a < 0 ==> a * ONE < 0) by (nonlinear_arith);
    assert(a > 0 ==> -(a * ONE) < 0) by (nonlinear_arith);
}

/// Grip never overshoots: with a grip and a time step of at most 1 the
/// correction has the sign of the sideways speed and is no larger, so that
/// the slip shrinks and does not change sides.
pub proof fn lemma_grip_never_overshoots(lateral: int, grip: int, timestep_scale: int)
    requires
        i64::MIN <= lateral <= i64::MAX,
        0 <= grip <= ONE,
        0 <= timestep_scale <= ONE,
    ensures
        magnitude(lateral_correction_spec(lateral, grip, timestep_scale)) <= magnitude(lateral),
        lateral >= 0 ==> 0 <= lateral_correction_spec(lateral, grip, timestep_scale) <= lateral,
        lateral <= 0 ==> lateral <= lateral_correction_spec(lateral, grip, timestep_scale) <= 0,
{
    lemma_scale_down_bounds(grip, timestep_scale, ONE as int);
    let share = mul_div_spec(grip, timestep_scale, ONE as int);
    assert(0 <= share <= ONE);
    lemma_scale_down_bounds(lateral, share, ONE as int);
}

/// The part of a correction `c >= 0` along the axis `right`, taken along
/// `right` again, is no more than the correction.
proof fn lemma_projection_of_correction(right: Vec2, c: int)
    requires
        right.at_most_unit(),
        0 <= c <= i64::MAX,
    ensures
        0 <= right.dot_spec(right.scaled_spec(c, ONE as int)) <= ONE * c,
{
    crate::vec2::lemma_scaled_by_unit_within(right, c);
    let t = right.scaled_spec(c, ONE as int);
    let rx = right.x as int;
    let ry = right.y as int;
    let tx = t.x as int;
    let ty = t.y as int;
    let ax = magnitude(rx);
    let ay = magnitude(ry);
    let bx = magnitude(tx);
    let by = magnitude(ty);
    crate::vec2::lemma_truncated_product(rx, c, ax, bx);
    crate::vec2::lemma_truncated_product(ry, c, ay, by);
    lemma_scale_down_sign(rx, c);
    lemma_scale_down_sign(ry, c);
    assert(rx * tx == ax * bx && ry * ty == ay * by) by (nonlinear_arith)
        requires
            ax == magnitude(rx),
            bx == magnitude(tx),
            ay == magnitude(ry),
            by == magnitude(ty),
            rx >= 0 ==> tx >= 0,
            rx <= 0 ==> tx <= 0,
            ry >= 0 ==> ty >= 0,
            ry <= 0 ==> ty <= 0,
    ;
    assert(ax * ax == rx * rx && ay * ay == ry * ry) by (nonlinear_arith)
        requires
            ax == magnitude(rx),
            ay == magnitude(ry),
    ;
    assert(0 <= ax * bx && (ax * bx) * ONE <= (ax * ax) * c) by (nonlinear_arith)
        requires
            0 <= ax,
            0 <= bx,
            bx * ONE <= ax * c,
    ;
    assert(0 <= ay * by && (ay * by) * ONE <= (ay * ay) * c) by (nonlinear_arith)
        requires
            0 <= ay,
            0 <= by,
            by * ONE <= ay * c,
    ;
    let e = ax * bx + ay * by;
    assert(e * ONE <= (ONE * ONE) * c) by (nonlinear_arith)
        requires
            e == ax * bx + ay * by,
            (ax * bx) * ONE <= (ax * ax) * c,
            (ay * by) * ONE <= (ay * ay) * c,
            ax * ax + ay * ay <= ONE * ONE,
            0 <= c,
    ;
    assert(e <= ONE * c) by (nonlinear_arith)
        requires
            e * ONE <= (ONE * ONE) * c,
            ONE == 1_000_000,
    ;
}

/// A value scaled by a non-negative factor keeps its sign.
proof fn lemma_scale_down_sign(a: int, c: int)
    requires
        c >= 0,
    ensures
        a >= 0 ==> div_toward_zero(a * c, ONE as int) >= 0,
        a <= 0 ==> div_toward_zero(a * c, ONE as int) <= 0,
{
    assert(a >= 0 ==> a * c >= 0) by (nonlinear_arith)
        requires
            c >= 0,
    ;
    assert(a <= 0 ==> a * c <= 0) by (nonlinear_arith)
        requires
            c >= 0,
    ;
    if a * c > 0 {
        assert((a * c) / (ONE as int) >= 0);
    } else if a * c < 0 {
        assert((-(a * c)) / (ONE as int) >= 0);
    }
}

/// What one tick of grip does on the test rig to the velocity along the
/// tire's axis: it takes away the part of the correction that lies along the
/// axis.
proof fn lemma_rig_tick(right: Vec2, velocity: Vec2, grip: i64, timestep_scale: i64)
    requires
        right.at_most_unit(),
        0 <= grip <= ONE,
        0 <= timestep_scale <= ONE,
        magnitude(velocity.x as int) <= 0x1000_0000_0000_0000,
        magnitude(velocity.y as int) <= 0x1000_0000_0000_0000,
    ensures
        ({
            let d = right.dot_spec(velocity);
            let lateral = lateral_velocity_spec(right, velocity);
            let c = lateral_correction_spec(lateral, grip as int, timestep_scale as int);
            let after = rig_step_spec(right, velocity, grip, timestep_scale);
            &&& lateral == div_toward_zero(d, ONE as int)
            &&& -0x2000_0000_0000_0000 <= lateral <= 0x2000_0000_0000_0000
            &&& lateral_velocity_spec(right, after) == div_toward_zero(
                right.dot_spec(after),
                ONE as int,
            )
            &&& magnitude(after.x as int) <= magnitude(velocity.x as int) + magnitude(lateral)
            &&& magnitude(after.y as int) <= magnitude(velocity.y as int) + magnitude(lateral)
            &&& lateral == 0 ==> after == velocity
            &&& lateral > 0 ==> 0 <= c <= lateral && right.dot_spec(after) == d - right.dot_spec(
                right.scaled_spec(c, ONE as int),
            )
            &&& lateral < 0 ==> lateral <= c <= 0 && right.dot_spec(after) == d + right.dot_spec(
                right.scaled_spec(-c, ONE as int),
            )
        }),
{
    let rx = right.x as int;
    let ry = right.y as int;
    let vx = velocity.x as int;
    let vy = velocity.y as int;
    let bound: int = 0x1000_0000_0000_0000;
    assert(magnitude(rx) <= ONE && magnitude(ry) <= ONE) by (nonlinear_arith)
        requires
            rx * rx + ry * ry <= ONE * ONE,
            ONE == 1_000_000,
    ;
    let d = right.dot_spec(velocity);
    assert(-2 * ONE * bound <= d <= 2 * ONE * bound) by (nonlinear_arith)
        requires
            d == rx * vx + ry * vy,
            magnitude(rx) <= ONE,
            magnitude(ry) <= ONE,
            magnitude(vx) <= bound,
            magnitude(vy) <= bound,
            ONE == 1_000_000,
    ;
    let lateral = div_toward_zero(d, ONE as int);
    assert(-2 * bound <= lateral <= 2 * bound && (d >= 0 ==> 0 <= lateral * ONE <= d) && (d <= 0
        ==> d <= lateral * ONE <= 0));
    assert(lateral == lateral_velocity_spec(right, velocity));
    lemma_grip_never_overshoots(lateral, grip as int, timestep_scale as int);
    let c = lateral_correction_spec(lateral, grip as int, timestep_scale as int);
    let pull = right.scaled_spec(c, ONE as int);
    let force = pull.negated_spec();
    let after = rig_step_spec(right, velocity, grip, timestep_scale);
    if lateral == 0 {
        assert(c == 0);
        assert(rx * 0 == 0 && ry * 0 == 0) by (nonlinear_arith);
        assert(pull.x == 0 && pull.y == 0);
        assert(after == velocity);
    } else if lateral > 0 {
        lemma_projection_of_correction(right, c);
        crate::vec2::lemma_scaled_by_unit_within(right, c);
        let e = right.dot_spec(pull);
        lemma_component_of_pull(rx, c);
        lemma_component_of_pull(ry, c);
        assert(magnitude(pull.x as int) <= c && magnitude(pull.y as int) <= c);
        assert(force.x == -pull.x && force.y == -pull.y);
        assert(after.x == vx - pull.x && after.y == vy - pull.y);
        assert(right.dot_spec(after) == d - e) by (nonlinear_arith)
            requires
                right.dot_spec(after) == rx * (vx - pull.x) + ry * (vy - pull.y),
                d == rx * vx + ry * vy,
                e == rx * pull.x + ry * pull.y,
        ;
        assert(ONE * c <= ONE * lateral) by (nonlinear_arith)
            requires
                0 <= c <= lateral,
                ONE == 1_000_000,
        ;
        assert(0 <= d - e <= d);
        assert(lateral_velocity_spec(right, after) == div_toward_zero(d - e, ONE as int));
    } else {
        let m = -c;
        assert(0 <= m <= -lateral);
        lemma_projection_of_correction(right, m);
        crate::vec2::lemma_scaled_by_unit_within(right, m);
        let mirror = right.scaled_spec(m, ONE as int);
        lemma_component_of_pull(rx, m);
        lemma_component_of_pull(ry, m);
        lemma_negated_factor(rx, m);
        lemma_negated_factor(ry, m);
        assert(pull.x == -mirror.x && pull.y == -mirror.y);
        let e = right.dot_spec(mirror);
        assert(force.x == mirror.x && force.y == mirror.y);
        assert(after.x == vx + mirror.x && after.y == vy + mirror.y);
        assert(right.dot_spec(after) == d + e) by (nonlinear_arith)
            requires
                right.dot_spec(after) == rx * (vx + mirror.x) + ry * (vy + mirror.y),
                d == rx * vx + ry * vy,
                e == rx * mirror.x + ry * mirror.y,
        ;
        assert(ONE * m <= ONE * (-lateral)) by (nonlinear_arith)
            requires
                0 <= m <= -lateral,
                ONE == 1_000_000,
        ;
        assert(d <= d + e <= 0);
        assert(lateral_velocity_spec(right, after) == div_toward_zero(d + e, ONE as int));
    }
}

/// Grip only ever shrinks the slip. On the test rig, with a tire along any
/// axis no longer than a unit vector and with a grip and a time step of at
/// most 1, the sideways speed after a tick lies between zero and the
/// sideways speed before: it neither grows nor changes sides. The velocity
/// is taken to be far from the limits of the number range.
pub proof fn lemma_grip_shrinks_slip(right: Vec2, velocity: Vec2, grip: i64, timestep_scale: i64)
    requires
        right.at_most_unit(),
        0 <= grip <= ONE,
        0 <= timestep_scale <= ONE,
        magnitude(velocity.x as int) <= 0x1000_0000_0000_0000,
        magnitude(velocity.y as int) <= 0x1000_0000_0000_0000,
    ensures
        lateral_velocity_spec(right, velocity) >= 0 ==> 0 <= lateral_velocity_spec(
            right,
            rig_step_spec(right, velocity, grip, timestep_scale),
        ) <= lateral_velocity_spec(right, velocity),
        lateral_velocity_spec(right, velocity) <= 0 ==> lateral_velocity_spec(right, velocity)
            <= lateral_velocity_spec(right, rig_step_spec(right, velocity, grip, timestep_scale))
            <= 0,
{
    lemma_rig_tick(right, velocity, grip, timestep_scale);
    let lateral = lateral_velocity_spec(right, velocity);
    let c = lateral_correction_spec(lateral, grip as int, timestep_scale as int);
    if lateral > 0 {
        lemma_projection_of_correction(right, c);
    } else if lateral < 0 {
        lemma_projection_of_correction(right, -c);
    }
}

/// Along a unit axis, the part of a correction `c >= 0` that lies along the
/// axis is the correction, but for the slack of the axis and the rounding.
proof fn lemma_projection_reaches(right: Vec2, c: int)
    requires
        crate::rng::is_heading_spec(right),
        0 <= c <= i64::MAX,
    ensures
        right.dot_spec(right.scaled_spec(c, ONE as int)) * 1_000_000 >= 999_996 * 999_996 * c - 2
            * (1_000_000 * 1_000_000),
{
    crate::vec2::lemma_scaled_by_unit_within(right, c);
    let t = right.scaled_spec(c, ONE as int);
    let rx = right.x as int;
    let ry = right.y as int;
    let tx = t.x as int;
    let ty = t.y as int;
    let ax = magnitude(rx);
    let ay = magnitude(ry);
    let bx = magnitude(tx);
    let by = magnitude(ty);
    crate::vec2::lemma_truncated_product(rx, c, ax, bx);
    crate::vec2::lemma_truncated_product(ry, c, ay, by);
    lemma_scale_down_sign(rx, c);
    lemma_scale_down_sign(ry, c);
    assert(rx * tx == ax * bx && ry * ty == ay * by) by (nonlinear_arith)
        requires
            ax == magnitude(rx),
            bx == magnitude(tx),
            ay == magnitude(ry),
            by == magnitude(ty),
            rx >= 0 ==> tx >= 0,
            rx <= 0 ==> tx <= 0,
            ry >= 0 ==> ty >= 0,
            ry <= 0 ==> ty <= 0,
    ;
    assert(ax * ax == rx * rx && ay * ay == ry * ry) by (nonlinear_arith)
        requires
            ax == magnitude(rx),
            ay == magnitude(ry),
    ;
    assert(ax <= 1_000_000 && ay <= 1_000_000) by (nonlinear_arith)
        requires
            ax * ax + ay * ay <= 1_000_000 * 1_000_000,
            0 <= ax,
            0 <= ay,
    ;
    assert((ax * bx) * 1_000_000 >= (ax * ax) * c - 1_000_000 * 1_000_000) by (nonlinear_arith)
        requires
            0 <= ax <= 1_000_000,
            0 <= bx,
            ax * c < (bx + 1) * 1_000_000,
    ;
    assert((ay * by) * 1_000_000 >= (ay * ay) * c - 1_000_000 * 1_000_000) by (nonlinear_arith)
        requires
            0 <= ay <= 1_000_000,
            0 <= by,
            ay * c < (by + 1) * 1_000_000,
    ;
    assert((ax * ax) * c + (ay * ay) * c >= 999_996 * 999_996 * c) by (nonlinear_arith)
        requires
            999_996 * 999_996 <= ax * ax + ay * ay,
            0 <= c,
    ;
    assert((ax * bx + ay * by) * 1_000_000 == (ax * bx) * 1_000_000 + (ay * by) * 1_000_000)
        by (nonlinear_arith);
}

/// The arithmetic of a tick: what is left of a slip `lateral` once the part
/// `e` of the correction `c` has gone from the speed `d` along the axis.
proof fn lemma_slip_left(d: int, lateral: int, c: int, e: int, left: int)
    requires
        0 <= c <= lateral,
        lateral * 1_000_000 <= d < (lateral + 1) * 1_000_000,
        0 <= d - e,
        e * 1_000_000 >= 999_996 * 999_996 * c - 2 * (1_000_000 * 1_000_000),
        0 <= left,
        left * 1_000_000 <= d - e,
    ensures
        left * 1_000_000 < (lateral - c + 3) * 1_000_000 + 8 * c,
{
    assert(left * (1_000_000 * 1_000_000) <= (d - e) * 1_000_000) by (nonlinear_arith)
        requires
            left * 1_000_000 <= d - e,
    ;
    assert((d - e) * 1_000_000 == d * 1_000_000 - e * 1_000_000) by (nonlinear_arith);
    assert(d * 1_000_000 <= (lateral + 1) * (1_000_000 * 1_000_000) - 1_000_000)
        by (nonlinear_arith)
        requires
            d <= (lateral + 1) * 1_000_000 - 1,
    ;
    assert(left * (1_000_000 * 1_000_000) < ((lateral - c + 3) * 1_000_000 + 8 * c) * 1_000_000)
        by (nonlinear_arith)
        requires
            left * (1_000_000 * 1_000_000) <= d * 1_000_000 - e * 1_000_000,
            d * 1_000_000 <= (lateral + 1) * (1_000_000 * 1_000_000) - 1_000_000,
            e * 1_000_000 >= 999_996 * 999_996 * c - 2 * (1_000_000 * 1_000_000),
            0 <= c,
    ;
    assert(left * 1_000_000 < (lateral - c + 3) * 1_000_000 + 8 * c) by (nonlinear_arith)
        requires
            left * (1_000_000 * 1_000_000) < ((lateral - c + 3) * 1_000_000 + 8 * c) * 1_000_000,
    ;
}

/// Grip takes away what it is meant to. On the test rig, with a tire along
/// any unit axis and a grip and a time step of at most 1, the slip after a
/// tick is the slip before less the correction, but for the rounding: no
/// more than three steps of the resolution and eight millionths of the
/// correction are left beside it. So every tick takes the share
/// `grip * timestep_scale` off the slip until it is down at the resolution.
pub proof fn lemma_grip_takes_its_share(right: Vec2, velocity: Vec2, grip: i64, timestep_scale: i64)
    requires
        crate::rng::is_heading_spec(right),
        0 <= grip <= ONE,
        0 <= timestep_scale <= ONE,
        magnitude(velocity.x as int) <= 0x1000_0000_0000_0000,
        magnitude(velocity.y as int) <= 0x1000_0000_0000_0000,
    ensures
        ({
            let slip = lateral_velocity_spec(right, velocity);
            let correction = lateral_correction_spec(slip, grip as int, timestep_scale as int);
            let left = lateral_velocity_spec(
                right,
                rig_step_spec(right, velocity, grip, timestep_scale),
            );
            magnitude(left) * 1_000_000 < (magnitude(slip) - magnitude(correction) + 3) * 1_000_000
                + 8 * magnitude(correction)
        }),
{
    lemma_rig_tick(right, velocity, grip, timestep_scale);
    lemma_grip_shrinks_slip(right, velocity, grip, timestep_scale);
    let d = right.dot_spec(velocity);
    let slip = lateral_velocity_spec(right, velocity);
    lemma_grip_never_overshoots(slip, grip as int, timestep_scale as int);
    let c = lateral_correction_spec(slip, grip as int, timestep_scale as int);
    let after = rig_step_spec(right, velocity, grip, timestep_scale);
    let left = lateral_velocity_spec(right, after);
    if slip > 0 {
        lemma_projection_of_correction(right, c);
        lemma_projection_reaches(right, c);
        let e = right.dot_spec(right.scaled_spec(c, ONE as int));
        assert(ONE * c <= ONE * slip) by (nonlinear_arith)
            requires
                0 <= c <= slip,
                ONE == 1_000_000,
        ;
        lemma_slip_left(d, slip, c, e, left);
    } else if slip < 0 {
        let m = -c;
        lemma_projection_of_correction(right, m);
        lemma_projection_reaches(right, m);
        let e = right.dot_spec(right.scaled_spec(m, ONE as int));
        assert(ONE * m <= ONE * (-slip)) by (nonlinear_arith)
            requires
                0 <= m <= -slip,
                ONE == 1_000_000,
        ;
        lemma_slip_left(-d, -slip, m, e, -left);
    }
}

/// A component of a direction scaled by `c >= 0` is no larger than `c`.
proof fn lemma_component_of_pull(r: int, c: int)
    requires
        magnitude(r) <= ONE,
        0 <= c,
    ensures
        magnitude(div_toward_zero(r * c, ONE as int)) <= c,
{
    let q = magnitude(div_toward_zero(r * c, ONE as int));
    crate::vec2::lemma_truncated_product(r, c, magnitude(r), q);
    assert(q <= c) by (nonlinear_arith)
        requires
            q * ONE <= magnitude(r) * c,
            magnitude(r) <= ONE,
            0 <= c,
            0 <= q,
            ONE == 1_000_000,
    ;
}

/// Scaling by `-c` gives the negative of scaling by `c`.
proof fn lemma_negated_factor(r: int, c: int)
    ensures
        div_toward_zero(r * (-c), ONE as int) == -div_toward_zero(r * c, ONE as int),
{
    assert(r * (-c) == -(r * c)) by (nonlinear_arith);
    if r * c == 0 {
        assert(0int / (ONE as int) == 0);
    }
}

/// The slip that full grip may leave on an axis that is not a coordinate
/// axis: a few steps of the resolution.
pub const SLIP_RESOLUTION: i64 = 3;

/// The velocity of the test rig after a number of ticks of grip.
pub open spec fn rig_after(right: Vec2, velocity: Vec2, grip: i64, timestep_scale: i64, ticks: nat) -> Vec2
    decreases ticks,
{
    if ticks == 0 {
        velocity
    } else {
        rig_step_spec(
            right,
            rig_after(right, velocity, grip, timestep_scale, (ticks - 1) as nat),
            grip,
            timestep_scale,
        )
    }
}

/// One tick of full grip at the nominal step: of a slip within `slip_bound`
/// no more than the resolution and eight millionths of it are left, and the
/// velocity grows in no component by more than the slip.
proof fn lemma_full_grip_tick(right: Vec2, velocity: Vec2, speed_bound: int, slip_bound: int)
    requires
        crate::rng::is_heading_spec(right),
        0 <= slip_bound,
        0 <= speed_bound,
        speed_bound + slip_bound <= 0x1000_0000_0000_0000,
        magnitude(velocity.x as int) <= speed_bound,
        magnitude(velocity.y as int) <= speed_bound,
        magnitude(lateral_velocity_spec(right, velocity)) <= slip_bound,
    ensures
        magnitude(rig_step_spec(right, velocity, ONE, ONE).x as int) <= speed_bound + slip_bound,
        magnitude(rig_step_spec(right, velocity, ONE, ONE).y as int) <= speed_bound + slip_bound,
        magnitude(lateral_velocity_spec(right, rig_step_spec(right, velocity, ONE, ONE)))
            * 1_000_000 < 3 * 1_000_000 + 8 * slip_bound,
        magnitude(lateral_velocity_spec(right, rig_step_spec(right, velocity, ONE, ONE)))
            <= slip_bound,
{
    lemma_rig_tick(right, velocity, ONE, ONE);
    lemma_grip_shrinks_slip(right, velocity, ONE, ONE);
    lemma_grip_takes_its_share(right, velocity, ONE, ONE);
    let slip = lateral_velocity_spec(right, velocity);
    lemma_scale_by_one(ONE as int);
    lemma_scale_by_one(slip);
    assert(mul_div_spec(ONE as int, ONE as int, ONE as int) == ONE);
    assert(lateral_correction_spec(slip, ONE as int, ONE as int) == slip);
}

/// The slip is no more than twice the largest component of the velocity.
proof fn lemma_slip_within(right: Vec2, velocity: Vec2, speed: int)
    requires
        right.at_most_unit(),
        0 <= speed <= 0x1000_0000_0000_0000,
        magnitude(velocity.x as int) <= speed,
        magnitude(velocity.y as int) <= speed,
    ensures
        magnitude(lateral_velocity_spec(right, velocity)) <= 2 * speed,
{
    let rx = right.x as int;
    let ry = right.y as int;
    assert(magnitude(rx) <= 1_000_000 && magnitude(ry) <= 1_000_000) by (nonlinear_arith)
        requires
            rx * rx + ry * ry <= 1_000_000 * 1_000_000,
    ;
    let d = right.dot_spec(velocity);
    assert(-2_000_000 * speed <= d <= 2_000_000 * speed) by (nonlinear_arith)
        requires
            d == rx * velocity.x + ry * velocity.y,
            magnitude(rx) <= 1_000_000,
            magnitude(ry) <= 1_000_000,
            magnitude(velocity.x as int) <= speed,
            magnitude(velocity.y as int) <= speed,
            0 <= speed,
    ;
}

/// Full grip settles the slip. On the test rig, with a grip of 1, the
/// nominal time step and a tire along any unit axis, four ticks bring the
/// sideways speed down to the resolution, whatever the velocity was, as long
/// as it is far from the limits of the number range.
pub proof fn lemma_full_grip_settles(right: Vec2, velocity: Vec2)
    requires
        crate::rng::is_heading_spec(right),
        magnitude(velocity.x as int) <= 0x4_0000_0000_0000,
        magnitude(velocity.y as int) <= 0x4_0000_0000_0000,
    ensures
        magnitude(lateral_velocity_spec(right, rig_after(right, velocity, ONE, ONE, 4)))
            <= SLIP_RESOLUTION,
{
    let v0 = velocity;
    let v1 = rig_step_spec(right, v0, ONE, ONE);
    let v2 = rig_step_spec(right, v1, ONE, ONE);
    let v3 = rig_step_spec(right, v2, ONE, ONE);
    let v4 = rig_step_spec(right, v3, ONE, ONE);
    assert(rig_after(right, velocity, ONE, ONE, 4) == v4) by {
        reveal_with_fuel(rig_after, 5);
    }
    let speed: int = 0x4_0000_0000_0000;
    let slip0: int = 0x8_0000_0000_0000;
    lemma_slip_within(right, v0, speed);
    lemma_full_grip_tick(right, v0, speed, slip0);
    let slip1: int = 18_014_398_512;
    assert(magnitude(lateral_velocity_spec(right, v1)) <= slip1);
    lemma_full_grip_tick(right, v1, speed + slip0, slip1);
    let slip2: int = 144_118;
    assert(magnitude(lateral_velocity_spec(right, v2)) <= slip2);
    lemma_full_grip_tick(right, v2, speed + slip0 + slip1, slip2);
    let slip3: int = 4;
    assert(magnitude(lateral_velocity_spec(right, v3)) <= slip3);
    lemma_full_grip_tick(right, v3, speed + slip0 + slip1 + slip2, slip3);
}

/// Full grip leaves no sideways slip: on the test rig, with a grip of 1, a
/// nominal time step and the tire along a coordinate axis, one tick takes
/// the whole sideways speed away, whatever the velocity, and leaves the
/// speed along the tire alone.
pub proof fn lemma_full_grip_stops_slip(right: Vec2, velocity: Vec2)
    requires
        is_cardinal(right),
        velocity.x > i64::MIN,
        velocity.y > i64::MIN,
    ensures
        lateral_velocity_spec(right, rig_step_spec(right, velocity, ONE, ONE)) == 0,
        right.x == 0 ==> rig_step_spec(right, velocity, ONE, ONE).x == velocity.x,
        right.y == 0 ==> rig_step_spec(right, velocity, ONE, ONE).y == velocity.y,
{
    lemma_scale_by_one(ONE as int);
    lemma_scale_by_one(velocity.x as int);
    lemma_scale_by_one(velocity.y as int);
    lemma_scale_by_one(-(velocity.x as int));
    lemma_scale_by_one(-(velocity.y as int));
    lemma_scale_by_one(0);
    assert(0int * velocity.x == 0 && 0int * velocity.y == 0) by (nonlinear_arith);
    assert(0int * ONE == 0 && ONE * 0int == 0 && -ONE * 0int == 0) by (nonlinear_arith);
    assert(mul_div_spec(ONE as int, ONE as int, ONE as int) == ONE);
    let lateral = lateral_velocity_spec(right, velocity);
    let correction = lateral_correction_spec(lateral, ONE as int, ONE as int);
    if right.y == 0 {
        assert(right.dot_spec(velocity) == right.x * velocity.x);
        assert(magnitude(lateral) == magnitude(velocity.x as int));
        lemma_scale_by_one(lateral);
        assert(correction == lateral);
        assert(right.y * correction == 0) by (nonlinear_arith)
            requires
                right.y == 0,
        ;
        let after = rig_step_spec(right, velocity, ONE, ONE);
        assert(after.x == 0);
        assert(after.y == velocity.y);
        assert(right.dot_spec(after) == 0) by (nonlinear_arith)
            requires
                after.x == 0,
                right.y == 0,
        ;
    } else {
        assert(right.dot_spec(velocity) == right.y * velocity.y);
        assert(magnitude(lateral) == magnitude(velocity.y as int));
        lemma_scale_by_one(lateral);
        assert(correction == lateral);
        assert(right.x * correction == 0) by (nonlinear_arith)
            requires
                right.x == 0,
        ;
        let after = rig_step_spec(right, velocity, ONE, ONE);
        assert(after.y == 0);
        assert(after.x == velocity.x);
        assert(right.dot_spec(after) == 0) by (nonlinear_arith)
            requires
                after.y == 0,
                right.x == 0,
        ;
    }
}

} // verus!
