//! The player's car: how it is built, steered and what it does to zombies.

use vstd::prelude::*;
use crate::car::tire::Tire;
use crate::car::Car;
use crate::fixed::{clamp_i64, div_toward_zero, neg_sat, ONE};
use crate::ids::{Entity, PeerId};
use crate::utils::{query_double, query_double_spec};
use crate::vec2::Vec2;

verus! {

/// The grip of a tire that is not drifting.
pub const TIRE_GRIP: i64 = 700_000;

/// The grip of every tire while the drift key is held.
pub const DRIFT_GRIP: i64 = 200_000;

/// The rolling resistance of a tire.
pub const ROLLING_RESISTANCE: u64 = 500_000;

/// The steering lock of the front tires, in degrees.
pub const TURNING_RADIUS: i64 = 30_000_000;

/// The width of a car.
pub const CAR_WIDTH: i64 = 16_000_000;

/// The length of a car.
pub const CAR_LENGTH: i64 = 32_000_000;

/// The engine power of a car.
pub const CAR_POWER: i64 = 4_000_000_000;

/// The mass of a car.
pub const CAR_MASS: i64 = 1_000_000;

/// The zoom of the camera that follows the local player's car.
pub const CAMERA_SCALE: i64 = 500_000;

/// The speed with which that camera closes in on the car.
pub const CAMERA_SPEED: i64 = 4_000_000;

/// The speed toward a zombie above which a car hurts it.
pub const MINIMUM_VELOCITY: i64 = 100_000_000;

/// The damage of such a hit.
pub const COLLISION_DAMAGE: u32 = 100;

/// A tire and the place where it is mounted, from the center of the car.
#[derive(Clone, Copy, Debug, PartialEq, Eq)]
pub struct TireMount {
    pub offset: Vec2,
    pub tire: Tire,
}

/// What it takes to spawn a car.
#[derive(Debug)]
pub struct CarBlueprint {
    pub car: Car,
    pub width: i64,
    pub length: i64,
    pub mass: i64,
    /// The four tires: front left and right, then rear left and right.
    pub tires: Vec<TireMount>,
    /// Whether a camera follows the car, which it does on the owner's peer.
    pub follow_camera: bool,
}

/// A tire with the angle by which it is steered, in degrees and
/// counter-clockwise.
#[derive(Clone, Copy, Debug, PartialEq, Eq)]
pub struct SteeredTire {
    pub tire: Tire,
    pub angle: i64,
}

/// Two colliders that touch.
#[derive(Clone, Copy, Debug, PartialEq, Eq, Structural)]
pub struct Collision {
    pub entity1: Entity,
    pub entity2: Entity,
    /// Whether they began to touch in this tick.
    pub started: bool,
}

/// A car as the collision rule sees it.
#[derive(Clone, Copy, Debug, PartialEq, Eq, Structural)]
pub struct CollidingCar {
    pub entity: Entity,
    pub position: Vec2,
    pub linear_velocity: Vec2,
}

/// A zombie as the collision rule sees it.
#[derive(Clone, Copy, Debug, PartialEq, Eq, Structural)]
pub struct CollidingZombie {
    pub entity: Entity,
    pub position: Vec2,
}

/// The tire at place `i` of a car: places 0 and 1 are the front axle, which
/// is powered and steers; even places are on the right.
pub open spec fn tire_mount_spec(i: int, width: i64, length: i64) -> TireMount {
    let front = i < 2;
    let x = if i % 2 == 0 {
        div_toward_zero(width as int, 2)
    } else {
        -div_toward_zero(width as int, 2)
    };
    let y = if front {
        div_toward_zero(length as int, 2)
    } else {
        -div_toward_zero(length as int, 2)
    };
    TireMount {
        offset: Vec2 { x: x as i64, y: y as i64 },
        tire: Tire {
            current_powered: front,
            turning_radius: if front {
                Some(TURNING_RADIUS)
            } else {
                None
            },
            rolling_resistance: ROLLING_RESISTANCE,
            grip: TIRE_GRIP,
        },
    }
}

/// The angle to which a tire is steered: its steering lock to the left or
/// to the right, and straight ahead with neither key held. Left wins over
/// right. A tire that does not steer has no such angle.
pub open spec fn steering_angle_spec(tire: Tire, left: bool, right: bool) -> Option<i64> {
    match tire.turning_radius {
        None => None,
        Some(lock) => Some(
            if left {
                lock
            } else if right {
                clamp_i64(-lock) as i64
            } else {
                0i64
            },
        ),
    }
}

/// A tire after steering: turned to its steering angle if it has one, and
/// left alone if not.
pub open spec fn steered_spec(tire: SteeredTire, left: bool, right: bool) -> SteeredTire {
    match steering_angle_spec(tire.tire, left, right) {
        None => tire,
        Some(angle) => SteeredTire { tire: tire.tire, angle },
    }
}

/// A tire with the grip that the drift key commands.
pub open spec fn drifted_spec(tire: Tire, held: bool) -> Tire {
    Tire {
        grip: if held {
            DRIFT_GRIP
        } else {
            TIRE_GRIP
        },
        ..tire
    }
}

/// The speed with which a car closes in on a zombie: the part of the car's
/// velocity that points from the car to the zombie.
pub open spec fn impact_speed_spec(car_position: Vec2, car_velocity: Vec2, zombie_position: Vec2) -> int {
    clamp_i64(
        div_toward_zero(
            car_velocity.dot_spec(zombie_position.minus_spec(car_position).normalized_spec()),
            ONE as int,
        ),
    )
}

/// The handles of the cars.
pub open spec fn car_entities(cars: Seq<CollidingCar>) -> Seq<Entity> {
    cars.map_values(|car: CollidingCar| car.entity)
}

/// The handles of the zombies.
pub open spec fn zombie_entities(zombies: Seq<CollidingZombie>) -> Seq<Entity> {
    zombies.map_values(|zombie: CollidingZombie| zombie.entity)
}

/// What one collision does: the zombie it hurts, if any, and whether it ends
/// the batch. A collision counts if it is between a car and a zombie; it
/// hurts the zombie if the car closes in faster than `MINIMUM_VELOCITY`, and
/// it ends the batch if it did not start in this tick.
pub open spec fn collision_step_spec(
    collision: Collision,
    cars: Seq<CollidingCar>,
    zombies: Seq<CollidingZombie>,
) -> (Seq<Entity>, bool) {
    match query_double_spec(
        car_entities(cars),
        zombie_entities(zombies),
        collision.entity1,
        collision.entity2,
    ) {
        None => (Seq::empty(), false),
        Some((c, z)) => {
            if !collision.started {
                (Seq::empty(), true)
            } else if impact_speed_spec(
                cars[c].position,
                cars[c].linear_velocity,
                zombies[z].position,
            ) > MINIMUM_VELOCITY {
                (seq![zombies[z].entity], false)
            } else {
                (Seq::empty(), false)
            }
        },
    }
}

/// The zombies that a batch of collisions hurts, one entry per hit, and the
/// number of collisions used up. The collision that ends the batch is used
/// up with it; the collisions behind it are left for the next tick.
pub open spec fn collisions_spec(
    collisions: Seq<Collision>,
    cars: Seq<CollidingCar>,
    zombies: Seq<CollidingZombie>,
) -> (Seq<Entity>, int)
    decreases collisions.len(),
{
    if collisions.len() == 0 {
        (Seq::empty(), 0)
    } else {
        let step = collision_step_spec(collisions[0], cars, zombies);
        if step.1 {
            (Seq::empty(), 1)
        } else {
            let rest = collisions_spec(collisions.skip(1), cars, zombies);
            (step.0 + rest.0, rest.1 + 1)
        }
    }
}

/// The four tires of a car of the given size.
pub fn tire_mounts(width: i64, length: i64) -> (tires: Vec<TireMount>)
    ensures
        tires@.len() == 4,
        forall|i: int| 0 <= i < 4 ==> #[trigger] tires@[i] == tire_mount_spec(i, width, length),
        forall|i: int|
            0 <= i < 4 ==> ((#[trigger] tires@[i]).tire.turning_radius.is_some() <==> i < 2),
{
    let mut tires: Vec<TireMount> = Vec::new();
    let mut i: usize = 0;
    while i < 4
        invariant
            i <= 4,
            tires@.len() == i,
            forall|k: int| 0 <= k < i ==> #[trigger] tires@[k] == tire_mount_spec(k, width, length),
        decreases 4 - i,
    {
        let front = i < 2;
        let x = if i % 2 == 0 {
            width / 2
        } else {
            -(width / 2)
        };
        let y = if front {
            length / 2
        } else {
            -(length / 2)
        };
        tires.push(
            TireMount {
                offset: Vec2 { x, y },
                tire: Tire::new(
                    front,
                    if front {
                        Some(TURNING_RADIUS)
                    } else {
                        None
                    },
                    ROLLING_RESISTANCE,
                    TIRE_GRIP,
                ),
            },
        );
        i += 1;
    }
    tires
}

/// What it takes to spawn the car of the peer `owner` on the peer `local`.
pub fn car_blueprint(owner: PeerId, local: PeerId) -> (blueprint: CarBlueprint)
    ensures
        blueprint.car == (Car { current_power: CAR_POWER, max_power: CAR_POWER }),
        blueprint.width == CAR_WIDTH,
        blueprint.length == CAR_LENGTH,
        blueprint.mass == CAR_MASS,
        blueprint.tires@.len() == 4,
        forall|i: int|
            0 <= i < 4 ==> #[trigger] blueprint.tires@[i] == tire_mount_spec(
                i,
                CAR_WIDTH,
                CAR_LENGTH,
            ),
        blueprint.follow_camera == (owner == local),
{
    CarBlueprint {
        car: Car::new(CAR_POWER, CAR_POWER),
        width: CAR_WIDTH,
        length: CAR_LENGTH,
        mass: CAR_MASS,
        tires: tire_mounts(CAR_WIDTH, CAR_LENGTH),
        follow_camera: owner == local,
    }
}

/// The angle to which a tire is steered.
pub fn steering_angle(tire: &Tire, left: bool, right: bool) -> (angle: Option<i64>)
    ensures
        angle == steering_angle_spec(*tire, left, right),
{
    match tire.turning_radius {
        None => None,
        Some(lock) => Some(
            if left {
                lock
            } else if right {
                neg_sat(lock)
            } else {
                0
            },
        ),
    }
}

/// Steering: every tire that steers snaps to the angle that the keys ask
/// for.
pub fn turning(left: bool, right: bool, tires: &mut Vec<SteeredTire>)
    ensures
        final(tires)@ == old(tires)@.map_values(|t: SteeredTire| steered_spec(t, left, right)),
{
    let mut i: usize = 0;
    while i < tires.len()
        invariant
            i <= tires.len(),
            tires@.len() == old(tires)@.len(),
            forall|k: int|
                0 <= k < i ==> (#[trigger] tires@[k]) == steered_spec(old(tires)@[k], left, right),
            forall|k: int| i <= k < tires@.len() ==> tires@[k] == old(tires)@[k],
        decreases tires.len() - i,
    {
        let tire = tires[i].tire;
        match steering_angle(&tire, left, right) {
            Some(angle) => {
                tires[i] = SteeredTire { tire, angle };
            },
            None => {},
        }
        i += 1;
    }
    proof {
        assert(tires@ =~= old(tires)@.map_values(|t: SteeredTire| steered_spec(t, left, right)));
    }
}

/// Drifting: while the key is held every tire has the low grip, and the
/// nominal grip otherwise.
pub fn drift(held: bool, tires: &mut Vec<Tire>)
    ensures
        final(tires)@ == old(tires)@.map_values(|t: Tire| drifted_spec(t, held)),
{
    let grip = if held {
        DRIFT_GRIP
    } else {
        TIRE_GRIP
    };
    let mut i: usize = 0;
    while i < tires.len()
        invariant
            i <= tires.len(),
            tires@.len() == old(tires)@.len(),
            grip == if held {
                DRIFT_GRIP
            } else {
                TIRE_GRIP
            },
            forall|k: int| 0 <= k < i ==> (#[trigger] tires@[k]) == drifted_spec(old(tires)@[k], held),
            forall|k: int| i <= k < tires@.len() ==> tires@[k] == old(tires)@[k],
        decreases tires.len() - i,
    {
        let tire = tires[i];
        tires[i] = Tire {
            current_powered: tire.current_powered,
            turning_radius: tire.turning_radius,
            rolling_resistance: tire.rolling_resistance,
            grip,
        };
        i += 1;
    }
    proof {
        assert(tires@ =~= old(tires)@.map_values(|t: Tire| drifted_spec(t, held)));
    }
}

/// The speed with which a car closes in on a zombie.
pub fn impact_speed(car_position: Vec2, car_velocity: Vec2, zombie_position: Vec2) -> (speed: i64)
    ensures
        speed == impact_speed_spec(car_position, car_velocity, zombie_position),
{
    let direction = zombie_position.minus(car_position).normalized();
    car_velocity.dot_scaled(direction)
}

/// The handles of a table of cars.
fn entities_of_cars(cars: &Vec<CollidingCar>) -> (out: Vec<Entity>)
    ensures
        out@ == car_entities(cars@),
{
    let mut out: Vec<Entity> = Vec::new();
    let mut i: usize = 0;
    while i < cars.len()
        invariant
            i <= cars.len(),
            out@ == car_entities(cars@.take(i as int)),
        decreases cars.len() - i,
    {
        out.push(cars[i].entity);
        proof {
            assert(out@ =~= car_entities(cars@.take(i as int + 1)));
        }
        i += 1;
    }
    proof {
        assert(cars@.take(i as int) =~= cars@);
    }
    out
}

/// The handles of a table of zombies.
fn entities_of_zombies(zombies: &Vec<CollidingZombie>) -> (out: Vec<Entity>)
    ensures
        out@ == zombie_entities(zombies@),
{
    let mut out: Vec<Entity> = Vec::new();
    let mut i: usize = 0;
    while i < zombies.len()
        invariant
            i <= zombies.len(),
            out@ == zombie_entities(zombies@.take(i as int)),
        decreases zombies.len() - i,
    {
        out.push(zombies[i].entity);
        proof {
            assert(out@ =~= zombie_entities(zombies@.take(i as int + 1)));
        }
        i += 1;
    }
    proof {
        assert(zombies@.take(i as int) =~= zombies@);
    }
    out
}

/// The collision rule: the zombies that the cars ran into hard enough, each
/// to be hurt by `COLLISION_DAMAGE`, and the number of collisions used up.
pub fn handle_collisions(
    collisions: &Vec<Collision>,
    cars: &Vec<CollidingCar>,
    zombies: &Vec<CollidingZombie>,
) -> (outcome: (Vec<Entity>, usize))
    ensures
        (outcome.0@, outcome.1 as int) == collisions_spec(collisions@, cars@, zombies@),
        outcome.1 <= collisions@.len(),
{
    let car_table = entities_of_cars(cars);
    let zombie_table = entities_of_zombies(zombies);
    let mut hits: Vec<Entity> = Vec::new();
    let mut c: usize = 0;
    proof {
        assert(collisions@.skip(0) =~= collisions@);
    }
    while c < collisions.len()
        invariant
            c <= collisions.len(),
            car_table@ == car_entities(cars@),
            zombie_table@ == zombie_entities(zombies@),
            collisions_spec(collisions@, cars@, zombies@).0 == hits@ + collisions_spec(
                collisions@.skip(c as int),
                cars@,
                zombies@,
            ).0,
            collisions_spec(collisions@, cars@, zombies@).1 == c + collisions_spec(
                collisions@.skip(c as int),
                cars@,
                zombies@,
            ).1,
        decreases collisions.len() - c,
    {
        let collision = collisions[c];
        let ghost step = collision_step_spec(collision, cars@, zombies@);
        let ghost before = hits@;
        proof {
            lemma_collision_step(collisions@, cars@, zombies@, c as int);
        }
        c += 1;
        match query_double(&car_table, &zombie_table, collision.entity1, collision.entity2) {
            Some((car, zombie)) => {
                if !collision.started {
                    proof {
                        assert(hits@ + Seq::<Entity>::empty() =~= hits@);
                    }
                    return (hits, c);
                }
                if impact_speed(
                    cars[car].position,
                    cars[car].linear_velocity,
                    zombies[zombie].position,
                ) > MINIMUM_VELOCITY {
                    hits.push(zombies[zombie].entity);
                }
            },
            None => {},
        }
        proof {
            let rest = collisions_spec(collisions@.skip(c as int), cars@, zombies@);
            assert(hits@ =~= before + step.0);
            assert(before + (step.0 + rest.0) =~= hits@ + rest.0);
        }
    }
    proof {
        assert(collisions@.skip(c as int).len() == 0);
        assert(hits@ + Seq::<Entity>::empty() =~= hits@);
    }
    (hits, c)
}

/// What a batch of collisions does from its collision `c` on: it ends there
/// if that collision stops the batch, and else goes on behind it.
proof fn lemma_collision_step(
    collisions: Seq<Collision>,
    cars: Seq<CollidingCar>,
    zombies: Seq<CollidingZombie>,
    c: int,
)
    requires
        0 <= c < collisions.len(),
    ensures
        collisions_spec(collisions.skip(c), cars, zombies) == if collision_step_spec(
            collisions[c],
            cars,
            zombies,
        ).1 {
            (Seq::<Entity>::empty(), 1int)
        } else {
            (
                collision_step_spec(collisions[c], cars, zombies).0 + collisions_spec(
                    collisions.skip(c + 1),
                    cars,
                    zombies,
                ).0,
                collisions_spec(collisions.skip(c + 1), cars, zombies).1 + 1,
            )
        },
{
    assert(collisions.skip(c)[0] == collisions[c]);
    assert(collisions.skip(c).skip(1) =~= collisions.skip(c + 1));
}

} // verus!
