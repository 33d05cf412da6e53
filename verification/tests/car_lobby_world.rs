use zo_sim::car::tire::Tire;
use zo_sim::car::Car;
use zo_sim::fixed::ONE;
use zo_sim::ids::NetworkId;
use zo_sim::transform::{Rotation, Transform};
use zo_sim::vec2::Vec2;
use zo_sim::zo::car::{
    car_blueprint, drift, handle_collisions, impact_speed, steering_angle, tire_mounts, turning,
    CollidingCar, CollidingZombie, Collision, SteeredTire, TireMount, CAMERA_SCALE, CAMERA_SPEED,
    CAR_LENGTH, CAR_MASS, CAR_POWER, CAR_WIDTH, COLLISION_DAMAGE, DRIFT_GRIP, MINIMUM_VELOCITY,
    ROLLING_RESISTANCE, TIRE_GRIP, TURNING_RADIUS,
};
use zo_sim::zo::lobby::{
    half_turned, handle_unhandled_instantiations, menu, on_lobby_join, spawn_action, SpawnAction,
    SpawnKind, UnhandledInstantiation, LOBBY_SIZE,
};
use zo_sim::zo::world::{building_centers, BUILDING_SIZE, GRID_HALF_EXTENT, STREET_SIZE};

fn front(x: i64, y: i64) -> TireMount {
    TireMount { offset: Vec2::new(x, y), tire: Tire::new(true, Some(30 * ONE), 500_000, 700_000) }
}

fn rear(x: i64, y: i64) -> TireMount {
    TireMount { offset: Vec2::new(x, y), tire: Tire::new(false, None, 500_000, 700_000) }
}

#[test]
fn constants_of_a_car() {
    assert_eq!(TIRE_GRIP, 700_000);
    assert_eq!(DRIFT_GRIP, 200_000);
    assert_eq!(ROLLING_RESISTANCE, 500_000);
    assert_eq!(TURNING_RADIUS, 30 * ONE);
    assert_eq!(CAR_WIDTH, 16 * ONE);
    assert_eq!(CAR_LENGTH, 32 * ONE);
    assert_eq!(CAR_POWER, 4000 * ONE);
    assert_eq!(CAR_MASS, ONE);
    assert_eq!(CAMERA_SCALE, ONE / 2);
    assert_eq!(CAMERA_SPEED, 4 * ONE);
    assert_eq!(MINIMUM_VELOCITY, 100 * ONE);
    assert_eq!(COLLISION_DAMAGE, 100);
}

#[test]
fn a_car_has_four_tires_and_the_front_ones_steer() {
    let tires = tire_mounts(16 * ONE, 32 * ONE);
    assert_eq!(
        tires,
        vec![
            front(8 * ONE, 16 * ONE),
            front(-8 * ONE, 16 * ONE),
            rear(8 * ONE, -16 * ONE),
            rear(-8 * ONE, -16 * ONE),
        ]
    );
}

#[test]
fn tire_mounts_of_an_odd_size_round_toward_the_center() {
    let tires = tire_mounts(5, -7);
    assert_eq!(tires[0].offset, Vec2::new(2, -3));
    assert_eq!(tires[1].offset, Vec2::new(-2, -3));
    assert_eq!(tires[2].offset, Vec2::new(2, 3));
    assert_eq!(tires[3].offset, Vec2::new(-2, 3));
}

#[test]
fn the_owner_gets_the_camera() {
    let own = car_blueprint(7, 7);
    assert!(own.follow_camera);
    assert_eq!(own.car, Car::new(4000 * ONE, 4000 * ONE));
    assert_eq!(own.width, 16 * ONE);
    assert_eq!(own.length, 32 * ONE);
    assert_eq!(own.mass, ONE);
    assert_eq!(own.tires, tire_mounts(16 * ONE, 32 * ONE));
    let other = car_blueprint(7, 8);
    assert!(!other.follow_camera);
    assert_eq!(other.tires.len(), 4);
}

#[test]
fn steering_snaps_to_the_lock() {
    let steering = Tire::new(true, Some(30 * ONE), 500_000, 700_000);
    assert_eq!(steering_angle(&steering, true, false), Some(30 * ONE));
    assert_eq!(steering_angle(&steering, false, true), Some(-30 * ONE));
    assert_eq!(steering_angle(&steering, true, true), Some(30 * ONE));
    assert_eq!(steering_angle(&steering, false, false), Some(0));
    let fixed = Tire::new(false, None, 500_000, 700_000);
    assert_eq!(steering_angle(&fixed, true, false), None);
    assert_eq!(steering_angle(&fixed, false, false), None);
}

#[test]
fn turning_leaves_the_rear_tires_alone() {
    let steering = Tire::new(true, Some(30 * ONE), 500_000, 700_000);
    let fixed = Tire::new(false, None, 500_000, 700_000);
    let mut tires = vec![
        SteeredTire { tire: fixed, angle: 11 },
        SteeredTire { tire: steering, angle: 11 },
        SteeredTire { tire: fixed, angle: 12 },
        SteeredTire { tire: steering, angle: 12 },
    ];
    turning(false, true, &mut tires);
    assert_eq!(tires[0].angle, 11);
    assert_eq!(tires[1].angle, -30 * ONE);
    assert_eq!(tires[2].angle, 12);
    assert_eq!(tires[3].angle, -30 * ONE);
    turning(false, false, &mut tires);
    assert_eq!(tires[1].angle, 0);
    assert_eq!(tires[0].angle, 11);
    turning(true, false, &mut tires);
    assert_eq!(tires[3].angle, 30 * ONE);
    assert_eq!(tires[3].tire, steering);
}

#[test]
fn drift_lowers_the_grip_of_every_tire() {
    let mut tires = vec![Tire::new(true, Some(30 * ONE), 500_000, 700_000), Tire::new(false, None, 3, 999)];
    drift(true, &mut tires);
    assert_eq!(tires[0], Tire::new(true, Some(30 * ONE), 500_000, 200_000));
    assert_eq!(tires[1], Tire::new(false, None, 3, 200_000));
    drift(false, &mut tires);
    assert_eq!(tires[0], Tire::new(true, Some(30 * ONE), 500_000, 700_000));
    assert_eq!(tires[1], Tire::new(false, None, 3, 700_000));
}

#[test]
fn impact_speed_is_the_speed_toward_the_zombie() {
    assert_eq!(impact_speed(Vec2::new(0, 0), Vec2::new(150 * ONE, 0), Vec2::new(10 * ONE, 0)), 150 * ONE);
    assert_eq!(impact_speed(Vec2::new(0, 0), Vec2::new(150 * ONE, 0), Vec2::new(-10 * ONE, 0)), -150 * ONE);
    assert_eq!(impact_speed(Vec2::new(0, 0), Vec2::new(150 * ONE, 0), Vec2::new(0, 10 * ONE)), 0);
    assert_eq!(impact_speed(Vec2::new(ONE, ONE), Vec2::new(100 * ONE, 50 * ONE), Vec2::new(4 * ONE, 5 * ONE)), 100 * ONE);
    assert_eq!(impact_speed(Vec2::new(0, 0), Vec2::new(150 * ONE, 0), Vec2::new(0, 0)), 0);
}

#[test]
fn a_fast_car_hurts_the_zombie_it_runs_into() {
    let cars = vec![CollidingCar { entity: 1, position: Vec2::new(0, 0), linear_velocity: Vec2::new(150 * ONE, 0) }];
    let zombies = vec![
        CollidingZombie { entity: 20, position: Vec2::new(10 * ONE, 0) },
        CollidingZombie { entity: 21, position: Vec2::new(-10 * ONE, 0) },
    ];
    let collisions = vec![
        Collision { entity1: 1, entity2: 20, started: true },
        Collision { entity1: 21, entity2: 1, started: true },
        Collision { entity1: 20, entity2: 21, started: true },
        Collision { entity1: 5, entity2: 6, started: false },
        Collision { entity1: 20, entity2: 1, started: true },
    ];
    assert_eq!(handle_collisions(&collisions, &cars, &zombies), (vec![20, 20], 5));
}

#[test]
fn a_slow_car_hurts_nobody() {
    let zombies = vec![CollidingZombie { entity: 20, position: Vec2::new(10 * ONE, 0) }];
    let collisions = vec![Collision { entity1: 1, entity2: 20, started: true }];
    let at_the_limit = vec![CollidingCar { entity: 1, position: Vec2::new(0, 0), linear_velocity: Vec2::new(100 * ONE, 0) }];
    assert_eq!(handle_collisions(&collisions, &at_the_limit, &zombies), (Vec::new(), 1));
    let above = vec![CollidingCar { entity: 1, position: Vec2::new(0, 0), linear_velocity: Vec2::new(100 * ONE + 1, 0) }];
    assert_eq!(handle_collisions(&collisions, &above, &zombies), (vec![20], 1));
}

#[test]
fn a_lasting_contact_ends_the_batch() {
    let cars = vec![CollidingCar { entity: 1, position: Vec2::new(0, 0), linear_velocity: Vec2::new(150 * ONE, 0) }];
    let zombies = vec![CollidingZombie { entity: 20, position: Vec2::new(10 * ONE, 0) }];
    let collisions = vec![
        Collision { entity1: 1, entity2: 20, started: true },
        Collision { entity1: 1, entity2: 20, started: false },
        Collision { entity1: 1, entity2: 20, started: true },
    ];
    assert_eq!(handle_collisions(&collisions, &cars, &zombies), (vec![20], 2));
    assert_eq!(handle_collisions(&Vec::new(), &cars, &zombies), (Vec::new(), 0));
}

#[test]
fn paths_name_kinds() {
    assert_eq!(SpawnKind::from_path("Player"), Some(SpawnKind::Player));
    assert_eq!(SpawnKind::from_path("Zombie"), Some(SpawnKind::Zombie));
    assert_eq!(SpawnKind::from_path("ZombieCorpse"), Some(SpawnKind::ZombieCorpse));
    assert_eq!(SpawnKind::from_path("player"), None);
    assert_eq!(SpawnKind::from_path("Zombie "), None);
    assert_eq!(SpawnKind::from_path(""), None);
    assert_eq!(SpawnKind::from_path("Zombi\u{e9}"), None);
}

#[test]
fn the_menu_creates_a_lobby_of_eight() {
    assert_eq!(LOBBY_SIZE, 8);
    assert_eq!(menu(true), Some(8));
    assert_eq!(menu(false), None);
    assert_eq!(on_lobby_join(0), None);
    assert_eq!(on_lobby_join(1), Some(SpawnKind::Player));
    assert_eq!(on_lobby_join(3), Some(SpawnKind::Player));
}

#[test]
fn half_a_turn_flips_both_axes() {
    let pose = Transform { translation: Vec2::new(1, 2), rotation: Rotation { cos: 600_000, sin: -800_000 } };
    let turned = half_turned(pose);
    assert_eq!(turned.translation, Vec2::new(1, 2));
    assert_eq!(turned.rotation, Rotation { cos: -600_000, sin: 800_000 });
    assert_eq!(half_turned(turned), pose);
}

#[test]
fn instantiations_are_dispatched_by_path() {
    let pose = Transform { translation: Vec2::new(1, 2), rotation: Rotation { cos: 0, sin: ONE } };
    let mine = NetworkId { owner: 7, serial: 1 };
    let theirs = NetworkId { owner: 8, serial: 1 };
    let events = vec![
        UnhandledInstantiation { instantiation_path: "Player".to_string(), network_id: mine, starting_transform: pose },
        UnhandledInstantiation { instantiation_path: "Zombie".to_string(), network_id: theirs, starting_transform: pose },
        UnhandledInstantiation { instantiation_path: "ZombieCorpse".to_string(), network_id: theirs, starting_transform: pose },
        UnhandledInstantiation { instantiation_path: "Tree".to_string(), network_id: theirs, starting_transform: pose },
    ];
    assert_eq!(
        handle_unhandled_instantiations(&events),
        vec![
            SpawnAction::Car { network_id: mine },
            SpawnAction::Zombie { network_id: theirs, transform: pose },
            SpawnAction::Corpse {
                network_id: theirs,
                transform: Transform { translation: Vec2::new(1, 2), rotation: Rotation { cos: 0, sin: -ONE } },
            },
            SpawnAction::Nothing,
        ]
    );
    assert_eq!(spawn_action(&events[1]), SpawnAction::Zombie { network_id: theirs, transform: pose });
    assert!(handle_unhandled_instantiations(&Vec::new()).is_empty());
}

#[test]
fn the_world_is_a_grid_of_buildings() {
    assert_eq!(BUILDING_SIZE, 128 * ONE);
    assert_eq!(STREET_SIZE, 128 * ONE);
    assert_eq!(GRID_HALF_EXTENT, 32);
    let centers = building_centers();
    assert_eq!(centers.len(), 4096);
    assert_eq!(centers[0], Vec2::new(-8320 * ONE, -8320 * ONE));
    assert_eq!(centers[1], Vec2::new(-8320 * ONE, -8064 * ONE));
    assert_eq!(centers[64], Vec2::new(-8064 * ONE, -8320 * ONE));
    assert_eq!(centers[32 * 64 + 32], Vec2::new(-128 * ONE, -128 * ONE));
    assert_eq!(centers[33 * 64 + 33], Vec2::new(128 * ONE, 128 * ONE));
    assert_eq!(centers[4095], Vec2::new(7808 * ONE, 7808 * ONE));
}
