use zo_sim::fixed::ONE;
use zo_sim::rng::{
    donut_point, is_heading, random_float, random_point_in_donut, ring_margin, HEADING_SLACK,
};
use zo_sim::vec2::Vec2;
use zo_sim::zo::population::{
    confirm_spawns, handle_spawning_and_despawning, PlayerView, PopulationConfig, SpawnCandidate,
    ZombieView, FULL_TURN, MAX_ZOMBIES, MIN_RANGE, VARIATION, ZOMBIE_SIZE,
};

fn player_at(x: i64, y: i64) -> PlayerView {
    PlayerView { position: Vec2::new(x, y), spawn_heading: Vec2::new(ONE, 0) }
}

fn zombie_at(entity: u64, x: i64, y: i64) -> ZombieView {
    ZombieView { entity, position: Vec2::new(x, y) }
}

#[test]
fn the_standard_limits() {
    let config = PopulationConfig::standard();
    assert_eq!(config.max_zombies, 20);
    assert_eq!(config.min_range, 400 * ONE);
    assert_eq!(config.variation, 300 * ONE);
    assert_eq!(MAX_ZOMBIES, 20);
    assert_eq!(MIN_RANGE, 400 * ONE);
    assert_eq!(VARIATION, 300 * ONE);
    assert_eq!(ZOMBIE_SIZE, 4 * ONE);
    assert_eq!(FULL_TURN, 360 * ONE);
}

#[test]
fn random_float_stays_in_its_range() {
    assert_eq!(random_float(5, 6), 5);
    assert_eq!(random_float(-3, -2), -3);
    assert_eq!(random_float(i64::MAX - 1, i64::MAX), i64::MAX - 1);
    for _ in 0..200 {
        let r = random_float(-10, 10);
        assert!((-10..10).contains(&r));
        let wide = random_float(i64::MIN, i64::MAX);
        assert!(wide < i64::MAX);
        let turn = random_float(0, FULL_TURN);
        assert!((0..FULL_TURN).contains(&turn));
    }
}

#[test]
fn random_float_is_not_constant() {
    let first = random_float(0, i64::MAX);
    let mut differs = false;
    for _ in 0..64 {
        if random_float(0, i64::MAX) != first {
            differs = true;
        }
    }
    assert!(differs);
}

#[test]
fn donut_point_lies_at_the_root_of_its_squared_radius() {
    assert_eq!(donut_point(Vec2::new(600_000, 800_000), 25_000_000_000_000), Vec2::new(3 * ONE, 4 * ONE));
    assert_eq!(donut_point(Vec2::new(ONE, 0), 26), Vec2::new(5, 0));
    assert_eq!(donut_point(Vec2::new(0, -ONE), 0), Vec2::new(0, 0));
}

#[test]
fn random_points_lie_in_the_ring() {
    let inner = (400 * ONE as u128) * (400 * ONE as u128);
    let outer = (700 * ONE as u128) * (700 * ONE as u128);
    for _ in 0..200 {
        let p = random_point_in_donut(400 * ONE, 700 * ONE, Vec2::new(ONE, 0));
        assert_eq!(p.y, 0);
        assert!(400 * ONE <= p.x && p.x < 700 * ONE);
        for heading in [Vec2::new(-600_000, 800_000), Vec2::new(707_106, -707_106), Vec2::new(-999_996, -1)] {
            assert!(is_heading(heading));
            let r2 = random_point_in_donut(400 * ONE, 700 * ONE, heading).length_squared();
            assert!(inner <= r2 && r2 < outer);
        }
    }
}

#[test]
fn a_narrow_ring_is_sampled_beyond_its_margin() {
    assert_eq!(ring_margin(20), 3);
    assert_eq!(ring_margin(0), 3);
    assert_eq!(ring_margin(700 * ONE), 2_803);
    assert_eq!(ring_margin(i64::MAX), 36_893_635_721_964);
    for _ in 0..100 {
        let p = random_point_in_donut(5, 20, Vec2::new(0, ONE));
        assert_eq!(p.x, 0);
        assert!(8 <= p.y && p.y < 20);
    }
    assert_eq!(random_point_in_donut(5, 9, Vec2::new(0, -ONE)), Vec2::new(0, -8));
}

#[test]
fn a_heading_is_a_unit_vector() {
    assert_eq!(HEADING_SLACK, 4);
    assert!(is_heading(Vec2::new(ONE, 0)));
    assert!(is_heading(Vec2::new(0, -ONE)));
    assert!(is_heading(Vec2::new(600_000, 800_000)));
    assert!(is_heading(Vec2::new(707_106, 707_106)));
    assert!(is_heading(Vec2::new(ONE - 4, 0)));
    assert!(!is_heading(Vec2::new(ONE - 5, 0)));
    assert!(!is_heading(Vec2::new(ONE, 1)));
    assert!(!is_heading(Vec2::new(707_107, 707_107)));
    assert!(!is_heading(Vec2::new(0, 0)));
    assert!(!is_heading(Vec2::new(i64::MIN, i64::MAX)));
}

#[test]
fn a_player_without_a_unit_heading_gets_no_candidate() {
    let players = vec![
        PlayerView { position: Vec2::new(0, 0), spawn_heading: Vec2::new(0, 0) },
        PlayerView { position: Vec2::new(0, 0), spawn_heading: Vec2::new(0, ONE) },
        PlayerView { position: Vec2::new(0, 0), spawn_heading: Vec2::new(2 * ONE, 0) },
    ];
    let plan = handle_spawning_and_despawning(true, &players, &Vec::new(), &PopulationConfig::standard());
    assert_eq!(plan.candidates.len(), 1);
    assert_eq!(plan.candidates[0].player, 1);
    assert_eq!(plan.candidates[0].point.x, 0);
    assert!(400 * ONE <= plan.candidates[0].point.y && plan.candidates[0].point.y < 700 * ONE);
}

#[test]
fn two_close_players_each_get_a_candidate() {
    let config = PopulationConfig { max_zombies: 2, min_range: 400 * ONE, variation: 300 * ONE };
    let players = vec![player_at(0, 0), player_at(ONE, 0)];
    let plan = handle_spawning_and_despawning(true, &players, &Vec::new(), &config);
    assert_eq!(plan.candidates.len(), 2);
    let requests = confirm_spawns(&plan.candidates, &vec![false, false]);
    for player in players.iter() {
        let near = requests.iter().filter(|r| r.point.within(player.position, 700 * ONE as u64)).count();
        assert!(near <= 2);
    }
}

#[test]
fn a_peer_that_does_not_own_the_lobby_decides_nothing() {
    let players = vec![player_at(0, 0)];
    let zombies = vec![zombie_at(1, 5000 * ONE, 0)];
    let plan = handle_spawning_and_despawning(false, &players, &zombies, &PopulationConfig::standard());
    assert!(plan.candidates.is_empty());
    assert!(plan.despawn.is_empty());
}

#[test]
fn zombies_out_of_range_of_every_player_are_removed() {
    let players = vec![player_at(0, 0), player_at(2000 * ONE, 0)];
    let zombies = vec![
        zombie_at(1, 100 * ONE, 0),
        zombie_at(2, 1000 * ONE, 0),
        zombie_at(3, 2000 * ONE, 699 * ONE),
        zombie_at(4, 0, 700 * ONE),
        zombie_at(5, 0, 700 * ONE - 1),
        zombie_at(6, -5000 * ONE, -5000 * ONE),
    ];
    let plan = handle_spawning_and_despawning(true, &players, &zombies, &PopulationConfig::standard());
    assert_eq!(plan.despawn, vec![2, 4, 6]);
}

#[test]
fn without_players_every_zombie_is_removed() {
    let zombies = vec![zombie_at(1, 0, 0), zombie_at(2, 1, 1)];
    let plan = handle_spawning_and_despawning(true, &Vec::new(), &zombies, &PopulationConfig::standard());
    assert_eq!(plan.despawn, vec![1, 2]);
    assert!(plan.candidates.is_empty());
}

#[test]
fn a_player_with_room_gets_one_candidate_in_the_ring() {
    let players = vec![player_at(1000 * ONE, -50 * ONE)];
    let zombies = vec![zombie_at(1, 1000 * ONE, 0)];
    let plan = handle_spawning_and_despawning(true, &players, &zombies, &PopulationConfig::standard());
    assert_eq!(plan.candidates.len(), 1);
    let candidate = plan.candidates[0];
    assert_eq!(candidate.player, 0);
    assert_eq!(candidate.point.y, -50 * ONE);
    assert!(1400 * ONE <= candidate.point.x && candidate.point.x < 1700 * ONE);
    assert!(plan.despawn.is_empty());
}

#[test]
fn a_player_at_the_cap_gets_no_candidate() {
    let config = PopulationConfig { max_zombies: 2, min_range: 400 * ONE, variation: 300 * ONE };
    let players = vec![player_at(0, 0), player_at(5000 * ONE, 0), player_at(-5000 * ONE, 0)];
    let zombies = vec![
        zombie_at(1, 10 * ONE, 0),
        zombie_at(2, 20 * ONE, 0),
        zombie_at(3, 5000 * ONE, 10),
        zombie_at(4, -5000 * ONE, 1),
        zombie_at(5, -5000 * ONE, 2),
        zombie_at(6, -5000 * ONE, 3),
    ];
    let plan = handle_spawning_and_despawning(true, &players, &zombies, &config);
    assert_eq!(plan.candidates.len(), 1);
    assert_eq!(plan.candidates[0].player, 1);
    assert!(plan.despawn.is_empty());
    let none = PopulationConfig { max_zombies: 0, min_range: 400 * ONE, variation: 300 * ONE };
    assert!(handle_spawning_and_despawning(true, &players, &zombies, &none).candidates.is_empty());
}

#[test]
fn the_cap_holds_after_a_tick() {
    let config = PopulationConfig { max_zombies: 3, min_range: 400 * ONE, variation: 300 * ONE };
    let players = vec![player_at(0, 0)];
    let mut zombies = vec![zombie_at(1, 10 * ONE, 0), zombie_at(2, 20 * ONE, 0), zombie_at(3, 9000 * ONE, 0)];
    let mut next_entity = 10;
    for _ in 0..5 {
        let plan = handle_spawning_and_despawning(true, &players, &zombies, &config);
        let blocked = vec![false; plan.candidates.len()];
        let requests = confirm_spawns(&plan.candidates, &blocked);
        zombies.retain(|z| !plan.despawn.contains(&z.entity));
        for request in requests.iter() {
            zombies.push(ZombieView { entity: next_entity, position: request.point });
            next_entity += 1;
        }
        let in_range = zombies.iter().filter(|z| z.position.within(players[0].position, 700 * ONE as u64)).count();
        assert!(in_range <= 3);
    }
    assert_eq!(zombies.len(), 3);
}

#[test]
fn a_blocked_candidate_is_not_requested() {
    let candidates = vec![
        SpawnCandidate { player: 0, point: Vec2::new(1, 1) },
        SpawnCandidate { player: 1, point: Vec2::new(2, 2) },
        SpawnCandidate { player: 2, point: Vec2::new(3, 3) },
        SpawnCandidate { player: 3, point: Vec2::new(4, 4) },
    ];
    let requests = confirm_spawns(&candidates, &vec![false, true, false]);
    assert_eq!(requests.len(), 2);
    assert_eq!(requests[0].point, Vec2::new(1, 1));
    assert_eq!(requests[1].point, Vec2::new(3, 3));
    for request in requests.iter() {
        assert!(0 <= request.facing && request.facing < FULL_TURN);
    }
    assert!(confirm_spawns(&candidates, &vec![true, true, true, true]).is_empty());
    assert!(confirm_spawns(&candidates, &Vec::new()).is_empty());
    assert!(confirm_spawns(&Vec::new(), &vec![false]).is_empty());
}
