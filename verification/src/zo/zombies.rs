//! Zombies: whom they chase and how they move.

use vstd::prelude::*;
use crate::fixed::{mul_div, mul_div_spec, ONE};
use crate::force::ExternalForce;
use crate::ids::{resolve, resolve_spec, Entity, NetworkId, NetworkIdentity};
use crate::transform::{Rotation, Transform};
use crate::vec2::{distance_cap, Vec2};
use crate::zo::health::Health;

verus! {

/// The force that drives a zombie toward its target.
pub const ZOMBIE_SPEED: i64 = 20_000_000_000;

/// The health a zombie starts with.
pub const ZOMBIE_HEALTH: u32 = 100;

/// A zombie's mass.
pub const ZOMBIE_MASS: i64 = 100_000;

/// The radius of a zombie's collider.
pub const ZOMBIE_RADIUS: i64 = 4_000_000;

/// The distance within which a zombie takes up the chase.
pub const AGRO_DISTANCE: u64 = 100_000_000;

/// The drag on a moving zombie, per unit of velocity.
pub const DRAG: i64 = 100_000_000;

/// A zombie.
#[derive(Clone, Copy, Debug, PartialEq, Eq)]
pub struct Zombie {
    /// The force with which it drives itself forward.
    pub speed: i64,
    /// The entity it chases. The handle may have gone stale.
    pub target: Option<Entity>,
}

/// The replicated event that tells every peer of a zombie's new target.
#[derive(Clone, Copy, Debug, PartialEq, Eq, Structural)]
pub struct ZombieAgroChange {
    pub zombie_identity: NetworkId,
    pub target_identity: NetworkId,
}

/// A zombie as targeting sees it.
#[derive(Clone, Copy, Debug, PartialEq, Eq)]
pub struct AgroZombie {
    pub identity: NetworkId,
    pub position: Vec2,
    pub target: Option<Entity>,
}

/// A player as targeting sees it.
#[derive(Clone, Copy, Debug, PartialEq, Eq, Structural)]
pub struct AgroPlayer {
    pub entity: Entity,
    pub identity: NetworkId,
    pub position: Vec2,
}

/// What it takes to spawn a zombie.
#[derive(Debug)]
pub struct ZombieBlueprint {
    pub zombie: Zombie,
    pub health: Health,
    pub mass: i64,
    /// The radius of the collider.
    pub radius: i64,
}

/// A zombie as it is spawned: at full speed and without target, at full
/// health, and gone from the world once it is dead.
pub fn zombie_blueprint() -> (blueprint: ZombieBlueprint)
    ensures
        blueprint.zombie == (Zombie { speed: ZOMBIE_SPEED, target: None }),
        blueprint.health.amount == ZOMBIE_HEALTH,
        blueprint.health.max_amount == ZOMBIE_HEALTH,
        blueprint.health.destroy_on_death,
        blueprint.health.queued_deltas@.len() == 0,
        blueprint.mass == ZOMBIE_MASS,
        blueprint.radius == ZOMBIE_RADIUS,
{
    ZombieBlueprint {
        zombie: Zombie::new(),
        health: Health::new(ZOMBIE_HEALTH, true),
        mass: ZOMBIE_MASS,
        radius: ZOMBIE_RADIUS,
    }
}

impl Zombie {
    /// A zombie as it is spawned: at full speed and with no target.
    pub fn new() -> (zombie: Zombie)
        ensures
            zombie == (Zombie { speed: ZOMBIE_SPEED, target: None }),
    {
        Zombie { speed: ZOMBIE_SPEED, target: None }
    }
}

/// The squared distance between two points as targeting compares it.
pub open spec fn capped_distance(a: Vec2, b: Vec2) -> int {
    if a.distance_squared_spec(b) > distance_cap() {
        distance_cap()
    } else {
        a.distance_squared_spec(b)
    }
}

/// Whether player `i` is the closest to `from`, and the first of those that
/// are equally close.
pub open spec fn is_closest(players: Seq<AgroPlayer>, from: Vec2, i: int) -> bool {
    &&& 0 <= i < players.len()
    &&& forall|k: int|
        0 <= k < players.len() ==> capped_distance(from, players[i].position) <= capped_distance(
            from,
            (#[trigger] players[k]).position,
        )
    &&& forall|k: int|
        0 <= k < i ==> capped_distance(from, players[i].position) < capped_distance(
            from,
            (#[trigger] players[k]).position,
        )
}

/// The index of the player closest to `from`.
pub open spec fn closest_index(players: Seq<AgroPlayer>, from: Vec2) -> int {
    choose|i: int| is_closest(players, from, i)
}

/// Only one player is the closest.
pub proof fn lemma_closest_unique(players: Seq<AgroPlayer>, from: Vec2, i: int)
    requires
        is_closest(players, from, i),
    ensures
        closest_index(players, from) == i,
{
    let c = closest_index(players, from);
    assert(is_closest(players, from, c));
    if c < i {
        assert(capped_distance(from, players[i].position) < capped_distance(
            from,
            players[c].position,
        ));
        assert(capped_distance(from, players[c].position) <= capped_distance(
            from,
            players[i].position,
        ));
    } else if i < c {
        assert(capped_distance(from, players[c].position) < capped_distance(
            from,
            players[i].position,
        ));
        assert(capped_distance(from, players[i].position) <= capped_distance(
            from,
            players[c].position,
        ));
    }
}

/// The event, if any, that targeting sends for one zombie. It names the
/// closest player, provided that the zombie does not chase that player
/// already and that the player is within `agro_distance`. A zombie with no
/// player in reach keeps the target it has.
pub open spec fn agro_change_spec(zombie: AgroZombie, players: Seq<AgroPlayer>, agro_distance: int) -> Option<
    ZombieAgroChange,
> {
    if players.len() == 0 {
        None
    } else {
        let best = players[closest_index(players, zombie.position)];
        if zombie.target == Some(best.entity) {
            None
        } else if zombie.position.distance_squared_spec(best.position) < agro_distance
            * agro_distance {
            Some(
                ZombieAgroChange { zombie_identity: zombie.identity, target_identity: best.identity },
            )
        } else {
            None
        }
    }
}

/// The events that targeting sends, in the order of the zombies.
pub open spec fn agro_changes_spec(zombies: Seq<AgroZombie>, players: Seq<AgroPlayer>, agro_distance: int) -> Seq<
    ZombieAgroChange,
>
    decreases zombies.len(),
{
    if zombies.len() == 0 {
        Seq::empty()
    } else {
        let rest = agro_changes_spec(zombies.drop_last(), players, agro_distance);
        match agro_change_spec(zombies.last(), players, agro_distance) {
            Some(change) => rest.push(change),
            None => rest,
        }
    }
}

/// Finds the player closest to `from`. Of several that are equally close
/// the first in the list is taken.
pub fn closest_player(players: &Vec<AgroPlayer>, from: Vec2) -> (found: Option<usize>)
    ensures
        match found {
            Some(i) => is_closest(players@, from, i as int) && i == closest_index(players@, from),
            None => players@.len() == 0,
        },
{
    if players.len() == 0 {
        return None;
    }
    let mut best: usize = 0;
    let mut best_distance: u128 = from.distance_squared(players[0].position);
    let mut k: usize = 1;
    while k < players.len()
        invariant
            1 <= k <= players.len(),
            best < k,
            best_distance == capped_distance(from, players@[best as int].position),
            forall|j: int|
                0 <= j < k ==> best_distance <= capped_distance(
                    from,
                    (#[trigger] players@[j]).position,
                ),
            forall|j: int|
                0 <= j < best ==> best_distance < capped_distance(
                    from,
                    (#[trigger] players@[j]).position,
                ),
        decreases players.len() - k,
    {
        let distance = from.distance_squared(players[k].position);
        if distance < best_distance {
            best = k;
            best_distance = distance;
        }
        k += 1;
    }
    proof {
        lemma_closest_unique(players@, from, best as int);
    }
    Some(best)
}

/// Targeting for one zombie.
pub fn agro_change(zombie: &AgroZombie, players: &Vec<AgroPlayer>, agro_distance: u64) -> (change:
    Option<ZombieAgroChange>)
    ensures
        change == agro_change_spec(*zombie, players@, agro_distance as int),
{
    match closest_player(players, zombie.position) {
        None => None,
        Some(i) => {
            let best = players[i];
            let chased = match zombie.target {
                Some(target) => target == best.entity,
                None => false,
            };
            if chased {
                None
            } else if zombie.position.within(best.position, agro_distance) {
                Some(
                    ZombieAgroChange {
                        zombie_identity: zombie.identity,
                        target_identity: best.identity,
                    },
                )
            } else {
                None
            }
        },
    }
}

/// The targeting tick: every zombie looks for the closest player and, where
/// that player is within the aggression radius and not chased yet, an event
/// announces the new target.
pub fn zombie_agro(zombies: &Vec<AgroZombie>, players: &Vec<AgroPlayer>) -> (changes: Vec<
    ZombieAgroChange,
>)
    ensures
        changes@ == agro_changes_spec(zombies@, players@, AGRO_DISTANCE as int),
{
    let mut changes: Vec<ZombieAgroChange> = Vec::new();
    let mut z: usize = 0;
    while z < zombies.len()
        invariant
            z <= zombies.len(),
            changes@ == agro_changes_spec(zombies@.take(z as int), players@, AGRO_DISTANCE as int),
        decreases zombies.len() - z,
    {
        proof {
            assert(zombies@.take(z as int + 1).drop_last() =~= zombies@.take(z as int));
            assert(zombies@.take(z as int + 1).last() == zombies@[z as int]);
        }
        let zombie = zombies[z];
        match agro_change(&zombie, players, AGRO_DISTANCE) {
            Some(change) => {
                changes.push(change);
            },
            None => {},
        }
        z += 1;
    }
    proof {
        assert(zombies@.take(z as int) =~= zombies@);
    }
    changes
}

/// A zombie with its local handle.
#[derive(Clone, Copy, Debug, PartialEq, Eq)]
pub struct ZombieEntry {
    pub entity: Entity,
    pub zombie: Zombie,
}

/// The physical side of a zombie.
#[derive(Clone, Copy, Debug, PartialEq, Eq)]
pub struct ZombieBody {
    pub entity: Entity,
    pub zombie: Zombie,
    pub linear_velocity: Vec2,
    pub force: ExternalForce,
}

/// An entity with its pose.
#[derive(Clone, Copy, Debug, PartialEq, Eq, Structural)]
pub struct Placed {
    pub entity: Entity,
    pub transform: Transform,
}

impl ZombieEntry {
    /// The entry with another target.
    pub open spec fn with_target(self, target: Entity) -> ZombieEntry {
        ZombieEntry { entity: self.entity, zombie: Zombie { speed: self.zombie.speed, target: Some(target) } }
    }
}

/// The index of the first zombie with the handle `entity`.
pub open spec fn zombie_index_spec(zombies: Seq<ZombieEntry>, entity: Entity) -> Option<int> {
    if exists|i: int| 0 <= i < zombies.len() && (#[trigger] zombies[i]).entity == entity {
        Some(
            choose|i: int|
                0 <= i < zombies.len() && (#[trigger] zombies[i]).entity == entity && forall|
                    k: int,
                |
                    0 <= k < i ==> (#[trigger] zombies[k]).entity != entity,
        )
    } else {
        None
    }
}

/// The index of the first pose of the entity `entity`.
pub open spec fn placed_index_spec(transforms: Seq<Placed>, entity: Entity) -> Option<int> {
    if exists|i: int| 0 <= i < transforms.len() && (#[trigger] transforms[i]).entity == entity {
        Some(
            choose|i: int|
                0 <= i < transforms.len() && (#[trigger] transforms[i]).entity == entity && forall|
                    k: int,
                |
                    0 <= k < i ==> (#[trigger] transforms[k]).entity != entity,
        )
    } else {
        None
    }
}

/// What an event means here: the index of the zombie and the local handle of
/// its new target. An event resolves only if both identifiers name local
/// entities and the first of them is a zombie.
pub open spec fn resolve_agro_spec(
    change: ZombieAgroChange,
    identities: Seq<NetworkIdentity>,
    zombies: Seq<ZombieEntry>,
) -> Option<(int, Entity)> {
    match resolve_spec(identities, change.zombie_identity) {
        None => None,
        Some(zombie_entity) => match resolve_spec(identities, change.target_identity) {
            None => None,
            Some(target) => match zombie_index_spec(zombies, zombie_entity) {
                None => None,
                Some(i) => Some((i, target)),
            },
        },
    }
}

/// The zombies after one event. An event that resolves gives its zombie the
/// target it names; an event that does not resolve is dropped and changes
/// nothing.
pub open spec fn apply_agro_spec(
    change: ZombieAgroChange,
    identities: Seq<NetworkIdentity>,
    zombies: Seq<ZombieEntry>,
) -> Seq<ZombieEntry> {
    match resolve_agro_spec(change, identities, zombies) {
        None => zombies,
        Some((i, target)) => zombies.update(i, zombies[i].with_target(target)),
    }
}

/// The zombies after a batch of events. Every event is taken on its own and
/// in order: it is applied if it resolves and dropped if it does not, and
/// the events behind it are applied all the same.
pub open spec fn handle_agro_spec(
    changes: Seq<ZombieAgroChange>,
    identities: Seq<NetworkIdentity>,
    zombies: Seq<ZombieEntry>,
) -> Seq<ZombieEntry>
    decreases changes.len(),
{
    if changes.len() == 0 {
        zombies
    } else {
        apply_agro_spec(
            changes.last(),
            identities,
            handle_agro_spec(changes.drop_last(), identities, zombies),
        )
    }
}

/// The force that drives a zombie at `position` toward `target` over a step
/// of `dt` seconds.
pub open spec fn movement_force_spec(position: Vec2, target: Vec2, speed: i64, dt: i64) -> Vec2 {
    target.minus_spec(position).normalized_spec().scaled_spec(
        mul_div_spec(speed as int, dt as int, ONE as int),
        ONE as int,
    )
}

/// The direction from `position` to `target`; toward positive x where the
/// two coincide.
pub open spec fn heading_spec(position: Vec2, target: Vec2) -> Vec2 {
    let direction = target.minus_spec(position);
    if direction.x == 0 && direction.y == 0 {
        Vec2 { x: ONE, y: 0 }
    } else {
        direction.normalized_spec()
    }
}

/// The pose turned so that its forward axis points at `target`.
pub open spec fn look_at_spec(transform: Transform, target: Vec2) -> Transform {
    Transform {
        translation: transform.translation,
        rotation: Rotation::facing_spec(heading_spec(transform.translation, target)),
    }
}

/// The drag on a zombie that moves with `velocity`, over a step of `dt`
/// seconds: against the velocity and in proportion to it.
pub open spec fn drag_force_spec(velocity: Vec2, dt: i64) -> Vec2 {
    velocity.scaled_spec(mul_div_spec(DRAG as int, dt as int, ONE as int), ONE as int).negated_spec()
}

/// A zombie and the poses after the zombie has made its move. A zombie
/// without target, with a target that has no pose, or without a pose of its
/// own does nothing.
#[verifier::opaque]
pub open spec fn move_zombie_spec(body: ZombieBody, transforms: Seq<Placed>, dt: i64) -> (
    ZombieBody,
    Seq<Placed>,
) {
    match body.zombie.target {
        None => (body, transforms),
        Some(target) => match placed_index_spec(transforms, target) {
            None => (body, transforms),
            Some(t) => match placed_index_spec(transforms, body.entity) {
                None => (body, transforms),
                Some(s) => (
                    ZombieBody {
                        force: body.force.apply_force_spec(
                            movement_force_spec(
                                transforms[s].transform.translation,
                                transforms[t].transform.translation,
                                body.zombie.speed,
                                dt,
                            ),
                        ),
                        ..body
                    },
                    transforms.update(
                        s,
                        Placed {
                            entity: transforms[s].entity,
                            transform: look_at_spec(
                                transforms[s].transform,
                                transforms[t].transform.translation,
                            ),
                        },
                    ),
                ),
            },
        },
    }
}

/// The zombies and the poses after every zombie, in order, has made its
/// move.
pub open spec fn zombie_movement_spec(bodies: Seq<ZombieBody>, transforms: Seq<Placed>, dt: i64) -> (
    Seq<ZombieBody>,
    Seq<Placed>,
)
    decreases bodies.len(),
{
    if bodies.len() == 0 {
        (bodies, transforms)
    } else {
        let before = zombie_movement_spec(bodies.drop_last(), transforms, dt);
        let moved = move_zombie_spec(bodies.last(), before.1, dt);
        (before.0.push(moved.0), moved.1)
    }
}

/// A zombie after drag was added to its forces.
pub open spec fn dragged_spec(body: ZombieBody, dt: i64) -> ZombieBody {
    ZombieBody { force: body.force.apply_force_spec(drag_force_spec(body.linear_velocity, dt)), ..body }
}

/// Finds the zombie with the handle `entity`.
pub fn zombie_index(zombies: &Vec<ZombieEntry>, entity: Entity) -> (found: Option<usize>)
    ensures
        match found {
            Some(i) => zombie_index_spec(zombies@, entity) == Some(i as int) && i < zombies.len()
                && zombies[i as int].entity == entity,
            None => zombie_index_spec(zombies@, entity) == None::<int>,
        },
{
    let mut i: usize = 0;
    while i < zombies.len()
        invariant
            i <= zombies.len(),
            forall|k: int| 0 <= k < i ==> (#[trigger] zombies@[k]).entity != entity,
        decreases zombies.len() - i,
    {
        if zombies[i].entity == entity {
            proof {
                let c = choose|c: int|
                    0 <= c < zombies@.len() && (#[trigger] zombies@[c]).entity == entity && forall|
                        k: int,
                    |
                        0 <= k < c ==> (#[trigger] zombies@[k]).entity != entity;
                assert(c == i);
            }
            return Some(i);
        }
        i += 1;
    }
    None
}

/// Finds the pose of the entity `entity`.
pub fn placed_index(transforms: &Vec<Placed>, entity: Entity) -> (found: Option<usize>)
    ensures
        match found {
            Some(i) => placed_index_spec(transforms@, entity) == Some(i as int) && i
                < transforms.len() && transforms[i as int].entity == entity,
            None => placed_index_spec(transforms@, entity) == None::<int>,
        },
{
    let mut i: usize = 0;
    while i < transforms.len()
        invariant
            i <= transforms.len(),
            forall|k: int| 0 <= k < i ==> (#[trigger] transforms@[k]).entity != entity,
        decreases transforms.len() - i,
    {
        if transforms[i].entity == entity {
            proof {
                let c = choose|c: int|
                    0 <= c < transforms@.len() && (#[trigger] transforms@[c]).entity == entity
                        && forall|k: int| 0 <= k < c ==> (#[trigger] transforms@[k]).entity != entity;
                assert(c == i);
            }
            return Some(i);
        }
        i += 1;
    }
    None
}

/// Applies one event: the zombie it names takes the target it names. An
/// event that does not resolve here changes nothing and is reported as
/// dropped.
pub fn apply_agro_change(
    change: &ZombieAgroChange,
    identities: &Vec<NetworkIdentity>,
    zombies: &mut Vec<ZombieEntry>,
) -> (applied: bool)
    ensures
        final(zombies)@ == apply_agro_spec(*change, identities@, old(zombies)@),
        applied == resolve_agro_spec(*change, identities@, old(zombies)@).is_some(),
{
    let zombie_entity = match resolve(identities, change.zombie_identity) {
        Some(entity) => entity,
        None => {
            return false;
        },
    };
    let target = match resolve(identities, change.target_identity) {
        Some(entity) => entity,
        None => {
            return false;
        },
    };
    match zombie_index(zombies, zombie_entity) {
        Some(i) => {
            let speed = zombies[i].zombie.speed;
            zombies[i] = ZombieEntry { entity: zombie_entity, zombie: Zombie { speed, target: Some(target) } };
            true
        },
        None => false,
    }
}

/// Applies the events that arrived, each on its own and in order, and tells
/// how many of them were used up, which is all of them. An event that does
/// not resolve is dropped; it does not hold up the events behind it.
pub fn handle_zombie_agro_change(
    changes: &Vec<ZombieAgroChange>,
    identities: &Vec<NetworkIdentity>,
    zombies: &mut Vec<ZombieEntry>,
) -> (consumed: usize)
    ensures
        final(zombies)@ == handle_agro_spec(changes@, identities@, old(zombies)@),
        consumed == changes@.len(),
{
    let mut c: usize = 0;
    while c < changes.len()
        invariant
            c <= changes.len(),
            zombies@ == handle_agro_spec(changes@.take(c as int), identities@, old(zombies)@),
        decreases changes.len() - c,
    {
        proof {
            assert(changes@.take(c as int + 1).drop_last() =~= changes@.take(c as int));
            assert(changes@.take(c as int + 1).last() == changes@[c as int]);
        }
        let change = changes[c];
        apply_agro_change(&change, identities, zombies);
        c += 1;
    }
    proof {
        assert(changes@.take(c as int) =~= changes@);
    }
    c
}

/// The force that drives a zombie at `position` toward `target`.
pub fn movement_force(position: Vec2, target: Vec2, speed: i64, dt: i64) -> (f: Vec2)
    ensures
        f == movement_force_spec(position, target, speed, dt),
{
    target.minus(position).normalized().scaled(mul_div(speed, dt, ONE), ONE)
}

/// Turns a pose so that its forward axis points at `target`.
pub fn look_at_2d(transform: &mut Transform, target: Vec2)
    ensures
        *final(transform) == look_at_spec(*old(transform), target),
{
    let direction = target.minus(transform.translation);
    let heading = if direction.x == 0 && direction.y == 0 {
        Vec2 { x: ONE, y: 0 }
    } else {
        direction.normalized()
    };
    transform.rotation = Rotation::facing(heading);
}

/// The drag on a zombie that moves with `velocity`.
pub fn drag_force(velocity: Vec2, dt: i64) -> (f: Vec2)
    ensures
        f == drag_force_spec(velocity, dt),
{
    velocity.scaled(mul_div(DRAG, dt, ONE), ONE).negated()
}

/// One zombie's move: with a target that can be found, and a pose of its
/// own, the zombie pushes itself toward the target and turns to face it.
pub fn move_zombie(body: ZombieBody, transforms: &mut Vec<Placed>, dt: i64) -> (moved: ZombieBody)
    ensures
        (moved, final(transforms)@) == move_zombie_spec(body, old(transforms)@, dt),
{
    proof {
        reveal(move_zombie_spec);
    }
    let target = match body.zombie.target {
        Some(target) => target,
        None => {
            return body;
        },
    };
    let t = match placed_index(transforms, target) {
        Some(t) => t,
        None => {
            return body;
        },
    };
    let s = match placed_index(transforms, body.entity) {
        Some(s) => s,
        None => {
            return body;
        },
    };
    let target_position = transforms[t].transform.translation;
    let mut own = transforms[s].transform;
    let mut acc = body.force;
    acc.apply_force(movement_force(own.translation, target_position, body.zombie.speed, dt));
    look_at_2d(&mut own, target_position);
    transforms[s] = Placed { entity: transforms[s].entity, transform: own };
    ZombieBody {
        entity: body.entity,
        zombie: body.zombie,
        linear_velocity: body.linear_velocity,
        force: acc,
    }
}

/// The movement tick: every zombie, in order, makes its move.
pub fn zombie_movement(dt: i64, zombies: &mut Vec<ZombieBody>, transforms: &mut Vec<Placed>)
    ensures
        (final(zombies)@, final(transforms)@) == zombie_movement_spec(
            old(zombies)@,
            old(transforms)@,
            dt,
        ),
{
    let mut i: usize = 0;
    proof {
        assert(zombies@.take(0) =~= Seq::<ZombieBody>::empty());
    }
    while i < zombies.len()
        invariant
            i <= zombies.len(),
            zombies@.len() == old(zombies)@.len(),
            zombies@.take(i as int) == zombie_movement_spec(
                old(zombies)@.take(i as int),
                old(transforms)@,
                dt,
            ).0,
            transforms@ == zombie_movement_spec(
                old(zombies)@.take(i as int),
                old(transforms)@,
                dt,
            ).1,
            forall|k: int| i <= k < zombies@.len() ==> zombies@[k] == old(zombies)@[k],
        decreases zombies.len() - i,
    {
        proof {
            assert(old(zombies)@.take(i as int + 1).drop_last() =~= old(zombies)@.take(i as int));
            assert(old(zombies)@.take(i as int + 1).last() == old(zombies)@[i as int]);
        }
        let ghost bodies_before = zombies@;
        let moved = move_zombie(zombies[i], transforms, dt);
        zombies[i] = moved;
        proof {
            assert(zombies@.take(i as int + 1) =~= bodies_before.take(i as int).push(moved));
        }
        i += 1;
    }
    proof {
        assert(zombies@.take(i as int) =~= zombies@);
        assert(old(zombies)@.take(i as int) =~= old(zombies)@);
    }
}

/// The drag tick: every zombie is slowed in proportion to its velocity.
pub fn zombie_drag(dt: i64, zombies: &mut Vec<ZombieBody>)
    ensures
        final(zombies)@ == old(zombies)@.map_values(|body: ZombieBody| dragged_spec(body, dt)),
{
    let mut i: usize = 0;
    while i < zombies.len()
        invariant
            i <= zombies.len(),
            zombies@.len() == old(zombies)@.len(),
            forall|k: int| 0 <= k < i ==> (#[trigger] zombies@[k]) == dragged_spec(old(zombies)@[k], dt),
            forall|k: int| i <= k < zombies@.len() ==> zombies@[k] == old(zombies)@[k],
        decreases zombies.len() - i,
    {
        let body = zombies[i];
        let mut acc = body.force;
        acc.apply_force(drag_force(body.linear_velocity, dt));
        zombies[i] = ZombieBody {
            entity: body.entity,
            zombie: body.zombie,
            linear_velocity: body.linear_velocity,
            force: acc,
        };
        i += 1;
    }
    proof {
        assert(zombies@ =~= old(zombies)@.map_values(|body: ZombieBody| dragged_spec(body, dt)));
    }
}

/// The corpses to instantiate: one at the pose of every dead zombie, asked
/// for by the lobby owner alone.
pub fn handle_zombie_death(is_lobby_owner: bool, dead: &Vec<Transform>) -> (corpses: Vec<Transform>)
    ensures
        is_lobby_owner ==> corpses@ == dead@,
        !is_lobby_owner ==> corpses@.len() == 0,
{
    let mut corpses: Vec<Transform> = Vec::new();
    if !is_lobby_owner {
        return corpses;
    }
    let mut i: usize = 0;
    while i < dead.len()
        invariant
            i <= dead.len(),
            corpses@ == dead@.take(i as int),
        decreases dead.len() - i,
    {
        corpses.push(dead[i]);
        proof {
            assert(corpses@ =~= dead@.take(i as int + 1));
        }
        i += 1;
    }
    proof {
        assert(dead@.take(i as int) =~= dead@);
    }
    corpses
}

} // verus!
