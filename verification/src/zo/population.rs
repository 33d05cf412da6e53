//! Host-side population control.
//!
//! On every population tick the lobby owner keeps the number of zombies
//! around each player below a cap: a player with room gets one spawn
//! candidate in a ring around it, along the heading drawn for it, and
//! zombies that no player has in range are removed. Peers that do not own
//! the lobby decide nothing.

use vstd::prelude::*;
use crate::entity_set::{
    entity_set_contains, entity_set_contents, entity_set_insert, entity_set_new, EntitySet,
};
use crate::fixed::ONE;
use crate::ids::Entity;
use crate::rng::{
    is_donut_sample, is_heading, is_heading_spec, lemma_donut_sample_in_ring, random_float,
    random_point_in_donut, ring_margin_spec,
};
use crate::vec2::Vec2;

verus! {

/// The most zombies kept in range of one player.
pub const MAX_ZOMBIES: usize = 20;

/// The inner radius of the spawn ring.
pub const MIN_RANGE: i64 = 400_000_000;

/// The width of the spawn ring.
pub const VARIATION: i64 = 300_000_000;

/// The radius of the probe that tests a spawn candidate for overlap: the
/// probe is as large as a zombie.
pub const ZOMBIE_SIZE: i64 = 4_000_000;

/// A full turn, in degrees.
pub const FULL_TURN: i64 = 360_000_000;

/// The limits of a population tick.
#[derive(Clone, Copy, Debug, PartialEq, Eq, Structural)]
pub struct PopulationConfig {
    pub max_zombies: usize,
    pub min_range: i64,
    pub variation: i64,
}

/// A player as the population tick sees it.
#[derive(Clone, Copy, Debug, PartialEq, Eq, Structural)]
pub struct PlayerView {
    pub position: Vec2,
    /// The direction of this tick's spawn candidate: the cosine and the sine
    /// of a uniformly drawn angle, scaled by `ONE`. A player whose heading
    /// is no unit vector gets no candidate.
    pub spawn_heading: Vec2,
}

/// A zombie as the population tick sees it.
#[derive(Clone, Copy, Debug, PartialEq, Eq, Structural)]
pub struct ZombieView {
    pub entity: Entity,
    pub position: Vec2,
}

/// A point at which a zombie may be spawned for a player.
#[derive(Clone, Copy, Debug, PartialEq, Eq, Structural)]
pub struct SpawnCandidate {
    /// The index of the player it was sampled for.
    pub player: usize,
    pub point: Vec2,
}

/// A request to instantiate a zombie.
#[derive(Clone, Copy, Debug, PartialEq, Eq, Structural)]
pub struct SpawnRequest {
    pub point: Vec2,
    /// The facing, in degrees.
    pub facing: i64,
}

/// What the population tick decided.
pub struct PopulationPlan {
    /// One candidate for every player with room, in player order.
    pub candidates: Vec<SpawnCandidate>,
    /// The zombies to remove, in the order of the zombie list.
    pub despawn: Vec<Entity>,
}

impl PopulationConfig {
    /// The ring is wider than the margin at its inner edge and its outer
    /// radius is representable.
    pub open spec fn wf(self) -> bool {
        0 <= self.min_range && self.min_range + ring_margin_spec(self.range()) < self.range()
            <= i64::MAX
    }

    /// The outer radius of the spawn ring, which is also the range within
    /// which a zombie counts for a player.
    pub open spec fn range(self) -> int {
        self.min_range + self.variation
    }

    /// The limits the game runs with.
    pub fn standard() -> (config: PopulationConfig)
        ensures
            config == (PopulationConfig {
                max_zombies: MAX_ZOMBIES,
                min_range: MIN_RANGE,
                variation: VARIATION,
            }),
            config.wf(),
    {
        PopulationConfig { max_zombies: MAX_ZOMBIES, min_range: MIN_RANGE, variation: VARIATION }
    }
}

/// Whether a zombie at `zombie` is strictly closer than `range` to `player`.
pub open spec fn in_range(zombie: Vec2, player: Vec2, range: int) -> bool {
    zombie.distance_squared_spec(player) < range * range
}

/// The number of zombies in range of `player`.
pub open spec fn count_in_range(zombies: Seq<ZombieView>, player: Vec2, range: int) -> nat
    decreases zombies.len(),
{
    if zombies.len() == 0 {
        0
    } else {
        let rest = count_in_range(zombies.drop_last(), player, range);
        if in_range(zombies.last().position, player, range) {
            rest + 1
        } else {
            rest
        }
    }
}

/// Whether one of the first `n` zombies carries the handle `e` and is in
/// range of `player`.
pub open spec fn seen_by(zombies: Seq<ZombieView>, n: int, player: Vec2, range: int, e: Entity) -> bool {
    exists|j: int|
        0 <= j < n && (#[trigger] zombies[j]).entity == e && in_range(
            zombies[j].position,
            player,
            range,
        )
}

/// Whether one of the first `m` players has a zombie with the handle `e` in
/// range.
pub open spec fn seen_by_any(
    players: Seq<PlayerView>,
    m: int,
    zombies: Seq<ZombieView>,
    range: int,
    e: Entity,
) -> bool {
    exists|i: int|
        0 <= i < m && seen_by(
            zombies,
            zombies.len() as int,
            (#[trigger] players[i]).position,
            range,
            e,
        )
}

/// The handles of the zombies that are in range of at least one player.
pub open spec fn seen_set(players: Seq<PlayerView>, zombies: Seq<ZombieView>, range: int) -> Set<
    Entity,
> {
    Set::new(|e: Entity| seen_by_any(players, players.len() as int, zombies, range, e))
}

/// The handles of the zombies that `seen` does not hold, in list order.
pub open spec fn unseen(zombies: Seq<ZombieView>, seen: Set<Entity>) -> Seq<Entity>
    decreases zombies.len(),
{
    if zombies.len() == 0 {
        Seq::empty()
    } else {
        let rest = unseen(zombies.drop_last(), seen);
        if seen.contains(zombies.last().entity) {
            rest
        } else {
            rest.push(zombies.last().entity)
        }
    }
}

/// Whether a player has room for one more zombie: fewer than `max` are in
/// range.
pub open spec fn has_room(player: PlayerView, zombies: Seq<ZombieView>, range: int, max: int) -> bool {
    count_in_range(zombies, player.position, range) < max
}

/// The indices of the players that get a spawn candidate, in player order:
/// those with room and with a unit heading to place the candidate along.
pub open spec fn players_with_room(
    players: Seq<PlayerView>,
    zombies: Seq<ZombieView>,
    range: int,
    max: int,
) -> Seq<int>
    decreases players.len(),
{
    if players.len() == 0 {
        Seq::empty()
    } else {
        let rest = players_with_room(players.drop_last(), zombies, range, max);
        if has_room(players.last(), zombies, range, max) && is_heading_spec(
            players.last().spawn_heading,
        ) {
            rest.push(players.len() - 1)
        } else {
            rest
        }
    }
}

/// Whether `candidate` is a sample of the spawn ring around its player: it
/// lies off the player by a ring sample along the player's heading, which is
/// no closer than `min_range` and closer than the outer radius.
pub open spec fn is_ring_sample(
    players: Seq<PlayerView>,
    config: PopulationConfig,
    candidate: SpawnCandidate,
) -> bool {
    &&& candidate.player < players.len()
    &&& exists|offset: Vec2|
        is_donut_sample(
            players[candidate.player as int].spawn_heading,
            config.min_range as int,
            config.range(),
            offset,
        ) && config.min_range * config.min_range <= offset.length_squared_spec()
            < config.range() * config.range() && candidate.point
            == #[trigger] players[candidate.player as int].position.plus_spec(offset)
}

/// Counts the zombies in range of `player` and records their handles in
/// `seen`.
fn note_in_range(zombies: &Vec<ZombieView>, player: Vec2, range: u64, seen: &mut EntitySet) -> (count:
    usize)
    ensures
        count == count_in_range(zombies@, player, range as int),
        forall|e: Entity|
            entity_set_contents(*final(seen)).contains(e) <==> (entity_set_contents(
                *old(seen),
            ).contains(e) || seen_by(zombies@, zombies.len() as int, player, range as int, e)),
{
    let mut count: usize = 0;
    let mut j: usize = 0;
    while j < zombies.len()
        invariant
            j <= zombies.len(),
            count <= j,
            count == count_in_range(zombies@.take(j as int), player, range as int),
            forall|e: Entity|
                entity_set_contents(*seen).contains(e) <==> (entity_set_contents(
                    *old(seen),
                ).contains(e) || seen_by(zombies@, j as int, player, range as int, e)),
        decreases zombies.len() - j,
    {
        let zombie = zombies[j];
        proof {
            assert(zombies@.take(j as int + 1).drop_last() =~= zombies@.take(j as int));
            assert(zombies@.take(j as int + 1).last() == zombies@[j as int]);
        }
        let ghost before = entity_set_contents(*seen);
        if zombie.position.within(player, range) {
            count += 1;
            entity_set_insert(seen, zombie.entity);
        }
        proof {
            let after = entity_set_contents(*seen);
            assert forall|e: Entity|
                after.contains(e) <==> (entity_set_contents(*old(seen)).contains(e) || seen_by(
                    zombies@,
                    j as int + 1,
                    player,
                    range as int,
                    e,
                )) by {
                if seen_by(zombies@, j as int + 1, player, range as int, e) {
                    let w = choose|w: int|
                        0 <= w < j as int + 1 && (#[trigger] zombies@[w]).entity == e && in_range(
                            zombies@[w].position,
                            player,
                            range as int,
                        );
                    if w < j {
                        assert(seen_by(zombies@, j as int, player, range as int, e));
                    }
                }
                if seen_by(zombies@, j as int, player, range as int, e) {
                    let w = choose|w: int|
                        0 <= w < j as int && (#[trigger] zombies@[w]).entity == e && in_range(
                            zombies@[w].position,
                            player,
                            range as int,
                        );
                    assert(seen_by(zombies@, j as int + 1, player, range as int, e));
                }
                if after.contains(e) && !before.contains(e) {
                    assert(zombies@[j as int].entity == e);
                    assert(seen_by(zombies@, j as int + 1, player, range as int, e));
                }
            }
        }
        j += 1;
    }
    proof {
        assert(zombies@.take(j as int) =~= zombies@);
    }
    count
}

/// The handles of the zombies that `seen` does not hold.
fn collect_unseen(zombies: &Vec<ZombieView>, seen: &EntitySet) -> (out: Vec<Entity>)
    ensures
        out@ == unseen(zombies@, entity_set_contents(*seen)),
{
    let mut out: Vec<Entity> = Vec::new();
    let mut j: usize = 0;
    while j < zombies.len()
        invariant
            j <= zombies.len(),
            out@ == unseen(zombies@.take(j as int), entity_set_contents(*seen)),
        decreases zombies.len() - j,
    {
        proof {
            assert(zombies@.take(j as int + 1).drop_last() =~= zombies@.take(j as int));
            assert(zombies@.take(j as int + 1).last() == zombies@[j as int]);
        }
        if !entity_set_contains(seen, zombies[j].entity) {
            out.push(zombies[j].entity);
        }
        j += 1;
    }
    proof {
        assert(zombies@.take(j as int) =~= zombies@);
    }
    out
}

/// One population tick. Only the lobby owner decides anything. For every
/// player with fewer than `max_zombies` zombies in range, and with a unit
/// heading, one spawn candidate is sampled in the ring around the player;
/// every zombie that no player has in range is listed for removal.
pub fn handle_spawning_and_despawning(
    is_lobby_owner: bool,
    players: &Vec<PlayerView>,
    zombies: &Vec<ZombieView>,
    config: &PopulationConfig,
) -> (plan: PopulationPlan)
    requires
        config.wf(),
    ensures
        !is_lobby_owner ==> plan.candidates@.len() == 0 && plan.despawn@.len() == 0,
        is_lobby_owner ==> plan.despawn@ == unseen(
            zombies@,
            seen_set(players@, zombies@, config.range()),
        ),
        is_lobby_owner ==> plan.candidates@.map_values(|c: SpawnCandidate| c.player as int)
            == players_with_room(players@, zombies@, config.range(), config.max_zombies as int),
        forall|k: int|
            0 <= k < plan.candidates@.len() ==> is_ring_sample(
                players@,
                *config,
                #[trigger] plan.candidates@[k],
            ),
{
    let mut candidates: Vec<SpawnCandidate> = Vec::new();
    if !is_lobby_owner {
        return PopulationPlan { candidates, despawn: Vec::new() };
    }
    let range: u64 = (config.min_range + config.variation) as u64;
    let mut seen = entity_set_new();
    let mut i: usize = 0;
    while i < players.len()
        invariant
            i <= players.len(),
            config.wf(),
            range == config.range(),
            forall|e: Entity|
                entity_set_contents(seen).contains(e) <==> seen_by_any(
                    players@,
                    i as int,
                    zombies@,
                    range as int,
                    e,
                ),
            candidates@.map_values(|c: SpawnCandidate| c.player as int) == players_with_room(
                players@.take(i as int),
                zombies@,
                range as int,
                config.max_zombies as int,
            ),
            forall|k: int|
                0 <= k < candidates@.len() ==> is_ring_sample(
                    players@,
                    *config,
                    #[trigger] candidates@[k],
                ),
        decreases players.len() - i,
    {
        let player = players[i];
        let ghost before = entity_set_contents(seen);
        let count = note_in_range(zombies, player.position, range, &mut seen);
        proof {
            assert(players@.take(i as int + 1).drop_last() =~= players@.take(i as int));
            assert(players@.take(i as int + 1).last() == players@[i as int]);
            let after = entity_set_contents(seen);
            assert forall|e: Entity|
                after.contains(e) <==> seen_by_any(
                    players@,
                    i as int + 1,
                    zombies@,
                    range as int,
                    e,
                ) by {
                let here = seen_by(
                    zombies@,
                    zombies.len() as int,
                    players@[i as int].position,
                    range as int,
                    e,
                );
                if seen_by_any(players@, i as int + 1, zombies@, range as int, e) {
                    let w = choose|w: int|
                        0 <= w < i as int + 1 && seen_by(
                            zombies@,
                            zombies@.len() as int,
                            (#[trigger] players@[w]).position,
                            range as int,
                            e,
                        );
                    if w < i {
                        assert(seen_by_any(players@, i as int, zombies@, range as int, e));
                    }
                }
                if seen_by_any(players@, i as int, zombies@, range as int, e) {
                    let w = choose|w: int|
                        0 <= w < i as int && seen_by(
                            zombies@,
                            zombies@.len() as int,
                            (#[trigger] players@[w]).position,
                            range as int,
                            e,
                        );
                    assert(seen_by_any(players@, i as int + 1, zombies@, range as int, e));
                }
                if here {
                    assert(seen_by_any(players@, i as int + 1, zombies@, range as int, e));
                }
            }
        }
        if count < config.max_zombies && is_heading(player.spawn_heading) {
            let offset = random_point_in_donut(
                config.min_range,
                config.min_range + config.variation,
                player.spawn_heading,
            );
            let candidate = SpawnCandidate { player: i, point: player.position.plus(offset) };
            let ghost old_candidates = candidates@;
            candidates.push(candidate);
            proof {
                lemma_donut_sample_in_ring(
                    player.spawn_heading,
                    config.min_range as int,
                    config.range(),
                    offset,
                );
                assert(candidate.point == players@[i as int].position.plus_spec(offset));
                assert(is_ring_sample(players@, *config, candidate));
                assert(candidates@.map_values(|c: SpawnCandidate| c.player as int)
                    =~= old_candidates.map_values(|c: SpawnCandidate| c.player as int).push(
                    i as int,
                ));
            }
        }
        i += 1;
    }
    proof {
        assert(players@.take(i as int) =~= players@);
        assert(entity_set_contents(seen) =~= seen_set(players@, zombies@, range as int));
    }
    let despawn = collect_unseen(zombies, &seen);
    PopulationPlan { candidates, despawn }
}

/// The candidates at which nothing was in the way, in order.
pub open spec fn accepted_points(candidates: Seq<SpawnCandidate>, blocked: Seq<bool>) -> Seq<Vec2>
    decreases candidates.len(),
{
    if candidates.len() == 0 {
        Seq::empty()
    } else {
        let rest = accepted_points(candidates.drop_last(), blocked);
        let k = candidates.len() - 1;
        if k < blocked.len() && !blocked[k] {
            rest.push(candidates.last().point)
        } else {
            rest
        }
    }
}

/// Turns the candidates of a population tick into spawn requests, given the
/// answer of the occupancy probe for each: `blocked[k]` tells whether the
/// probe at candidate `k` met an existing collider. A blocked candidate, or
/// one without an answer, is dropped; each of the others is requested with a
/// random facing.
pub fn confirm_spawns(candidates: &Vec<SpawnCandidate>, blocked: &Vec<bool>) -> (requests: Vec<
    SpawnRequest,
>)
    ensures
        requests@.map_values(|r: SpawnRequest| r.point) == accepted_points(
            candidates@,
            blocked@,
        ),
        forall|n: int|
            0 <= n < requests@.len() ==> 0 <= (#[trigger] requests@[n]).facing < FULL_TURN,
        forall|n: int|
            0 <= n < requests@.len() ==> exists|k: int|
                0 <= k < candidates@.len() && k < blocked@.len() && !blocked@[k]
                    && (#[trigger] candidates@[k]).point == (#[trigger] requests@[n]).point,
{
    let mut requests: Vec<SpawnRequest> = Vec::new();
    let mut k: usize = 0;
    while k < candidates.len()
        invariant
            k <= candidates.len(),
            requests@.map_values(|r: SpawnRequest| r.point) == accepted_points(
                candidates@.take(k as int),
                blocked@,
            ),
            forall|n: int|
                0 <= n < requests@.len() ==> 0 <= (#[trigger] requests@[n]).facing < FULL_TURN,
            forall|n: int|
                0 <= n < requests@.len() ==> exists|c: int|
                    0 <= c < k && c < blocked@.len() && !blocked@[c]
                        && (#[trigger] candidates@[c]).point == (#[trigger] requests@[n]).point,
        decreases candidates.len() - k,
    {
        proof {
            assert(candidates@.take(k as int + 1).drop_last() =~= candidates@.take(k as int));
            assert(candidates@.take(k as int + 1).last() == candidates@[k as int]);
        }
        if k < blocked.len() && !blocked[k] {
            let request = SpawnRequest { point: candidates[k].point, facing: random_float(0, FULL_TURN) };
            let ghost old_requests = requests@;
            requests.push(request);
            proof {
                assert(requests@.map_values(|r: SpawnRequest| r.point) =~= old_requests.map_values(
                    |r: SpawnRequest| r.point,
                ).push(request.point));
                assert forall|n: int| 0 <= n < requests@.len() implies exists|c: int|
                    0 <= c < k + 1 && c < blocked@.len() && !blocked@[c]
                        && (#[trigger] candidates@[c]).point == (#[trigger] requests@[n]).point by {
                    if n < old_requests.len() {
                        assert(requests@[n] == old_requests[n]);
                        let c = choose|c: int|
                            0 <= c < k && c < blocked@.len() && !blocked@[c]
                                && (#[trigger] candidates@[c]).point == old_requests[n].point;
                        assert(candidates@[c].point == requests@[n].point);
                    } else {
                        assert(candidates@[k as int].point == requests@[n].point);
                    }
                }
            }
        }
        k += 1;
    }
    proof {
        assert(candidates@.take(k as int) =~= candidates@);
    }
    requests
}

/// The zombies that a population tick leaves in the world: those whose
/// handle is in `seen`.
pub open spec fn kept(zombies: Seq<ZombieView>, seen: Set<Entity>) -> Seq<ZombieView>
    decreases zombies.len(),
{
    if zombies.len() == 0 {
        Seq::empty()
    } else {
        let rest = kept(zombies.drop_last(), seen);
        if seen.contains(zombies.last().entity) {
            rest.push(zombies.last())
        } else {
            rest
        }
    }
}

/// The number of points in range of `player`.
pub open spec fn count_points_in_range(points: Seq<Vec2>, player: Vec2, range: int) -> nat
    decreases points.len(),
{
    if points.len() == 0 {
        0
    } else {
        let rest = count_points_in_range(points.drop_last(), player, range);
        if in_range(points.last(), player, range) {
            rest + 1
        } else {
            rest
        }
    }
}

/// The number of zombies in range of player `i` right after a population
/// tick: the zombies that were kept, and a new one at every candidate that
/// was accepted.
pub open spec fn count_after_tick(
    players: Seq<PlayerView>,
    zombies: Seq<ZombieView>,
    config: PopulationConfig,
    candidates: Seq<SpawnCandidate>,
    blocked: Seq<bool>,
    i: int,
) -> nat {
    count_in_range(
        kept(zombies, seen_set(players, zombies, config.range())),
        players[i].position,
        config.range(),
    ) + count_points_in_range(
        accepted_points(candidates, blocked),
        players[i].position,
        config.range(),
    )
}

/// The number of accepted candidates that lie in range of `player` and were
/// sampled for player `i`, if `own` is set, or for another player, if not.
pub open spec fn accepted_in_range(
    candidates: Seq<SpawnCandidate>,
    blocked: Seq<bool>,
    player: Vec2,
    range: int,
    i: int,
    own: bool,
) -> nat
    decreases candidates.len(),
{
    if candidates.len() == 0 {
        0
    } else {
        let rest = accepted_in_range(candidates.drop_last(), blocked, player, range, i, own);
        let k = candidates.len() - 1;
        if k < blocked.len() && !blocked[k] && in_range(candidates.last().point, player, range)
            && (candidates.last().player == i) == own {
            rest + 1
        } else {
            rest
        }
    }
}

/// A population tick removes no zombie that a player has in range: as long
/// as `seen` holds the handle of every zombie in range of `player`, as many
/// zombies are in range of it after the removal as before.
pub proof fn lemma_kept_in_range(zombies: Seq<ZombieView>, seen: Set<Entity>, player: Vec2, range: int)
    requires
        forall|j: int|
            0 <= j < zombies.len() && in_range((#[trigger] zombies[j]).position, player, range)
                ==> seen.contains(zombies[j].entity),
    ensures
        count_in_range(kept(zombies, seen), player, range) == count_in_range(
            zombies,
            player,
            range,
        ),
    decreases zombies.len(),
{
    if zombies.len() > 0 {
        let rest = zombies.drop_last();
        assert forall|j: int|
            0 <= j < rest.len() && in_range((#[trigger] rest[j]).position, player, range) implies seen.contains(
            rest[j].entity,
        ) by {
            assert(rest[j] == zombies[j]);
        }
        lemma_kept_in_range(rest, seen, player, range);
        let last = zombies.last();
        assert(last == zombies[zombies.len() - 1]);
        if seen.contains(last.entity) {
            assert(kept(zombies, seen).drop_last() =~= kept(rest, seen));
            assert(kept(zombies, seen).last() == last);
        }
    }
}

/// The players with room are listed by rising index, and each of them has
/// fewer than `max` zombies in range.
pub proof fn lemma_players_with_room(
    players: Seq<PlayerView>,
    zombies: Seq<ZombieView>,
    range: int,
    max: int,
)
    ensures
        forall|a: int|
            0 <= a < players_with_room(players, zombies, range, max).len() ==> {
                let p = #[trigger] players_with_room(players, zombies, range, max)[a];
                0 <= p < players.len() && count_in_range(zombies, players[p].position, range) < max
            },
        forall|a: int, b: int|
            0 <= a < b < players_with_room(players, zombies, range, max).len()
                ==> #[trigger] players_with_room(players, zombies, range, max)[a]
                < #[trigger] players_with_room(players, zombies, range, max)[b],
    decreases players.len(),
{
    if players.len() > 0 {
        let rest = players.drop_last();
        lemma_players_with_room(rest, zombies, range, max);
        let before = players_with_room(rest, zombies, range, max);
        let all = players_with_room(players, zombies, range, max);
        assert forall|a: int| 0 <= a < all.len() implies {
            let p = #[trigger] all[a];
            0 <= p < players.len() && count_in_range(zombies, players[p].position, range) < max
        } by {
            if a < before.len() {
                assert(all[a] == before[a]);
                assert(rest[before[a]] == players[before[a]]);
            }
        }
        assert forall|a: int, b: int| 0 <= a < b < all.len() implies #[trigger] all[a]
            < #[trigger] all[b] by {
            assert(all[a] == before[a]);
            if b < before.len() {
                assert(all[b] == before[b]);
            }
        }
    }
}

/// The new zombies in range of a player are those at the accepted candidates
/// in range that were sampled for it and those that were sampled for the
/// other players.
proof fn lemma_new_in_range_split(
    candidates: Seq<SpawnCandidate>,
    blocked: Seq<bool>,
    player: Vec2,
    range: int,
    i: int,
)
    ensures
        count_points_in_range(accepted_points(candidates, blocked), player, range)
            == accepted_in_range(candidates, blocked, player, range, i, true) + accepted_in_range(
            candidates,
            blocked,
            player,
            range,
            i,
            false,
        ),
    decreases candidates.len(),
{
    if candidates.len() > 0 {
        let shorter = candidates.drop_last();
        lemma_new_in_range_split(shorter, blocked, player, range, i);
        let k = candidates.len() - 1;
        if k < blocked.len() && !blocked[k] {
            let points = accepted_points(candidates, blocked);
            assert(points.drop_last() =~= accepted_points(shorter, blocked));
            assert(points.last() == candidates.last().point);
        }
    }
}

/// Of the candidates that lie in range of player `i` at most one was sampled
/// for that player, and none unless the player is among those the
/// candidates were sampled for.
proof fn lemma_own_in_range(
    candidates: Seq<SpawnCandidate>,
    blocked: Seq<bool>,
    player: Vec2,
    range: int,
    i: int,
    n: int,
)
    requires
        0 <= n <= candidates.len(),
        forall|a: int, b: int|
            0 <= a < b < candidates.len() ==> (#[trigger] candidates[a]).player
                < (#[trigger] candidates[b]).player,
    ensures
        accepted_in_range(candidates.take(n), blocked, player, range, i, true) <= 1,
        (forall|k: int| 0 <= k < n ==> (#[trigger] candidates[k]).player != i)
            ==> accepted_in_range(candidates.take(n), blocked, player, range, i, true) == 0,
    decreases n,
{
    if n > 0 {
        lemma_own_in_range(candidates, blocked, player, range, i, n - 1);
        let shorter = candidates.take(n - 1);
        let longer = candidates.take(n);
        assert(longer.drop_last() =~= shorter);
        assert(longer.last() == candidates[n - 1]);
        if candidates[n - 1].player == i {
            assert forall|j: int| 0 <= j < n - 1 implies (#[trigger] candidates[j]).player
                != i by {
                assert(candidates[j].player < candidates[n - 1].player);
            }
        }
    }
}

/// The population right after a tick, exactly. In range of player `i` are
/// then the zombies that were in range before, of which the tick removes
/// none, and the new zombies at the accepted candidates in range. Of these
/// new zombies at most one was sampled for the player itself, and that only
/// if the player had room; the others were sampled for other players. So a
/// player that was within the cap exceeds it afterwards by no more than the
/// number of candidates accepted in its range for other players.
pub proof fn lemma_population_after_tick(
    players: Seq<PlayerView>,
    zombies: Seq<ZombieView>,
    config: PopulationConfig,
    candidates: Seq<SpawnCandidate>,
    blocked: Seq<bool>,
    i: int,
)
    requires
        0 <= i < players.len(),
        candidates.map_values(|c: SpawnCandidate| c.player as int) == players_with_room(
            players,
            zombies,
            config.range(),
            config.max_zombies as int,
        ),
    ensures
        count_after_tick(players, zombies, config, candidates, blocked, i) == count_in_range(
            zombies,
            players[i].position,
            config.range(),
        ) + accepted_in_range(candidates, blocked, players[i].position, config.range(), i, true)
            + accepted_in_range(
            candidates,
            blocked,
            players[i].position,
            config.range(),
            i,
            false,
        ),
        accepted_in_range(candidates, blocked, players[i].position, config.range(), i, true) <= 1,
        accepted_in_range(candidates, blocked, players[i].position, config.range(), i, true) == 1
            ==> has_room(players[i], zombies, config.range(), config.max_zombies as int),
        count_in_range(zombies, players[i].position, config.range()) <= config.max_zombies
            ==> count_after_tick(players, zombies, config, candidates, blocked, i)
            <= config.max_zombies + accepted_in_range(
            candidates,
            blocked,
            players[i].position,
            config.range(),
            i,
            false,
        ),
{
    let range = config.range();
    let max = config.max_zombies as int;
    let player = players[i].position;
    let seen = seen_set(players, zombies, range);
    let room = players_with_room(players, zombies, range, max);
    let indices = candidates.map_values(|c: SpawnCandidate| c.player as int);
    assert forall|j: int|
        0 <= j < zombies.len() && in_range(
            (#[trigger] zombies[j]).position,
            player,
            range,
        ) implies seen.contains(zombies[j].entity) by {
        assert(seen_by(zombies, zombies.len() as int, players[i].position, range, zombies[j].entity));
        assert(seen_by_any(players, players.len() as int, zombies, range, zombies[j].entity));
    }
    lemma_kept_in_range(zombies, seen, player, range);
    lemma_players_with_room(players, zombies, range, max);
    assert(indices.len() == candidates.len());
    assert forall|a: int, b: int| 0 <= a < b < candidates.len() implies (#[trigger] candidates[a]).player
        < (#[trigger] candidates[b]).player by {
        assert(indices[a] == candidates[a].player);
        assert(indices[b] == candidates[b].player);
        assert(room[a] < room[b]);
    }
    lemma_new_in_range_split(candidates, blocked, player, range, i);
    lemma_own_in_range(candidates, blocked, player, range, i, candidates.len() as int);
    assert(candidates.take(candidates.len() as int) =~= candidates);
    if exists|k: int| 0 <= k < candidates.len() && (#[trigger] candidates[k]).player == i {
        let k = choose|k: int| 0 <= k < candidates.len() && (#[trigger] candidates[k]).player == i;
        assert(indices[k] == i);
        assert(room[k] == i);
        assert(has_room(players[i], zombies, range, max));
    }
}

/// The population cap. A player with at most `max_zombies` zombies in range
/// before a population tick has at most `max_zombies` in range right after
/// it, provided that no candidate accepted for another player lies in its
/// range.
pub proof fn lemma_population_cap(
    players: Seq<PlayerView>,
    zombies: Seq<ZombieView>,
    config: PopulationConfig,
    candidates: Seq<SpawnCandidate>,
    blocked: Seq<bool>,
    i: int,
)
    requires
        0 <= i < players.len(),
        candidates.map_values(|c: SpawnCandidate| c.player as int) == players_with_room(
            players,
            zombies,
            config.range(),
            config.max_zombies as int,
        ),
        count_in_range(zombies, players[i].position, config.range()) <= config.max_zombies,
        accepted_in_range(candidates, blocked, players[i].position, config.range(), i, false) == 0,
    ensures
        count_after_tick(players, zombies, config, candidates, blocked, i) <= config.max_zombies,
{
    lemma_population_after_tick(players, zombies, config, candidates, blocked, i);
}

} // verus!
