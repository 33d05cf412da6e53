//! The replicated health ledger.
//!
//! Damage is recorded locally in a queue, sent to every peer once per tick as
//! one event per delta, and applied by every peer, the sender included, to
//! its own copy of the health. The sum wraps around, so the order in which
//! the deltas arrive does not matter. An entity whose health is spent is
//! tagged dead, for good, and removed if it asks for that.

use vstd::prelude::*;
use crate::ids::{Entity, NetworkId};

verus! {

/// The tag of an entity whose health was found spent.
#[derive(Clone, Copy, Debug, PartialEq, Eq, Structural)]
pub struct Dead;

/// The health of an entity.
#[derive(Debug)]
pub struct Health {
    /// The current amount. It may be negative.
    pub amount: i32,
    pub max_amount: u32,
    /// Whether the entity leaves the world once it is dead.
    pub destroy_on_death: bool,
    /// The deltas that were inflicted here and not sent yet, each with the
    /// amount that it leads to.
    pub queued_deltas: Vec<(i32, i32)>,
}

/// The replicated event that carries one delta to every peer.
#[derive(Clone, Copy, Debug, PartialEq, Eq, Structural)]
pub struct ChangeHealth {
    pub network_id: NetworkId,
    pub change: i32,
}

/// An entity with health, as the ledger sees it.
#[derive(Debug)]
pub struct HealthEntry {
    pub entity: Entity,
    pub network_id: NetworkId,
    pub health: Health,
    pub dead: Option<Dead>,
}

/// `v` brought into the range of `i32` by whole multiples of 2^32.
#[verifier::opaque]
pub open spec fn wrap_i32(v: int) -> int {
    (v + 0x8000_0000) % 0x1_0000_0000 - 0x8000_0000
}

/// The sum of the deltas.
pub open spec fn sum(deltas: Seq<i32>) -> int
    decreases deltas.len(),
{
    if deltas.len() == 0 {
        0
    } else {
        sum(deltas.drop_last()) + deltas.last()
    }
}

/// The deltas of a queue, without the amounts recorded beside them.
pub open spec fn deltas_of(queue: Seq<(i32, i32)>) -> Seq<i32> {
    queue.map_values(|entry: (i32, i32)| entry.0)
}

/// The amount after the deltas were applied, one after the other.
pub open spec fn apply_all(amount: i32, deltas: Seq<i32>) -> i32
    decreases deltas.len(),
{
    if deltas.len() == 0 {
        amount
    } else {
        wrap_i32(apply_all(amount, deltas.drop_last()) + deltas.last()) as i32
    }
}

/// The events that carry the deltas of a queue for `network_id`.
pub open spec fn events_of(network_id: NetworkId, queue: Seq<(i32, i32)>) -> Seq<ChangeHealth> {
    queue.map_values(|entry: (i32, i32)| ChangeHealth { network_id, change: entry.0 })
}

impl Health {
    /// The amount that results once everything queued has been applied.
    pub open spec fn projected(self) -> int {
        wrap_i32(self.amount + sum(deltas_of(self.queued_deltas@)))
    }

    /// Whether every queued delta is recorded with the running total: the
    /// amount that results once the queue up to and with that delta has
    /// been applied. This holds of a queue that was filled while no event
    /// changed the amount.
    pub open spec fn totals_run(self) -> bool {
        forall|k: int|
            0 <= k < self.queued_deltas@.len() ==> (#[trigger] self.queued_deltas@[k]).1
                == apply_all(self.amount, deltas_of(self.queued_deltas@).take(k + 1))
    }

    /// Full health.
    pub fn new(max: u32, destroy_on_death: bool) -> (health: Health)
        ensures
            health.amount == wrap_i32(max as int),
            max <= i32::MAX ==> health.amount == max,
            health.max_amount == max,
            health.destroy_on_death == destroy_on_death,
            health.queued_deltas@.len() == 0,
            health.totals_run(),
    {
        proof {
            lemma_wrap_range(max as int);
        }
        let amount: i32 = if max > 0x7fff_ffff {
            (max as i64 - 0x1_0000_0000) as i32
        } else {
            max as i32
        };
        Health { amount, max_amount: max, destroy_on_death, queued_deltas: Vec::new() }
    }

    /// Records a delta that was inflicted here, together with the amount it
    /// leads to. The amount itself changes only when the delta comes back as
    /// an event.
    pub fn change(&mut self, delta: i32)
        ensures
            final(self).amount == old(self).amount,
            final(self).max_amount == old(self).max_amount,
            final(self).destroy_on_death == old(self).destroy_on_death,
            final(self).queued_deltas@ == old(self).queued_deltas@.push(
                (delta, wrap_i32(old(self).projected() + delta) as i32),
            ),
            final(self).projected() == wrap_i32(old(self).projected() + delta),
            old(self).totals_run() ==> final(self).totals_run(),
    {
        let total = self.pending_total();
        proof {
            lemma_wrap_step(self.amount + sum(deltas_of(self.queued_deltas@)), total, delta);
        }
        let resulting = total.wrapping_add(delta);
        self.queued_deltas.push((delta, resulting));
        proof {
            lemma_push_keeps_totals(old(self).amount, old(self).queued_deltas@, delta, resulting);
        }
    }

    /// The amount that results once everything queued has been applied.
    fn pending_total(&self) -> (total: i32)
        ensures
            total == self.projected(),
    {
        let mut total: i32 = self.amount;
        let mut k: usize = 0;
        proof {
            lemma_wrap_range(self.amount as int);
        }
        while k < self.queued_deltas.len()
            invariant
                k <= self.queued_deltas.len(),
                total == wrap_i32(self.amount + sum(deltas_of(self.queued_deltas@).take(k as int))),
            decreases self.queued_deltas.len() - k,
        {
            proof {
                let deltas = deltas_of(self.queued_deltas@);
                assert(deltas.take(k as int + 1).drop_last() =~= deltas.take(k as int));
                assert(deltas.take(k as int + 1).last() == self.queued_deltas@[k as int].0);
                lemma_wrap_step(
                    self.amount + sum(deltas.take(k as int)),
                    total,
                    self.queued_deltas@[k as int].0,
                );
            }
            total = total.wrapping_add(self.queued_deltas[k].0);
            k += 1;
        }
        proof {
            let deltas = deltas_of(self.queued_deltas@);
            assert(deltas.take(k as int) =~= deltas);
        }
        total
    }

    /// Records damage: a delta that takes `damage` away.
    pub fn hurt(&mut self, damage: u32)
        ensures
            final(self).amount == old(self).amount,
            final(self).max_amount == old(self).max_amount,
            final(self).destroy_on_death == old(self).destroy_on_death,
            final(self).queued_deltas@ == old(self).queued_deltas@.push(
                (
                    wrap_i32(-(damage as int)) as i32,
                    wrap_i32(old(self).projected() + wrap_i32(-(damage as int))) as i32,
                ),
            ),
            old(self).totals_run() ==> final(self).totals_run(),
    {
        proof {
            lemma_wrap_range(-(damage as int));
        }
        let delta: i32 = if damage > 0x8000_0000 {
            (0x1_0000_0000 - damage as i64) as i32
        } else {
            (-(damage as i64)) as i32
        };
        self.change(delta)
    }

    /// Empties the queue into events for every peer, one per delta and in
    /// the order in which they were inflicted.
    pub fn flush(&mut self, network_id: NetworkId) -> (events: Vec<ChangeHealth>)
        ensures
            events@ == events_of(network_id, old(self).queued_deltas@),
            final(self).queued_deltas@.len() == 0,
            final(self).amount == old(self).amount,
            final(self).max_amount == old(self).max_amount,
            final(self).destroy_on_death == old(self).destroy_on_death,
            final(self).totals_run(),
    {
        let mut queue: Vec<(i32, i32)> = Vec::new();
        std::mem::swap(&mut self.queued_deltas, &mut queue);
        let mut events: Vec<ChangeHealth> = Vec::new();
        let mut k: usize = 0;
        while k < queue.len()
            invariant
                k <= queue.len(),
                events@ == events_of(network_id, queue@.take(k as int)),
            decreases queue.len() - k,
        {
            events.push(ChangeHealth { network_id, change: queue[k].0 });
            proof {
                assert(events@ =~= events_of(network_id, queue@.take(k as int + 1)));
            }
            k += 1;
        }
        proof {
            assert(queue@.take(k as int) =~= queue@);
        }
        events
    }

    /// Applies a delta that an event brought.
    pub fn apply(&mut self, delta: i32)
        ensures
            final(self).amount == wrap_i32(old(self).amount + delta),
            final(self).max_amount == old(self).max_amount,
            final(self).destroy_on_death == old(self).destroy_on_death,
            final(self).queued_deltas == old(self).queued_deltas,
    {
        proof {
            lemma_wrap_range(self.amount as int);
            lemma_wrap_step(self.amount as int, self.amount, delta);
        }
        self.amount = self.amount.wrapping_add(delta);
    }
}

impl HealthEntry {
    /// The entry with another amount and everything else the same.
    pub open spec fn with_amount(self, amount: i32) -> HealthEntry {
        HealthEntry { health: Health { amount, ..self.health }, ..self }
    }

    /// Whether the entry differs from `before` in its queue at most, which
    /// is empty now.
    pub open spec fn is_flushed(self, before: HealthEntry) -> bool {
        &&& self.entity == before.entity
        &&& self.network_id == before.network_id
        &&& self.dead == before.dead
        &&& self.health.amount == before.health.amount
        &&& self.health.max_amount == before.health.max_amount
        &&& self.health.destroy_on_death == before.health.destroy_on_death
        &&& self.health.queued_deltas@.len() == 0
    }

    /// Whether the health is spent.
    pub open spec fn is_spent(self) -> bool {
        self.health.amount <= 0
    }

    /// The entry after the death check: tagged if its health is spent, and
    /// left as it is otherwise. A tag that is there stays.
    pub open spec fn checked(self) -> HealthEntry {
        if self.is_spent() {
            HealthEntry { dead: Some(Dead), ..self }
        } else {
            self
        }
    }

    /// Whether the entity leaves the world: it is dead and asks to be
    /// destroyed then.
    pub open spec fn must_leave(self) -> bool {
        self.dead.is_some() && self.health.destroy_on_death
    }
}

/// The events of all the queues, entry by entry.
pub open spec fn all_events(entries: Seq<HealthEntry>) -> Seq<ChangeHealth>
    decreases entries.len(),
{
    if entries.len() == 0 {
        Seq::empty()
    } else {
        all_events(entries.drop_last()) + events_of(
            entries.last().network_id,
            entries.last().health.queued_deltas@,
        )
    }
}

/// The index of the first entry that carries `id`.
pub open spec fn entry_index_spec(entries: Seq<HealthEntry>, id: NetworkId) -> Option<int> {
    if exists|i: int| 0 <= i < entries.len() && (#[trigger] entries[i]).network_id == id {
        Some(
            choose|i: int|
                0 <= i < entries.len() && (#[trigger] entries[i]).network_id == id && forall|
                    k: int,
                |
                    0 <= k < i ==> (#[trigger] entries[k]).network_id != id,
        )
    } else {
        None
    }
}

/// The index of the first entry with the local handle `entity`.
pub open spec fn entry_of_entity_spec(entries: Seq<HealthEntry>, entity: Entity) -> Option<int> {
    if exists|i: int| 0 <= i < entries.len() && (#[trigger] entries[i]).entity == entity {
        Some(
            choose|i: int|
                0 <= i < entries.len() && (#[trigger] entries[i]).entity == entity && forall|
                    k: int,
                |
                    0 <= k < i ==> (#[trigger] entries[k]).entity != entity,
        )
    } else {
        None
    }
}

/// The ledger after one event: the first entry that carries the event's
/// identifier takes the delta. An event for an identifier that nothing here
/// carries changes nothing.
pub open spec fn apply_change_spec(entries: Seq<HealthEntry>, change: ChangeHealth) -> Seq<
    HealthEntry,
> {
    match entry_index_spec(entries, change.network_id) {
        None => entries,
        Some(i) => entries.update(
            i,
            entries[i].with_amount(wrap_i32(entries[i].health.amount + change.change) as i32),
        ),
    }
}

/// The ledger after the events, one after the other.
pub open spec fn apply_changes_spec(entries: Seq<HealthEntry>, changes: Seq<ChangeHealth>) -> Seq<
    HealthEntry,
>
    decreases changes.len(),
{
    if changes.len() == 0 {
        entries
    } else {
        apply_change_spec(apply_changes_spec(entries, changes.drop_last()), changes.last())
    }
}

/// The entities that the death check tags: those with spent health and no
/// tag yet, in order.
pub open spec fn newly_dead(entries: Seq<HealthEntry>) -> Seq<Entity>
    decreases entries.len(),
{
    if entries.len() == 0 {
        Seq::empty()
    } else {
        let rest = newly_dead(entries.drop_last());
        if entries.last().is_spent() && entries.last().dead.is_none() {
            rest.push(entries.last().entity)
        } else {
            rest
        }
    }
}

/// The entries that stay after the despawn pass, in order.
pub open spec fn survivors(entries: Seq<HealthEntry>) -> Seq<HealthEntry>
    decreases entries.len(),
{
    if entries.len() == 0 {
        Seq::empty()
    } else {
        let rest = survivors(entries.drop_last());
        if entries.last().must_leave() {
            rest
        } else {
            rest.push(entries.last())
        }
    }
}

/// The entities that the despawn pass removes, in order.
pub open spec fn departed(entries: Seq<HealthEntry>) -> Seq<Entity>
    decreases entries.len(),
{
    if entries.len() == 0 {
        Seq::empty()
    } else {
        let rest = departed(entries.drop_last());
        if entries.last().must_leave() {
            rest.push(entries.last().entity)
        } else {
            rest
        }
    }
}

/// Empties every queue into events for all peers. Nothing but the queues
/// changes.
pub fn emit_changes(healths: &mut Vec<HealthEntry>) -> (events: Vec<ChangeHealth>)
    ensures
        events@ == all_events(old(healths)@),
        final(healths)@.len() == old(healths)@.len(),
        forall|i: int|
            0 <= i < old(healths)@.len() ==> (#[trigger] final(healths)@[i]).is_flushed(
                old(healths)@[i],
            ),
{
    let mut events: Vec<ChangeHealth> = Vec::new();
    let mut i: usize = 0;
    while i < healths.len()
        invariant
            i <= healths.len(),
            healths@.len() == old(healths)@.len(),
            events@ == all_events(old(healths)@.take(i as int)),
            forall|k: int| 0 <= k < i ==> (#[trigger] healths@[k]).is_flushed(old(healths)@[k]),
            forall|k: int| i <= k < healths@.len() ==> healths@[k] == old(healths)@[k],
        decreases healths.len() - i,
    {
        proof {
            assert(old(healths)@.take(i as int + 1).drop_last() =~= old(healths)@.take(i as int));
            assert(old(healths)@.take(i as int + 1).last() == old(healths)@[i as int]);
        }
        let id = healths[i].network_id;
        let mut flushed = healths[i].health.flush(id);
        events.append(&mut flushed);
        i += 1;
    }
    proof {
        assert(old(healths)@.take(i as int) =~= old(healths)@);
    }
    events
}

/// Finds the entry that carries `id`: the first, should there be more than
/// one.
pub fn entry_index(healths: &Vec<HealthEntry>, id: NetworkId) -> (found: Option<usize>)
    ensures
        match found {
            Some(i) => entry_index_spec(healths@, id) == Some(i as int) && i < healths.len()
                && healths[i as int].network_id == id,
            None => entry_index_spec(healths@, id) == None::<int>,
        },
{
    let mut i: usize = 0;
    while i < healths.len()
        invariant
            i <= healths.len(),
            forall|k: int| 0 <= k < i ==> (#[trigger] healths@[k]).network_id != id,
        decreases healths.len() - i,
    {
        if healths[i].network_id == id {
            proof {
                let c = choose|c: int|
                    0 <= c < healths@.len() && (#[trigger] healths@[c]).network_id == id && forall|
                        k: int,
                    |
                        0 <= k < c ==> (#[trigger] healths@[k]).network_id != id;
                assert(c == i);
            }
            return Some(i);
        }
        i += 1;
    }
    None
}

/// Applies one event to the entity that carries its identifier.
pub fn apply_change(change: &ChangeHealth, healths: &mut Vec<HealthEntry>)
    ensures
        final(healths)@ == apply_change_spec(old(healths)@, *change),
{
    match entry_index(healths, change.network_id) {
        Some(i) => {
            healths[i].health.apply(change.change);
            proof {
                assert(healths@ =~= old(healths)@.update(
                    i as int,
                    old(healths)@[i as int].with_amount(
                        wrap_i32(old(healths)@[i as int].health.amount + change.change) as i32,
                    ),
                ));
            }
        },
        None => {},
    }
}

/// Applies the events that arrived, in the order of their arrival, each to
/// the entity that carries its identifier.
pub fn apply_changes(changes: &Vec<ChangeHealth>, healths: &mut Vec<HealthEntry>)
    ensures
        final(healths)@ == apply_changes_spec(old(healths)@, changes@),
{
    let mut c: usize = 0;
    while c < changes.len()
        invariant
            c <= changes.len(),
            healths@ == apply_changes_spec(old(healths)@, changes@.take(c as int)),
        decreases changes.len() - c,
    {
        proof {
            assert(changes@.take(c as int + 1).drop_last() =~= changes@.take(c as int));
            assert(changes@.take(c as int + 1).last() == changes@[c as int]);
        }
        apply_change(&changes[c], healths);
        c += 1;
    }
    proof {
        assert(changes@.take(c as int) =~= changes@);
    }
}

/// Records damage to the entity with the local handle `entity`, to be sent
/// with the next flush. Damage to an entity without health is lost.
pub fn inflict(healths: &mut Vec<HealthEntry>, entity: Entity, damage: u32) -> (hit: bool)
    ensures
        final(healths)@.len() == old(healths)@.len(),
        match entry_of_entity_spec(old(healths)@, entity) {
            None => !hit && final(healths)@ == old(healths)@,
            Some(i) => {
                &&& hit
                &&& 0 <= i < old(healths)@.len()
                &&& final(healths)@[i].entity == old(healths)@[i].entity
                &&& final(healths)@[i].network_id == old(healths)@[i].network_id
                &&& final(healths)@[i].dead == old(healths)@[i].dead
                &&& final(healths)@[i].health.amount == old(healths)@[i].health.amount
                &&& final(healths)@[i].health.max_amount == old(healths)@[i].health.max_amount
                &&& final(healths)@[i].health.destroy_on_death
                    == old(healths)@[i].health.destroy_on_death
                &&& final(healths)@[i].health.queued_deltas@
                    == old(healths)@[i].health.queued_deltas@.push(
                    (
                        wrap_i32(-(damage as int)) as i32,
                        wrap_i32(
                            old(healths)@[i].health.projected() + wrap_i32(-(damage as int)),
                        ) as i32,
                    ),
                )
                &&& forall|k: int|
                    0 <= k < old(healths)@.len() && k != i ==> final(healths)@[k] == old(
                        healths,
                    )@[k]
            },
        },
{
    let mut i: usize = 0;
    while i < healths.len()
        invariant
            i <= healths.len(),
            *healths == *old(healths),
            forall|k: int| 0 <= k < i ==> (#[trigger] healths@[k]).entity != entity,
        decreases healths.len() - i,
    {
        if healths[i].entity == entity {
            proof {
                let c = choose|c: int|
                    0 <= c < healths@.len() && (#[trigger] healths@[c]).entity == entity && forall|
                        k: int,
                    |
                        0 <= k < c ==> (#[trigger] healths@[k]).entity != entity;
                assert(c == i);
            }
            healths[i].health.hurt(damage);
            return true;
        }
        i += 1;
    }
    false
}

/// The death check: tags every entity whose health is spent, and reports
/// those that were not tagged before.
pub fn handle_death(healths: &mut Vec<HealthEntry>) -> (fresh: Vec<Entity>)
    ensures
        final(healths)@ == old(healths)@.map_values(|e: HealthEntry| e.checked()),
        fresh@ == newly_dead(old(healths)@),
{
    let mut fresh: Vec<Entity> = Vec::new();
    let mut i: usize = 0;
    while i < healths.len()
        invariant
            i <= healths.len(),
            healths@.len() == old(healths)@.len(),
            fresh@ == newly_dead(old(healths)@.take(i as int)),
            forall|k: int| 0 <= k < i ==> (#[trigger] healths@[k]) == old(healths)@[k].checked(),
            forall|k: int| i <= k < healths@.len() ==> healths@[k] == old(healths)@[k],
        decreases healths.len() - i,
    {
        proof {
            assert(old(healths)@.take(i as int + 1).drop_last() =~= old(healths)@.take(i as int));
            assert(old(healths)@.take(i as int + 1).last() == old(healths)@[i as int]);
        }
        if healths[i].health.amount <= 0 {
            if healths[i].dead.is_none() {
                fresh.push(healths[i].entity);
            }
            healths[i].dead = Some(Dead);
        }
        i += 1;
    }
    proof {
        assert(old(healths)@.take(i as int) =~= old(healths)@);
        assert(healths@ =~= old(healths)@.map_values(|e: HealthEntry| e.checked()));
    }
    fresh
}

/// The despawn pass: removes every dead entity that asks to be destroyed,
/// and reports the removed.
pub fn handle_despawn(healths: &mut Vec<HealthEntry>) -> (removed: Vec<Entity>)
    ensures
        final(healths)@ == survivors(old(healths)@),
        removed@ == departed(old(healths)@),
{
    let mut removed: Vec<Entity> = Vec::new();
    let mut i: usize = 0;
    let ghost mut k: int = 0;
    while i < healths.len()
        invariant
            i <= healths.len(),
            0 <= k <= old(healths)@.len(),
            healths@.len() - i == old(healths)@.len() - k,
            healths@.take(i as int) == survivors(old(healths)@.take(k)),
            healths@.skip(i as int) == old(healths)@.skip(k),
            removed@ == departed(old(healths)@.take(k)),
        decreases healths.len() - i,
    {
        proof {
            assert(old(healths)@.take(k + 1).drop_last() =~= old(healths)@.take(k));
            assert(old(healths)@.take(k + 1).last() == old(healths)@[k]);
            assert(healths@[i as int] == healths@.skip(i as int)[0]);
            assert(old(healths)@[k] == old(healths)@.skip(k)[0]);
        }
        let ghost before = healths@;
        if healths[i].dead.is_some() && healths[i].health.destroy_on_death {
            removed.push(healths[i].entity);
            healths.remove(i);
            proof {
                assert(healths@.take(i as int) =~= before.take(i as int));
                assert(healths@.skip(i as int) =~= before.skip(i as int).skip(1));
                assert(old(healths)@.skip(k + 1) =~= old(healths)@.skip(k).skip(1));
                k = k + 1;
            }
        } else {
            proof {
                assert(healths@.take(i as int + 1) =~= healths@.take(i as int).push(
                    healths@[i as int],
                ));
                assert(healths@.skip(i as int + 1) =~= healths@.skip(i as int).skip(1));
                assert(old(healths)@.skip(k + 1) =~= old(healths)@.skip(k).skip(1));
                k = k + 1;
            }
            i += 1;
        }
    }
    proof {
        assert(healths@.take(i as int) =~= healths@);
        assert(old(healths)@.take(k) =~= old(healths)@);
    }
    removed
}

/// Adding with wrap-around to a wrapped number gives the wrapped sum.
pub proof fn lemma_wrap_step(x: int, wrapped: i32, delta: i32)
    requires
        wrapped == wrap_i32(x),
    ensures
        wrapped.wrapping_add(delta) == wrap_i32(x + delta),
        wrap_i32(wrapped + delta) == wrap_i32(x + delta),
{
    reveal(wrap_i32);
}

/// Wrapping lands in the range of `i32`, leaves what is in that range alone
/// and takes 2^32 off or adds it on where that is enough.
pub proof fn lemma_wrap_range(v: int)
    ensures
        i32::MIN <= wrap_i32(v) <= i32::MAX,
        i32::MIN <= v <= i32::MAX ==> wrap_i32(v) == v,
        i32::MAX < v <= u32::MAX ==> wrap_i32(v) == v - 0x1_0000_0000,
        -0x1_0000_0000 + i32::MIN <= v < i32::MIN ==> wrap_i32(v) == v + 0x1_0000_0000,
{
    reveal(wrap_i32);
}

/// A queue of running totals stays one when a delta is pushed with the total
/// that it leads to.
proof fn lemma_push_keeps_totals(amount: i32, queue: Seq<(i32, i32)>, delta: i32, resulting: i32)
    requires
        resulting == wrap_i32(wrap_i32(amount + sum(deltas_of(queue))) + delta),
    ensures
        deltas_of(queue.push((delta, resulting))) == deltas_of(queue).push(delta),
        sum(deltas_of(queue.push((delta, resulting)))) == sum(deltas_of(queue)) + delta,
        (forall|k: int|
            0 <= k < queue.len() ==> (#[trigger] queue[k]).1 == apply_all(
                amount,
                deltas_of(queue).take(k + 1),
            )) ==> (forall|k: int|
            0 <= k < queue.len() + 1 ==> (#[trigger] queue.push((delta, resulting))[k]).1
                == apply_all(amount, deltas_of(queue.push((delta, resulting))).take(k + 1))),
{
    let before = deltas_of(queue);
    let longer = queue.push((delta, resulting));
    let after = deltas_of(longer);
    assert(after =~= before.push(delta));
    assert(after.drop_last() =~= before);
    lemma_apply_all_is_sum(amount, after);
    lemma_wrap_range(amount + sum(before));
    lemma_wrap_step(amount + sum(before), wrap_i32(amount + sum(before)) as i32, delta);
    if forall|k: int|
        0 <= k < queue.len() ==> (#[trigger] queue[k]).1 == apply_all(amount, before.take(k + 1)) {
        assert forall|k: int| 0 <= k < queue.len() + 1 implies (#[trigger] longer[k]).1
            == apply_all(amount, after.take(k + 1)) by {
            if k < queue.len() {
                assert(after.take(k + 1) =~= before.take(k + 1));
                assert(longer[k] == queue[k]);
            } else {
                assert(after.take(k + 1) =~= after);
            }
        }
    }
}

/// Applying deltas one after the other amounts to adding their sum.
pub proof fn lemma_apply_all_is_sum(amount: i32, deltas: Seq<i32>)
    ensures
        apply_all(amount, deltas) == wrap_i32(amount + sum(deltas)),
    decreases deltas.len(),
{
    if deltas.len() == 0 {
        lemma_wrap_range(amount as int);
    } else {
        let before = deltas.drop_last();
        lemma_apply_all_is_sum(amount, before);
        lemma_wrap_step(amount + sum(before), apply_all(amount, before), deltas.last());
        lemma_wrap_range(amount + sum(deltas));
    }
}

/// A flush leads to the amount that the queue announced: once the events of
/// a queue have come back and were applied, the amount is the projected one,
/// which for a queue of running totals is the total recorded with the last
/// delta.
pub proof fn lemma_flush_reaches_projection(health: Health)
    ensures
        apply_all(health.amount, deltas_of(health.queued_deltas@)) == health.projected(),
        health.totals_run() && health.queued_deltas@.len() > 0 ==> health.queued_deltas@.last().1
            == health.projected(),
{
    let deltas = deltas_of(health.queued_deltas@);
    lemma_apply_all_is_sum(health.amount, deltas);
    if health.totals_run() && health.queued_deltas@.len() > 0 {
        let last = health.queued_deltas@.len() - 1;
        assert(deltas.take(last + 1) =~= deltas);
        assert(health.queued_deltas@[last].1 == apply_all(health.amount, deltas.take(last + 1)));
    }
}

/// Taking one delta out of a sequence takes it out of the sum.
pub proof fn lemma_sum_remove(deltas: Seq<i32>, i: int)
    requires
        0 <= i < deltas.len(),
    ensures
        sum(deltas) == sum(deltas.remove(i)) + deltas[i],
    decreases deltas.len(),
{
    if i == deltas.len() - 1 {
        assert(deltas.remove(i) =~= deltas.drop_last());
    } else {
        lemma_sum_remove(deltas.drop_last(), i);
        assert(deltas.remove(i).drop_last() =~= deltas.drop_last().remove(i));
        assert(deltas.remove(i).last() == deltas.last());
    }
}

/// Two sequences with the same deltas, in whatever order, have the same sum.
pub proof fn lemma_sum_permutation(a: Seq<i32>, b: Seq<i32>)
    requires
        a.to_multiset() == b.to_multiset(),
    ensures
        sum(a) == sum(b),
    decreases a.len(),
{
    a.to_multiset_ensures();
    b.to_multiset_ensures();
    if a.len() == 0 {
        assert(b.len() == 0);
    } else {
        let x = a.last();
        let rest = a.drop_last();
        assert(a =~= rest.push(x));
        rest.to_multiset_ensures();
        assert(a.to_multiset().count(x) > 0);
        assert(b.contains(x));
        let j = choose|j: int| 0 <= j < b.len() && b[j] == x;
        assert(b.remove(j).to_multiset() =~= b.to_multiset().remove(x));
        assert(rest.to_multiset() =~= a.to_multiset().remove(x));
        lemma_sum_permutation(rest, b.remove(j));
        lemma_sum_remove(b, j);
    }
}

/// The ledger is commutative: deltas applied in any order lead to the same
/// amount.
pub proof fn lemma_health_commutative(amount: i32, a: Seq<i32>, b: Seq<i32>)
    requires
        a.to_multiset() == b.to_multiset(),
    ensures
        apply_all(amount, a) == apply_all(amount, b),
{
    lemma_apply_all_is_sum(amount, a);
    lemma_apply_all_is_sum(amount, b);
    lemma_sum_permutation(a, b);
}

/// Damage cannot bring the dead back: events change amounts only, so every
/// tag that was there before they were applied is there afterwards.
pub proof fn lemma_changes_keep_tags(entries: Seq<HealthEntry>, changes: Seq<ChangeHealth>)
    ensures
        apply_changes_spec(entries, changes).len() == entries.len(),
        forall|i: int|
            0 <= i < entries.len() ==> (#[trigger] apply_changes_spec(entries, changes)[i]).dead
                == entries[i].dead,
        forall|i: int|
            0 <= i < entries.len() ==> (#[trigger] apply_changes_spec(
                entries,
                changes,
            )[i]).network_id == entries[i].network_id,
    decreases changes.len(),
{
    if changes.len() > 0 {
        lemma_changes_keep_tags(entries, changes.drop_last());
        let before = apply_changes_spec(entries, changes.drop_last());
        lemma_entry_index_in_bounds(before, changes.last().network_id);
    }
}

/// The index of an entry lies within the ledger and names an entry that
/// carries the identifier, with none before it that does.
pub proof fn lemma_entry_index_in_bounds(entries: Seq<HealthEntry>, id: NetworkId)
    ensures
        match entry_index_spec(entries, id) {
            Some(i) => 0 <= i < entries.len() && entries[i].network_id == id && forall|k: int|
                0 <= k < i ==> (#[trigger] entries[k]).network_id != id,
            None => forall|k: int| 0 <= k < entries.len() ==> (#[trigger] entries[k]).network_id != id,
        },
{
    if exists|i: int| 0 <= i < entries.len() && (#[trigger] entries[i]).network_id == id {
        lemma_first_match_exists(entries, id, entries.len() as int);
    }
}

/// Where some entry among the first `n` carries the identifier, one of them
/// is the first to do so.
proof fn lemma_first_match_exists(entries: Seq<HealthEntry>, id: NetworkId, n: int)
    requires
        0 <= n <= entries.len(),
        exists|i: int| 0 <= i < n && (#[trigger] entries[i]).network_id == id,
    ensures
        exists|i: int|
            0 <= i < n && (#[trigger] entries[i]).network_id == id && forall|k: int|
                0 <= k < i ==> (#[trigger] entries[k]).network_id != id,
    decreases n,
{
    if exists|i: int| 0 <= i < n - 1 && (#[trigger] entries[i]).network_id == id {
        lemma_first_match_exists(entries, id, n - 1);
        let w = choose|i: int|
            0 <= i < n - 1 && (#[trigger] entries[i]).network_id == id && forall|k: int|
                0 <= k < i ==> (#[trigger] entries[k]).network_id != id;
        assert(0 <= w < n && entries[w].network_id == id);
    } else {
        assert(entries[n - 1].network_id == id);
        assert(forall|k: int| 0 <= k < n - 1 ==> (#[trigger] entries[k]).network_id != id);
    }
}

/// The death check is monotonic and idempotent: it never removes a tag, and
/// a second check right after the first changes nothing.
pub proof fn lemma_death_check_settles(entry: HealthEntry)
    ensures
        entry.dead.is_some() ==> entry.checked().dead.is_some(),
        entry.is_spent() ==> entry.checked().dead.is_some(),
        entry.checked().checked() == entry.checked(),
{
}

/// Once an entity is tagged dead it stays tagged whatever deltas arrive and
/// however often the death check runs afterwards, while its amount goes on
/// changing with the deltas.
pub proof fn lemma_dead_stays_dead(entries: Seq<HealthEntry>, changes: Seq<ChangeHealth>, i: int)
    requires
        0 <= i < entries.len(),
        entries[i].dead.is_some(),
    ensures
        apply_changes_spec(entries, changes).len() == entries.len(),
        apply_changes_spec(entries, changes)[i].dead.is_some(),
        apply_changes_spec(entries, changes)[i].checked().dead.is_some(),
{
    lemma_changes_keep_tags(entries, changes);
}

} // verus!
