//! A set of entity handles.

use vstd::prelude::*;
use crate::ids::Entity;

verus! {

/// A hash set of entity handles: `bevy::utils::HashSet`, which is hashbrown's
/// `HashSet` under the engine's name. Nothing is known of it but what the
/// functions below state.
#[verifier::external_body]
pub struct EntitySet {
    inner: bevy::utils::HashSet<Entity>,
}

/// The handles that the set holds.
pub uninterp spec fn entity_set_contents(set: EntitySet) -> Set<Entity>;

/// Makes a set with hashbrown's `HashSet::new`, which holds nothing.
#[verifier::external_body]
pub(crate) fn entity_set_new() -> (set: EntitySet)
    ensures
        entity_set_contents(set) == Set::<Entity>::empty(),
{
    EntitySet { inner: bevy::utils::HashSet::new() }
}

/// Adds a handle with hashbrown's `HashSet::insert`: the handle is in the set
/// afterwards and nothing else changes. The result is `true` if the set did
/// not hold the handle before.
#[verifier::external_body]
pub(crate) fn entity_set_insert(set: &mut EntitySet, entity: Entity) -> (fresh: bool)
    ensures
        entity_set_contents(*final(set)) == entity_set_contents(*old(set)).insert(entity),
        fresh == !entity_set_contents(*old(set)).contains(entity),
{
    set.inner.insert(entity)
}

/// Asks hashbrown's `HashSet::contains` whether the set holds the handle.
#[verifier::external_body]
pub(crate) fn entity_set_contains(set: &EntitySet, entity: Entity) -> (held: bool)
    ensures
        held == entity_set_contents(*set).contains(entity),
{
    set.inner.contains(&entity)
}

} // verus!
