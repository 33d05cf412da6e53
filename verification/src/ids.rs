//! Identifiers of simulated objects.

use vstd::prelude::*;

verus! {

/// A local entity handle, stable on one peer only.
pub type Entity = u64;

/// A peer of the lobby.
pub type PeerId = u64;

/// A globally stable identifier of a replicated entity. Replicated events
/// name entities by it, never by their local handle.
#[derive(Clone, Copy, Debug, PartialEq, Eq, Structural)]
pub struct NetworkId {
    /// The peer that created the entity.
    pub owner: PeerId,
    /// The number the owner gave it.
    pub serial: u64,
}

/// What an entity carries to be addressed across peers.
#[derive(Clone, Copy, Debug, PartialEq, Eq, Structural)]
pub struct NetworkIdentity {
    pub entity: Entity,
    pub id: NetworkId,
}

/// The local entity that carries `id`: the first one in `identities`.
pub open spec fn resolve_spec(identities: Seq<NetworkIdentity>, id: NetworkId) -> Option<Entity>
    decreases identities.len(),
{
    if identities.len() == 0 {
        None
    } else if identities[0].id == id {
        Some(identities[0].entity)
    } else {
        resolve_spec(identities.subrange(1, identities.len() as int), id)
    }
}

/// No entry before `n` carries `id`.
pub open spec fn unmatched_before(identities: Seq<NetworkIdentity>, id: NetworkId, n: int) -> bool {
    forall|k: int| 0 <= k < n ==> (#[trigger] identities[k]).id != id
}

/// Resolution finds the first entry that carries the identifier.
pub proof fn lemma_resolve_first(identities: Seq<NetworkIdentity>, id: NetworkId, n: int)
    requires
        0 <= n <= identities.len(),
        unmatched_before(identities, id, n),
    ensures
        n < identities.len() && identities[n].id == id ==> resolve_spec(identities, id) == Some(
            identities[n].entity,
        ),
        n == identities.len() ==> resolve_spec(identities, id) == None::<Entity>,
    decreases n,
{
    if n > 0 {
        let rest = identities.subrange(1, identities.len() as int);
        assert(identities[0].id != id);
        assert forall|k: int| 0 <= k < n - 1 implies (#[trigger] rest[k]).id != id by {
            assert(rest[k] == identities[k + 1]);
        }
        lemma_resolve_first(rest, id, n - 1);
        if n < identities.len() {
            assert(rest[n - 1] == identities[n]);
        }
    }
}

/// Looks up the local entity that carries `id`. An identifier that no local
/// entity carries resolves to nothing.
pub fn resolve(identities: &Vec<NetworkIdentity>, id: NetworkId) -> (found: Option<Entity>)
    ensures
        found == resolve_spec(identities@, id),
{
    let mut i: usize = 0;
    while i < identities.len()
        invariant
            i <= identities.len(),
            unmatched_before(identities@, id, i as int),
        decreases identities.len() - i,
    {
        if identities[i].id == id {
            proof {
                lemma_resolve_first(identities@, id, i as int);
            }
            return Some(identities[i].entity);
        }
        i += 1;
    }
    proof {
        lemma_resolve_first(identities@, id, i as int);
    }
    None
}

} // verus!
