//! The lobby: what to build for an entity that another peer instantiated.

use vstd::prelude::*;
use crate::fixed::clamp_i64;
use crate::ids::NetworkId;
use crate::transform::{Rotation, Transform};

verus! {

/// The number of peers a new lobby admits.
pub const LOBBY_SIZE: u32 = 8;

/// The kinds of entity that peers instantiate for one another.
#[derive(Clone, Copy, Debug, PartialEq, Eq, Structural)]
pub enum SpawnKind {
    Player,
    Zombie,
    ZombieCorpse,
}

/// An entity that a peer instantiated and that nothing here has built yet.
#[derive(Debug)]
pub struct UnhandledInstantiation {
    /// The path that names the kind of entity.
    pub instantiation_path: String,
    pub network_id: NetworkId,
    pub starting_transform: Transform,
}

/// What to build for an instantiated entity.
#[derive(Clone, Copy, Debug, PartialEq, Eq, Structural)]
pub enum SpawnAction {
    /// A player's car.
    Car { network_id: NetworkId },
    /// A zombie at the given pose.
    Zombie { network_id: NetworkId, transform: Transform },
    /// A corpse at the given pose.
    Corpse { network_id: NetworkId, transform: Transform },
    /// Nothing: the path names no known kind.
    Nothing,
}

/// The kind that a path names.
pub open spec fn spawn_kind_spec(path: Seq<char>) -> Option<SpawnKind> {
    if path == "Player"@ {
        Some(SpawnKind::Player)
    } else if path == "Zombie"@ {
        Some(SpawnKind::Zombie)
    } else if path == "ZombieCorpse"@ {
        Some(SpawnKind::ZombieCorpse)
    } else {
        None
    }
}

/// The pose turned by half a turn.
pub open spec fn half_turned_spec(transform: Transform) -> Transform {
    Transform {
        translation: transform.translation,
        rotation: Rotation {
            cos: clamp_i64(-transform.rotation.cos) as i64,
            sin: clamp_i64(-transform.rotation.sin) as i64,
        },
    }
}

/// What to build for one instantiated entity. A corpse lies turned by half a
/// turn against the zombie it was.
pub open spec fn spawn_action_spec(event: UnhandledInstantiation) -> SpawnAction {
    match spawn_kind_spec(event.instantiation_path@) {
        Some(SpawnKind::Player) => SpawnAction::Car { network_id: event.network_id },
        Some(SpawnKind::Zombie) => SpawnAction::Zombie {
            network_id: event.network_id,
            transform: event.starting_transform,
        },
        Some(SpawnKind::ZombieCorpse) => SpawnAction::Corpse {
            network_id: event.network_id,
            transform: half_turned_spec(event.starting_transform),
        },
        None => SpawnAction::Nothing,
    }
}

impl SpawnKind {
    /// The kind that a path names, if it names one.
    pub fn from_path(path: &str) -> (kind: Option<SpawnKind>)
        ensures
            kind == spawn_kind_spec(path@),
    {
        let owned = path.to_owned();
        if owned == "Player".to_owned() {
            Some(SpawnKind::Player)
        } else if owned == "Zombie".to_owned() {
            Some(SpawnKind::Zombie)
        } else if owned == "ZombieCorpse".to_owned() {
            Some(SpawnKind::ZombieCorpse)
        } else {
            None
        }
    }
}

/// Whether to create a lobby, and for how many peers: the create key was
/// just pressed.
pub fn menu(create_pressed: bool) -> (size: Option<u32>)
    ensures
        size == if create_pressed {
            Some(LOBBY_SIZE)
        } else {
            None::<u32>
        },
{
    if create_pressed {
        Some(LOBBY_SIZE)
    } else {
        None
    }
}

/// What to instantiate on joining a lobby: the joining peer's own player,
/// once, however many join notices are pending.
pub fn on_lobby_join(pending_joins: usize) -> (spawn: Option<SpawnKind>)
    ensures
        spawn == if pending_joins > 0 {
            Some(SpawnKind::Player)
        } else {
            None::<SpawnKind>
        },
{
    if pending_joins > 0 {
        Some(SpawnKind::Player)
    } else {
        None
    }
}

/// The pose turned by half a turn.
pub fn half_turned(transform: Transform) -> (turned: Transform)
    ensures
        turned == half_turned_spec(transform),
{
    Transform {
        translation: transform.translation,
        rotation: Rotation {
            cos: crate::fixed::neg_sat(transform.rotation.cos),
            sin: crate::fixed::neg_sat(transform.rotation.sin),
        },
    }
}

/// What to build for one instantiated entity.
pub fn spawn_action(event: &UnhandledInstantiation) -> (action: SpawnAction)
    ensures
        action == spawn_action_spec(*event),
{
    match SpawnKind::from_path(event.instantiation_path.as_str()) {
        Some(SpawnKind::Player) => SpawnAction::Car { network_id: event.network_id },
        Some(SpawnKind::Zombie) => SpawnAction::Zombie {
            network_id: event.network_id,
            transform: event.starting_transform,
        },
        Some(SpawnKind::ZombieCorpse) => SpawnAction::Corpse {
            network_id: event.network_id,
            transform: half_turned(event.starting_transform),
        },
        None => SpawnAction::Nothing,
    }
}

/// What to build for each of the entities that peers instantiated, in the
/// order of their arrival.
pub fn handle_unhandled_instantiations(events: &Vec<UnhandledInstantiation>) -> (actions: Vec<
    SpawnAction,
>)
    ensures
        actions@.len() == events@.len(),
        forall|i: int|
            0 <= i < events@.len() ==> #[trigger] actions@[i] == spawn_action_spec(events@[i]),
{
    let mut actions: Vec<SpawnAction> = Vec::new();
    let mut i: usize = 0;
    while i < events.len()
        invariant
            i <= events.len(),
            actions@.len() == i,
            forall|k: int| 0 <= k < i ==> #[trigger] actions@[k] == spawn_action_spec(events@[k]),
        decreases events.len() - i,
    {
        actions.push(spawn_action(&events[i]));
        i += 1;
    }
    actions
}

} // verus!
