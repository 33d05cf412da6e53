//! Looking a pair of entities up in two tables.

use vstd::prelude::*;
use crate::ids::Entity;

verus! {

/// The index of the first occurrence of `entity` in a table.
pub open spec fn position_spec(table: Seq<Entity>, entity: Entity) -> Option<int> {
    if exists|i: int| 0 <= i < table.len() && #[trigger] table[i] == entity {
        Some(
            choose|i: int|
                0 <= i < table.len() && #[trigger] table[i] == entity && forall|k: int|
                    0 <= k < i ==> #[trigger] table[k] != entity,
        )
    } else {
        None
    }
}

/// Where the pair `(e1, e2)` is found in two tables, whichever of the two
/// entities belongs to which table: the index of one in `first` and of the
/// other in `second`. The pairing in the given order is tried first.
pub open spec fn query_double_spec(first: Seq<Entity>, second: Seq<Entity>, e1: Entity, e2: Entity) -> Option<
    (int, int),
> {
    if position_spec(first, e1).is_some() && position_spec(second, e2).is_some() {
        Some((position_spec(first, e1).unwrap(), position_spec(second, e2).unwrap()))
    } else if position_spec(first, e2).is_some() && position_spec(second, e1).is_some() {
        Some((position_spec(first, e2).unwrap(), position_spec(second, e1).unwrap()))
    } else {
        None
    }
}

/// Finds `entity` in a table.
pub fn position(table: &Vec<Entity>, entity: Entity) -> (found: Option<usize>)
    ensures
        match found {
            Some(i) => position_spec(table@, entity) == Some(i as int) && i < table.len()
                && table[i as int] == entity,
            None => position_spec(table@, entity) == None::<int>,
        },
{
    let mut i: usize = 0;
    while i < table.len()
        invariant
            i <= table.len(),
            forall|k: int| 0 <= k < i ==> #[trigger] table@[k] != entity,
        decreases table.len() - i,
    {
        if table[i] == entity {
            proof {
                let c = choose|c: int|
                    0 <= c < table@.len() && #[trigger] table@[c] == entity && forall|k: int|
                        0 <= k < c ==> #[trigger] table@[k] != entity;
                assert(c == i);
            }
            return Some(i);
        }
        i += 1;
    }
    None
}

/// Finds a pair of entities in two tables, one in each, in whichever order
/// they were given.
pub fn query_double(first: &Vec<Entity>, second: &Vec<Entity>, e1: Entity, e2: Entity) -> (found:
    Option<(usize, usize)>)
    ensures
        match found {
            Some((a, b)) => query_double_spec(first@, second@, e1, e2) == Some((a as int, b as int))
                && a < first.len() && b < second.len(),
            None => query_double_spec(first@, second@, e1, e2) == None::<(int, int)>,
        },
{
    match (position(first, e1), position(second, e2)) {
        (Some(a), Some(b)) => {
            return Some((a, b));
        },
        _ => {},
    }
    match (position(first, e2), position(second, e1)) {
        (Some(a), Some(b)) => Some((a, b)),
        _ => None,
    }
}

} // verus!
