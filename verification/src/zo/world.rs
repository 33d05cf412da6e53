//! The static world: a grid of buildings with streets between them.

use vstd::prelude::*;
use crate::vec2::Vec2;

verus! {

/// The side of a building.
pub const BUILDING_SIZE: i64 = 128_000_000;

/// The width of a street.
pub const STREET_SIZE: i64 = 128_000_000;

/// The number of buildings from the center of the world to its edge.
pub const GRID_HALF_EXTENT: i64 = 32;

/// The number of buildings along one side of the world.
pub const GRID_SIDE: i64 = 64;

/// The distance between the centers of neighbouring buildings.
pub open spec fn spacing_spec() -> int {
    BUILDING_SIZE + STREET_SIZE
}

/// The coordinate of the buildings in row or column `n`, counted from the
/// center of the world, which is a crossing of two streets.
pub open spec fn grid_coordinate(n: int) -> int {
    -(BUILDING_SIZE / 2 + STREET_SIZE / 2) + n * spacing_spec()
}

/// The center of the building at place `i` of the list: the list goes
/// through the columns from west to east and through each column from
/// south to north.
pub open spec fn building_center_spec(i: int) -> Vec2 {
    Vec2 {
        x: grid_coordinate(i / (GRID_SIDE as int) - GRID_HALF_EXTENT) as i64,
        y: grid_coordinate(i % (GRID_SIDE as int) - GRID_HALF_EXTENT) as i64,
    }
}

/// The centers of all the buildings. Each building is a square of side
/// `BUILDING_SIZE`.
pub fn building_centers() -> (centers: Vec<Vec2>)
    ensures
        centers@.len() == GRID_SIDE * GRID_SIDE,
        GRID_SIDE == 2 * GRID_HALF_EXTENT,
        forall|i: int| 0 <= i < centers@.len() ==> #[trigger] centers@[i] == building_center_spec(i),
{
    let spacing: i64 = BUILDING_SIZE + STREET_SIZE;
    let offset: i64 = -(BUILDING_SIZE / 2 + STREET_SIZE / 2);
    let mut centers: Vec<Vec2> = Vec::new();
    let mut x: i64 = -GRID_HALF_EXTENT;
    while x < GRID_HALF_EXTENT
        invariant
            -GRID_HALF_EXTENT <= x <= GRID_HALF_EXTENT,
            spacing == spacing_spec(),
            offset == -(BUILDING_SIZE / 2 + STREET_SIZE / 2),
            centers@.len() == (x + GRID_HALF_EXTENT) * GRID_SIDE,
            forall|i: int| 0 <= i < centers@.len() ==> #[trigger] centers@[i] == building_center_spec(i),
        decreases GRID_HALF_EXTENT - x,
    {
        let mut y: i64 = -GRID_HALF_EXTENT;
        while y < GRID_HALF_EXTENT
            invariant
                -GRID_HALF_EXTENT <= x < GRID_HALF_EXTENT,
                -GRID_HALF_EXTENT <= y <= GRID_HALF_EXTENT,
                spacing == spacing_spec(),
                offset == -(BUILDING_SIZE / 2 + STREET_SIZE / 2),
                centers@.len() == (x + GRID_HALF_EXTENT) * GRID_SIDE + (y + GRID_HALF_EXTENT),
                forall|i: int|
                    0 <= i < centers@.len() ==> #[trigger] centers@[i] == building_center_spec(i),
            decreases GRID_HALF_EXTENT - y,
        {
            proof {
                let i = centers@.len() as int;
                let column = x + GRID_HALF_EXTENT;
                let row = y + GRID_HALF_EXTENT;
                assert(GRID_SIDE == 64);
                assert(i == column * 64 + row);
                assert(i / 64 == column && i % 64 == row);
                assert(x * spacing == x * 256_000_000);
                assert(y * spacing == y * 256_000_000);
            }
            centers.push(Vec2 { x: offset + x * spacing, y: offset + y * spacing });
            y += 1;
        }
        x += 1;
    }
    centers
}

} // verus!
