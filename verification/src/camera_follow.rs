//! A camera that follows an entity.

use vstd::prelude::*;
use crate::fixed::{mul_div, mul_div_spec, ONE};
use crate::ids::Entity;
use crate::vec2::Vec2;

verus! {

/// A camera that closes in on an entity.
#[derive(Clone, Copy, Debug, PartialEq, Eq, Structural)]
pub struct CameraFollow {
    pub follow: Entity,
    /// The share of the remaining distance covered in a second.
    pub speed: i64,
}

/// The point a share of `t` of the way from `from` to `to`.
pub open spec fn lerp_spec(from: Vec2, to: Vec2, t: int) -> Vec2 {
    from.plus_spec(to.minus_spec(from).scaled_spec(t, ONE as int))
}

impl CameraFollow {
    pub fn new(follow: Entity, speed: i64) -> (camera: CameraFollow)
        ensures
            camera == (CameraFollow { follow, speed }),
    {
        CameraFollow { follow, speed }
    }

    /// Where the camera at `position` goes in a step of `dt` seconds while
    /// the entity it follows is at `target`.
    pub fn step(&self, position: Vec2, target: Vec2, dt: i64) -> (next: Vec2)
        ensures
            next == lerp_spec(
                position,
                target,
                mul_div_spec(self.speed as int, dt as int, ONE as int),
            ),
    {
        position.plus(target.minus(position).scaled(mul_div(self.speed, dt, ONE), ONE))
    }
}

} // verus!
