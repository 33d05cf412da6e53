//! Poses in the plane.

use vstd::prelude::*;
use crate::fixed::{clamp_i64, neg_sat, ONE};
use crate::vec2::Vec2;

verus! {

/// A rotation in the plane, held as the cosine and the sine of its angle,
/// each scaled by `ONE`.
#[derive(Clone, Copy, Debug, PartialEq, Eq, Structural)]
pub struct Rotation {
    pub cos: i64,
    pub sin: i64,
}

/// Where something is and how it is turned.
#[derive(Clone, Copy, Debug, PartialEq, Eq, Structural)]
pub struct Transform {
    pub translation: Vec2,
    pub rotation: Rotation,
}

impl Rotation {
    /// The rotated x axis: `(cos, sin)`.
    pub open spec fn right_spec(self) -> Vec2 {
        Vec2 { x: self.cos, y: self.sin }
    }

    /// The rotated y axis, which is the forward axis: `(-sin, cos)`.
    pub open spec fn up_spec(self) -> Vec2 {
        Vec2 { x: clamp_i64(-self.sin) as i64, y: self.cos }
    }

    /// The rotation whose forward axis is `direction`: the angle of
    /// `direction` less a quarter turn.
    pub open spec fn facing_spec(direction: Vec2) -> Rotation {
        Rotation { cos: direction.y, sin: clamp_i64(-direction.x) as i64 }
    }

    /// The rotation by no angle.
    pub fn identity() -> (r: Rotation)
        ensures
            r == (Rotation { cos: ONE, sin: 0 }),
    {
        Rotation { cos: ONE, sin: 0 }
    }

    pub fn right(self) -> (v: Vec2)
        ensures
            v == self.right_spec(),
    {
        Vec2 { x: self.cos, y: self.sin }
    }

    pub fn up(self) -> (v: Vec2)
        ensures
            v == self.up_spec(),
    {
        Vec2 { x: neg_sat(self.sin), y: self.cos }
    }

    pub fn facing(direction: Vec2) -> (r: Rotation)
        ensures
            r == Rotation::facing_spec(direction),
    {
        Rotation { cos: direction.y, sin: neg_sat(direction.x) }
    }
}

impl Transform {
    /// The pose at `translation`, not turned.
    pub fn from_translation(translation: Vec2) -> (t: Transform)
        ensures
            t == (Transform { translation, rotation: Rotation { cos: ONE, sin: 0 } }),
    {
        Transform { translation, rotation: Rotation::identity() }
    }
}

/// A rotation made to face a direction has that direction as its forward
/// axis, whenever the direction can be negated.
pub proof fn lemma_facing_points_forward(direction: Vec2)
    requires
        direction.x > i64::MIN,
    ensures
        Rotation::facing_spec(direction).up_spec() == direction,
{
}

} // verus!
