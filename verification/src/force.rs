//! The per-body force accumulator.

use vstd::prelude::*;
use crate::fixed::{add_sat, clamp_i64, div_toward_zero, ONE};
use crate::vec2::Vec2;

verus! {

/// The force and torque gathered on a rigid body during one tick. Every
/// contribution is added in; the integrator reads the sums and the buffer is
/// cleared for the next tick.
#[derive(Clone, Copy, Debug, PartialEq, Eq, Structural)]
pub struct ExternalForce {
    pub force: Vec2,
    pub torque: i64,
}

/// The torque of `force` applied at `point` about `center`.
pub open spec fn torque_about(force: Vec2, point: Vec2, center: Vec2) -> int {
    clamp_i64(div_toward_zero(point.minus_spec(center).perp_dot_spec(force), ONE as int))
}

impl ExternalForce {
    /// The buffer after `force` was added at the center of mass.
    pub open spec fn apply_force_spec(self, force: Vec2) -> ExternalForce {
        ExternalForce { force: self.force.plus_spec(force), torque: self.torque }
    }

    /// The buffer after `force` was added at `point`, which also turns the
    /// body about `center`.
    pub open spec fn apply_force_at_point_spec(self, force: Vec2, point: Vec2, center: Vec2) -> ExternalForce {
        ExternalForce {
            force: self.force.plus_spec(force),
            torque: clamp_i64(self.torque + torque_about(force, point, center)) as i64,
        }
    }

    /// An empty buffer.
    pub fn new() -> (acc: ExternalForce)
        ensures
            acc == (ExternalForce { force: Vec2 { x: 0, y: 0 }, torque: 0 }),
    {
        ExternalForce { force: Vec2::zero(), torque: 0 }
    }

    /// Adds `force` at the center of mass.
    pub fn apply_force(&mut self, force: Vec2)
        ensures
            *final(self) == old(self).apply_force_spec(force),
    {
        self.force = self.force.plus(force);
    }

    /// Adds `force` at `point`; off-center, it also adds torque about
    /// `center`.
    pub fn apply_force_at_point(&mut self, force: Vec2, point: Vec2, center: Vec2)
        ensures
            *final(self) == old(self).apply_force_at_point_spec(force, point, center),
    {
        let torque = point.minus(center).perp_dot_scaled(force);
        self.force = self.force.plus(force);
        self.torque = add_sat(self.torque, torque);
    }

    /// Empties the buffer.
    pub fn clear(&mut self)
        ensures
            *final(self) == (ExternalForce { force: Vec2 { x: 0, y: 0 }, torque: 0 }),
    {
        self.force = Vec2::zero();
        self.torque = 0;
    }
}

/// Whether adding the two contributions to the buffer, in either order,
/// stays clear of saturation.
pub open spec fn sums_fit(acc: ExternalForce, f: Vec2, tf: int, g: Vec2, tg: int) -> bool {
    &&& i64::MIN <= acc.force.x + f.x <= i64::MAX
    &&& i64::MIN <= acc.force.x + g.x <= i64::MAX
    &&& i64::MIN <= acc.force.x + f.x + g.x <= i64::MAX
    &&& i64::MIN <= acc.force.y + f.y <= i64::MAX
    &&& i64::MIN <= acc.force.y + g.y <= i64::MAX
    &&& i64::MIN <= acc.force.y + f.y + g.y <= i64::MAX
    &&& i64::MIN <= acc.torque + tf <= i64::MAX
    &&& i64::MIN <= acc.torque + tg <= i64::MAX
    &&& i64::MIN <= acc.torque + tf + tg <= i64::MAX
}

/// Contributions to one buffer commute: as long as no sum saturates, the
/// order in which two forces are applied does not matter.
pub proof fn lemma_contributions_commute(
    acc: ExternalForce,
    f: Vec2,
    f_point: Vec2,
    g: Vec2,
    g_point: Vec2,
    center: Vec2,
)
    requires
        sums_fit(
            acc,
            f,
            torque_about(f, f_point, center),
            g,
            torque_about(g, g_point, center),
        ),
    ensures
        acc.apply_force_at_point_spec(f, f_point, center).apply_force_at_point_spec(
            g,
            g_point,
            center,
        ) == acc.apply_force_at_point_spec(g, g_point, center).apply_force_at_point_spec(
            f,
            f_point,
            center,
        ),
{
}

} // verus!
