//! Linear velocity with drag.

use vstd::prelude::*;
use crate::math::decay::{
    decay,
    decay_factor,
    lemma_decay_factor_unit,
    lemma_half_steps_decay_a_speed_alike,
    lemma_scaled_magnitude,
};
use crate::math::fixed::{fixed, mul_raw, Fixed, SCALE};
use crate::math::vec2::Vec2;

verus! {

/// Units per second along each axis, and the fraction of the speed that
/// drag takes away per second: zero for none, one for an immediate stop.
#[derive(Clone, Copy, Debug, PartialEq, Eq, Structural)]
pub struct Velocity {
    pub lin_vel: Vec2,
    pub drag: Fixed,
}

/// Speeds below this many raw units (a thousandth of a unit per second)
/// count as rest.
pub const REST_SPEED: i64 = 1_000;

impl Velocity {
    /// The velocity after `dt` seconds of drag. Without drag nothing
    /// changes. With drag the linear velocity is multiplied by the decay
    /// factor of `dt` seconds, and is set to exactly zero if that leaves a
    /// speed below `REST_SPEED`.
    pub open spec fn slowed(self, dt: Fixed) -> Velocity {
        if self.drag@ > 0 {
            let v = self.lin_vel.spec_scale(fixed(decay_factor(self.drag@, dt@)));
            Velocity {
                lin_vel: if v.length_squared() < REST_SPEED * REST_SPEED {
                    Vec2::spec_zero()
                } else {
                    v
                },
                drag: self.drag,
            }
        } else {
            self
        }
    }

    /// Lets drag act for `dt` seconds.
    pub fn apply_drag(&mut self, dt: Fixed)
        ensures
            *final(self) == old(self).slowed(dt),
    {
        if self.drag.raw > 0 {
            let factor = decay(self.drag, dt);
            self.lin_vel = self.lin_vel.scale(factor);
            if self.lin_vel.is_shorter_than(Fixed::from_raw(REST_SPEED)) {
                self.lin_vel = Vec2::zero();
            }
        }
    }

    /// The velocity `v` without drag.
    pub fn new(v: Vec2) -> (r: Velocity)
        ensures
            r.lin_vel == v,
            r.drag@ == 0,
    {
        Velocity { lin_vel: v, drag: Fixed::zero() }
    }

    /// The velocity `v` with the given drag.
    pub fn with_drag(v: Vec2, drag: Fixed) -> (r: Velocity)
        ensures
            r.lin_vel == v,
            r.drag == drag,
    {
        Velocity { lin_vel: v, drag }
    }
}

impl Default for Velocity {
    /// At rest, without drag.
    fn default() -> (r: Velocity)
        ensures
            r.lin_vel == Vec2::spec_zero(),
            r.drag@ == 0,
    {
        Velocity { lin_vel: Vec2::zero(), drag: Fixed::zero() }
    }
}

/// How far one component of a velocity may differ between one step of a
/// whole second and two steps of half a second, for a component that was
/// `v` before: two millionths of `v`, two raw units of rounding, and the
/// speed below which a velocity is taken for rest.
pub open spec fn step_tolerance(v: int) -> int {
    2 * (if v >= 0 { v } else { -v }) / (SCALE as int) + 2 + REST_SPEED
}

/// The distance between two numbers.
pub open spec fn distance(a: int, b: int) -> int {
    if a >= b {
        a - b
    } else {
        b - a
    }
}

/// Whether a velocity is exactly zero.
pub open spec fn is_at_rest(v: Vec2) -> bool {
    v.x@ == 0 && v.y@ == 0
}

/// Drag does not depend on how a second is cut into frames: the velocity
/// after one step of a whole second and the velocity after two steps of
/// half a second agree, component by component, within `step_tolerance`;
/// and where neither has come to rest, within two millionths of the
/// component and two raw units.
pub proof fn lemma_frame_rate_independence(v: Velocity)
    ensures
        ({
            let half = fixed(SCALE / 2);
            let once = v.slowed(fixed(SCALE as int));
            let twice = v.slowed(half).slowed(half);
            &&& once.drag == v.drag
            &&& twice.drag == v.drag
            &&& distance(once.lin_vel.x@, twice.lin_vel.x@) <= step_tolerance(v.lin_vel.x@)
            &&& distance(once.lin_vel.y@, twice.lin_vel.y@) <= step_tolerance(v.lin_vel.y@)
            &&& !is_at_rest(once.lin_vel) && !is_at_rest(twice.lin_vel) ==> {
                &&& distance(once.lin_vel.x@, twice.lin_vel.x@) <= step_tolerance(v.lin_vel.x@)
                    - REST_SPEED
                &&& distance(once.lin_vel.y@, twice.lin_vel.y@) <= step_tolerance(v.lin_vel.y@)
                    - REST_SPEED
            }
        }),
{
    if v.drag@ > 0 {
        let h = decay_factor(v.drag@, SCALE / 2);
        let w = decay_factor(v.drag@, SCALE as int);
        lemma_decay_factor_unit(v.drag@, SCALE / 2);
        lemma_decay_factor_unit(v.drag@, SCALE as int);
        let first = v.lin_vel.spec_scale(fixed(h));
        let mid = v.slowed(fixed(SCALE / 2));
        let second = mid.lin_vel.spec_scale(fixed(h));
        let whole = v.lin_vel.spec_scale(fixed(w));
        lemma_component_steps(v.drag@, v.lin_vel.x@);
        lemma_component_steps(v.drag@, v.lin_vel.y@);
        lemma_below_rest(first);
        lemma_below_rest(second);
        lemma_below_rest(whole);
        lemma_scaled_magnitude(0, h);
        assert(mid.lin_vel == first || mid.lin_vel == Vec2::spec_zero());
        assert(mid.drag == v.drag);
    }
}

/// What the steps do to one component: each scaling shortens, and scaling
/// twice by the factor of half a second agrees with scaling once by the
/// factor of a whole second.
proof fn lemma_component_steps(drag: int, v: int)
    requires
        i64::MIN <= v <= i64::MAX,
    ensures
        ({
            let h = decay_factor(drag, SCALE / 2);
            let w = decay_factor(drag, SCALE as int);
            let first = mul_raw(v, h);
            let second = mul_raw(first, h);
            let whole = mul_raw(v, w);
            &&& i64::MIN <= first <= i64::MAX
            &&& distance(whole, second) <= 2 * (if v >= 0 { v } else { -v }) / (SCALE as int) + 2
            &&& distance(second, 0) <= distance(first, 0)
            &&& mul_raw(0, h) == 0
        }),
{
    let h = decay_factor(drag, SCALE / 2);
    lemma_decay_factor_unit(drag, SCALE / 2);
    lemma_half_steps_decay_a_speed_alike(drag, v);
    lemma_scaled_magnitude(v, h);
    lemma_scaled_magnitude(mul_raw(v, h), h);
    lemma_scaled_magnitude(0, h);
}

/// A vector shorter than the rest speed has both components below it.
proof fn lemma_below_rest(v: Vec2)
    ensures
        v.length_squared() < REST_SPEED * REST_SPEED ==> distance(v.x@, 0) < REST_SPEED
            && distance(v.y@, 0) < REST_SPEED,
{
    let x = v.x@;
    let y = v.y@;
    assert(x * x + y * y < 1_000 * 1_000 ==> -1_000 < x < 1_000 && -1_000 < y < 1_000)
        by (nonlinear_arith);
}

} // verus!
