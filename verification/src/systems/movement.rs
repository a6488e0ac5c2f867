//! Movement: positions advance along their velocities, then drag slows the
//! velocities down.

use vstd::prelude::*;
use crate::components::velocity::Velocity;
use crate::components::velocity::{
    distance,
    lemma_frame_rate_independence,
    step_tolerance,
    REST_SPEED,
};
use crate::math::fixed::fixed;
use crate::math::decay::lemma_decay_over_no_time;
use crate::math::fixed::{mul_raw, Fixed, SCALE};
use crate::math::vec2::Vec2;
use crate::world::{Components, Entity, World, WorldView};

verus! {

/// The seconds that a frame of `dt` advances: `dt`, or none if it is
/// negative.
pub open spec fn elapsed(dt: Fixed) -> Fixed {
    dt.spec_max(Fixed::spec_zero())
}

/// Where `dt` seconds at `velocity` carry a point that starts at
/// `position`.
pub open spec fn moved(position: Vec2, velocity: Velocity, dt: Fixed) -> Vec2 {
    position.spec_add(velocity.lin_vel.spec_scale(elapsed(dt)))
}

/// The components of an entity after `dt` seconds of movement. Only an
/// entity with both a position and a velocity moves.
pub open spec fn apply_velocity_of(c: Components, dt: Fixed) -> Components {
    if c.position.is_some() && c.velocity.is_some() {
        Components {
            position: Some(moved(c.position.unwrap(), c.velocity.unwrap(), dt)),
            velocity: Some(c.velocity.unwrap().slowed(dt)),
            ..c
        }
    } else {
        c
    }
}

/// The world after `dt` seconds of movement.
pub open spec fn velocity_applied(w: WorldView, dt: Fixed) -> WorldView {
    WorldView { entities: w.entities.map_values(|c: Components| apply_velocity_of(c, dt)), ..w }
}

/// Advances `position` by `dt` seconds at the current velocity, then lets
/// drag act on the velocity for `dt` seconds.
pub fn integrate(position: &mut Vec2, velocity: &mut Velocity, dt: Fixed)
    ensures
        *final(position) == moved(*old(position), *old(velocity), dt),
        *final(velocity) == old(velocity).slowed(dt),
{
    *position = position.add(velocity.lin_vel.scale(dt.max(Fixed::zero())));
    velocity.apply_drag(dt);
}

/// Moves every entity that has a position and a velocity by `dt` seconds.
pub fn apply_velocity(world: &mut World, dt: Fixed)
    requires
        old(world).wf(),
    ensures
        final(world).wf(),
        final(world).succeeds(old(world)),
        final(world)@ == velocity_applied(old(world)@, dt),
        final(world).slot_count() == old(world).slot_count(),
{
    let ghost before = world@;
    let n: usize = world.num_slots();
    let mut i: usize = 0;
    while i < n
        invariant
            world.wf(),
            world.succeeds(old(world)),
            i <= n,
            n == world.slot_count(),
            world@.entities.dom() == before.entities.dom(),
            forall|e: Entity| #[trigger]
                before.entities.contains_key(e) ==> world@.entities[e] == if e.index < i {
                    apply_velocity_of(before.entities[e], dt)
                } else {
                    before.entities[e]
                },
            world@.damage == before.damage,
            world@.heal == before.heal,
            world@.deaths == before.deaths,
        decreases n - i,
    {
        let ghost prev = world@;
        let ghost mut touched: Option<Entity> = None;
        match world.entity_at(i) {
            Some(e) => {
                let c = world.get(e).unwrap();
                proof {
                    touched = Some(e);
                }
                match (c.position, c.velocity) {
                    (Some(p), Some(v)) => {
                        let mut p = p;
                        let mut v = v;
                        integrate(&mut p, &mut v, dt);
                        world.set(
                            e,
                            Components {
                                position: Some(p),
                                velocity: Some(v),
                                collider: c.collider,
                                health: c.health,
                                lifetime: c.lifetime,
                            },
                        );
                    },
                    _ => {},
                }
            },
            None => {},
        }
        proof {
            assert(world@.entities.dom() =~= before.entities.dom());
            assert forall|e: Entity| #[trigger] before.entities.contains_key(e) implies world@.entities[e]
                == if e.index < i + 1 {
                apply_velocity_of(before.entities[e], dt)
            } else {
                before.entities[e]
            } by {
                if e.index == i {
                    assert(prev.entities.contains_key(e));
                    match touched {
                        Some(t) => {
                            world.lemma_one_generation(e, t);
                        },
                        None => {},
                    }
                }
            }
        }
        i += 1;
    }
    proof {
        assert forall|e: Entity| #[trigger] before.entities.contains_key(e) implies e.index < n by {
            world.lemma_index_in_range(e);
        }
        assert(world@.entities =~= before.entities.map_values(
            |c: Components| apply_velocity_of(c, dt),
        ));
    }
}

/// A frame of no time is a pause: nothing moves, and a velocity changes
/// only if it has drag and is slow enough to count as rest.
pub proof fn lemma_pause(position: Vec2, velocity: Velocity, dt: Fixed)
    requires
        dt@ <= 0,
    ensures
        moved(position, velocity, dt) == position,
        velocity.drag@ <= 0 || velocity.lin_vel.length_squared() >= REST_SPEED * REST_SPEED
            ==> velocity.slowed(dt) == velocity,
{
    let v = velocity.lin_vel;
    assert(v.x@ * 0 == 0 && v.y@ * 0 == 0) by (nonlinear_arith);
    assert(mul_raw(v.x@, 0) == 0 && mul_raw(v.y@, 0) == 0);
    lemma_decay_over_no_time(velocity.drag@, dt@);
    lemma_times_one(v.x@);
    lemma_times_one(v.y@);
}

/// Multiplying by one is exact.
proof fn lemma_times_one(a: int)
    requires
        i64::MIN <= a <= i64::MAX,
    ensures
        mul_raw(a, SCALE as int) == a,
{
    let s = SCALE as int;
    if a >= 0 {
        assert((a * s) / s == a) by (nonlinear_arith)
            requires
                s == 1_000_000,
        ;
    } else {
        assert(((-a) * s) / s == -a && -(a * s) == (-a) * s) by (nonlinear_arith)
            requires
                s == 1_000_000,
        ;
    }
}

/// Movement slows an entity down alike however a second is cut into
/// frames: after one frame of a whole second and after two frames of half a
/// second its velocity is the same, component by component, within
/// `step_tolerance`.
pub proof fn lemma_frames_slow_alike(c: Components)
    requires
        c.position.is_some(),
        c.velocity.is_some(),
    ensures
        ({
            let half = fixed(SCALE / 2);
            let v = c.velocity.unwrap().lin_vel;
            let once = apply_velocity_of(c, fixed(SCALE as int)).velocity.unwrap().lin_vel;
            let twice = apply_velocity_of(apply_velocity_of(c, half), half).velocity.unwrap().lin_vel;
            &&& distance(once.x@, twice.x@) <= step_tolerance(v.x@)
            &&& distance(once.y@, twice.y@) <= step_tolerance(v.y@)
        }),
{
    lemma_frame_rate_independence(c.velocity.unwrap());
}

} // verus!
