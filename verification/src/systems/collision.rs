//! Collision of one moving entity with everything else in the world.
//!
//! Every other entity that has a position and a collider is an obstacle,
//! taken as the box around its footprint. Obstacles are considered in the
//! order of their slots, which settles which of several simultaneous
//! collisions is acted upon.

use vstd::prelude::*;
use crate::collision::response::{
    handle_collisions,
    resolved_position,
    resolved_velocity,
    Obstacle,
};
use crate::components::velocity::Velocity;
use crate::math::fixed::Fixed;
use crate::world::{updated, Components, Entity, World, WorldView};

verus! {

/// The live entity in slot `index`, if there is one.
pub open spec fn entity_in_slot(w: WorldView, index: int) -> Option<Entity> {
    if exists|e: Entity| w.entities.contains_key(e) && e.index == index {
        Some(choose|e: Entity| w.entities.contains_key(e) && e.index == index)
    } else {
        None
    }
}

/// The obstacle that an entity with components `c` presents, if any.
pub open spec fn obstacle_of(c: Components) -> Option<Obstacle> {
    if c.position.is_some() && c.collider.is_some() {
        Some(
            Obstacle {
                position: c.position.unwrap(),
                half_size: c.collider.unwrap().spec_half_size(),
            },
        )
    } else {
        None
    }
}

/// The obstacles in the first `n` slots, in slot order, leaving out the
/// entity `except`.
pub open spec fn obstacles_in(w: WorldView, except: Entity, n: nat) -> Seq<Obstacle>
    decreases n,
{
    if n == 0 {
        Seq::empty()
    } else {
        let before = obstacles_in(w, except, (n - 1) as nat);
        match entity_in_slot(w, n - 1) {
            Some(e) => if e != except && obstacle_of(w.entities[e]).is_some() {
                before.push(obstacle_of(w.entities[e]).unwrap())
            } else {
                before
            },
            None => before,
        }
    }
}

/// The components of a mover after its collision with `obstacles` has been
/// resolved. Only an entity with a position, a velocity and a collider
/// collides; its radius is half the width of its footprint.
pub open spec fn collided(
    c: Components,
    obstacles: Seq<Obstacle>,
    speed_scale: Fixed,
    restitution: Fixed,
) -> Components {
    if c.position.is_some() && c.velocity.is_some() && c.collider.is_some() {
        let radius = c.collider.unwrap().spec_half_size().x;
        Components {
            position: Some(
                resolved_position(
                    c.position.unwrap(),
                    c.velocity.unwrap().lin_vel,
                    radius,
                    speed_scale,
                    obstacles,
                ),
            ),
            velocity: Some(
                Velocity {
                    lin_vel: resolved_velocity(
                        c.position.unwrap(),
                        c.velocity.unwrap().lin_vel,
                        radius,
                        speed_scale,
                        obstacles,
                        restitution,
                    ),
                    drag: c.velocity.unwrap().drag,
                },
            ),
            ..c
        }
    } else {
        c
    }
}

/// Collects the obstacles that the world presents to the entity `except`.
pub fn gather_obstacles(world: &World, except: Entity) -> (obstacles: Vec<Obstacle>)
    requires
        world.wf(),
    ensures
        obstacles@ == obstacles_in(world@, except, world.slot_count()),
{
    let mut obstacles: Vec<Obstacle> = Vec::new();
    let n: usize = world.num_slots();
    let mut i: usize = 0;
    while i < n
        invariant
            world.wf(),
            i <= n,
            n == world.slot_count(),
            obstacles@ == obstacles_in(world@, except, i as nat),
        decreases n - i,
    {
        match world.entity_at(i) {
            Some(e) => {
                proof {
                    let chosen = entity_in_slot(world@, i as int).unwrap();
                    world.lemma_one_generation(e, chosen);
                }
                let c = world.get(e).unwrap();
                if e.index != except.index || e.generation != except.generation {
                    match (c.position, c.collider) {
                        (Some(p), Some(k)) => {
                            obstacles.push(Obstacle { position: p, half_size: k.half_size() });
                        },
                        _ => {},
                    }
                }
            },
            None => {},
        }
        i += 1;
    }
    obstacles
}

/// Resolves this frame's collision of `mover` with the rest of the world:
/// see `collided`. Does nothing when `mover` is gone.
pub fn resolve_collisions(world: &mut World, mover: Entity, speed_scale: Fixed, restitution: Fixed)
    requires
        old(world).wf(),
    ensures
        updated(
            old(world),
            final(world),
            mover,
            collided(
                old(world)@.entities[mover],
                obstacles_in(old(world)@, mover, old(world).slot_count()),
                speed_scale,
                restitution,
            ),
        ),
{
    match world.get(mover) {
        Some(c) => match (c.position, c.velocity, c.collider) {
            (Some(p), Some(v), Some(k)) => {
                let obstacles = gather_obstacles(world, mover);
                let mut p = p;
                let mut lin_vel = v.lin_vel;
                handle_collisions(
                    &mut p,
                    &mut lin_vel,
                    k.half_size().x,
                    speed_scale,
                    &obstacles,
                    restitution,
                );
                world.set(
                    mover,
                    Components {
                        position: Some(p),
                        velocity: Some(Velocity { lin_vel, drag: v.drag }),
                        collider: c.collider,
                        health: c.health,
                        lifetime: c.lifetime,
                    },
                );
            },
            _ => {
                assert(world@.entities =~= world@.entities.insert(mover, c));
            },
        },
        None => {},
    }
}

} // verus!
