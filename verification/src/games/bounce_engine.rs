//! Bounce engine: a dozen balls fall under gravity and bounce about a
//! walled arena, losing a little speed at every wall.

use vstd::prelude::*;
use crate::collision::walls::{
    bounce_off_walls as bounce_point,
    bounced_coordinate,
    bounced_speed,
    high_wall,
    low_wall,
    Bounds,
    WallRestitution,
};
use crate::components::collider::{CircleCollider, Collider};
use crate::components::velocity::Velocity;
use crate::games::random::random_between;
use crate::math::fixed::{fixed, Fixed};
use crate::math::vec2::Vec2;
use crate::systems::movement::elapsed;
use crate::world::{spawned, updated, Components, Entity, World};

verus! {

/// Number of balls.
pub const BALL_COUNT: usize = 12;

/// Radius of a ball, in raw units: twelve units.
pub const BALL_RADIUS: i64 = 12_000_000;

/// Drag on a ball, in raw units: a twentieth per second.
pub const BALL_DRAG: i64 = 50_000;

/// Half the width of the arena, in raw units: 480 units.
pub const HALF_W: i64 = 480_000_000;

/// Half the height of the arena, in raw units: 270 units.
pub const HALF_H: i64 = 270_000_000;

/// Downward acceleration, in raw units: 900 units per second squared.
pub const GRAVITY: i64 = 900_000_000;

/// What a ball starts with.
pub open spec fn ball_components(position: Vec2, lin_vel: Vec2) -> Components {
    Components {
        position: Some(position),
        velocity: Some(Velocity { lin_vel, drag: fixed(BALL_DRAG as int) }),
        collider: Some(Collider::Circle(CircleCollider { radius: fixed(BALL_RADIUS as int) })),
        health: None,
        lifetime: None,
    }
}

/// Where and how fast balls may start: in the upper half of the arena,
/// moving upward.
pub open spec fn is_ball_start(position: Vec2, lin_vel: Vec2) -> bool {
    &&& -420_000_000 <= position.x@ < 420_000_000
    &&& 50_000_000 <= position.y@ < 220_000_000
    &&& -120_000_000 <= lin_vel.x@ < 120_000_000
    &&& 20_000_000 <= lin_vel.y@ < 180_000_000
}

/// The arena.
pub open spec fn arena() -> Bounds {
    Bounds { half_w: fixed(HALF_W as int), half_h: fixed(HALF_H as int) }
}

/// How much speed the walls leave: nine tenths, but eight tenths for the
/// floor.
pub open spec fn walls() -> WallRestitution {
    WallRestitution {
        left: fixed(900_000),
        right: fixed(900_000),
        bottom: fixed(800_000),
        top: fixed(900_000),
    }
}

/// The gravity of this game as an acceleration.
pub open spec fn gravity() -> Vec2 {
    Vec2 { x: fixed(0), y: fixed(-GRAVITY) }
}

/// The components of an entity after `acceleration` has acted on its
/// velocity, if it has one, for `dt` seconds.
pub open spec fn accelerated(c: Components, acceleration: Vec2, dt: Fixed) -> Components {
    match c.velocity {
        Some(v) => Components {
            velocity: Some(
                Velocity {
                    lin_vel: v.lin_vel.spec_add(acceleration.spec_scale(elapsed(dt))),
                    drag: v.drag,
                },
            ),
            ..c
        },
        None => c,
    }
}

/// The components of an entity after it has bounced off the walls of
/// `bounds`. Only an entity with a position, a velocity and a circular
/// collider bounces.
pub open spec fn bounced(c: Components, bounds: Bounds, restitution: WallRestitution) -> Components {
    match (c.position, c.velocity, c.collider) {
        (Some(p), Some(v), Some(Collider::Circle(k))) => Components {
            position: Some(
                Vec2 {
                    x: bounced_coordinate(
                        p.x,
                        low_wall(bounds.half_w, k.radius),
                        high_wall(bounds.half_w, k.radius),
                    ),
                    y: bounced_coordinate(
                        p.y,
                        low_wall(bounds.half_h, k.radius),
                        high_wall(bounds.half_h, k.radius),
                    ),
                },
            ),
            velocity: Some(
                Velocity {
                    lin_vel: Vec2 {
                        x: bounced_speed(
                            p.x,
                            v.lin_vel.x,
                            low_wall(bounds.half_w, k.radius),
                            high_wall(bounds.half_w, k.radius),
                            restitution.left,
                            restitution.right,
                        ),
                        y: bounced_speed(
                            p.y,
                            v.lin_vel.y,
                            low_wall(bounds.half_h, k.radius),
                            high_wall(bounds.half_h, k.radius),
                            restitution.bottom,
                            restitution.top,
                        ),
                    },
                    drag: v.drag,
                },
            ),
            ..c
        },
        _ => c,
    }
}

/// The arena.
pub fn bounds() -> (b: Bounds)
    ensures
        b == arena(),
{
    Bounds { half_w: Fixed::from_raw(HALF_W), half_h: Fixed::from_raw(HALF_H) }
}

/// How much speed the walls leave.
pub fn wall_restitution() -> (r: WallRestitution)
    ensures
        r == walls(),
{
    WallRestitution {
        left: Fixed::from_raw(900_000),
        right: Fixed::from_raw(900_000),
        bottom: Fixed::from_raw(800_000),
        top: Fixed::from_raw(900_000),
    }
}

/// Spawns a ball. Returns `None`, and changes nothing, exactly when the
/// world is full.
pub fn spawn_ball(world: &mut World, position: Vec2, lin_vel: Vec2) -> (ball: Option<Entity>)
    requires
        old(world).wf(),
    ensures
        spawned(old(world), final(world), ball, ball_components(position, lin_vel)),
{
    world.spawn(
        Components {
            position: Some(position),
            velocity: Some(Velocity::with_drag(lin_vel, Fixed::from_raw(BALL_DRAG))),
            collider: Some(Collider::circle(Fixed::from_raw(BALL_RADIUS))),
            health: None,
            lifetime: None,
        },
    )
}

/// Spawns the balls, each at a place and with a velocity drawn at random,
/// and returns them. Fewer than `BALL_COUNT` are spawned only if the world
/// fills up.
pub fn spawn_balls(world: &mut World) -> (balls: Vec<Entity>)
    requires
        old(world).wf(),
    ensures
        final(world).wf(),
        final(world).succeeds(old(world)),
        balls@.len() <= BALL_COUNT,
        balls@.len() < BALL_COUNT ==> final(world).is_full(),
        forall|e: Entity| #[trigger]
            old(world)@.entities.contains_key(e) ==> final(world)@.entities.contains_key(e)
                && final(world)@.entities[e] == old(world)@.entities[e],
        forall|e: Entity| #[trigger]
            final(world)@.entities.contains_key(e) ==> old(world)@.entities.contains_key(e)
                || balls@.contains(e),
        forall|i: int|
            0 <= i < balls@.len() ==> {
                &&& !old(world)@.entities.contains_key(#[trigger] balls@[i])
                &&& final(world)@.entities.contains_key(balls@[i])
                &&& exists|p: Vec2, v: Vec2|
                    is_ball_start(p, v) && final(world)@.entities[balls@[i]] == #[trigger] ball_components(
                        p,
                        v,
                    )
            },
        forall|i: int, j: int| 0 <= i < j < balls@.len() ==> balls@[i] != balls@[j],
        final(world)@.damage == old(world)@.damage,
        final(world)@.heal == old(world)@.heal,
        final(world)@.deaths == old(world)@.deaths,
{
    let mut balls: Vec<Entity> = Vec::new();
    let mut n: usize = 0;
    while n < BALL_COUNT
        invariant
            n <= BALL_COUNT,
            world.wf(),
            world.succeeds(old(world)),
            balls@.len() == n,
            forall|e: Entity| #[trigger]
                old(world)@.entities.contains_key(e) ==> world@.entities.contains_key(e)
                    && world@.entities[e] == old(world)@.entities[e],
            forall|e: Entity| #[trigger]
                world@.entities.contains_key(e) ==> old(world)@.entities.contains_key(e)
                    || balls@.contains(e),
            forall|i: int|
                0 <= i < balls@.len() ==> {
                    &&& !old(world)@.entities.contains_key(#[trigger] balls@[i])
                    &&& world@.entities.contains_key(balls@[i])
                    &&& exists|p: Vec2, v: Vec2|
                        is_ball_start(p, v) && world@.entities[balls@[i]] == #[trigger] ball_components(
                            p,
                            v,
                        )
                },
            forall|i: int, j: int| 0 <= i < j < balls@.len() ==> balls@[i] != balls@[j],
            world@.damage == old(world)@.damage,
            world@.heal == old(world)@.heal,
            world@.deaths == old(world)@.deaths,
        decreases BALL_COUNT - n,
    {
        let x = random_between(-420_000_000, 420_000_000);
        let y = random_between(50_000_000, 220_000_000);
        let vx = random_between(-120_000_000, 120_000_000);
        let vy = random_between(20_000_000, 180_000_000);
        let p = Vec2 { x: Fixed::from_raw(x), y: Fixed::from_raw(y) };
        let v = Vec2 { x: Fixed::from_raw(vx), y: Fixed::from_raw(vy) };
        let ghost before = *world;
        let ghost listed = balls@;
        match spawn_ball(world, p, v) {
            Some(ball) => {
                balls.push(ball);
                proof {
                    assert(is_ball_start(p, v));
                    assert(world@.entities[ball] == ball_components(p, v));
                    assert forall|e: Entity| #[trigger]
                        world@.entities.contains_key(e) implies old(world)@.entities.contains_key(
                        e,
                    ) || balls@.contains(e) by {
                        if e == ball {
                            assert(balls@[n as int] == ball);
                        } else if !old(world)@.entities.contains_key(e) {
                            assert(before@.entities.contains_key(e));
                            assert(listed.contains(e));
                            let k = choose|k: int| 0 <= k < listed.len() && listed[k] == e;
                            assert(balls@[k] == e);
                        }
                    }
                    assert forall|i: int| 0 <= i < balls@.len() implies {
                        &&& !old(world)@.entities.contains_key(#[trigger] balls@[i])
                        &&& world@.entities.contains_key(balls@[i])
                        &&& exists|p: Vec2, v: Vec2|
                            is_ball_start(p, v) && world@.entities[balls@[i]] == #[trigger] ball_components(
                                p,
                                v,
                            )
                    } by {
                        if i < n {
                            assert(balls@[i] == listed[i]);
                            assert(before@.entities.contains_key(listed[i]));
                        }
                    }
                    assert forall|i: int, j: int| 0 <= i < j < balls@.len() implies balls@[i]
                        != balls@[j] by {
                        if j == n {
                            assert(balls@[i] == listed[i]);
                            assert(before@.entities.contains_key(listed[i]));
                        } else {
                            assert(balls@[i] == listed[i] && balls@[j] == listed[j]);
                        }
                    }
                }
            },
            None => {
                return balls;
            },
        }
        n += 1;
    }
    balls
}

/// Lets `acceleration` act on the velocity of `e` for `dt` seconds. Does
/// nothing when `e` is gone or has no velocity.
pub fn apply_gravity(world: &mut World, e: Entity, acceleration: Vec2, dt: Fixed)
    requires
        old(world).wf(),
    ensures
        updated(old(world), final(world), e, accelerated(old(world)@.entities[e], acceleration, dt)),
{
    match world.get(e) {
        Some(c) => match c.velocity {
            Some(v) => {
                world.set(
                    e,
                    Components {
                        position: c.position,
                        velocity: Some(
                            Velocity {
                                lin_vel: v.lin_vel.add(
                                    acceleration.scale(dt.max(Fixed::zero())),
                                ),
                                drag: v.drag,
                            },
                        ),
                        collider: c.collider,
                        health: c.health,
                        lifetime: c.lifetime,
                    },
                );
            },
            None => {
                assert(world@.entities =~= world@.entities.insert(e, c));
            },
        },
        None => {},
    }
}

/// Bounces `e` off the walls of `bounds`. Does nothing when `e` is gone or
/// lacks a position, a velocity or a circular collider.
pub fn bounce_off_walls(
    world: &mut World,
    e: Entity,
    bounds: Bounds,
    restitution: WallRestitution,
)
    requires
        old(world).wf(),
    ensures
        updated(old(world), final(world), e, bounced(old(world)@.entities[e], bounds, restitution)),
{
    match world.get(e) {
        Some(c) => match (c.position, c.velocity, c.collider) {
            (Some(p), Some(v), Some(Collider::Circle(k))) => {
                let mut p = p;
                let mut lin_vel = v.lin_vel;
                bounce_point(&mut p, &mut lin_vel, k.radius, bounds, restitution);
                world.set(
                    e,
                    Components {
                        position: Some(p),
                        velocity: Some(Velocity { lin_vel, drag: v.drag }),
                        collider: c.collider,
                        health: c.health,
                        lifetime: c.lifetime,
                    },
                );
            },
            _ => {
                assert(world@.entities =~= world@.entities.insert(e, c));
            },
        },
        None => {},
    }
}

} // verus!
