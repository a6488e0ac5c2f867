//! Pixel dodge: the player slides along the floor of the arena while
//! hazards fall from above, ever faster and ever more often.

use vstd::prelude::*;
use crate::collision::walls::{
    bounced_coordinate,
    bounced_speed,
    clamp_player as clamp_point,
    high_wall,
    low_wall,
};
use crate::components::collider::{CircleCollider, Collider};
use crate::components::health::Health;
use crate::components::lifetime::Lifetime;
use crate::components::velocity::Velocity;
use crate::games::random::random_between;
use crate::math::fixed::{fixed, Fixed, SCALE};
use crate::math::vec2::Vec2;
use crate::world::{spawned, updated, Components, Entity, World};

verus! {

/// Half the width of the arena, in raw units: 480 units.
pub const HALF_W: i64 = 480_000_000;

/// Half the height of the arena, in raw units: 270 units.
pub const HALF_H: i64 = 270_000_000;

/// Radius of the player and of a hazard, in raw units: twelve units.
pub const RADIUS: i64 = 12_000_000;

/// Drag on the player, in raw units: eight tenths per second.
pub const PLAYER_DRAG: i64 = 800_000;

/// Speed that a key gives the player, in raw units: 300 units per second.
pub const PLAYER_SPEED: i64 = 300_000_000;

/// Seconds that a hazard stays, in raw units: six seconds.
pub const HAZARD_LIFETIME: i64 = 6_000_000;

/// Distance that hazards keep from the side walls, in raw units: sixteen
/// units.
pub const HAZARD_MARGIN: i64 = 16_000_000;

/// Height above the arena at which hazards appear, in raw units: twenty
/// units.
pub const HAZARD_HEIGHT: i64 = 290_000_000;

/// Factor by which the time between two hazards shrinks with every hazard:
/// 0.97.
pub const PACE: i64 = 970_000;

/// Shortest time between two hazards, in raw units: a quarter of a second.
pub const SHORTEST_INTERVAL: i64 = 250_000;

/// Speed that every hazard adds to the fall of the next, in raw units: five
/// units per second.
pub const SPEED_STEP: i64 = 5_000_000;

/// How often hazards appear and how fast they fall.
#[derive(Clone, Copy, Debug, PartialEq, Eq, Structural)]
pub struct SpawnTuning {
    /// Seconds between two hazards.
    pub interval: Fixed,
    /// Vertical velocity of the next hazard; negative is downward.
    pub fall_speed: Fixed,
}

impl SpawnTuning {
    /// The tuning after one more hazard: the interval is multiplied by
    /// `PACE` but does not go below `SHORTEST_INTERVAL`, and the fall gains
    /// `SPEED_STEP`.
    pub open spec fn quickened(self) -> SpawnTuning {
        SpawnTuning {
            interval: self.interval.spec_mul(fixed(PACE as int)).spec_max(
                fixed(SHORTEST_INTERVAL as int),
            ),
            fall_speed: self.fall_speed.spec_sub(fixed(SPEED_STEP as int)),
        }
    }
}

impl Default for SpawnTuning {
    /// A hazard every eight tenths of a second, falling at 260 units per
    /// second.
    fn default() -> (t: SpawnTuning)
        ensures
            t.interval@ == 800_000,
            t.fall_speed@ == -260_000_000,
    {
        SpawnTuning { interval: Fixed::from_raw(800_000), fall_speed: Fixed::from_raw(-260_000_000) }
    }
}

/// What the player starts with: it rests on the middle of the floor with
/// one hit point out of one.
pub open spec fn player_components() -> Components {
    Components {
        position: Some(Vec2 { x: fixed(0), y: fixed(-HALF_H) }),
        velocity: Some(Velocity { lin_vel: Vec2::spec_zero(), drag: fixed(PLAYER_DRAG as int) }),
        collider: Some(Collider::Circle(CircleCollider { radius: fixed(RADIUS as int) })),
        health: Some(
            Health { current: fixed(SCALE as int), max: fixed(SCALE as int), i_frames: fixed(0) },
        ),
        lifetime: None,
    }
}

/// What a hazard starts with when it appears at the horizontal place `x`
/// and falls at `fall_speed`.
pub open spec fn hazard_components(x: Fixed, fall_speed: Fixed) -> Components {
    Components {
        position: Some(Vec2 { x, y: fixed(HAZARD_HEIGHT as int) }),
        velocity: Some(Velocity { lin_vel: Vec2 { x: fixed(0), y: fall_speed }, drag: fixed(0) }),
        collider: Some(Collider::Circle(CircleCollider { radius: fixed(RADIUS as int) })),
        health: None,
        lifetime: Some(Lifetime { seconds_left: fixed(HAZARD_LIFETIME as int) }),
    }
}

/// The components of the player after the keys have been read. A key that
/// is held alone sets the velocity to `PLAYER_SPEED` its way; no key, or
/// both, leaves the velocity to drag.
pub open spec fn steered(c: Components, left: bool, right: bool) -> Components {
    match c.velocity {
        Some(v) if left != right => Components {
            velocity: Some(
                Velocity {
                    lin_vel: Vec2 {
                        x: fixed(if right { PLAYER_SPEED as int } else { -PLAYER_SPEED }),
                        y: fixed(0),
                    },
                    drag: v.drag,
                },
            ),
            ..c
        },
        _ => c,
    }
}

/// The components of the player after it has bounced off the side walls.
/// Only an entity with a position, a velocity and a circular collider
/// bounces.
pub open spec fn kept_between_walls(c: Components, half_w: Fixed) -> Components {
    match (c.position, c.velocity, c.collider) {
        (Some(p), Some(v), Some(Collider::Circle(k))) => Components {
            position: Some(
                Vec2 {
                    x: bounced_coordinate(
                        p.x,
                        low_wall(half_w, k.radius),
                        high_wall(half_w, k.radius),
                    ),
                    y: p.y,
                },
            ),
            velocity: Some(
                Velocity {
                    lin_vel: Vec2 {
                        x: bounced_speed(
                            p.x,
                            v.lin_vel.x,
                            low_wall(half_w, k.radius),
                            high_wall(half_w, k.radius),
                            Fixed::spec_one(),
                            Fixed::spec_one(),
                        ),
                        y: v.lin_vel.y,
                    },
                    drag: v.drag,
                },
            ),
            ..c
        },
        _ => c,
    }
}

/// Spawns the player. Returns `None`, and changes nothing, exactly when the
/// world is full.
pub fn spawn_player(world: &mut World) -> (player: Option<Entity>)
    requires
        old(world).wf(),
    ensures
        spawned(old(world), final(world), player, player_components()),
{
    world.spawn(
        Components {
            position: Some(Vec2 { x: Fixed::zero(), y: Fixed::from_raw(-HALF_H) }),
            velocity: Some(Velocity::with_drag(Vec2::zero(), Fixed::from_raw(PLAYER_DRAG))),
            collider: Some(Collider::circle(Fixed::from_raw(RADIUS))),
            health: Some(Health::new(Fixed::one())),
            lifetime: None,
        },
    )
}

/// Reads the keys: see `steered`. Does nothing when the player is gone or
/// has no velocity.
pub fn player_input(world: &mut World, player: Entity, left: bool, right: bool)
    requires
        old(world).wf(),
    ensures
        updated(old(world), final(world), player, steered(old(world)@.entities[player], left, right)),
{
    match world.get(player) {
        Some(c) => {
            match c.velocity {
                Some(v) => {
                    if left != right {
                        let x: i64 = if right { PLAYER_SPEED } else { -PLAYER_SPEED };
                        world.set(
                            player,
                            Components {
                                position: c.position,
                                velocity: Some(
                                    Velocity {
                                        lin_vel: Vec2 { x: Fixed::from_raw(x), y: Fixed::zero() },
                                        drag: v.drag,
                                    },
                                ),
                                collider: c.collider,
                                health: c.health,
                                lifetime: c.lifetime,
                            },
                        );
                        return ;
                    }
                },
                None => {},
            }
            assert(world@.entities =~= world@.entities.insert(player, c));
        },
        None => {},
    }
}

/// Keeps the player between the side walls of an arena reaching `half_w`
/// to each side, turning it round when it has run into one.
pub fn clamp_player(world: &mut World, player: Entity, half_w: Fixed)
    requires
        old(world).wf(),
    ensures
        updated(
            old(world),
            final(world),
            player,
            kept_between_walls(old(world)@.entities[player], half_w),
        ),
{
    match world.get(player) {
        Some(c) => match (c.position, c.velocity, c.collider) {
            (Some(p), Some(v), Some(Collider::Circle(k))) => {
                let mut p = p;
                let mut lin_vel = v.lin_vel;
                clamp_point(&mut p, &mut lin_vel, k.radius, half_w);
                world.set(
                    player,
                    Components {
                        position: Some(p),
                        velocity: Some(Velocity { lin_vel, drag: v.drag }),
                        collider: c.collider,
                        health: c.health,
                        lifetime: c.lifetime,
                    },
                );
            },
            _ => {
                assert(world@.entities =~= world@.entities.insert(player, c));
            },
        },
        None => {},
    }
}

/// Spawns a hazard at the horizontal place `x`, falling at `fall_speed`.
/// Returns `None`, and changes nothing, exactly when the world is full.
pub fn spawn_hazard(world: &mut World, x: Fixed, fall_speed: Fixed) -> (hazard: Option<Entity>)
    requires
        old(world).wf(),
    ensures
        spawned(old(world), final(world), hazard, hazard_components(x, fall_speed)),
{
    world.spawn(
        Components {
            position: Some(Vec2 { x, y: Fixed::from_raw(HAZARD_HEIGHT) }),
            velocity: Some(Velocity::new(Vec2 { x: Fixed::zero(), y: fall_speed })),
            collider: Some(Collider::circle(Fixed::from_raw(RADIUS))),
            health: None,
            lifetime: Some(Lifetime::seconds(Fixed::from_raw(HAZARD_LIFETIME))),
        },
    )
}

/// When the spawn clock is `due`, drops a hazard from a place above the
/// arena drawn at random and quickens the tuning for the next one.
/// Otherwise nothing changes.
pub fn spawn_hazards(world: &mut World, tuning: &mut SpawnTuning, due: bool) -> (hazard: Option<
    Entity,
>)
    requires
        old(world).wf(),
    ensures
        final(world).wf(),
        final(world).succeeds(old(world)),
        if due {
            &&& *final(tuning) == old(tuning).quickened()
            &&& exists|x: Fixed|
                -HALF_W + HAZARD_MARGIN <= x@ < HALF_W - HAZARD_MARGIN && #[trigger] spawned(
                    old(world),
                    final(world),
                    hazard,
                    hazard_components(x, old(tuning).fall_speed),
                )
        } else {
            &&& *final(tuning) == *old(tuning)
            &&& final(world)@ == old(world)@
            &&& hazard.is_none()
        },
{
    if due {
        let x = Fixed::from_raw(random_between(-HALF_W + HAZARD_MARGIN, HALF_W - HAZARD_MARGIN));
        let hazard = spawn_hazard(world, x, tuning.fall_speed);
        assert(spawned(old(world), world, hazard, hazard_components(x, old(tuning).fall_speed)));
        tuning.interval = tuning.interval.mul(Fixed::from_raw(PACE)).max(
            Fixed::from_raw(SHORTEST_INTERVAL),
        );
        tuning.fall_speed = tuning.fall_speed.sub(Fixed::from_raw(SPEED_STEP));
        hazard
    } else {
        None
    }
}

} // verus!
