//! Square chaser: the player runs about an arena and collects targets that
//! appear at random places and vanish after a while, until the round's time
//! is up.

use vstd::prelude::*;
use crate::collision::walls::{clamp_bounds as clamp_position, Bounds};
use crate::components::collider::{circles_touch, CircleCollider, Collider};
use crate::components::health::Health;
use crate::components::lifetime::Lifetime;
use crate::components::velocity::Velocity;
use crate::math::fixed::{fixed, Fixed, SCALE};
use crate::math::vec2::Vec2;
use crate::games::random::random_between;
use crate::world::{spawned, updated, Components, Entity, World};

verus! {

/// Half the width of the arena, in raw units: 480 units.
pub const ARENA_HALF_W: i64 = 480_000_000;

/// Half the height of the arena, in raw units: 270 units.
pub const ARENA_HALF_H: i64 = 270_000_000;

/// Radius of the player's collider, in raw units: seventy units.
pub const PLAYER_RADIUS: i64 = 70_000_000;

/// Speed of the player along one axis, in raw units: 260 units per second.
pub const PLAYER_SPEED: i64 = 260_000_000;

/// Speed of the player along each axis when it moves diagonally, so that
/// its speed is `PLAYER_SPEED` again: `PLAYER_SPEED` over the square root
/// of two, rounded down.
pub const DIAGONAL_SPEED: i64 = 183_847_763;

/// Radius of a target's collider, in raw units: ten units.
pub const TARGET_RADIUS: i64 = 10_000_000;

/// Seconds that a target stays, in raw units: five seconds.
pub const TARGET_LIFETIME: i64 = 5_000_000;

/// Distance that targets keep from the arena's border, in raw units:
/// twenty units.
pub const TARGET_MARGIN: i64 = 20_000_000;

/// Which of the four direction keys are held down.
#[derive(Clone, Copy, Debug, PartialEq, Eq, Structural)]
pub struct Keys {
    pub up: bool,
    pub down: bool,
    pub right: bool,
    pub left: bool,
}

/// What the camera starts with: a position at the origin and nothing else.
pub open spec fn camera_components() -> Components {
    Components { position: Some(Vec2::spec_zero()), ..Components::spec_empty() }
}

/// What the player starts with: it stands at the origin, at rest and
/// without drag, with one hit point out of one and a collider of
/// `PLAYER_RADIUS`.
pub open spec fn player_components() -> Components {
    Components {
        position: Some(Vec2::spec_zero()),
        velocity: Some(Velocity { lin_vel: Vec2::spec_zero(), drag: fixed(0) }),
        collider: Some(Collider::Circle(CircleCollider { radius: fixed(PLAYER_RADIUS as int) })),
        health: Some(
            Health { current: fixed(SCALE as int), max: fixed(SCALE as int), i_frames: fixed(0) },
        ),
        lifetime: None,
    }
}

/// What the score display starts with: it takes no part in the simulation.
pub open spec fn ui_components() -> Components {
    Components::spec_empty()
}

/// What a target at `position` starts with: a collider of `TARGET_RADIUS`
/// and `TARGET_LIFETIME` seconds to live.
pub open spec fn target_components(position: Vec2) -> Components {
    Components {
        position: Some(position),
        velocity: None,
        collider: Some(Collider::Circle(CircleCollider { radius: fixed(TARGET_RADIUS as int) })),
        health: None,
        lifetime: Some(Lifetime { seconds_left: fixed(TARGET_LIFETIME as int) }),
    }
}

/// Whether targets may appear at `position`: inside the arena, at least
/// `TARGET_MARGIN` from its border.
pub open spec fn is_target_place(position: Vec2) -> bool {
    &&& -ARENA_HALF_W + TARGET_MARGIN <= position.x@ < ARENA_HALF_W - TARGET_MARGIN
    &&& -ARENA_HALF_H + TARGET_MARGIN <= position.y@ < ARENA_HALF_H - TARGET_MARGIN
}

/// The direction that the keys ask for along one axis: one step forward,
/// one step back, or none when both or neither key is held.
pub open spec fn axis_of(forward: bool, back: bool) -> int {
    (if forward { 1int } else { 0int }) - (if back { 1int } else { 0int })
}

/// The velocity that the keys ask for: `PLAYER_SPEED` in the direction of
/// the keys, zero when they cancel out.
pub open spec fn input_velocity(keys: Keys) -> Vec2 {
    let x = axis_of(keys.right, keys.left);
    let y = axis_of(keys.up, keys.down);
    let speed = if x != 0 && y != 0 {
        DIAGONAL_SPEED as int
    } else {
        PLAYER_SPEED as int
    };
    Vec2 { x: fixed(x * speed), y: fixed(y * speed) }
}

/// The components of the player after the keys have been read: its
/// velocity, if it has one, points where the keys ask.
pub open spec fn steered(c: Components, keys: Keys) -> Components {
    match c.velocity {
        Some(v) => Components {
            velocity: Some(Velocity { lin_vel: input_velocity(keys), drag: v.drag }),
            ..c
        },
        None => c,
    }
}

/// The components of the player after it has been confined to the arena.
pub open spec fn confined(c: Components) -> Components {
    match c.position {
        Some(p) => Components {
            position: Some(
                Vec2 {
                    x: p.x.spec_clamp(fixed(-ARENA_HALF_W), fixed(ARENA_HALF_W as int)),
                    y: p.y.spec_clamp(fixed(-ARENA_HALF_H), fixed(ARENA_HALF_H as int)),
                },
            ),
            ..c
        },
        None => c,
    }
}

/// The seconds left in the round after `dt` more have passed; never less
/// than none.
pub open spec fn round_after(time_left: Fixed, dt: Fixed) -> Fixed {
    time_left.spec_sub(dt).spec_max(Fixed::spec_zero())
}

/// The centre and the circle of an entity that has a position and a
/// circular collider.
pub open spec fn circle_of(c: Components) -> Option<(Vec2, CircleCollider)> {
    match (c.position, c.collider) {
        (Some(p), Some(Collider::Circle(k))) => Some((p, k)),
        _ => None,
    }
}

/// Whether the target `t` is there for the player `p` to collect: both
/// are live, both have a position and a circular collider, and their
/// circles touch.
pub open spec fn collectable(world: &World, p: Entity, t: Entity) -> bool {
    &&& world@.entities.contains_key(p)
    &&& world@.entities.contains_key(t)
    &&& circle_of(world@.entities[p]).is_some()
    &&& circle_of(world@.entities[t]).is_some()
    &&& circles_touch(
        circle_of(world@.entities[p]).unwrap().0,
        circle_of(world@.entities[p]).unwrap().1.radius,
        circle_of(world@.entities[t]).unwrap().0,
        circle_of(world@.entities[t]).unwrap().1.radius,
    )
}

/// Spawns the camera. Returns `None`, and changes nothing, exactly when the
/// world is full.
pub fn setup_camera(world: &mut World) -> (camera: Option<Entity>)
    requires
        old(world).wf(),
    ensures
        spawned(old(world), final(world), camera, camera_components()),
{
    world.spawn(
        Components {
            position: Some(Vec2::zero()),
            velocity: None,
            collider: None,
            health: None,
            lifetime: None,
        },
    )
}

/// Spawns the player. Returns `None`, and changes nothing, exactly when the
/// world is full.
pub fn spawn_player(world: &mut World) -> (player: Option<Entity>)
    requires
        old(world).wf(),
    ensures
        spawned(old(world), final(world), player, player_components()),
{
    world.spawn(
        Components {
            position: Some(Vec2::zero()),
            velocity: Some(Velocity::default()),
            collider: Some(Collider::circle(Fixed::from_raw(PLAYER_RADIUS))),
            health: Some(Health::new(Fixed::one())),
            lifetime: None,
        },
    )
}

/// Spawns the score display. Returns `None`, and changes nothing, exactly
/// when the world is full.
pub fn spawn_ui(world: &mut World) -> (ui: Option<Entity>)
    requires
        old(world).wf(),
    ensures
        spawned(old(world), final(world), ui, ui_components()),
{
    world.spawn(Components::empty())
}

/// The velocity that the keys ask for.
pub fn key_velocity(keys: Keys) -> (v: Vec2)
    ensures
        v == input_velocity(keys),
{
    let x: i64 = (if keys.right { 1 } else { 0 }) - (if keys.left { 1 } else { 0 });
    let y: i64 = (if keys.up { 1 } else { 0 }) - (if keys.down { 1 } else { 0 });
    let speed: i64 = if x != 0 && y != 0 { DIAGONAL_SPEED } else { PLAYER_SPEED };
    Vec2 { x: Fixed::from_raw(x * speed), y: Fixed::from_raw(y * speed) }
}

/// Points the player's velocity where the keys ask. Does nothing when the
/// player is gone or has no velocity.
pub fn player_input(world: &mut World, player: Entity, keys: Keys)
    requires
        old(world).wf(),
    ensures
        updated(old(world), final(world), player, steered(old(world)@.entities[player], keys)),
{
    match world.get(player) {
        Some(c) => match c.velocity {
            Some(v) => {
                world.set(
                    player,
                    Components {
                        position: c.position,
                        velocity: Some(Velocity { lin_vel: key_velocity(keys), drag: v.drag }),
                        collider: c.collider,
                        health: c.health,
                        lifetime: c.lifetime,
                    },
                );
            },
            None => {
                assert(world@.entities =~= world@.entities.insert(player, c));
            },
        },
        None => {},
    }
}

/// Confines the player to the arena. Does nothing when the player is gone
/// or has no position.
pub fn clamp_bounds(world: &mut World, player: Entity)
    requires
        old(world).wf(),
    ensures
        updated(old(world), final(world), player, confined(old(world)@.entities[player])),
{
    match world.get(player) {
        Some(c) => match c.position {
            Some(p) => {
                let mut p = p;
                clamp_position(
                    &mut p,
                    Bounds {
                        half_w: Fixed::from_raw(ARENA_HALF_W),
                        half_h: Fixed::from_raw(ARENA_HALF_H),
                    },
                );
                world.set(
                    player,
                    Components {
                        position: Some(p),
                        velocity: c.velocity,
                        collider: c.collider,
                        health: c.health,
                        lifetime: c.lifetime,
                    },
                );
            },
            None => {
                assert(world@.entities =~= world@.entities.insert(player, c));
            },
        },
        None => {},
    }
}

/// Spawns a target at `position`. Returns `None`, and changes nothing,
/// exactly when the world is full.
pub fn spawn_target(world: &mut World, position: Vec2) -> (target: Option<Entity>)
    requires
        old(world).wf(),
    ensures
        spawned(old(world), final(world), target, target_components(position)),
{
    world.spawn(
        Components {
            position: Some(position),
            velocity: None,
            collider: Some(Collider::circle(Fixed::from_raw(TARGET_RADIUS))),
            health: None,
            lifetime: Some(Lifetime::seconds(Fixed::from_raw(TARGET_LIFETIME))),
        },
    )
}

/// Keeps one target in the arena. When the spawn clock is `due` and the
/// `current` target is gone, a new target is spawned at a place drawn at
/// random; otherwise nothing changes. Returns the target that is in the
/// arena afterwards, if any.
pub fn spawn_target_periodically(world: &mut World, due: bool, current: Option<Entity>) -> (target:
    Option<Entity>)
    requires
        old(world).wf(),
    ensures
        final(world).wf(),
        final(world).succeeds(old(world)),
        if due && !(current.is_some() && old(world)@.entities.contains_key(current.unwrap())) {
            exists|position: Vec2|
                is_target_place(position) && #[trigger] spawned(
                    old(world),
                    final(world),
                    target,
                    target_components(position),
                )
        } else {
            &&& final(world)@ == old(world)@
            &&& target == if current.is_some() && old(world)@.entities.contains_key(
                current.unwrap(),
            ) {
                current
            } else {
                None
            }
        },
{
    let present = match current {
        Some(e) => world.contains(e),
        None => false,
    };
    if due && !present {
        let x = random_between(-ARENA_HALF_W + TARGET_MARGIN, ARENA_HALF_W - TARGET_MARGIN);
        let y = random_between(-ARENA_HALF_H + TARGET_MARGIN, ARENA_HALF_H - TARGET_MARGIN);
        let position = Vec2 { x: Fixed::from_raw(x), y: Fixed::from_raw(y) };
        let target = spawn_target(world, position);
        assert(is_target_place(position) && spawned(
            old(world),
            world,
            target,
            target_components(position),
        ));
        target
    } else if present {
        current
    } else {
        None
    }
}

/// Lets the player collect a target: the first of `targets` that the
/// player touches is removed and returned. Nothing changes when the player
/// touches none of them.
pub fn collect_targets(world: &mut World, player: Entity, targets: &Vec<Entity>) -> (collected:
    Option<Entity>)
    requires
        old(world).wf(),
    ensures
        final(world).wf(),
        final(world).succeeds(old(world)),
        match collected {
            Some(t) => {
                &&& exists|i: int|
                    0 <= i < targets@.len() && targets@[i] == t && forall|j: int|
                        0 <= j < i ==> !collectable(old(world), player, #[trigger] targets@[j])
                &&& collectable(old(world), player, t)
                &&& final(world)@.entities == old(world)@.entities.remove(t)
            },
            None => {
                &&& forall|j: int|
                    0 <= j < targets@.len() ==> !collectable(
                        old(world),
                        player,
                        #[trigger] targets@[j],
                    )
                &&& final(world)@.entities == old(world)@.entities
            },
        },
        final(world)@.damage == old(world)@.damage,
        final(world)@.heal == old(world)@.heal,
        final(world)@.deaths == old(world)@.deaths,
{
    let (center, circle) = match world.get(player) {
        Some(c) => match (c.position, c.collider) {
            (Some(p), Some(Collider::Circle(k))) => (p, k),
            _ => {
                return None;
            },
        },
        None => {
            return None;
        },
    };
    let mut i: usize = 0;
    while i < targets.len()
        invariant
            i <= targets.len(),
            world.wf(),
            *world == *old(world),
            world@.entities.contains_key(player),
            circle_of(world@.entities[player]) == Some((center, circle)),
            forall|j: int| 0 <= j < i ==> !collectable(old(world), player, #[trigger] targets@[j]),
        decreases targets.len() - i,
    {
        let t = targets[i];
        match world.get(t) {
            Some(c) => match (c.position, c.collider) {
                (Some(p), Some(Collider::Circle(k))) => {
                    if circle.overlaps(center, &k, p) {
                        world.despawn(t);
                        assert(targets@[i as int] == t);
                        return Some(t);
                    }
                },
                _ => {},
            },
            None => {},
        }
        i += 1;
    }
    None
}

/// Counts the round's time down by `dt` seconds, stopping at none, and
/// reports whether the round is over.
pub fn tick_round(time_left: &mut Fixed, dt: Fixed) -> (over: bool)
    ensures
        *final(time_left) == round_after(*old(time_left), dt),
        over == (final(time_left)@ == 0),
{
    *time_left = time_left.sub(dt).max(Fixed::zero());
    time_left.raw == 0
}

} // verus!
