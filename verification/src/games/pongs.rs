//! Pong: a ball, two paddles, and a gutter above and below. The ball is
//! swept against everything else and speeds up with every bounce; a paddle
//! that runs into a gutter is put back beside it; the ball leaving the
//! field on one side scores for the paddle on the other.

use vstd::prelude::*;
use crate::collision::aabb::Aabb;
use crate::components::collider::{BoxCollider, Collider};
use crate::components::velocity::Velocity;
use crate::math::fixed::{fixed, Fixed};
use crate::math::vec2::{magnitude, Vec2};
use crate::systems::collision::{collided, obstacles_in, resolve_collisions};
use crate::world::{spawned, updated, Components, Entity, World};

verus! {

/// Frame displacement per unit of ball velocity, and the ball's speed
/// along each axis at the start, in raw units: two.
pub const BALL_SPEED: i64 = 2_000_000;

/// Width and height of the ball's footprint, in raw units: thirty units.
pub const BALL_SIZE: i64 = 30_000_000;

/// Width of a paddle, in raw units: twenty units.
pub const PADDLE_WIDTH: i64 = 20_000_000;

/// Height of a paddle, in raw units: seventy units.
pub const PADDLE_HEIGHT: i64 = 70_000_000;

/// Speed of a paddle, in raw units: nine units per frame.
pub const PADDLE_SPEED: i64 = 9_000_000;

/// Height of a gutter, in raw units: twenty units.
pub const GUTTER_HEIGHT: i64 = 20_000_000;

/// Distance of paddles and gutters from the edge of the window, in raw
/// units: twenty units.
pub const PADDING: i64 = 20_000_000;

/// Factor by which the ball speeds up at every bounce: 1.1.
pub const SPEED_UP: i64 = 1_100_000;

/// The side of a box on which another box lies.
#[derive(Clone, Copy, Debug, PartialEq, Eq, Structural)]
pub enum Collision {
    Left,
    Right,
    Top,
    Bottom,
}

/// Points scored so far.
#[derive(Clone, Copy, Debug, PartialEq, Eq, Structural)]
pub struct Score {
    pub player: u32,
    pub ai: u32,
}

/// Who scores in this frame.
#[derive(Clone, Copy, Debug, PartialEq, Eq, Structural)]
pub struct Goals {
    pub player: bool,
    pub ai: bool,
}

/// The magnitude of a number.
pub open spec fn abs(v: int) -> int {
    if v >= 0 {
        v
    } else {
        -v
    }
}

/// A box collider of the given width and height.
pub open spec fn box_of(width: int, height: int) -> Collider {
    Collider::Box(
        BoxCollider {
            half_size: Vec2 {
                x: fixed(width).spec_mul(Fixed::spec_half()),
                y: fixed(height).spec_mul(Fixed::spec_half()),
            },
        },
    )
}

/// What the ball starts with: it is in the middle of the field and moves
/// up and to the right.
pub open spec fn ball_components() -> Components {
    Components {
        position: Some(Vec2::spec_zero()),
        velocity: Some(
            Velocity {
                lin_vel: Vec2 { x: fixed(BALL_SPEED as int), y: fixed(BALL_SPEED as int) },
                drag: fixed(0),
            },
        ),
        collider: Some(box_of(BALL_SIZE as int, BALL_SIZE as int)),
        health: None,
        lifetime: None,
    }
}

/// What a paddle at `position` starts with.
pub open spec fn paddle_components(position: Vec2) -> Components {
    Components {
        position: Some(position),
        velocity: Some(Velocity { lin_vel: Vec2::spec_zero(), drag: fixed(0) }),
        collider: Some(box_of(PADDLE_WIDTH as int, PADDLE_HEIGHT as int)),
        health: None,
        lifetime: None,
    }
}

/// What a gutter of the given width at `position` starts with.
pub open spec fn gutter_components(position: Vec2, width: Fixed) -> Components {
    Components {
        position: Some(position),
        velocity: None,
        collider: Some(
            Collider::Box(
                BoxCollider {
                    half_size: Vec2 {
                        x: width.spec_mul(Fixed::spec_half()),
                        y: fixed(GUTTER_HEIGHT as int).spec_mul(Fixed::spec_half()),
                    },
                },
            ),
        ),
        health: None,
        lifetime: None,
    }
}

/// Where the player's paddle starts in a window of the given size: at
/// mid-height, `PADDING` from the right edge.
pub open spec fn player_place(window: Vec2) -> Vec2 {
    Vec2 { x: window.x.spec_mul(Fixed::spec_half()).spec_sub(fixed(PADDING as int)), y: fixed(0) }
}

/// Where the other paddle starts: at mid-height, `PADDING` from the left
/// edge.
pub open spec fn ai_place(window: Vec2) -> Vec2 {
    Vec2 {
        x: window.x.spec_mul(Fixed::spec_half()).spec_neg().spec_add(fixed(PADDING as int)),
        y: fixed(0),
    }
}

/// Where the upper gutter lies: `PADDING` below the upper edge.
pub open spec fn top_gutter_place(window: Vec2) -> Vec2 {
    Vec2 { x: fixed(0), y: window.y.spec_mul(Fixed::spec_half()).spec_sub(fixed(PADDING as int)) }
}

/// Where the lower gutter lies: `PADDING` above the lower edge.
pub open spec fn bottom_gutter_place(window: Vec2) -> Vec2 {
    Vec2 {
        x: fixed(0),
        y: window.y.spec_neg().spec_mul(Fixed::spec_half()).spec_add(fixed(PADDING as int)),
    }
}

/// Whether `after` differs from `before` by the two new entities `a` and
/// `b`, spawned in this order, as far as the world had room for them.
pub open spec fn spawned_pair(
    before: &World,
    after: &World,
    a: Option<Entity>,
    b: Option<Entity>,
    ca: Components,
    cb: Components,
) -> bool {
    &&& after.wf()
    &&& after.succeeds(before)
    &&& a.is_some() == !before.is_full()
    &&& a.is_none() ==> b.is_none()
    &&& b.is_none() ==> after.is_full()
    &&& after@.entities == match (a, b) {
        (Some(a), Some(b)) => before@.entities.insert(a, ca).insert(b, cb),
        (Some(a), None) => before@.entities.insert(a, ca),
        _ => before@.entities,
    }
    &&& a.is_some() ==> !before@.entities.contains_key(a.unwrap())
    &&& b.is_some() ==> !before@.entities.contains_key(b.unwrap()) && a != b
    &&& after@.damage == before@.damage
    &&& after@.heal == before@.heal
    &&& after@.deaths == before@.deaths
    &&& before.slot_count() <= after.slot_count() <= before.slot_count() + 2
}

/// The side of `wall` on which `ball` lies, if the two boxes meet: judged
/// by where the centre of `ball` lies relative to the point of `wall`
/// nearest to it. A centre inside `wall` counts as below it.
pub open spec fn side_of(ball: Aabb, wall: Aabb) -> Option<Collision> {
    if !ball.spec_intersects(wall) {
        None
    } else {
        let offset = ball.spec_center().spec_sub(wall.spec_closest_point(ball.spec_center()));
        Some(
            if abs(offset.x@) > abs(offset.y@) {
                if offset.x@ < 0 {
                    Collision::Left
                } else {
                    Collision::Right
                }
            } else if offset.y@ > 0 {
                Collision::Top
            } else {
                Collision::Bottom
            },
        )
    }
}

/// The position of a paddle after it has been kept off a gutter: a paddle
/// that meets the gutter from above or below is put back so that the two
/// just touch.
pub open spec fn kept_off(paddle: Vec2, paddle_half: Vec2, gutter: Vec2, gutter_half: Vec2) -> Vec2 {
    match side_of(Aabb::spec_new(paddle, paddle_half), Aabb::spec_new(gutter, gutter_half)) {
        Some(Collision::Top) => Vec2 {
            x: paddle.x,
            y: gutter.y.spec_add(gutter_half.y).spec_add(paddle_half.y),
        },
        Some(Collision::Bottom) => Vec2 {
            x: paddle.x,
            y: gutter.y.spec_sub(gutter_half.y).spec_sub(paddle_half.y),
        },
        _ => paddle,
    }
}

/// The components of a paddle after it has been kept off the gutter with
/// components `g`. Nothing changes unless both have a position and a
/// collider.
pub open spec fn constrained(c: Components, g: Components) -> Components {
    if c.position.is_some() && c.collider.is_some() && g.position.is_some()
        && g.collider.is_some() {
        Components {
            position: Some(
                kept_off(
                    c.position.unwrap(),
                    c.collider.unwrap().spec_half_size(),
                    g.position.unwrap(),
                    g.collider.unwrap().spec_half_size(),
                ),
            ),
            ..c
        }
    } else {
        c
    }
}

/// The components of an entity after one frame at its velocity, of which
/// each unit moves it by `scale`.
pub open spec fn stepped(c: Components, scale: Fixed) -> Components {
    if c.position.is_some() && c.velocity.is_some() {
        Components {
            position: Some(
                c.position.unwrap().spec_add(c.velocity.unwrap().lin_vel.spec_scale(scale)),
            ),
            ..c
        }
    } else {
        c
    }
}

/// The components of an entity after its vertical velocity has been set
/// to `vy`.
pub open spec fn driven(c: Components, vy: int) -> Components {
    match c.velocity {
        Some(v) => Components {
            velocity: Some(
                Velocity { lin_vel: Vec2 { x: v.lin_vel.x, y: fixed(vy) }, drag: v.drag },
            ),
            ..c
        },
        None => c,
    }
}

/// The vertical velocity that the keys ask of the player's paddle; `up`
/// wins over `down`.
pub open spec fn key_speed(up: bool, down: bool) -> int {
    if up {
        PADDLE_SPEED as int
    } else if down {
        -PADDLE_SPEED
    } else {
        0
    }
}

/// The vertical velocity with which a paddle at height `own` follows a
/// ball at height `ball`: upward unless the ball is lower.
pub open spec fn chase_speed(own: Fixed, ball: Fixed) -> int {
    if ball@ >= own@ {
        PADDLE_SPEED as int
    } else {
        -PADDLE_SPEED
    }
}

/// Who scores when the ball has the given components in a field reaching
/// `half_width` to each side: the player once the whole ball is beyond the
/// right edge, the other side once it is beyond the left edge.
pub open spec fn goals_of(c: Components, half_width: Fixed) -> Goals {
    if c.position.is_some() && c.collider.is_some() {
        let x = c.position.unwrap().x;
        let reach = c.collider.unwrap().spec_half_size().x;
        Goals {
            player: x.spec_sub(reach)@ > half_width@,
            ai: x.spec_add(reach)@ < half_width.spec_neg()@,
        }
    } else {
        Goals { player: false, ai: false }
    }
}

/// The components of the ball after a goal: back in the middle, moving to
/// the right.
pub open spec fn served(c: Components) -> Components {
    Components {
        position: if c.position.is_some() {
            Some(Vec2::spec_zero())
        } else {
            None
        },
        velocity: match c.velocity {
            Some(v) => Some(
                Velocity {
                    lin_vel: Vec2 { x: fixed(BALL_SPEED as int), y: fixed(0) },
                    drag: v.drag,
                },
            ),
            None => None,
        },
        ..c
    }
}

/// The score after the goals of one frame have been counted; a count that
/// cannot grow any more stays as it is.
pub open spec fn counted(score: Score, goals: Goals) -> Score {
    Score {
        player: if goals.player && score.player < u32::MAX {
            (score.player + 1) as u32
        } else {
            score.player
        },
        ai: if goals.ai && score.ai < u32::MAX {
            (score.ai + 1) as u32
        } else {
            score.ai
        },
    }
}

/// The side of `wall` on which `ball` lies, if the two boxes meet.
pub fn collide_with_side(ball: Aabb, wall: Aabb) -> (side: Option<Collision>)
    ensures
        side == side_of(ball, wall),
{
    if !ball.intersects(wall) {
        return None;
    }
    let closest_point = wall.closest_point(ball.center());
    let offset = ball.center().sub(closest_point);
    let side = if magnitude(offset.x.raw) > magnitude(offset.y.raw) {
        if offset.x.raw < 0 {
            Collision::Left
        } else {
            Collision::Right
        }
    } else if offset.y.raw > 0 {
        Collision::Top
    } else {
        Collision::Bottom
    };
    Some(side)
}

/// Spawns the ball. Returns `None`, and changes nothing, exactly when the
/// world is full.
pub fn spawn_ball(world: &mut World) -> (ball: Option<Entity>)
    requires
        old(world).wf(),
    ensures
        spawned(old(world), final(world), ball, ball_components()),
{
    world.spawn(
        Components {
            position: Some(Vec2::zero()),
            velocity: Some(
                Velocity::new(
                    Vec2 { x: Fixed::from_raw(BALL_SPEED), y: Fixed::from_raw(BALL_SPEED) },
                ),
            ),
            collider: Some(
                Collider::rectangle(Fixed::from_raw(BALL_SIZE), Fixed::from_raw(BALL_SIZE)),
            ),
            health: None,
            lifetime: None,
        },
    )
}

fn spawn_two(world: &mut World, ca: Components, cb: Components) -> (pair: (
    Option<Entity>,
    Option<Entity>,
))
    requires
        old(world).wf(),
    ensures
        spawned_pair(old(world), final(world), pair.0, pair.1, ca, cb),
{
    match world.spawn(ca) {
        Some(a) => {
            let b = world.spawn(cb);
            (Some(a), b)
        },
        None => (None, None),
    }
}

/// Spawns the player's paddle and the other paddle, in this order, for a
/// window of the given size.
pub fn spawn_paddles(world: &mut World, window: Vec2) -> (pair: (Option<Entity>, Option<Entity>))
    requires
        old(world).wf(),
    ensures
        spawned_pair(
            old(world),
            final(world),
            pair.0,
            pair.1,
            paddle_components(player_place(window)),
            paddle_components(ai_place(window)),
        ),
{
    let half_width = window.x.mul(Fixed::half());
    let padding = Fixed::from_raw(PADDING);
    let collider = Collider::rectangle(Fixed::from_raw(PADDLE_WIDTH), Fixed::from_raw(PADDLE_HEIGHT));
    let player = Components {
        position: Some(Vec2 { x: half_width.sub(padding), y: Fixed::zero() }),
        velocity: Some(Velocity::new(Vec2::zero())),
        collider: Some(collider),
        health: None,
        lifetime: None,
    };
    let ai = Components {
        position: Some(Vec2 { x: half_width.neg().add(padding), y: Fixed::zero() }),
        velocity: Some(Velocity::new(Vec2::zero())),
        collider: Some(collider),
        health: None,
        lifetime: None,
    };
    spawn_two(world, player, ai)
}

/// Spawns the upper and the lower gutter, in this order, for a window of
/// the given size.
pub fn spawn_gutters(world: &mut World, window: Vec2) -> (pair: (Option<Entity>, Option<Entity>))
    requires
        old(world).wf(),
    ensures
        spawned_pair(
            old(world),
            final(world),
            pair.0,
            pair.1,
            gutter_components(top_gutter_place(window), window.x),
            gutter_components(bottom_gutter_place(window), window.x),
        ),
{
    let padding = Fixed::from_raw(PADDING);
    let collider = Collider::rectangle(window.x, Fixed::from_raw(GUTTER_HEIGHT));
    let top = Components {
        position: Some(Vec2 { x: Fixed::zero(), y: window.y.mul(Fixed::half()).sub(padding) }),
        velocity: None,
        collider: Some(collider),
        health: None,
        lifetime: None,
    };
    let bottom = Components {
        position: Some(
            Vec2 { x: Fixed::zero(), y: window.y.neg().mul(Fixed::half()).add(padding) },
        ),
        velocity: None,
        collider: Some(collider),
        health: None,
        lifetime: None,
    };
    spawn_two(world, top, bottom)
}

fn step(world: &mut World, e: Entity, scale: Fixed)
    requires
        old(world).wf(),
    ensures
        updated(old(world), final(world), e, stepped(old(world)@.entities[e], scale)),
{
    match world.get(e) {
        Some(c) => match (c.position, c.velocity) {
            (Some(p), Some(v)) => {
                world.set(
                    e,
                    Components {
                        position: Some(p.add(v.lin_vel.scale(scale))),
                        velocity: c.velocity,
                        collider: c.collider,
                        health: c.health,
                        lifetime: c.lifetime,
                    },
                );
            },
            _ => {
                assert(world@.entities =~= world@.entities.insert(e, c));
            },
        },
        None => {},
    }
}

fn drive(world: &mut World, e: Entity, vy: i64)
    requires
        old(world).wf(),
    ensures
        updated(old(world), final(world), e, driven(old(world)@.entities[e], vy as int)),
{
    match world.get(e) {
        Some(c) => match c.velocity {
            Some(v) => {
                world.set(
                    e,
                    Components {
                        position: c.position,
                        velocity: Some(
                            Velocity {
                                lin_vel: Vec2 { x: v.lin_vel.x, y: Fixed::from_raw(vy) },
                                drag: v.drag,
                            },
                        ),
                        collider: c.collider,
                        health: c.health,
                        lifetime: c.lifetime,
                    },
                );
            },
            None => {
                assert(world@.entities =~= world@.entities.insert(e, c));
            },
        },
        None => {},
    }
}

/// Moves the ball by one frame: `BALL_SPEED` for every unit of its
/// velocity.
pub fn move_ball(world: &mut World, ball: Entity)
    requires
        old(world).wf(),
    ensures
        updated(
            old(world),
            final(world),
            ball,
            stepped(old(world)@.entities[ball], fixed(BALL_SPEED as int)),
        ),
{
    step(world, ball, Fixed::from_raw(BALL_SPEED));
}

/// Moves a paddle by one frame: by its velocity.
pub fn move_paddles(world: &mut World, paddle: Entity)
    requires
        old(world).wf(),
    ensures
        updated(
            old(world),
            final(world),
            paddle,
            stepped(old(world)@.entities[paddle], Fixed::spec_one()),
        ),
{
    step(world, paddle, Fixed::one());
}

/// Sweeps the ball against everything else in the world and lets it
/// bounce, faster than before, off what it hits first.
pub fn handle_collisions(world: &mut World, ball: Entity)
    requires
        old(world).wf(),
    ensures
        updated(
            old(world),
            final(world),
            ball,
            collided(
                old(world)@.entities[ball],
                obstacles_in(old(world)@, ball, old(world).slot_count()),
                fixed(BALL_SPEED as int),
                fixed(SPEED_UP as int),
            ),
        ),
{
    resolve_collisions(world, ball, Fixed::from_raw(BALL_SPEED), Fixed::from_raw(SPEED_UP));
}

/// Sets the vertical velocity of the player's paddle as the keys ask.
pub fn handle_player_input(world: &mut World, paddle: Entity, up: bool, down: bool)
    requires
        old(world).wf(),
    ensures
        updated(
            old(world),
            final(world),
            paddle,
            driven(old(world)@.entities[paddle], key_speed(up, down)),
        ),
{
    let vy: i64 = if up {
        PADDLE_SPEED
    } else if down {
        -PADDLE_SPEED
    } else {
        0
    };
    drive(world, paddle, vy);
}

/// Lets the paddle `ai` follow the ball. Does nothing unless both have a
/// position.
pub fn move_ai(world: &mut World, ai: Entity, ball: Entity)
    requires
        old(world).wf(),
    ensures
        final(world).wf(),
        final(world).succeeds(old(world)),
        if old(world)@.entities.contains_key(ball) && old(world)@.entities.contains_key(ai)
            && old(world)@.entities[ball].position.is_some()
            && old(world)@.entities[ai].position.is_some() {
            updated(
                old(world),
                final(world),
                ai,
                driven(
                    old(world)@.entities[ai],
                    chase_speed(
                        old(world)@.entities[ai].position.unwrap().y,
                        old(world)@.entities[ball].position.unwrap().y,
                    ),
                ),
            )
        } else {
            final(world)@ == old(world)@
        },
{
    let target = match world.get(ball) {
        Some(c) => c.position,
        None => None,
    };
    let own = match world.get(ai) {
        Some(c) => c.position,
        None => None,
    };
    match (target, own) {
        (Some(t), Some(o)) => {
            let vy: i64 = if t.y.raw >= o.y.raw { PADDLE_SPEED } else { -PADDLE_SPEED };
            drive(world, ai, vy);
        },
        _ => {},
    }
}

/// Keeps `paddle` off `gutter`: see `constrained`. Does nothing when
/// either is gone.
pub fn constrain_paddle_position(world: &mut World, paddle: Entity, gutter: Entity)
    requires
        old(world).wf(),
    ensures
        final(world).wf(),
        final(world).succeeds(old(world)),
        if old(world)@.entities.contains_key(gutter) {
            updated(
                old(world),
                final(world),
                paddle,
                constrained(old(world)@.entities[paddle], old(world)@.entities[gutter]),
            )
        } else {
            final(world)@ == old(world)@
        },
{
    let g = match world.get(gutter) {
        Some(g) => g,
        None => {
            return ;
        },
    };
    match world.get(paddle) {
        Some(c) => match (c.position, c.collider, g.position, g.collider) {
            (Some(p), Some(k), Some(gp), Some(gk)) => {
                let paddle_aabb = Aabb::new(p, k.half_size());
                let gutter_aabb = Aabb::new(gp, gk.half_size());
                let y = match collide_with_side(paddle_aabb, gutter_aabb) {
                    Some(Collision::Top) => gp.y.add(gk.half_size().y).add(k.half_size().y),
                    Some(Collision::Bottom) => gp.y.sub(gk.half_size().y).sub(k.half_size().y),
                    _ => p.y,
                };
                world.set(
                    paddle,
                    Components {
                        position: Some(Vec2 { x: p.x, y }),
                        velocity: c.velocity,
                        collider: c.collider,
                        health: c.health,
                        lifetime: c.lifetime,
                    },
                );
            },
            _ => {
                assert(world@.entities =~= world@.entities.insert(paddle, c));
            },
        },
        None => {},
    }
}

/// Tells who scores in this frame: see `goals_of`. Nobody does when the
/// ball is gone.
pub fn detect_goal(world: &World, ball: Entity, half_width: Fixed) -> (goals: Goals)
    requires
        world.wf(),
    ensures
        goals == if world@.entities.contains_key(ball) {
            goals_of(world@.entities[ball], half_width)
        } else {
            Goals { player: false, ai: false }
        },
{
    match world.get(ball) {
        Some(c) => match (c.position, c.collider) {
            (Some(p), Some(k)) => {
                let reach = k.half_size().x;
                Goals {
                    player: p.x.sub(reach).raw > half_width.raw,
                    ai: p.x.add(reach).raw < half_width.neg().raw,
                }
            },
            _ => Goals { player: false, ai: false },
        },
        None => Goals { player: false, ai: false },
    }
}

/// Puts the ball back in the middle after a goal and sends it to the
/// right.
pub fn reset_ball(world: &mut World, ball: Entity)
    requires
        old(world).wf(),
    ensures
        updated(old(world), final(world), ball, served(old(world)@.entities[ball])),
{
    match world.get(ball) {
        Some(c) => {
            world.set(
                ball,
                Components {
                    position: match c.position {
                        Some(_) => Some(Vec2::zero()),
                        None => None,
                    },
                    velocity: match c.velocity {
                        Some(v) => Some(
                            Velocity {
                                lin_vel: Vec2 { x: Fixed::from_raw(BALL_SPEED), y: Fixed::zero() },
                                drag: v.drag,
                            },
                        ),
                        None => None,
                    },
                    collider: c.collider,
                    health: c.health,
                    lifetime: c.lifetime,
                },
            );
        },
        None => {},
    }
}

/// Counts the goals of one frame.
pub fn update_score(score: &mut Score, goals: Goals)
    ensures
        *final(score) == counted(*old(score), goals),
{
    if goals.ai && score.ai < u32::MAX {
        score.ai = score.ai + 1;
    }
    if goals.player && score.player < u32::MAX {
        score.player = score.player + 1;
    }
}

} // verus!
