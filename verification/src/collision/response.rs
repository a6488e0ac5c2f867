//! Choosing the earliest collision among several obstacles and responding
//! to it: back the mover off to just before the contact and reflect its
//! velocity about the struck face.

use vstd::prelude::*;
use crate::collision::aabb::Aabb;
use crate::collision::sweep::{sweep, sweep_ray_vs_aabb, Hit};
use crate::math::fixed::{fixed, mul_raw, Fixed, SCALE};
use crate::math::vec2::Vec2;

verus! {

/// Fraction of the way to the contact point that the mover is allowed to
/// travel: 0.999, so that it comes to rest just short of the surface.
pub const BACK_OFF: i64 = 999_000;

/// A rectangular obstacle: its centre and its half extents.
#[derive(Clone, Copy, Debug, PartialEq, Eq, Structural)]
pub struct Obstacle {
    pub position: Vec2,
    pub half_size: Vec2,
}

/// The obstacle's box grown by `radius` on every side, against which the
/// centre of a circular mover of that radius is swept.
pub open spec fn expanded_bounds(obstacle: Obstacle, radius: Fixed) -> Aabb {
    Aabb::spec_new(obstacle.position, obstacle.half_size.spec_add(Vec2 { x: radius, y: radius }))
}

/// The collision with the smallest entry time among `obstacles`; of several
/// with that time, the one listed first.
pub open spec fn earliest_hit(
    origin: Vec2,
    movement: Vec2,
    radius: Fixed,
    obstacles: Seq<Obstacle>,
) -> Option<Hit>
    decreases obstacles.len(),
{
    if obstacles.len() == 0 {
        None
    } else {
        let before = earliest_hit(origin, movement, radius, obstacles.drop_last());
        let here = sweep(origin, movement, expanded_bounds(obstacles.last(), radius));
        match (before, here) {
            (Some(a), Some(b)) => if b.time@ < a.time@ {
                Some(b)
            } else {
                Some(a)
            },
            (Some(a), None) => Some(a),
            (None, _) => here,
        }
    }
}

/// Where a mover comes to rest that started at `origin` and met a surface at
/// `time` along `movement`.
pub open spec fn resting_position(origin: Vec2, movement: Vec2, time: Fixed) -> Vec2 {
    origin.spec_add(movement.spec_scale(time).spec_scale(fixed(BACK_OFF as int)))
}

/// `velocity` mirrored about the surface with unit normal `normal`:
/// `v - 2 (v . n) n`.
pub open spec fn reflect(velocity: Vec2, normal: Vec2) -> Vec2 {
    let d = velocity.spec_dot(normal);
    velocity.spec_sub(normal.spec_scale(d.spec_add(d)))
}

/// Position after collision handling.
pub open spec fn resolved_position(
    position: Vec2,
    velocity: Vec2,
    radius: Fixed,
    speed_scale: Fixed,
    obstacles: Seq<Obstacle>,
) -> Vec2 {
    let movement = velocity.spec_scale(speed_scale);
    match earliest_hit(position, movement, radius, obstacles) {
        Some(hit) => resting_position(position, movement, hit.time),
        None => position,
    }
}

/// Velocity after collision handling.
pub open spec fn resolved_velocity(
    position: Vec2,
    velocity: Vec2,
    radius: Fixed,
    speed_scale: Fixed,
    obstacles: Seq<Obstacle>,
    restitution: Fixed,
) -> Vec2 {
    match earliest_hit(position, velocity.spec_scale(speed_scale), radius, obstacles) {
        Some(hit) => reflect(velocity, hit.normal).spec_scale(restitution),
        None => velocity,
    }
}

/// Sweeps a circular mover of the given `radius` from `origin` along
/// `movement` against every obstacle and returns the earliest collision.
pub fn closest_collision(
    origin: Vec2,
    movement: Vec2,
    radius: Fixed,
    obstacles: &Vec<Obstacle>,
) -> (closest: Option<Hit>)
    ensures
        closest == earliest_hit(origin, movement, radius, obstacles@),
{
    let mut closest: Option<Hit> = None;
    let mut i: usize = 0;
    while i < obstacles.len()
        invariant
            i <= obstacles.len(),
            closest == earliest_hit(origin, movement, radius, obstacles@.take(i as int)),
        decreases obstacles.len() - i,
    {
        let obstacle = obstacles[i];
        let bounds = Aabb::new(obstacle.position, obstacle.half_size.add(Vec2::splat(radius)));
        let here = sweep_ray_vs_aabb(origin, movement, bounds);
        proof {
            let next = obstacles@.take(i + 1);
            assert(next.drop_last() == obstacles@.take(i as int));
            assert(next.last() == obstacle);
        }
        match here {
            Some(hit) => {
                let earlier = match closest {
                    Some(best) => hit.time.raw < best.time.raw,
                    None => true,
                };
                if earlier {
                    closest = Some(hit);
                }
            },
            None => {},
        }
        i += 1;
    }
    proof {
        assert(obstacles@.take(obstacles.len() as int) == obstacles@);
    }
    closest
}

/// Velocity after bouncing off a surface with unit normal `normal`.
pub fn reflect_velocity(velocity: Vec2, normal: Vec2) -> (r: Vec2)
    ensures
        r == reflect(velocity, normal),
{
    let d = velocity.dot(normal);
    velocity.sub(normal.scale(d.add(d)))
}

/// Resolves this frame's collision of a circular mover.
///
/// The mover is swept from `position` along `velocity * speed_scale`
/// against the obstacles. On a collision it is placed just short of the
/// contact, its velocity is reflected about the struck face and multiplied
/// by `restitution`, and the function returns `true`. Without a collision
/// nothing changes.
pub fn handle_collisions(
    position: &mut Vec2,
    velocity: &mut Vec2,
    radius: Fixed,
    speed_scale: Fixed,
    obstacles: &Vec<Obstacle>,
    restitution: Fixed,
) -> (collided: bool)
    ensures
        collided == earliest_hit(
            *old(position),
            old(velocity).spec_scale(speed_scale),
            radius,
            obstacles@,
        ).is_some(),
        *final(position) == resolved_position(
            *old(position),
            *old(velocity),
            radius,
            speed_scale,
            obstacles@,
        ),
        *final(velocity) == resolved_velocity(
            *old(position),
            *old(velocity),
            radius,
            speed_scale,
            obstacles@,
            restitution,
        ),
{
    let old_pos = *position;
    let movement = velocity.scale(speed_scale);
    match closest_collision(old_pos, movement, radius, obstacles) {
        Some(hit) => {
            *position = old_pos.add(movement.scale(hit.time).scale(Fixed::from_raw(BACK_OFF)));
            *velocity = reflect_velocity(*velocity, hit.normal).scale(restitution);
            true
        },
        None => false,
    }
}

/// Reflection off a vertical face reverses the horizontal velocity and
/// keeps the vertical one, as long as twice the horizontal speed can be
/// represented.
pub proof fn lemma_reflect_off_vertical_face(velocity: Vec2, normal: Vec2)
    requires
        normal.y@ == 0,
        normal.x@ == SCALE || normal.x@ == -SCALE,
        -(i64::MAX / 2) <= velocity.x@ <= i64::MAX / 2,
    ensures
        reflect(velocity, normal) == (Vec2 { x: fixed(-velocity.x@), y: velocity.y }),
{
    lemma_unit_products(velocity.x@);
    lemma_unit_products(2 * velocity.x@);
    lemma_unit_products(-2 * velocity.x@);
    lemma_zero_products(velocity.y@);
    let d = velocity.spec_dot(normal);
    lemma_zero_products(d@ + d@);
}

/// Reflection off a horizontal face reverses the vertical velocity and
/// keeps the horizontal one, as long as twice the vertical speed can be
/// represented.
pub proof fn lemma_reflect_off_horizontal_face(velocity: Vec2, normal: Vec2)
    requires
        normal.x@ == 0,
        normal.y@ == SCALE || normal.y@ == -SCALE,
        -(i64::MAX / 2) <= velocity.y@ <= i64::MAX / 2,
    ensures
        reflect(velocity, normal) == (Vec2 { x: velocity.x, y: fixed(-velocity.y@) }),
{
    lemma_unit_products(velocity.y@);
    lemma_unit_products(2 * velocity.y@);
    lemma_unit_products(-2 * velocity.y@);
    lemma_zero_products(velocity.x@);
    let d = velocity.spec_dot(normal);
    lemma_zero_products(d@ + d@);
}

/// Multiplying by one, or by minus one, is exact.
proof fn lemma_unit_products(a: int)
    requires
        i64::MIN < a <= i64::MAX,
    ensures
        mul_raw(a, SCALE as int) == a,
        mul_raw(SCALE as int, a) == a,
        mul_raw(a, -SCALE) == -a,
        mul_raw(-SCALE, a) == -a,
{
    let s = SCALE as int;
    assert(a * s == s * a && a * (-s) == -(a * s) && (-s) * a == -(a * s)) by (nonlinear_arith);
    if a >= 0 {
        assert((a * s) / s == a) by (nonlinear_arith)
            requires
                s == 1_000_000,
        ;
        assert(-(-(a * s)) == a * s);
    } else {
        assert(((-a) * s) / s == -a && (-a) * s == -(a * s)) by (nonlinear_arith)
            requires
                s == 1_000_000,
        ;
    }
}

/// Multiplying by zero gives zero.
proof fn lemma_zero_products(a: int)
    ensures
        mul_raw(a, 0) == 0,
        mul_raw(0, a) == 0,
{
    assert(a * 0 == 0 && 0 * a == 0) by (nonlinear_arith);
}

} // verus!
