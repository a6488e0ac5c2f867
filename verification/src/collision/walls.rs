//! Bouncing off the walls of a rectangular arena centred on the origin:
//! a mover that has left the arena is put back on the wall it crossed and
//! the velocity component that carried it there is reversed and damped.

use vstd::prelude::*;
use crate::math::fixed::Fixed;
use crate::math::vec2::Vec2;

verus! {

/// Half extents of an arena centred on the origin.
#[derive(Clone, Copy, Debug, PartialEq, Eq, Structural)]
pub struct Bounds {
    pub half_w: Fixed,
    pub half_h: Fixed,
}

/// Fraction of the speed that survives a bounce, for each wall.
#[derive(Clone, Copy, Debug, PartialEq, Eq, Structural)]
pub struct WallRestitution {
    pub left: Fixed,
    pub right: Fixed,
    pub bottom: Fixed,
    pub top: Fixed,
}

/// A coordinate after the bounce: moved onto the wall it had crossed.
pub open spec fn bounced_coordinate(p: Fixed, lo: Fixed, hi: Fixed) -> Fixed {
    if p@ < lo@ {
        lo
    } else if p@ > hi@ {
        hi
    } else {
        p
    }
}

/// A velocity component after the bounce: reversed and multiplied by the
/// restitution of the wall that was crossed, unchanged inside the arena.
pub open spec fn bounced_speed(
    p: Fixed,
    v: Fixed,
    lo: Fixed,
    hi: Fixed,
    low_restitution: Fixed,
    high_restitution: Fixed,
) -> Fixed {
    if p@ < lo@ {
        v.spec_neg().spec_mul(low_restitution)
    } else if p@ > hi@ {
        v.spec_neg().spec_mul(high_restitution)
    } else {
        v
    }
}

/// Lowest coordinate that the centre of a mover of the given radius may
/// take in an arena reaching `half` to each side.
pub open spec fn low_wall(half: Fixed, radius: Fixed) -> Fixed {
    half.spec_neg().spec_add(radius)
}

/// Highest coordinate that the centre of a mover of the given radius may
/// take in an arena reaching `half` to each side.
pub open spec fn high_wall(half: Fixed, radius: Fixed) -> Fixed {
    half.spec_sub(radius)
}

/// Bounces one coordinate between the walls at `lo` and `hi`. The lower
/// wall is tested first, as it matters when `lo` exceeds `hi`.
pub fn bounce_axis(
    p: Fixed,
    v: Fixed,
    lo: Fixed,
    hi: Fixed,
    low_restitution: Fixed,
    high_restitution: Fixed,
) -> (r: (Fixed, Fixed))
    ensures
        r.0 == bounced_coordinate(p, lo, hi),
        r.1 == bounced_speed(p, v, lo, hi, low_restitution, high_restitution),
{
    if p.raw < lo.raw {
        (lo, v.neg().mul(low_restitution))
    } else if p.raw > hi.raw {
        (hi, v.neg().mul(high_restitution))
    } else {
        (p, v)
    }
}

/// Keeps a circular mover inside the arena on both axes, bouncing it off
/// whichever walls it has crossed.
pub fn bounce_off_walls(
    position: &mut Vec2,
    velocity: &mut Vec2,
    radius: Fixed,
    bounds: Bounds,
    restitution: WallRestitution,
)
    ensures
        final(position).x == bounced_coordinate(
            old(position).x,
            low_wall(bounds.half_w, radius),
            high_wall(bounds.half_w, radius),
        ),
        final(position).y == bounced_coordinate(
            old(position).y,
            low_wall(bounds.half_h, radius),
            high_wall(bounds.half_h, radius),
        ),
        final(velocity).x == bounced_speed(
            old(position).x,
            old(velocity).x,
            low_wall(bounds.half_w, radius),
            high_wall(bounds.half_w, radius),
            restitution.left,
            restitution.right,
        ),
        final(velocity).y == bounced_speed(
            old(position).y,
            old(velocity).y,
            low_wall(bounds.half_h, radius),
            high_wall(bounds.half_h, radius),
            restitution.bottom,
            restitution.top,
        ),
{
    let min_x = bounds.half_w.neg().add(radius);
    let max_x = bounds.half_w.sub(radius);
    let min_y = bounds.half_h.neg().add(radius);
    let max_y = bounds.half_h.sub(radius);
    let x = bounce_axis(position.x, velocity.x, min_x, max_x, restitution.left, restitution.right);
    let y = bounce_axis(position.y, velocity.y, min_y, max_y, restitution.bottom, restitution.top);
    *position = Vec2 { x: x.0, y: y.0 };
    *velocity = Vec2 { x: x.1, y: y.1 };
}

/// Keeps a circular mover between the left and right walls, reversing its
/// horizontal velocity in full when it has crossed one. The vertical axis
/// is left alone.
pub fn clamp_player(position: &mut Vec2, velocity: &mut Vec2, radius: Fixed, half_w: Fixed)
    ensures
        final(position).x == bounced_coordinate(
            old(position).x,
            low_wall(half_w, radius),
            high_wall(half_w, radius),
        ),
        final(position).y == old(position).y,
        final(velocity).x == bounced_speed(
            old(position).x,
            old(velocity).x,
            low_wall(half_w, radius),
            high_wall(half_w, radius),
            Fixed::spec_one(),
            Fixed::spec_one(),
        ),
        final(velocity).y == old(velocity).y,
{
    let min_x = half_w.neg().add(radius);
    let max_x = half_w.sub(radius);
    let x = bounce_axis(position.x, velocity.x, min_x, max_x, Fixed::one(), Fixed::one());
    *position = Vec2 { x: x.0, y: position.y };
    *velocity = Vec2 { x: x.1, y: velocity.y };
}

/// Confines a position to the arena without touching any velocity.
pub fn clamp_bounds(position: &mut Vec2, bounds: Bounds)
    ensures
        final(position).x == old(position).x.spec_clamp(bounds.half_w.spec_neg(), bounds.half_w),
        final(position).y == old(position).y.spec_clamp(bounds.half_h.spec_neg(), bounds.half_h),
{
    *position = Vec2 {
        x: position.x.clamp(bounds.half_w.neg(), bounds.half_w),
        y: position.y.clamp(bounds.half_h.neg(), bounds.half_h),
    };
}

} // verus!
