//! The geometric footprint of an entity.

use vstd::prelude::*;
use crate::math::fixed::{Fixed, SCALE};
use crate::math::vec2::Vec2;

verus! {

/// A circular footprint.
#[derive(Clone, Copy, Debug, PartialEq, Eq, Structural)]
pub struct CircleCollider {
    pub radius: Fixed,
}

/// Whether two circles touch or overlap: their centres are no further apart
/// than the sum of their radii. Decided exactly on squared raw lengths.
pub open spec fn circles_touch(a_center: Vec2, a_radius: Fixed, b_center: Vec2, b_radius: Fixed) -> bool {
    let dx = a_center.x@ - b_center.x@;
    let dy = a_center.y@ - b_center.y@;
    let reach = a_radius@ + b_radius@;
    dx * dx + dy * dy <= reach * reach
}

/// Absolute value of the difference or sum of two `i64` values.
fn wide_magnitude(v: i128) -> (r: u128)
    requires
        -0x1_0000_0000_0000_0000 <= v <= 0x1_0000_0000_0000_0000,
    ensures
        r == if v >= 0 { v as int } else { -(v as int) },
        r <= 0x1_0000_0000_0000_0000,
{
    if v >= 0 {
        v as u128
    } else {
        (-v) as u128
    }
}

/// A number and its magnitude have the same square.
proof fn lemma_square_of_magnitude(v: int, m: int)
    by (nonlinear_arith)
    requires
        m == v || m == -v,
    ensures
        m * m == v * v,
{
}

/// Squaring keeps the order of numbers that are not negative.
proof fn lemma_squares_are_ordered(a: int, b: int)
    by (nonlinear_arith)
    requires
        0 <= a <= b,
    ensures
        a * a <= b * b,
{
}

/// The square of a successor exceeds the square.
proof fn lemma_square_of_successor(a: int)
    by (nonlinear_arith)
    requires
        0 <= a,
    ensures
        (a + 1) * (a + 1) > a * a,
{
}

impl CircleCollider {
    /// Whether this circle around `center` touches or overlaps `other`
    /// around `other_center`.
    pub fn overlaps(&self, center: Vec2, other: &CircleCollider, other_center: Vec2) -> (r: bool)
        ensures
            r == circles_touch(center, self.radius, other_center, other.radius),
    {
        let dx: u128 = wide_magnitude(center.x.raw as i128 - other_center.x.raw as i128);
        let dy: u128 = wide_magnitude(center.y.raw as i128 - other_center.y.raw as i128);
        assert(dx <= 0xffff_ffff_ffff_ffff && dy <= 0xffff_ffff_ffff_ffff);
        let reach: u128 = wide_magnitude(self.radius.raw as i128 + other.radius.raw as i128);
        proof {
            lemma_square_of_magnitude(center.x@ - other_center.x@, dx as int);
            lemma_square_of_magnitude(center.y@ - other_center.y@, dy as int);
            lemma_square_of_magnitude(self.radius@ + other.radius@, reach as int);
            lemma_squares_are_ordered(0, dx as int);
            lemma_squares_are_ordered(0, dy as int);
            lemma_squares_are_ordered(dx as int, 0xffff_ffff_ffff_ffff);
            lemma_squares_are_ordered(dy as int, 0xffff_ffff_ffff_ffff);
        }
        if dx > reach {
            proof {
                lemma_squares_are_ordered(reach as int + 1, dx as int);
                lemma_square_of_successor(reach as int);
            }
            false
        } else if dy > reach {
            proof {
                lemma_squares_are_ordered(reach as int + 1, dy as int);
                lemma_square_of_successor(reach as int);
            }
            false
        } else if reach > 0xffff_ffff_ffff_ffff {
            proof {
                lemma_squares_are_ordered(0x1_0000_0000_0000_0000, reach as int);
                lemma_squares_are_ordered(reach as int, 0x1_0000_0000_0000_0000);
            }
            if dx == 0 {
                true
            } else {
                proof {
                    lemma_squares_are_ordered(1, dx as int);
                }
                dx * dx - 1 <= u128::MAX - dy * dy
            }
        } else {
            proof {
                lemma_squares_are_ordered(dy as int, reach as int);
                lemma_squares_are_ordered(reach as int, 0xffff_ffff_ffff_ffff);
            }
            dx * dx <= reach * reach - dy * dy
        }
    }

    /// A circle of the given radius.
    pub fn new(radius: Fixed) -> (c: CircleCollider)
        ensures
            c.radius == radius,
    {
        CircleCollider { radius }
    }
}

/// A rectangular footprint, given by half its width and half its height.
#[derive(Clone, Copy, Debug, PartialEq, Eq, Structural)]
pub struct BoxCollider {
    pub half_size: Vec2,
}

/// The footprint of an entity: a circle or an axis-aligned box.
#[derive(Clone, Copy, Debug, PartialEq, Eq, Structural)]
pub enum Collider {
    Circle(CircleCollider),
    Box(BoxCollider),
}

impl Collider {
    /// Half the width and half the height of the footprint; for a circle,
    /// its radius both ways.
    pub open spec fn spec_half_size(&self) -> Vec2 {
        match self {
            Collider::Circle(c) => Vec2 { x: c.radius, y: c.radius },
            Collider::Box(b) => b.half_size,
        }
    }

    /// A circular footprint of the given radius.
    pub fn circle(radius: Fixed) -> (c: Collider)
        ensures
            c == Collider::Circle(CircleCollider { radius }),
    {
        Collider::Circle(CircleCollider { radius })
    }

    /// A rectangular footprint of the given width and height.
    pub fn rectangle(width: Fixed, height: Fixed) -> (c: Collider)
        ensures
            c == Collider::Box(
                BoxCollider {
                    half_size: Vec2 {
                        x: width.spec_mul(Fixed::spec_half()),
                        y: height.spec_mul(Fixed::spec_half()),
                    },
                },
            ),
    {
        Collider::Box(
            BoxCollider {
                half_size: Vec2 { x: width.mul(Fixed::half()), y: height.mul(Fixed::half()) },
            },
        )
    }

    /// Half the width and half the height of the footprint.
    #[verifier::when_used_as_spec(spec_half_size)]
    pub fn half_size(&self) -> (h: Vec2)
        ensures
            h == self.spec_half_size(),
    {
        match self {
            Collider::Circle(c) => Vec2 { x: c.radius, y: c.radius },
            Collider::Box(b) => b.half_size,
        }
    }
}

/// How collider outlines are drawn when debugging.
#[derive(Clone, Copy, Debug, PartialEq, Eq, Structural)]
pub struct ColliderDebug {
    pub enabled: bool,
    pub radius_scale: Fixed,
    pub line_thickness: Fixed,
}

impl Default for ColliderDebug {
    /// Outlines on, at true size, two units thick.
    fn default() -> (d: ColliderDebug)
        ensures
            d.enabled,
            d.radius_scale@ == SCALE,
            d.line_thickness@ == 2 * SCALE,
    {
        ColliderDebug {
            enabled: true,
            radius_scale: Fixed::one(),
            line_thickness: Fixed::from_raw(2 * SCALE),
        }
    }
}

} // verus!
