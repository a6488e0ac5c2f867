//! Two-dimensional vectors over `Fixed`.

use vstd::prelude::*;
use crate::math::fixed::{fixed, Fixed};

verus! {

/// A point or displacement in the plane.
#[derive(Clone, Copy, Debug, PartialEq, Eq, Structural, Hash)]
pub struct Vec2 {
    pub x: Fixed,
    pub y: Fixed,
}

/// Absolute value of an `i64`, widened so that it always fits.
pub fn magnitude(v: i64) -> (r: u128)
    ensures
        r == if v >= 0 { v as int } else { -(v as int) },
        r <= 0x8000_0000_0000_0000,
{
    if v >= 0 {
        v as u128
    } else {
        (-(v as i128)) as u128
    }
}

impl Vec2 {
    /// Sum, component by component.
    pub open spec fn spec_add(self, other: Vec2) -> Vec2 {
        Vec2 { x: self.x.spec_add(other.x), y: self.y.spec_add(other.y) }
    }

    /// Difference, component by component.
    pub open spec fn spec_sub(self, other: Vec2) -> Vec2 {
        Vec2 { x: self.x.spec_sub(other.x), y: self.y.spec_sub(other.y) }
    }

    /// Both components multiplied by `factor`.
    pub open spec fn spec_scale(self, factor: Fixed) -> Vec2 {
        Vec2 { x: self.x.spec_mul(factor), y: self.y.spec_mul(factor) }
    }

    /// Dot product: the saturating sum of the two component products.
    pub open spec fn spec_dot(self, other: Vec2) -> Fixed {
        self.x.spec_mul(other.x).spec_add(self.y.spec_mul(other.y))
    }

    /// Squared length in squared raw units; exact, never saturated.
    pub open spec fn length_squared(self) -> int {
        self.x@ * self.x@ + self.y@ * self.y@
    }

    /// The origin.
    pub open spec fn spec_zero() -> Vec2 {
        Vec2 { x: fixed(0), y: fixed(0) }
    }

    /// The vector with the given components.
    pub fn new(x: Fixed, y: Fixed) -> (r: Vec2)
        ensures
            r == (Vec2 { x, y }),
    {
        Vec2 { x, y }
    }

    /// The origin.
    pub fn zero() -> (r: Vec2)
        ensures
            r == Vec2::spec_zero(),
    {
        Vec2 { x: Fixed::zero(), y: Fixed::zero() }
    }

    /// The vector whose two components both equal `v`.
    pub fn splat(v: Fixed) -> (r: Vec2)
        ensures
            r == (Vec2 { x: v, y: v }),
    {
        Vec2 { x: v, y: v }
    }

    /// Sum, component by component.
    pub fn add(self, other: Vec2) -> (r: Vec2)
        ensures
            r == self.spec_add(other),
    {
        Vec2 { x: self.x.add(other.x), y: self.y.add(other.y) }
    }

    /// Difference, component by component.
    pub fn sub(self, other: Vec2) -> (r: Vec2)
        ensures
            r == self.spec_sub(other),
    {
        Vec2 { x: self.x.sub(other.x), y: self.y.sub(other.y) }
    }

    /// Both components multiplied by `factor`.
    pub fn scale(self, factor: Fixed) -> (r: Vec2)
        ensures
            r == self.spec_scale(factor),
    {
        Vec2 { x: self.x.mul(factor), y: self.y.mul(factor) }
    }

    /// Dot product.
    pub fn dot(self, other: Vec2) -> (r: Fixed)
        ensures
            r == self.spec_dot(other),
    {
        self.x.mul(other.x).add(self.y.mul(other.y))
    }

    /// Whether the vector is strictly shorter than `limit`, decided exactly
    /// on squared lengths. A negative `limit` counts by its magnitude.
    pub fn is_shorter_than(self, limit: Fixed) -> (r: bool)
        ensures
            r == (self.length_squared() < limit@ * limit@),
    {
        let ax: u128 = magnitude(self.x.raw);
        let ay: u128 = magnitude(self.y.raw);
        let al: u128 = magnitude(limit.raw);
        proof {
            let b: int = 0x8000_0000_0000_0000;
            assert(ax * ax <= b * b && ax * ax == self.x@ * self.x@) by (nonlinear_arith)
                requires
                    0 <= ax <= b,
                    ax == self.x@ || ax == -self.x@,
            ;
            assert(ay * ay <= b * b && ay * ay == self.y@ * self.y@) by (nonlinear_arith)
                requires
                    0 <= ay <= b,
                    ay == self.y@ || ay == -self.y@,
            ;
            assert(al * al <= b * b && al * al == limit@ * limit@) by (nonlinear_arith)
                requires
                    0 <= al <= b,
                    al == limit@ || al == -limit@,
            ;
            assert(b * b == 0x4000_0000_0000_0000_0000_0000_0000_0000) by (nonlinear_arith)
                requires
                    b == 0x8000_0000_0000_0000,
            ;
        }
        ax * ax + ay * ay < al * al
    }
}

} // verus!
