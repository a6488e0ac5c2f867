//! Axis-aligned boxes.

use vstd::prelude::*;
use crate::math::fixed::{fixed, trunc_div, Fixed};
use crate::math::vec2::Vec2;

verus! {

/// An axis-aligned box given by its two extreme corners.
#[derive(Clone, Copy, Debug, PartialEq, Eq, Structural)]
pub struct Aabb {
    pub min: Vec2,
    pub max: Vec2,
}

impl Aabb {
    /// The box around `center` reaching `half_size` to each side.
    pub open spec fn spec_new(center: Vec2, half_size: Vec2) -> Aabb {
        Aabb { min: center.spec_sub(half_size), max: center.spec_add(half_size) }
    }

    /// Neither side of the box has negative length.
    pub open spec fn is_ordered(self) -> bool {
        self.min.x@ <= self.max.x@ && self.min.y@ <= self.max.y@
    }

    /// Whether `p` lies in the interior of the box.
    pub open spec fn strictly_contains(self, p: Vec2) -> bool {
        self.min.x@ < p.x@ < self.max.x@ && self.min.y@ < p.y@ < self.max.y@
    }

    /// The middle of the box; each coordinate is the mean of the two faces,
    /// rounded toward zero.
    pub open spec fn spec_center(self) -> Vec2 {
        Vec2 {
            x: fixed(trunc_div(self.min.x@ + self.max.x@, 2)),
            y: fixed(trunc_div(self.min.y@ + self.max.y@, 2)),
        }
    }

    /// Whether the two boxes have a point in common, their borders
    /// included.
    pub open spec fn spec_intersects(self, other: Aabb) -> bool {
        &&& self.min.x@ <= other.max.x@ && self.max.x@ >= other.min.x@
        &&& self.min.y@ <= other.max.y@ && self.max.y@ >= other.min.y@
    }

    /// The point of the box that is nearest to `p`: `p` itself when it is
    /// in the box, else a point of the border.
    pub open spec fn spec_closest_point(self, p: Vec2) -> Vec2 {
        Vec2 {
            x: p.x.spec_max(self.min.x).spec_min(self.max.x),
            y: p.y.spec_max(self.min.y).spec_min(self.max.y),
        }
    }

    /// The middle of the box.
    #[verifier::when_used_as_spec(spec_center)]
    pub fn center(self) -> (c: Vec2)
        ensures
            c == self.spec_center(),
    {
        let x: i128 = (self.min.x.raw as i128 + self.max.x.raw as i128) / 2;
        let y: i128 = (self.min.y.raw as i128 + self.max.y.raw as i128) / 2;
        Vec2 { x: Fixed::from_raw(x as i64), y: Fixed::from_raw(y as i64) }
    }

    /// Whether the two boxes have a point in common.
    #[verifier::when_used_as_spec(spec_intersects)]
    pub fn intersects(self, other: Aabb) -> (r: bool)
        ensures
            r == self.spec_intersects(other),
    {
        let x_overlaps = self.min.x.raw <= other.max.x.raw && self.max.x.raw >= other.min.x.raw;
        let y_overlaps = self.min.y.raw <= other.max.y.raw && self.max.y.raw >= other.min.y.raw;
        x_overlaps && y_overlaps
    }

    /// The point of the box that is nearest to `p`.
    #[verifier::when_used_as_spec(spec_closest_point)]
    pub fn closest_point(self, p: Vec2) -> (c: Vec2)
        ensures
            c == self.spec_closest_point(p),
    {
        Vec2 { x: p.x.max(self.min.x).min(self.max.x), y: p.y.max(self.min.y).min(self.max.y) }
    }

    /// The box around `center` reaching `half_size` to each side.
    pub fn new(center: Vec2, half_size: Vec2) -> (r: Aabb)
        ensures
            r == Aabb::spec_new(center, half_size),
    {
        Aabb { min: center.sub(half_size), max: center.add(half_size) }
    }
}

} // verus!
