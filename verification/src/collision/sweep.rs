//! Swept ray-against-box test by the slab method, decided in exact rational
//! arithmetic.
//!
//! Times along the ray are fractions of the frame's displacement: 0 is the
//! ray's origin, 1 its far end. Each axis yields the window of times during
//! which the ray is between the box's two faces on that axis; the ray is
//! inside the box while both windows are open.

use vstd::prelude::*;
use crate::collision::aabb::Aabb;
use crate::math::fixed::{fixed, Fixed, SCALE};
use crate::math::vec2::Vec2;

verus! {

/// Rays shorter than this many raw units (a hundredth of a unit) count as
/// standing still.
pub const MIN_SWEEP_LENGTH: i64 = 10_000;

/// A time along the ray as an exact fraction; `den` is positive.
pub struct Ratio {
    pub num: int,
    pub den: int,
}

/// `a < b` for fractions with positive denominators.
pub open spec fn ratio_lt(a: Ratio, b: Ratio) -> bool {
    a.num * b.den < b.num * a.den
}

/// The times during which a ray is between the two faces of one axis.
pub enum Span {
    /// At no time: the ray does not move along this axis and starts outside
    /// the open interval between the faces.
    Never,
    /// At all times: the ray does not move along this axis and starts
    /// strictly between the faces.
    Always,
    /// From `near` to `far`.
    Between { near: Ratio, far: Ratio },
}

/// The window of one axis, with faces at `lo` and `hi`, for a ray starting at
/// `origin` and displaced by `dir`.
pub open spec fn axis_span(lo: int, hi: int, origin: int, dir: int) -> Span {
    if dir == 0 {
        if lo < origin && origin < hi {
            Span::Always
        } else {
            Span::Never
        }
    } else if dir > 0 {
        Span::Between {
            near: Ratio { num: if lo <= hi { lo - origin } else { hi - origin }, den: dir },
            far: Ratio { num: if lo <= hi { hi - origin } else { lo - origin }, den: dir },
        }
    } else {
        Span::Between {
            near: Ratio { num: if lo <= hi { origin - hi } else { origin - lo }, den: -dir },
            far: Ratio { num: if lo <= hi { origin - lo } else { origin - hi }, den: -dir },
        }
    }
}

/// Sign of the surface normal on one axis. For an ordered box, also one
/// without width, it points against the motion: the face that is struck
/// is the one that the mover comes upon first.
pub open spec fn axis_sign(lo: int, hi: int, dir: int) -> int {
    if (dir > 0 && lo > hi) || (dir < 0 && lo <= hi) {
        1
    } else {
        -1
    }
}

/// A collision: when along the ray it happens, and the unit normal of the
/// face that was struck.
#[derive(Clone, Copy, Debug, PartialEq, Eq, Structural)]
pub struct Hit {
    pub time: Fixed,
    pub normal: Vec2,
}

/// The entry time as a `Fixed`: the fraction rounded down, and zero for a
/// ray that starts inside.
pub open spec fn entry_time(enter: Ratio) -> int {
    if enter.num <= 0 {
        0
    } else {
        (enter.num * SCALE) / enter.den
    }
}

/// The hit, if any, for a ray that is inside the box from `enter` to `exit`:
/// the window must be non-empty, must not have closed before the ray starts
/// and must open before the ray ends.
pub open spec fn window_hit(enter: Ratio, exit: Ratio, normal: Vec2) -> Option<Hit> {
    if ratio_lt(exit, enter) || exit.num < 0 || enter.num > enter.den {
        None
    } else {
        Some(Hit { time: fixed(entry_time(enter)), normal })
    }
}

/// Normal of the face met when the x axis is the last to be entered.
pub open spec fn x_normal(aabb: Aabb, dir: Vec2) -> Vec2 {
    Vec2 { x: fixed(axis_sign(aabb.min.x@, aabb.max.x@, dir.x@) * SCALE), y: fixed(0) }
}

/// Normal of the face met when the y axis is the last to be entered.
pub open spec fn y_normal(aabb: Aabb, dir: Vec2) -> Vec2 {
    Vec2 { x: fixed(0), y: fixed(axis_sign(aabb.min.y@, aabb.max.y@, dir.y@) * SCALE) }
}

/// The collision of the ray from `origin` along `dir` with `aabb`.
///
/// No hit for a ray shorter than `MIN_SWEEP_LENGTH`. Otherwise the ray
/// enters the box when the later of the two axis windows opens and leaves
/// when the earlier one closes; the normal belongs to the axis entered last,
/// the y axis when both open together.
pub open spec fn sweep(origin: Vec2, dir: Vec2, aabb: Aabb) -> Option<Hit> {
    if dir.length_squared() < MIN_SWEEP_LENGTH * MIN_SWEEP_LENGTH {
        None
    } else {
        let xs = axis_span(aabb.min.x@, aabb.max.x@, origin.x@, dir.x@);
        let ys = axis_span(aabb.min.y@, aabb.max.y@, origin.y@, dir.y@);
        match (xs, ys) {
            (Span::Between { near: nx, far: fx }, Span::Between { near: ny, far: fy }) => {
                let x_last = ratio_lt(ny, nx);
                window_hit(
                    if x_last { nx } else { ny },
                    if ratio_lt(fx, fy) { fx } else { fy },
                    if x_last { x_normal(aabb, dir) } else { y_normal(aabb, dir) },
                )
            },
            (Span::Between { near, far }, Span::Always) => window_hit(
                near,
                far,
                x_normal(aabb, dir),
            ),
            (Span::Always, Span::Between { near, far }) => window_hit(
                near,
                far,
                y_normal(aabb, dir),
            ),
            _ => None,
        }
    }
}

/// One axis window in machine integers.
enum AxisTimes {
    Never,
    Always,
    Between { near: i128, far: i128, den: i128 },
}

impl AxisTimes {
    spec fn as_span(self) -> Span {
        match self {
            AxisTimes::Never => Span::Never,
            AxisTimes::Always => Span::Always,
            AxisTimes::Between { near, far, den } => Span::Between {
                near: Ratio { num: near as int, den: den as int },
                far: Ratio { num: far as int, den: den as int },
            },
        }
    }

    /// Numerators are differences of two `i64`, denominators magnitudes of
    /// one, so that cross products fit an `i128`.
    spec fn in_range(self) -> bool {
        match self {
            AxisTimes::Between { near, far, den } => {
                &&& -0xffff_ffff_ffff_ffff <= near <= 0xffff_ffff_ffff_ffff
                &&& -0xffff_ffff_ffff_ffff <= far <= 0xffff_ffff_ffff_ffff
                &&& 0 < den <= 0x8000_0000_0000_0000
            },
            _ => true,
        }
    }
}

fn axis_times(lo: i64, hi: i64, origin: i64, dir: i64) -> (r: AxisTimes)
    ensures
        r.as_span() == axis_span(lo as int, hi as int, origin as int, dir as int),
        r.in_range(),
{
    if dir == 0 {
        if lo < origin && origin < hi {
            AxisTimes::Always
        } else {
            AxisTimes::Never
        }
    } else {
        let first: i64 = if lo <= hi { lo } else { hi };
        let second: i64 = if lo <= hi { hi } else { lo };
        if dir > 0 {
            AxisTimes::Between {
                near: first as i128 - origin as i128,
                far: second as i128 - origin as i128,
                den: dir as i128,
            }
        } else {
            AxisTimes::Between {
                near: origin as i128 - second as i128,
                far: origin as i128 - first as i128,
                den: -(dir as i128),
            }
        }
    }
}

/// Exact comparison of two fractions by cross multiplication.
fn ratio_less(a_num: i128, a_den: i128, b_num: i128, b_den: i128) -> (r: bool)
    requires
        -0xffff_ffff_ffff_ffff <= a_num <= 0xffff_ffff_ffff_ffff,
        -0xffff_ffff_ffff_ffff <= b_num <= 0xffff_ffff_ffff_ffff,
        0 < a_den <= 0x8000_0000_0000_0000,
        0 < b_den <= 0x8000_0000_0000_0000,
    ensures
        r == ratio_lt(
            Ratio { num: a_num as int, den: a_den as int },
            Ratio { num: b_num as int, den: b_den as int },
        ),
{
    proof {
        lemma_cross_product_fits(a_num as int, b_den as int);
        lemma_cross_product_fits(b_num as int, a_den as int);
    }
    a_num * b_den < b_num * a_den
}

proof fn lemma_cross_product_fits(n: int, d: int)
    requires
        -0xffff_ffff_ffff_ffff <= n <= 0xffff_ffff_ffff_ffff,
        0 < d <= 0x8000_0000_0000_0000,
    ensures
        -0x7fff_ffff_ffff_ffff_8000_0000_0000_0000 <= n * d
            <= 0x7fff_ffff_ffff_ffff_8000_0000_0000_0000,
{
    assert(-0x7fff_ffff_ffff_ffff_8000_0000_0000_0000 <= n * d
        <= 0x7fff_ffff_ffff_ffff_8000_0000_0000_0000) by (nonlinear_arith)
        requires
            -0xffff_ffff_ffff_ffff <= n <= 0xffff_ffff_ffff_ffff,
            0 < d <= 0x8000_0000_0000_0000,
    ;
}

fn window(
    enter_num: i128,
    exit_num: i128,
    den_enter: i128,
    den_exit: i128,
    normal: Vec2,
) -> (hit: Option<Hit>)
    requires
        -0xffff_ffff_ffff_ffff <= enter_num <= 0xffff_ffff_ffff_ffff,
        -0xffff_ffff_ffff_ffff <= exit_num <= 0xffff_ffff_ffff_ffff,
        0 < den_enter <= 0x8000_0000_0000_0000,
        0 < den_exit <= 0x8000_0000_0000_0000,
    ensures
        hit == window_hit(
            Ratio { num: enter_num as int, den: den_enter as int },
            Ratio { num: exit_num as int, den: den_exit as int },
            normal,
        ),
{
    if ratio_less(exit_num, den_exit, enter_num, den_enter) || exit_num < 0 || enter_num
        > den_enter {
        None
    } else if enter_num <= 0 {
        Some(Hit { time: Fixed::zero(), normal })
    } else {
        proof {
            lemma_entry_time_fits(enter_num as int, den_enter as int);
        }
        let t: i128 = (enter_num * (SCALE as i128)) / den_enter;
        Some(Hit { time: Fixed::from_raw(t as i64), normal })
    }
}

proof fn lemma_entry_time_fits(num: int, den: int)
    requires
        0 < num <= den,
        den <= 0x8000_0000_0000_0000,
    ensures
        0 <= num * SCALE <= 0x8000_0000_0000_0000 * 1_000_000,
        0 <= (num * SCALE) / den <= SCALE,
{
    assert(0 <= num * SCALE <= 0x8000_0000_0000_0000 * 1_000_000) by (nonlinear_arith)
        requires
            0 < num <= 0x8000_0000_0000_0000,
            SCALE == 1_000_000,
    ;
    assert(0 <= (num * SCALE) / den <= SCALE) by (nonlinear_arith)
        requires
            0 < num <= den,
            SCALE == 1_000_000,
    ;
}

fn unit_normal(lo: i64, hi: i64, dir: i64) -> (r: Fixed)
    ensures
        r == fixed(axis_sign(lo as int, hi as int, dir as int) * SCALE),
{
    if (dir > 0 && lo > hi) || (dir < 0 && lo <= hi) {
        Fixed::from_raw(SCALE)
    } else {
        Fixed::from_raw(-SCALE)
    }
}

/// Casts the ray from `ray_origin` along `ray_direction` against `aabb` and
/// reports where it first touches the box, if it does within this frame.
pub fn sweep_ray_vs_aabb(ray_origin: Vec2, ray_direction: Vec2, aabb: Aabb) -> (hit: Option<Hit>)
    ensures
        hit == sweep(ray_origin, ray_direction, aabb),
{
    if ray_direction.is_shorter_than(Fixed::from_raw(MIN_SWEEP_LENGTH)) {
        return None;
    }
    let xs = axis_times(aabb.min.x.raw, aabb.max.x.raw, ray_origin.x.raw, ray_direction.x.raw);
    let ys = axis_times(aabb.min.y.raw, aabb.max.y.raw, ray_origin.y.raw, ray_direction.y.raw);
    match xs {
        AxisTimes::Never => None,
        AxisTimes::Always => match ys {
            AxisTimes::Between { near, far, den } => {
                let n = Vec2::new(
                    Fixed::zero(),
                    unit_normal(aabb.min.y.raw, aabb.max.y.raw, ray_direction.y.raw),
                );
                window(near, far, den, den, n)
            },
            _ => None,
        },
        AxisTimes::Between { near: nx, far: fx, den: dx } => match ys {
            AxisTimes::Never => None,
            AxisTimes::Always => {
                let n = Vec2::new(
                    unit_normal(aabb.min.x.raw, aabb.max.x.raw, ray_direction.x.raw),
                    Fixed::zero(),
                );
                window(nx, fx, dx, dx, n)
            },
            AxisTimes::Between { near: ny, far: fy, den: dy } => {
                let x_last = ratio_less(ny, dy, nx, dx);
                let x_first_out = ratio_less(fx, dx, fy, dy);
                let n = if x_last {
                    Vec2::new(
                        unit_normal(aabb.min.x.raw, aabb.max.x.raw, ray_direction.x.raw),
                        Fixed::zero(),
                    )
                } else {
                    Vec2::new(
                        Fixed::zero(),
                        unit_normal(aabb.min.y.raw, aabb.max.y.raw, ray_direction.y.raw),
                    )
                };
                window(
                    if x_last { nx } else { ny },
                    if x_first_out { fx } else { fy },
                    if x_last { dx } else { dy },
                    if x_first_out { dx } else { dy },
                    n,
                )
            },
        },
    }
}

} // verus!
