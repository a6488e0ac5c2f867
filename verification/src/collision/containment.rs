//! Why a swept mover never ends a frame inside an obstacle.
//!
//! All statements are about the obstacle's box after it has been grown by
//! the mover's radius, and about the mover's centre. A centre that is not in
//! the interior of the grown box belongs to a circle that does not reach
//! into the obstacle.
//!
//! A mover that ran into an obstacle rests outside its grown box. Beside an
//! obstacle that its path only passed by, the rounding of the resting
//! position may carry it across the border, but never deeper than
//! `ROUNDING` raw units.

use vstd::prelude::*;
use crate::collision::aabb::Aabb;
use crate::collision::response::{
    earliest_hit,
    expanded_bounds,
    resolved_position,
    resting_position,
    Obstacle,
    BACK_OFF,
};
use crate::collision::sweep::{
    axis_span,
    entry_time,
    ratio_lt,
    sweep,
    x_normal,
    y_normal,
    Hit,
    Ratio,
    Span,
    MIN_SWEEP_LENGTH,
};
use crate::math::fixed::{mul_raw, saturate, trunc_div, Fixed, SCALE};
use crate::math::vec2::Vec2;

verus! {

/// Displacement along one axis of a mover that is stopped at `time` along a
/// frame displacement `dir` and backed off.
pub open spec fn rest_offset(dir: int, time: int) -> int {
    mul_raw(mul_raw(dir, time), BACK_OFF as int)
}

/// Rounding never carries the mover past the exact contact point: the rest
/// offset lies between zero and `dir * time`, rounded toward zero.
proof fn lemma_rest_offset_bounds(dir: int, time: int)
    requires
        i64::MIN <= dir <= i64::MAX,
        0 <= time <= SCALE,
    ensures
        dir >= 0 ==> 0 <= rest_offset(dir, time) <= (dir * time) / (SCALE as int),
        dir <= 0 ==> -(((-dir) * time) / (SCALE as int)) <= rest_offset(dir, time) <= 0,
{
    let s = SCALE as int;
    let b = BACK_OFF as int;
    if dir >= 0 {
        let p = dir * time;
        assert(0 <= p && p / s <= dir && 0 <= p / s) by (nonlinear_arith)
            requires
                p == dir * time,
                0 <= dir,
                0 <= time <= s,
                s == 1_000_000,
        ;
        let m = p / s;
        assert(mul_raw(dir, time) == m);
        assert(0 <= m * b && (m * b) / s <= m && 0 <= (m * b) / s) by (nonlinear_arith)
            requires
                0 <= m,
                b == 999_000,
                s == 1_000_000,
        ;
    } else {
        let q = (-dir) * time;
        assert(0 <= q && q / s <= -dir && 0 <= q / s && q == -(dir * time)) by (nonlinear_arith)
            requires
                q == (-dir) * time,
                dir < 0,
                0 <= time <= s,
                s == 1_000_000,
        ;
        let m = -(q / s);
        assert(trunc_div(dir * time, s) == m);
        assert(mul_raw(dir, time) == m);
        let w = (-m) * b;
        assert(0 <= w && w / s <= -m && 0 <= w / s && w == -(m * b)) by (nonlinear_arith)
            requires
                w == (-m) * b,
                m <= 0,
                b == 999_000,
                s == 1_000_000,
        ;
        assert(trunc_div(m * b, s) == -(w / s));
    }
}

/// On the axis whose window opens last, a mover stopped no later than the
/// opening is still on the near side of the box.
proof fn lemma_axis_rest_outside(lo: int, hi: int, origin: int, dir: int, time: int)
    requires
        i64::MIN <= lo <= hi <= i64::MAX,
        i64::MIN <= origin <= i64::MAX,
        i64::MIN <= dir <= i64::MAX,
        dir != 0,
        axis_span(lo, hi, origin, dir) matches Span::Between { near, far } && near.num > 0 && 0
            <= time <= entry_time(near) && near.num <= near.den,
    ensures
        !(lo < saturate(origin + rest_offset(dir, time)) < hi),
{
    let s = SCALE as int;
    let near = axis_span(lo, hi, origin, dir)->near;
    let n = near.num;
    let den = near.den;
    assert(time * den <= n * s && (n * s) / den <= s) by (nonlinear_arith)
        requires
            0 <= time <= (n * s) / den,
            0 < n <= den,
            s == 1_000_000,
    ;
    lemma_rest_offset_bounds(dir, time);
    if dir > 0 {
        assert((dir * time) / s <= n) by (nonlinear_arith)
            requires
                time * dir <= n * s,
                s == 1_000_000,
        ;
    } else {
        assert(((-dir) * time) / s <= n) by (nonlinear_arith)
            requires
                time * (-dir) <= n * s,
                s == 1_000_000,
        ;
    }
}

/// The normal of a collision with an ordered box is one of the four unit
/// vectors along the axes, and it points against the motion.
pub proof fn lemma_normal_opposes_motion(origin: Vec2, dir: Vec2, aabb: Aabb)
    requires
        aabb.is_ordered(),
        sweep(origin, dir, aabb).is_some(),
    ensures
        ({
            let n = sweep(origin, dir, aabb).unwrap().normal;
            &&& n == x_normal(aabb, dir) || n == y_normal(aabb, dir)
            &&& n == x_normal(aabb, dir) ==> dir.x@ != 0 && n.y@ == 0 && n.x@ == if dir.x@ > 0 {
                -SCALE
            } else {
                SCALE as int
            }
            &&& n == y_normal(aabb, dir) ==> dir.y@ != 0 && n.x@ == 0 && n.y@ == if dir.y@ > 0 {
                -SCALE
            } else {
                SCALE as int
            }
        }),
{
}

/// A mover stopped at time zero has not moved.
proof fn lemma_rest_at_zero(origin: Vec2, dir: Vec2, time: Fixed)
    requires
        time@ == 0,
    ensures
        resting_position(origin, dir, time) == origin,
{
    assert(dir.x@ * 0 == 0 && dir.y@ * 0 == 0) by (nonlinear_arith);
    assert(mul_raw(dir.x@, 0) == 0);
    assert(mul_raw(dir.y@, 0) == 0);
    assert(0 * (BACK_OFF as int) == 0) by (nonlinear_arith);
    assert(mul_raw(0, BACK_OFF as int) == 0);
}

/// The resting position, coordinate by coordinate.
proof fn lemma_rest_coordinates(origin: Vec2, dir: Vec2, time: Fixed)
    ensures
        resting_position(origin, dir, time).x@ == saturate(
            origin.x@ + rest_offset(dir.x@, time@),
        ),
        resting_position(origin, dir, time).y@ == saturate(
            origin.y@ + rest_offset(dir.y@, time@),
        ),
{
}

/// Every reported collision lies within the frame: its time is between zero
/// and one.
pub proof fn lemma_hit_time_in_frame(origin: Vec2, dir: Vec2, aabb: Aabb)
    requires
        sweep(origin, dir, aabb).is_some(),
    ensures
        0 <= sweep(origin, dir, aabb).unwrap().time@ <= SCALE,
{
    let xs = axis_span(aabb.min.x@, aabb.max.x@, origin.x@, dir.x@);
    let ys = axis_span(aabb.min.y@, aabb.max.y@, origin.y@, dir.y@);
    match (xs, ys) {
        (Span::Between { near: nx, far: fx }, Span::Between { near: ny, far: fy }) => {
            let enter = if ratio_lt(ny, nx) { nx } else { ny };
            lemma_entry_time_in_frame(enter);
        },
        (Span::Between { near, far }, Span::Always) => {
            lemma_entry_time_in_frame(near);
        },
        (Span::Always, Span::Between { near, far }) => {
            lemma_entry_time_in_frame(near);
        },
        _ => {},
    }
}

proof fn lemma_entry_time_in_frame(enter: Ratio)
    requires
        enter.den > 0,
        enter.num <= enter.den,
    ensures
        0 <= entry_time(enter) <= SCALE,
{
    if enter.num > 0 {
        let n = enter.num;
        let d = enter.den;
        assert(0 <= (n * SCALE) / d <= SCALE) by (nonlinear_arith)
            requires
                0 < n <= d,
                SCALE == 1_000_000,
        ;
    }
}

/// A mover that starts outside a box and is stopped no later than its
/// collision with that box rests outside the box's interior.
pub proof fn lemma_rest_is_outside(origin: Vec2, dir: Vec2, aabb: Aabb, time: Fixed)
    requires
        aabb.is_ordered(),
        !aabb.strictly_contains(origin),
        sweep(origin, dir, aabb).is_some(),
        0 <= time@ <= sweep(origin, dir, aabb).unwrap().time@,
    ensures
        !aabb.strictly_contains(resting_position(origin, dir, time)),
{
    let xs = axis_span(aabb.min.x@, aabb.max.x@, origin.x@, dir.x@);
    let ys = axis_span(aabb.min.y@, aabb.max.y@, origin.y@, dir.y@);
    lemma_rest_coordinates(origin, dir, time);
    lemma_hit_time_in_frame(origin, dir, aabb);
    match (xs, ys) {
        (Span::Between { near: nx, far: fx }, Span::Between { near: ny, far: fy }) => {
            let x_last = ratio_lt(ny, nx);
            let enter = if x_last { nx } else { ny };
            lemma_entry_time_in_frame(enter);
            if enter.num <= 0 {
                lemma_rest_at_zero(origin, dir, time);
            } else if x_last {
                lemma_axis_rest_outside(aabb.min.x@, aabb.max.x@, origin.x@, dir.x@, time@);
            } else {
                lemma_axis_rest_outside(aabb.min.y@, aabb.max.y@, origin.y@, dir.y@, time@);
            }
        },
        (Span::Between { near, far }, Span::Always) => {
            lemma_entry_time_in_frame(near);
            if near.num <= 0 {
                lemma_rest_at_zero(origin, dir, time);
            } else {
                lemma_axis_rest_outside(aabb.min.x@, aabb.max.x@, origin.x@, dir.x@, time@);
            }
        },
        (Span::Always, Span::Between { near, far }) => {
            lemma_entry_time_in_frame(near);
            if near.num <= 0 {
                lemma_rest_at_zero(origin, dir, time);
            } else {
                lemma_axis_rest_outside(aabb.min.y@, aabb.max.y@, origin.y@, dir.y@, time@);
            }
        },
        _ => {},
    }
}

/// Arithmetic behind the detection of a crossing: the window of the crossed
/// axis opens and closes within the frame, the window of the other axis
/// opens before the frame and closes after it.
proof fn lemma_crossing_windows(cn: int, cf: int, cd: int, on: int, of: int, od: int)
    by (nonlinear_arith)
    requires
        0 <= cn <= cf <= cd,
        0 < cd,
        0 < od,
        on < 0,
        of > od,
    ensures
        on * cd < cn * od,
        cf * od < of * cd,
        !(cf * cd < cn * cd),
{
}

/// No tunnelling along x: a displacement that starts on one side of a box,
/// ends on or beyond the other side, and stays between the box's lower and
/// upper faces all the while, is reported as a collision with the face it
/// runs into.
pub proof fn lemma_crossing_is_detected_x(origin: Vec2, dir: Vec2, aabb: Aabb)
    requires
        aabb.is_ordered(),
        dir.length_squared() >= MIN_SWEEP_LENGTH * MIN_SWEEP_LENGTH,
        dir.x@ != 0,
        (origin.x@ <= aabb.min.x@ && origin.x@ + dir.x@ >= aabb.max.x@) || (origin.x@
            >= aabb.max.x@ && origin.x@ + dir.x@ <= aabb.min.x@),
        aabb.min.y@ < origin.y@ < aabb.max.y@,
        aabb.min.y@ < origin.y@ + dir.y@ < aabb.max.y@,
    ensures
        sweep(origin, dir, aabb).is_some(),
        sweep(origin, dir, aabb).unwrap().normal == x_normal(aabb, dir),
{
    let xs = axis_span(aabb.min.x@, aabb.max.x@, origin.x@, dir.x@);
    let ys = axis_span(aabb.min.y@, aabb.max.y@, origin.y@, dir.y@);
    let nx = xs->near;
    let fx = xs->far;
    assert(!(fx.num * nx.den < nx.num * fx.den)) by (nonlinear_arith)
        requires
            nx.num <= fx.num,
            nx.den == fx.den,
            0 < nx.den,
    ;
    if dir.y@ != 0 {
        let ny = ys->near;
        let fy = ys->far;
        lemma_crossing_windows(nx.num, fx.num, nx.den, ny.num, fy.num, ny.den);
    }
}

/// No tunnelling along y: the counterpart of `lemma_crossing_is_detected_x`.
pub proof fn lemma_crossing_is_detected_y(origin: Vec2, dir: Vec2, aabb: Aabb)
    requires
        aabb.is_ordered(),
        dir.length_squared() >= MIN_SWEEP_LENGTH * MIN_SWEEP_LENGTH,
        dir.y@ != 0,
        (origin.y@ <= aabb.min.y@ && origin.y@ + dir.y@ >= aabb.max.y@) || (origin.y@
            >= aabb.max.y@ && origin.y@ + dir.y@ <= aabb.min.y@),
        aabb.min.x@ < origin.x@ < aabb.max.x@,
        aabb.min.x@ < origin.x@ + dir.x@ < aabb.max.x@,
    ensures
        sweep(origin, dir, aabb).is_some(),
        sweep(origin, dir, aabb).unwrap().normal == y_normal(aabb, dir),
{
    let xs = axis_span(aabb.min.x@, aabb.max.x@, origin.x@, dir.x@);
    let ys = axis_span(aabb.min.y@, aabb.max.y@, origin.y@, dir.y@);
    let ny = ys->near;
    let fy = ys->far;
    assert(!(fy.num * ny.den < ny.num * fy.den)) by (nonlinear_arith)
        requires
            ny.num <= fy.num,
            ny.den == fy.den,
            0 < ny.den,
    ;
    if dir.x@ != 0 {
        let nx = xs->near;
        let fx = xs->far;
        lemma_crossing_windows(ny.num, fy.num, ny.den, nx.num, fx.num, nx.den);
    }
}

/// The collision of the mover with the obstacle at index `i`.
pub open spec fn hit_at(
    origin: Vec2,
    movement: Vec2,
    radius: Fixed,
    obstacles: Seq<Obstacle>,
    i: int,
) -> Option<Hit> {
    sweep(origin, movement, expanded_bounds(obstacles[i], radius))
}

/// The earliest hit is the hit of one of the obstacles, and no obstacle is
/// hit sooner; there is none exactly when no obstacle is hit at all.
pub proof fn lemma_earliest_hit_is_minimal(
    origin: Vec2,
    movement: Vec2,
    radius: Fixed,
    obstacles: Seq<Obstacle>,
)
    ensures
        match earliest_hit(origin, movement, radius, obstacles) {
            Some(h) => {
                &&& exists|i: int|
                    0 <= i < obstacles.len() && #[trigger] hit_at(
                        origin,
                        movement,
                        radius,
                        obstacles,
                        i,
                    ) == Some(h)
                &&& forall|j: int|
                    0 <= j < obstacles.len() && (#[trigger] hit_at(
                        origin,
                        movement,
                        radius,
                        obstacles,
                        j,
                    )).is_some() ==> h.time@ <= hit_at(
                        origin,
                        movement,
                        radius,
                        obstacles,
                        j,
                    ).unwrap().time@
            },
            None => forall|j: int|
                0 <= j < obstacles.len() ==> (#[trigger] hit_at(
                    origin,
                    movement,
                    radius,
                    obstacles,
                    j,
                )).is_none(),
        },
    decreases obstacles.len(),
{
    if obstacles.len() > 0 {
        let front = obstacles.drop_last();
        let last = obstacles.len() - 1;
        lemma_earliest_hit_is_minimal(origin, movement, radius, front);
        assert forall|j: int| 0 <= j < front.len() implies hit_at(
            origin,
            movement,
            radius,
            front,
            j,
        ) == hit_at(origin, movement, radius, obstacles, j) by {}
        let before = earliest_hit(origin, movement, radius, front);
        let here = hit_at(origin, movement, radius, obstacles, last);
        match earliest_hit(origin, movement, radius, obstacles) {
            Some(h) => {
                if before == Some(h) {
                    let i = choose|i: int|
                        0 <= i < front.len() && #[trigger] hit_at(
                            origin,
                            movement,
                            radius,
                            front,
                            i,
                        ) == Some(h);
                    assert(hit_at(origin, movement, radius, obstacles, i) == Some(h));
                } else {
                    assert(hit_at(origin, movement, radius, obstacles, last) == Some(h));
                }
                assert forall|j: int|
                    0 <= j < obstacles.len() && (#[trigger] hit_at(
                        origin,
                        movement,
                        radius,
                        obstacles,
                        j,
                    )).is_some() implies h.time@ <= hit_at(
                    origin,
                    movement,
                    radius,
                    obstacles,
                    j,
                ).unwrap().time@ by {
                    if j < last {
                        assert(hit_at(origin, movement, radius, front, j).is_some());
                    }
                }
            },
            None => {
                assert forall|j: int| 0 <= j < obstacles.len() implies (#[trigger] hit_at(
                    origin,
                    movement,
                    radius,
                    obstacles,
                    j,
                )).is_none() by {
                    if j < last {
                        assert(hit_at(origin, movement, radius, front, j).is_none());
                    }
                }
            },
        }
    }
}

/// A mover never ends the frame inside an obstacle that lay in its path:
/// if it started outside the grown box of the obstacle at index `i` and its
/// displacement meets that box, then after collision handling its centre is
/// outside the interior of that box.
pub proof fn lemma_no_penetration(
    position: Vec2,
    velocity: Vec2,
    radius: Fixed,
    speed_scale: Fixed,
    obstacles: Seq<Obstacle>,
    i: int,
)
    requires
        0 <= i < obstacles.len(),
        expanded_bounds(obstacles[i], radius).is_ordered(),
        !expanded_bounds(obstacles[i], radius).strictly_contains(position),
        hit_at(position, velocity.spec_scale(speed_scale), radius, obstacles, i).is_some(),
    ensures
        !expanded_bounds(obstacles[i], radius).strictly_contains(
            resolved_position(position, velocity, radius, speed_scale, obstacles),
        ),
{
    let movement = velocity.spec_scale(speed_scale);
    lemma_earliest_hit_is_minimal(position, movement, radius, obstacles);
    let h = earliest_hit(position, movement, radius, obstacles).unwrap();
    let k = choose|k: int|
        0 <= k < obstacles.len() && #[trigger] hit_at(position, movement, radius, obstacles, k)
            == Some(h);
    lemma_hit_time_in_frame(position, movement, expanded_bounds(obstacles[k], radius));
    lemma_rest_is_outside(position, movement, expanded_bounds(obstacles[i], radius), h.time);
}

/// Depth, in raw units, to which rounding may carry a resting mover into a
/// box that its path only passes by: the resting position is rounded twice
/// toward the origin of the sweep, by less than one raw unit each time.
pub const ROUNDING: i64 = 2;

/// Whether `p` lies in the box at more than `ROUNDING` from every face.
pub open spec fn deep_inside(aabb: Aabb, p: Vec2) -> bool {
    &&& aabb.min.x@ + ROUNDING < p.x@ < aabb.max.x@ - ROUNDING
    &&& aabb.min.y@ + ROUNDING < p.y@ < aabb.max.y@ - ROUNDING
}

/// The rest offset against the exact product: `dir * time * BACK_OFF`,
/// in units of a millionth of a millionth, lies at the rest offset or
/// beyond it by less than two raw units.
proof fn lemma_rest_offset_is_near_exact(dir: int, time: int)
    requires
        i64::MIN <= dir <= i64::MAX,
        0 <= time <= SCALE,
    ensures
        ({
            let exact = dir * (time * BACK_OFF);
            let unit = SCALE * SCALE;
            let off = rest_offset(dir, time);
            &&& dir >= 0 ==> off * unit <= exact < (off + 2) * unit
            &&& dir <= 0 ==> (off - 2) * unit < exact <= off * unit
        }),
{
    let s = SCALE as int;
    let b = BACK_OFF as int;
    lemma_rest_offset_bounds(dir, time);
    if dir >= 0 {
        let p = dir * time;
        assert(0 <= p && p / s <= dir && 0 <= p / s) by (nonlinear_arith)
            requires
                p == dir * time,
                0 <= dir,
                0 <= time <= s,
                s == 1_000_000,
        ;
        let m = p / s;
        assert(mul_raw(dir, time) == m);
        assert(0 <= m * b && (m * b) / s <= m && 0 <= (m * b) / s) by (nonlinear_arith)
            requires
                0 <= m,
                b == 999_000,
                s == 1_000_000,
        ;
        let off = (m * b) / s;
        assert(rest_offset(dir, time) == off);
        assert(p * b == dir * (time * b)) by (nonlinear_arith)
            requires
                p == dir * time,
        ;
        lemma_two_floors(p, m, off, dir * (time * b));
    } else {
        let q = (-dir) * time;
        assert(0 <= q && q / s <= -dir && 0 <= q / s && q == -(dir * time)) by (nonlinear_arith)
            requires
                q == (-dir) * time,
                dir < 0,
                0 <= time <= s,
                s == 1_000_000,
        ;
        let m = q / s;
        assert(trunc_div(dir * time, s) == -m);
        assert(mul_raw(dir, time) == -m);
        let w = m * b;
        assert(0 <= w && w / s <= m && 0 <= w / s && w == -((-m) * b)) by (nonlinear_arith)
            requires
                w == m * b,
                0 <= m,
                b == 999_000,
                s == 1_000_000,
        ;
        assert(trunc_div((-m) * b, s) == -(w / s));
        let off = w / s;
        assert(rest_offset(dir, time) == -off);
        assert(q * b == -(dir * (time * b))) by (nonlinear_arith)
            requires
                q == (-dir) * time,
        ;
        lemma_two_floors(q, m, off, -(dir * (time * b)));
    }
}

/// Two roundings in a row lose less than two units: if `m` is `p` over a
/// million rounded down and `off` is `m` times 0.999 rounded down, then `p`
/// times 0.999 lies between `off` and `off + 2`.
proof fn lemma_two_floors(p: int, m: int, off: int, exact: int)
    by (nonlinear_arith)
    requires
        0 <= p,
        m == p / 1_000_000,
        off == (m * 999_000) / 1_000_000,
        exact == p * 999_000,
    ensures
        off * (1_000_000 * 1_000_000) <= exact < (off + 2) * (1_000_000 * 1_000_000),
{
}

/// A resting position deep between the two faces of an axis means that the
/// exact ray is strictly between them at the time of rest: the window of
/// that axis is open then.
proof fn lemma_axis_window_is_open(lo: int, hi: int, origin: int, dir: int, time: int)
    requires
        i64::MIN <= lo <= i64::MAX,
        i64::MIN <= hi <= i64::MAX,
        i64::MIN <= origin <= i64::MAX,
        i64::MIN <= dir <= i64::MAX,
        0 <= time <= SCALE,
        lo + ROUNDING < saturate(origin + rest_offset(dir, time)) < hi - ROUNDING,
    ensures
        match axis_span(lo, hi, origin, dir) {
            Span::Never => false,
            Span::Always => true,
            Span::Between { near, far } => {
                &&& near.den > 0
                &&& far.den == near.den
                &&& near.num * (SCALE * SCALE) < near.den * (time * BACK_OFF)
                &&& far.den * (time * BACK_OFF) < far.num * (SCALE * SCALE)
            },
        },
{
    lemma_rest_offset_is_near_exact(dir, time);
    lemma_rest_offset_bounds(dir, time);
    let off = rest_offset(dir, time);
    let unit = SCALE * SCALE;
    let exact = dir * (time * BACK_OFF);
    if dir > 0 {
        assert((lo - origin) * unit < off * unit && (off + 2) * unit < (hi - origin) * unit)
            by (nonlinear_arith)
            requires
                lo - origin < off,
                off + 2 < hi - origin,
                unit == 1_000_000 * 1_000_000,
        ;
    } else if dir < 0 {
        assert((origin - hi) * unit < (-off) * unit && (2 - off) * unit < (origin - lo) * unit
            && (-dir) * (time * BACK_OFF) == -exact && (-off) * unit == -(off * unit) && (2
            - off) * unit == -((off - 2) * unit)) by (nonlinear_arith)
            requires
                origin - hi < -off,
                2 - off < origin - lo,
                unit == 1_000_000 * 1_000_000,
                exact == dir * (time * BACK_OFF),
        ;
    }
}

/// Two windows that are both open at one time within the frame overlap:
/// the one opens before the other closes, the closing time is positive and
/// the opening time is less than one.
proof fn lemma_open_windows_overlap(nn: int, nd: int, fnum: int, fd: int, t: int, unit: int)
    by (nonlinear_arith)
    requires
        nd > 0,
        fd > 0,
        unit > 0,
        0 <= t <= unit,
        nn * unit < nd * t,
        fd * t < fnum * unit,
    ensures
        nn * fd < fnum * nd,
        fnum > 0,
        nn < nd,
{
    assert(nn * unit * fd < nd * t * fd);
    assert(nd * (fd * t) < nd * (fnum * unit));
    assert(nn * fd * unit < fnum * nd * unit);
}

/// A mover rests at most `ROUNDING` deep in a box that its path misses:
/// were it deeper, the exact ray would be inside the box at the time of
/// rest, and the sweep would have reported the box.
pub proof fn lemma_rest_is_not_deep_inside(origin: Vec2, dir: Vec2, aabb: Aabb, time: Fixed)
    requires
        dir.length_squared() >= MIN_SWEEP_LENGTH * MIN_SWEEP_LENGTH,
        sweep(origin, dir, aabb).is_none(),
        0 <= time@ <= SCALE,
    ensures
        !deep_inside(aabb, resting_position(origin, dir, time)),
{
    if deep_inside(aabb, resting_position(origin, dir, time)) {
        lemma_rest_coordinates(origin, dir, time);
        lemma_axis_window_is_open(aabb.min.x@, aabb.max.x@, origin.x@, dir.x@, time@);
        lemma_axis_window_is_open(aabb.min.y@, aabb.max.y@, origin.y@, dir.y@, time@);
        let xs = axis_span(aabb.min.x@, aabb.max.x@, origin.x@, dir.x@);
        let ys = axis_span(aabb.min.y@, aabb.max.y@, origin.y@, dir.y@);
        let t = time@ * BACK_OFF;
        let unit = SCALE * SCALE;
        assert(0 <= t <= unit) by (nonlinear_arith)
            requires
                t == time@ * 999_000,
                0 <= time@ <= 1_000_000,
                unit == 1_000_000 * 1_000_000,
        ;
        match (xs, ys) {
            (Span::Between { near: nx, far: fx }, Span::Between { near: ny, far: fy }) => {
                lemma_open_windows_overlap(nx.num, nx.den, fx.num, fx.den, t, unit);
                lemma_open_windows_overlap(nx.num, nx.den, fy.num, fy.den, t, unit);
                lemma_open_windows_overlap(ny.num, ny.den, fx.num, fx.den, t, unit);
                lemma_open_windows_overlap(ny.num, ny.den, fy.num, fy.den, t, unit);
            },
            (Span::Between { near, far }, Span::Always) => {
                lemma_open_windows_overlap(near.num, near.den, far.num, far.den, t, unit);
            },
            (Span::Always, Span::Between { near, far }) => {
                lemma_open_windows_overlap(near.num, near.den, far.num, far.den, t, unit);
            },
            _ => {
                assert(dir.x@ == 0 && dir.y@ == 0);
                assert(dir.length_squared() == 0) by (nonlinear_arith)
                    requires
                        dir.x@ == 0,
                        dir.y@ == 0,
                        dir.length_squared() == dir.x@ * dir.x@ + dir.y@ * dir.y@,
                ;
            },
        }
    }
}

/// After collision handling a mover is at most `ROUNDING` deep in the
/// grown box of any obstacle outside of which it started, whether its
/// path met that obstacle or not; and not at all in one that its path
/// met.
pub proof fn lemma_no_deep_penetration(
    position: Vec2,
    velocity: Vec2,
    radius: Fixed,
    speed_scale: Fixed,
    obstacles: Seq<Obstacle>,
    i: int,
)
    requires
        0 <= i < obstacles.len(),
        expanded_bounds(obstacles[i], radius).is_ordered(),
        !expanded_bounds(obstacles[i], radius).strictly_contains(position),
    ensures
        !deep_inside(
            expanded_bounds(obstacles[i], radius),
            resolved_position(position, velocity, radius, speed_scale, obstacles),
        ),
        hit_at(position, velocity.spec_scale(speed_scale), radius, obstacles, i).is_some()
            ==> !expanded_bounds(obstacles[i], radius).strictly_contains(
            resolved_position(position, velocity, radius, speed_scale, obstacles),
        ),
{
    let movement = velocity.spec_scale(speed_scale);
    let bounds = expanded_bounds(obstacles[i], radius);
    lemma_earliest_hit_is_minimal(position, movement, radius, obstacles);
    if hit_at(position, movement, radius, obstacles, i).is_some() {
        lemma_no_penetration(position, velocity, radius, speed_scale, obstacles, i);
    } else if earliest_hit(position, movement, radius, obstacles).is_some() {
        let h = earliest_hit(position, movement, radius, obstacles).unwrap();
        let k = choose|k: int|
            0 <= k < obstacles.len() && #[trigger] hit_at(position, movement, radius, obstacles, k)
                == Some(h);
        lemma_hit_time_in_frame(position, movement, expanded_bounds(obstacles[k], radius));
        lemma_rest_is_not_deep_inside(position, movement, bounds, h.time);
    }
}

} // verus!
