use core_engine::collision::aabb::Aabb;
use core_engine::collision::response::{
    closest_collision, handle_collisions, reflect_velocity, Obstacle,
};
use core_engine::collision::sweep::{sweep_ray_vs_aabb, Hit};
use core_engine::collision::walls::{
    bounce_axis, bounce_off_walls, clamp_bounds, clamp_player, Bounds, WallRestitution,
};
use core_engine::math::fixed::Fixed;
use core_engine::math::vec2::Vec2;

fn raw(r: i64) -> Fixed {
    Fixed::from_raw(r)
}

fn point(x: i64, y: i64) -> Vec2 {
    Vec2::new(Fixed::from_int(x), Fixed::from_int(y))
}

fn wall(min_x: i64, min_y: i64, max_x: i64, max_y: i64) -> Aabb {
    Aabb { min: point(min_x, min_y), max: point(max_x, max_y) }
}

fn hit(time: i64, nx: i64, ny: i64) -> Option<Hit> {
    Some(Hit { time: raw(time), normal: point(nx, ny) })
}

#[test]
fn aabb_new_spans_center_plus_minus_half_size() {
    let b = Aabb::new(point(505, 0), point(5, 100));
    assert_eq!(b, wall(500, -100, 510, 100));
}

#[test]
fn sweep_hits_the_near_face() {
    let h = sweep_ray_vs_aabb(point(0, 0), point(1000, 0), wall(500, -100, 510, 100));
    assert_eq!(h, hit(500_000, -1, 0));
}

#[test]
fn sweep_reports_the_face_against_the_motion() {
    let b = wall(-10, -10, 10, 10);
    assert_eq!(sweep_ray_vs_aabb(point(-30, 0), point(40, 0), b), hit(500_000, -1, 0));
    assert_eq!(sweep_ray_vs_aabb(point(30, 0), point(-40, 0), b), hit(500_000, 1, 0));
    assert_eq!(sweep_ray_vs_aabb(point(0, -30), point(0, 40), b), hit(500_000, 0, -1));
    assert_eq!(sweep_ray_vs_aabb(point(0, 30), point(0, -40), b), hit(500_000, 0, 1));
}

#[test]
fn sweep_rounds_the_entry_time_down() {
    let h = sweep_ray_vs_aabb(point(0, 0), point(3, 0), wall(1, -1, 2, 1));
    assert_eq!(h, hit(333_333, -1, 0));
}

#[test]
fn sweep_of_a_standing_mover_never_hits() {
    let b = wall(-10, -10, 10, 10);
    assert_eq!(sweep_ray_vs_aabb(point(0, 0), Vec2::zero(), b), None);
    assert_eq!(sweep_ray_vs_aabb(point(-10, 0), Vec2::new(raw(9_999), raw(0)), b), None);
    assert_eq!(sweep_ray_vs_aabb(point(-10, 0), Vec2::new(raw(7_071), raw(7_071)), b), None);
}

#[test]
fn sweep_at_the_threshold_length_is_cast() {
    let b = wall(-10, -10, 10, 10);
    let h = sweep_ray_vs_aabb(point(-10, 0), Vec2::new(raw(10_000), raw(0)), b);
    assert_eq!(h, hit(0, -1, 0));
}

#[test]
fn sweep_misses_what_is_out_of_reach_or_behind() {
    let b = wall(500, -100, 510, 100);
    assert_eq!(sweep_ray_vs_aabb(point(0, 0), point(499, 0), b), None);
    assert_eq!(sweep_ray_vs_aabb(point(0, 0), point(-1000, 0), b), None);
    assert_eq!(sweep_ray_vs_aabb(point(0, 200), point(1000, 0), b), None);
    assert_eq!(sweep_ray_vs_aabb(point(520, 0), point(1000, 0), b), None);
}

#[test]
fn sweep_reaching_exactly_to_the_face_hits_at_the_end() {
    let h = sweep_ray_vs_aabb(point(0, 0), point(500, 0), wall(500, -100, 510, 100));
    assert_eq!(h, hit(1_000_000, -1, 0));
}

#[test]
fn sweep_along_a_face_does_not_hit() {
    let b = wall(500, -100, 510, 100);
    assert_eq!(sweep_ray_vs_aabb(point(0, 100), point(1000, 0), b), None);
    assert_eq!(sweep_ray_vs_aabb(point(0, -100), point(1000, 0), b), None);
    assert_eq!(sweep_ray_vs_aabb(point(500, -200), point(0, 1000), b), None);
}

#[test]
fn sweep_from_inside_hits_at_once() {
    let b = wall(-10, -10, 10, 10);
    assert_eq!(sweep_ray_vs_aabb(point(0, 0), point(5, 0), b), hit(0, -1, 0));
    assert_eq!(sweep_ray_vs_aabb(point(0, 0), point(0, -5), b), hit(0, 0, 1));
    assert_eq!(sweep_ray_vs_aabb(point(5, 0), point(-40, -40), b), hit(0, 1, 0));
    assert_eq!(sweep_ray_vs_aabb(point(0, 5), point(-40, -40), b), hit(0, 0, 1));
}

#[test]
fn sweep_diagonal_takes_the_axis_entered_last() {
    let b = wall(10, 10, 20, 20);
    assert_eq!(sweep_ray_vs_aabb(point(0, 5), point(20, 20), b), hit(500_000, -1, 0));
    assert_eq!(sweep_ray_vs_aabb(point(5, 0), point(20, 20), b), hit(500_000, 0, -1));
    assert_eq!(sweep_ray_vs_aabb(point(0, 0), point(20, 20), b), hit(500_000, 0, -1));
    assert_eq!(sweep_ray_vs_aabb(point(0, 0), point(20, 5), b), None);
}

#[test]
fn sweep_does_not_tunnel_through_a_thin_wall() {
    let thin = Aabb {
        min: Vec2::new(raw(500_000_000), raw(-100_000_000)),
        max: Vec2::new(raw(500_000_001), raw(100_000_000)),
    };
    let h = sweep_ray_vs_aabb(point(0, 0), point(1_000_000, 3), thin);
    assert_eq!(h, hit(500, -1, 0));
    let flat = Aabb { min: point(500, -100), max: point(500, 100) };
    assert_eq!(sweep_ray_vs_aabb(point(0, 0), point(1000, 0), flat), hit(500_000, -1, 0));
    assert_eq!(sweep_ray_vs_aabb(point(1000, 0), point(-1000, 0), flat), hit(500_000, 1, 0));
    let level = Aabb { min: point(-100, 7), max: point(100, 7) };
    assert_eq!(sweep_ray_vs_aabb(point(0, 10), point(0, -6), level), hit(500_000, 0, 1));
    assert_eq!(sweep_ray_vs_aabb(point(0, 4), point(0, 6), level), hit(500_000, 0, -1));
}

#[test]
fn sweep_survives_extreme_coordinates() {
    let b = Aabb {
        min: Vec2::new(raw(i64::MAX - 10), raw(i64::MIN)),
        max: Vec2::new(raw(i64::MAX), raw(i64::MAX)),
    };
    let h = sweep_ray_vs_aabb(
        Vec2::new(raw(i64::MIN), raw(0)),
        Vec2::new(raw(i64::MAX), raw(0)),
        b,
    );
    assert_eq!(h, None);
    let c = Aabb {
        min: Vec2::new(raw(-10), raw(i64::MIN)),
        max: Vec2::new(raw(i64::MAX), raw(i64::MAX)),
    };
    let g = sweep_ray_vs_aabb(
        Vec2::new(raw(i64::MIN), raw(0)),
        Vec2::new(raw(i64::MAX), raw(i64::MIN)),
        c,
    );
    assert_eq!(g, hit(999_999, -1, 0));
    let k = sweep_ray_vs_aabb(
        Vec2::new(raw(i64::MIN), raw(5)),
        Vec2::new(raw(i64::MAX), raw(-1)),
        Aabb { min: Vec2::new(raw(-1), raw(i64::MIN)), max: Vec2::new(raw(0), raw(i64::MAX)) },
    );
    assert_eq!(k, hit(1_000_000, -1, 0));
}

#[test]
fn reflection_reverses_the_component_along_the_normal() {
    assert_eq!(reflect_velocity(point(2, 3), point(-1, 0)), point(-2, 3));
    assert_eq!(reflect_velocity(point(2, 3), point(1, 0)), point(-2, 3));
    assert_eq!(reflect_velocity(point(2, 3), point(0, 1)), point(2, -3));
    assert_eq!(reflect_velocity(point(2, -3), point(0, -1)), point(2, 3));
}

#[test]
fn closest_collision_is_the_earliest() {
    let far = Obstacle { position: point(805, 0), half_size: point(5, 100) };
    let near = Obstacle { position: point(505, 0), half_size: point(5, 100) };
    let aside = Obstacle { position: point(505, 500), half_size: point(5, 100) };
    let obstacles = vec![far, aside, near];
    let h = closest_collision(point(0, 0), point(1000, 0), Fixed::zero(), &obstacles);
    assert_eq!(h, hit(500_000, -1, 0));
    let none = closest_collision(point(0, 0), point(0, -1000), Fixed::zero(), &obstacles);
    assert_eq!(none, None);
    let empty: Vec<Obstacle> = Vec::new();
    assert_eq!(closest_collision(point(0, 0), point(1000, 0), Fixed::zero(), &empty), None);
}

#[test]
fn closest_collision_prefers_the_first_of_equals() {
    let side = Obstacle { position: point(15, 5), half_size: point(5, 5) };
    let below = Obstacle { position: point(5, 15), half_size: point(5, 5) };
    let h = closest_collision(point(0, 0), point(20, 20), Fixed::zero(), &vec![side, below]);
    assert_eq!(h, hit(500_000, -1, 0));
    let g = closest_collision(point(0, 0), point(20, 20), Fixed::zero(), &vec![below, side]);
    assert_eq!(g, hit(500_000, 0, -1));
}

#[test]
fn closest_collision_grows_obstacles_by_the_radius() {
    let o = Obstacle { position: point(510, 0), half_size: point(5, 100) };
    let h = closest_collision(point(0, 0), point(1000, 0), Fixed::from_int(5), &vec![o]);
    assert_eq!(h, hit(500_000, -1, 0));
    let g = closest_collision(point(0, 104), point(1000, 0), Fixed::from_int(5), &vec![o]);
    assert_eq!(g, hit(500_000, -1, 0));
    let m = closest_collision(point(0, 104), point(1000, 0), Fixed::from_int(4), &vec![o]);
    assert_eq!(m, None);
}

#[test]
fn fast_mover_is_stopped_at_the_wall() {
    let mut position = point(0, 0);
    let mut velocity = point(1000, 0);
    let o = Obstacle { position: point(505, 0), half_size: point(5, 100) };
    let collided = handle_collisions(
        &mut position,
        &mut velocity,
        Fixed::zero(),
        Fixed::one(),
        &vec![o],
        Fixed::one(),
    );
    assert!(collided);
    assert_eq!(position, Vec2::new(raw(499_500_000), Fixed::zero()));
    assert_eq!(velocity, point(-1000, 0));
    assert!(position.x.raw() < 500_000_000);
}

#[test]
fn collision_scales_speed_by_restitution_and_movement_by_speed_scale() {
    let mut position = point(0, 10);
    let mut velocity = point(500, 100);
    let o = Obstacle { position: point(510, 0), half_size: point(5, 1000) };
    let collided = handle_collisions(
        &mut position,
        &mut velocity,
        Fixed::from_int(5),
        Fixed::from_int(2),
        &vec![o],
        raw(1_100_000),
    );
    assert!(collided);
    assert_eq!(position, Vec2::new(raw(499_500_000), raw(109_900_000)));
    assert_eq!(velocity, point(-550, 110));
}

#[test]
fn without_a_collision_nothing_changes() {
    let mut position = point(0, 0);
    let mut velocity = point(100, 0);
    let o = Obstacle { position: point(505, 0), half_size: point(5, 100) };
    let collided = handle_collisions(
        &mut position,
        &mut velocity,
        Fixed::zero(),
        Fixed::one(),
        &vec![o],
        raw(1_100_000),
    );
    assert!(!collided);
    assert_eq!(position, point(0, 0));
    assert_eq!(velocity, point(100, 0));
}

#[test]
fn bounce_axis_puts_back_and_reverses() {
    let lo = Fixed::from_int(-10);
    let hi = Fixed::from_int(10);
    let v = Fixed::from_int(4);
    let half = raw(500_000);
    let quarter = raw(250_000);
    assert_eq!(
        bounce_axis(Fixed::from_int(-12), v, lo, hi, half, quarter),
        (lo, Fixed::from_int(-2))
    );
    assert_eq!(
        bounce_axis(Fixed::from_int(12), v, lo, hi, half, quarter),
        (hi, Fixed::from_int(-1))
    );
    assert_eq!(bounce_axis(Fixed::from_int(3), v, lo, hi, half, quarter), (Fixed::from_int(3), v));
    assert_eq!(bounce_axis(lo, v, lo, hi, half, quarter), (lo, v));
    assert_eq!(bounce_axis(hi, v, lo, hi, half, quarter), (hi, v));
}

#[test]
fn bounce_off_walls_uses_the_restitution_of_each_wall() {
    let bounds = Bounds { half_w: Fixed::from_int(480), half_h: Fixed::from_int(270) };
    let restitution = WallRestitution {
        left: raw(900_000),
        right: raw(900_000),
        bottom: raw(800_000),
        top: raw(900_000),
    };
    let mut position = point(500, -300);
    let mut velocity = point(100, -50);
    bounce_off_walls(&mut position, &mut velocity, Fixed::from_int(12), bounds, restitution);
    assert_eq!(position, point(468, -258));
    assert_eq!(velocity, point(-90, 40));

    let mut position = point(-500, 300);
    let mut velocity = point(-100, 50);
    bounce_off_walls(&mut position, &mut velocity, Fixed::from_int(12), bounds, restitution);
    assert_eq!(position, point(-468, 258));
    assert_eq!(velocity, point(90, -45));

    let mut position = point(100, -100);
    let mut velocity = point(-100, 50);
    bounce_off_walls(&mut position, &mut velocity, Fixed::from_int(12), bounds, restitution);
    assert_eq!(position, point(100, -100));
    assert_eq!(velocity, point(-100, 50));
}

#[test]
fn clamp_player_bounces_sideways_only() {
    let mut position = point(500, 999);
    let mut velocity = point(300, 7);
    clamp_player(&mut position, &mut velocity, Fixed::from_int(12), Fixed::from_int(480));
    assert_eq!(position, point(468, 999));
    assert_eq!(velocity, point(-300, 7));
    let mut position = point(-469, 0);
    let mut velocity = point(-300, 0);
    clamp_player(&mut position, &mut velocity, Fixed::from_int(12), Fixed::from_int(480));
    assert_eq!(position, point(-468, 0));
    assert_eq!(velocity, point(300, 0));
}

#[test]
fn clamp_bounds_confines_the_position() {
    let bounds = Bounds { half_w: Fixed::from_int(480), half_h: Fixed::from_int(270) };
    let mut p = point(481, -271);
    clamp_bounds(&mut p, bounds);
    assert_eq!(p, point(480, -270));
    let mut q = point(-1000, 5);
    clamp_bounds(&mut q, bounds);
    assert_eq!(q, point(-480, 5));
}

#[test]
fn rounding_carries_a_mover_no_deeper_than_two_millionths_into_a_passed_box() {
    let mut position = Vec2::zero();
    let mut velocity = Vec2::new(raw(28_358), raw(-2_039));
    let wall = Obstacle {
        position: Vec2::new(raw(3_844), raw(0)),
        half_size: Vec2::new(raw(1_000), raw(100_000)),
    };
    let passed = Obstacle {
        position: Vec2::new(raw(2_841), raw(-202)),
        half_size: Vec2::new(raw(2), raw(2)),
    };
    let path = velocity;
    assert_eq!(closest_collision(position, path, Fixed::zero(), &vec![passed]), None);
    let collided = handle_collisions(
        &mut position,
        &mut velocity,
        Fixed::zero(),
        Fixed::one(),
        &vec![passed, wall],
        Fixed::one(),
    );
    assert!(collided);
    assert_eq!(position, Vec2::new(raw(2_840), raw(-203)));
    assert!(position.x.raw() < 2_844);
    let depth_x = (position.x.raw() - 2_839).min(2_843 - position.x.raw());
    let depth_y = (position.y.raw() + 204).min(-200 - position.y.raw());
    assert!(depth_x.min(depth_y) <= 2);
}
