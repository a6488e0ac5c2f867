use core_engine::components::lifetime::Lifetime;
use core_engine::components::velocity::Velocity;
use core_engine::events::DeathEvent;
use core_engine::math::fixed::Fixed;
use core_engine::math::vec2::Vec2;
use core_engine::systems::lifetime::{despawn_on_death, tick_lifetimes};
use core_engine::systems::movement::{apply_velocity, integrate};
use core_engine::world::{Components, World};

fn raw(r: i64) -> Fixed {
    Fixed::from_raw(r)
}

fn point(x: i64, y: i64) -> Vec2 {
    Vec2::new(Fixed::from_int(x), Fixed::from_int(y))
}

#[test]
fn velocity_constructors() {
    let v = Velocity::new(point(3, 4));
    assert_eq!(v.lin_vel, point(3, 4));
    assert_eq!(v.drag, Fixed::zero());
    let w = Velocity::with_drag(point(3, 4), raw(50_000));
    assert_eq!(w.lin_vel, point(3, 4));
    assert_eq!(w.drag, raw(50_000));
    let d = Velocity::default();
    assert_eq!(d.lin_vel, Vec2::zero());
    assert_eq!(d.drag, Fixed::zero());
}

#[test]
fn drag_over_one_second_leaves_the_remaining_fraction() {
    let mut p = Vec2::zero();
    let mut v = Velocity::with_drag(point(100, 0), raw(50_000));
    integrate(&mut p, &mut v, Fixed::one());
    assert_eq!(v.lin_vel, point(95, 0));
    assert_eq!(p, point(100, 0));
}

#[test]
fn position_advances_by_velocity_times_time() {
    let mut p = point(1, 2);
    let mut v = Velocity::new(point(10, -20));
    integrate(&mut p, &mut v, raw(500_000));
    assert_eq!(p, point(6, -8));
    assert_eq!(v.lin_vel, point(10, -20));
}

#[test]
fn negative_time_moves_nothing() {
    let mut p = point(1, 2);
    let mut v = Velocity::with_drag(point(10, -20), raw(50_000));
    integrate(&mut p, &mut v, Fixed::from_int(-1));
    assert_eq!(p, point(1, 2));
    assert_eq!(v.lin_vel, point(10, -20));
}

#[test]
fn no_time_is_a_pause() {
    let mut p = point(1, 2);
    let mut v = Velocity::with_drag(point(10, -20), raw(50_000));
    integrate(&mut p, &mut v, Fixed::zero());
    assert_eq!(p, point(1, 2));
    assert_eq!(v.lin_vel, point(10, -20));
}

#[test]
fn slow_velocities_snap_to_rest() {
    let mut v = Velocity::with_drag(Vec2::new(raw(800), raw(-700)), raw(500_000));
    v.apply_drag(Fixed::one());
    assert_eq!(v.lin_vel, Vec2::zero());
    let mut w = Velocity::with_drag(Vec2::new(raw(2_000), raw(0)), raw(500_000));
    w.apply_drag(Fixed::one());
    assert_eq!(w.lin_vel, Vec2::new(raw(1_000), raw(0)));
    let mut u = Velocity::with_drag(Vec2::new(raw(1_998), raw(0)), raw(500_000));
    u.apply_drag(Fixed::one());
    assert_eq!(u.lin_vel, Vec2::zero());
}

#[test]
fn without_drag_even_slow_velocities_persist() {
    let mut v = Velocity::new(Vec2::new(raw(5), raw(0)));
    v.apply_drag(Fixed::one());
    assert_eq!(v.lin_vel, Vec2::new(raw(5), raw(0)));
    let mut w = Velocity::with_drag(Vec2::new(raw(5), raw(0)), Fixed::from_int(-1));
    w.apply_drag(Fixed::one());
    assert_eq!(w.lin_vel, Vec2::new(raw(5), raw(0)));
}

#[test]
fn full_drag_stops_at_once() {
    let mut p = Vec2::zero();
    let mut v = Velocity::with_drag(point(100, 50), Fixed::one());
    integrate(&mut p, &mut v, raw(16_667));
    assert_eq!(v.lin_vel, Vec2::zero());
    assert_eq!(p, Vec2::new(raw(1_666_700), raw(833_350)));
}

#[test]
fn half_steps_and_whole_step_agree_within_tolerance() {
    let mut p1 = Vec2::zero();
    let mut v1 = Velocity::with_drag(point(100, 0), raw(50_000));
    integrate(&mut p1, &mut v1, Fixed::one());
    let mut p2 = Vec2::zero();
    let mut v2 = Velocity::with_drag(point(100, 0), raw(50_000));
    integrate(&mut p2, &mut v2, raw(500_000));
    integrate(&mut p2, &mut v2, raw(500_000));
    assert_eq!(v1.lin_vel.x, Fixed::from_int(95));
    assert_eq!(v2.lin_vel.x, raw(94_999_915));
    assert!((v1.lin_vel.x.raw() - v2.lin_vel.x.raw()).abs() <= 300);
}

#[test]
fn apply_velocity_moves_only_entities_with_position_and_velocity() {
    let mut world = World::new();
    let mut both = Components::empty();
    both.position = Some(point(0, 0));
    both.velocity = Some(Velocity::with_drag(point(100, 0), raw(50_000)));
    let mut only_position = Components::empty();
    only_position.position = Some(point(5, 5));
    let mut only_velocity = Components::empty();
    only_velocity.velocity = Some(Velocity::with_drag(point(9, 9), raw(50_000)));
    let a = world.spawn(both).unwrap();
    let b = world.spawn(only_position).unwrap();
    let c = world.spawn(only_velocity).unwrap();
    apply_velocity(&mut world, Fixed::one());
    let moved = world.get(a).unwrap();
    assert_eq!(moved.position, Some(point(100, 0)));
    assert_eq!(moved.velocity.unwrap().lin_vel, point(95, 0));
    assert_eq!(world.get(b), Some(only_position));
    assert_eq!(world.get(c), Some(only_velocity));
}

#[test]
fn lifetime_is_clamped_at_creation() {
    assert_eq!(Lifetime::seconds(Fixed::from_int(5)).seconds_left, Fixed::from_int(5));
    assert_eq!(Lifetime::seconds(Fixed::from_int(-5)).seconds_left, Fixed::zero());
}

#[test]
fn lifetime_counts_down_and_reports_expiry() {
    let mut l = Lifetime::seconds(Fixed::one());
    assert!(!l.tick(raw(400_000)));
    assert_eq!(l.seconds_left, raw(600_000));
    assert!(l.tick(raw(600_000)));
    assert_eq!(l.seconds_left, Fixed::zero());
    let mut m = Lifetime::seconds(Fixed::one());
    assert!(!m.tick(Fixed::from_int(-7)));
    assert_eq!(m.seconds_left, Fixed::one());
    let mut z = Lifetime::seconds(Fixed::zero());
    assert!(z.tick(Fixed::zero()));
}

#[test]
fn lifetime_saturates_at_the_bottom() {
    let mut l = Lifetime { seconds_left: raw(i64::MIN + 5) };
    assert!(l.tick(raw(10)));
    assert_eq!(l.seconds_left, raw(i64::MIN));
}

#[test]
fn expired_lifetime_removes_the_entity() {
    let mut world = World::new();
    let mut c = Components::empty();
    c.lifetime = Some(Lifetime::seconds(raw(500_000)));
    let e = world.spawn(c).unwrap();
    tick_lifetimes(&mut world, raw(600_000));
    assert!(!world.contains(e));
    assert_eq!(world.get(e), None);
}

#[test]
fn tick_lifetimes_keeps_what_has_time_left() {
    let mut world = World::new();
    let mut short = Components::empty();
    short.lifetime = Some(Lifetime::seconds(raw(500_000)));
    let mut long = Components::empty();
    long.lifetime = Some(Lifetime::seconds(Fixed::from_int(5)));
    let a = world.spawn(short).unwrap();
    let b = world.spawn(long).unwrap();
    let c = world.spawn(Components::empty()).unwrap();
    tick_lifetimes(&mut world, raw(500_000));
    assert!(!world.contains(a));
    assert_eq!(world.get(b).unwrap().lifetime.unwrap().seconds_left, raw(4_500_000));
    assert_eq!(world.get(c), Some(Components::empty()));
}

#[test]
fn despawn_on_death_removes_named_entities_and_empties_the_queue() {
    let mut world = World::new();
    let a = world.spawn(Components::empty()).unwrap();
    let b = world.spawn(Components::empty()).unwrap();
    world.send_death(DeathEvent { entity: a });
    despawn_on_death(&mut world);
    assert!(!world.contains(a));
    assert!(world.contains(b));
    assert!(world.pending_deaths().is_empty());
}

#[test]
fn processing_a_death_twice_equals_processing_it_once() {
    let mut once = World::new();
    let a1 = once.spawn(Components::empty()).unwrap();
    let b1 = once.spawn(Components::empty()).unwrap();
    once.send_death(DeathEvent { entity: a1 });
    despawn_on_death(&mut once);

    let mut twice = World::new();
    let a2 = twice.spawn(Components::empty()).unwrap();
    let b2 = twice.spawn(Components::empty()).unwrap();
    twice.send_death(DeathEvent { entity: a2 });
    twice.send_death(DeathEvent { entity: a2 });
    despawn_on_death(&mut twice);
    twice.send_death(DeathEvent { entity: a2 });
    despawn_on_death(&mut twice);

    assert_eq!(a1, a2);
    assert_eq!(b1, b2);
    assert_eq!(once.contains(a1), twice.contains(a2));
    assert_eq!(once.get(b1), twice.get(b2));
    assert!(!twice.contains(a2));
    assert!(twice.pending_deaths().is_empty());
}

#[test]
fn a_stale_death_does_not_hit_the_next_tenant_of_the_slot() {
    let mut world = World::new();
    let old = world.spawn(Components::empty()).unwrap();
    world.despawn(old);
    let new = world.spawn(Components::empty()).unwrap();
    assert_eq!(new.index, old.index);
    world.send_death(DeathEvent { entity: old });
    despawn_on_death(&mut world);
    assert!(world.contains(new));
}

#[test]
fn half_steps_and_whole_step_agree_for_vectors_near_rest() {
    for (x, y, drag) in [
        (1_500, -900, 500_000),
        (1_999, 0, 750_000),
        (4_000, 3_000, 900_000),
        (-123_456_789, 987_654_321, 50_000),
        (i64::MAX, i64::MIN, 1),
        (700, 700, 10),
    ] {
        let start = Velocity::with_drag(Vec2::new(raw(x), raw(y)), raw(drag));
        let mut once = start;
        once.apply_drag(Fixed::one());
        let mut twice = start;
        twice.apply_drag(raw(500_000));
        twice.apply_drag(raw(500_000));
        let tolerance_x = 2 * (x as i128).abs() / 1_000_000 + 2 + 1_000;
        let tolerance_y = 2 * (y as i128).abs() / 1_000_000 + 2 + 1_000;
        let dx = (once.lin_vel.x.raw() as i128 - twice.lin_vel.x.raw() as i128).abs();
        let dy = (once.lin_vel.y.raw() as i128 - twice.lin_vel.y.raw() as i128).abs();
        assert!(dx <= tolerance_x);
        assert!(dy <= tolerance_y);
        assert_eq!(once.drag, raw(drag));
        assert_eq!(twice.drag, raw(drag));
    }
    let mut once = Velocity::with_drag(Vec2::new(raw(1_999), raw(0)), raw(750_000));
    once.apply_drag(Fixed::one());
    assert_eq!(once.lin_vel, Vec2::zero());
    let mut twice = Velocity::with_drag(Vec2::new(raw(1_999), raw(0)), raw(750_000));
    twice.apply_drag(raw(500_000));
    assert_eq!(twice.lin_vel, Vec2::zero());
}
