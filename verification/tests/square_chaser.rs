use core_engine::components::collider::{CircleCollider, Collider};
use core_engine::components::lifetime::Lifetime;
use core_engine::components::velocity::Velocity;
use core_engine::games::square_chaser::{
    clamp_bounds, collect_targets, key_velocity, player_input, spawn_player, spawn_target,
    spawn_target_periodically, tick_round, Keys, ARENA_HALF_H, ARENA_HALF_W, TARGET_MARGIN,
};
use core_engine::math::fixed::Fixed;
use core_engine::math::vec2::Vec2;
use core_engine::plugins::{CorePlugin, Schedule};
use core_engine::world::{Components, World};

fn raw(r: i64) -> Fixed {
    Fixed::from_raw(r)
}

fn point(x: i64, y: i64) -> Vec2 {
    Vec2::new(Fixed::from_int(x), Fixed::from_int(y))
}

fn keys(up: bool, down: bool, right: bool, left: bool) -> Keys {
    Keys { up, down, right, left }
}

#[test]
fn keys_give_a_velocity_of_constant_speed() {
    assert_eq!(key_velocity(keys(false, false, false, false)), Vec2::zero());
    assert_eq!(key_velocity(keys(true, false, false, false)), point(0, 260));
    assert_eq!(key_velocity(keys(false, true, false, false)), point(0, -260));
    assert_eq!(key_velocity(keys(false, false, true, false)), point(260, 0));
    assert_eq!(key_velocity(keys(false, false, false, true)), point(-260, 0));
    assert_eq!(
        key_velocity(keys(true, false, false, true)),
        Vec2::new(raw(-183_847_763), raw(183_847_763))
    );
    assert_eq!(
        key_velocity(keys(false, true, true, false)),
        Vec2::new(raw(183_847_763), raw(-183_847_763))
    );
}

#[test]
fn opposite_keys_cancel() {
    assert_eq!(key_velocity(keys(true, true, false, false)), Vec2::zero());
    assert_eq!(key_velocity(keys(true, true, true, false)), point(260, 0));
    assert_eq!(key_velocity(keys(true, true, true, true)), Vec2::zero());
}

#[test]
fn player_input_steers_the_player() {
    let mut world = World::new();
    let player = spawn_player(&mut world).unwrap();
    let bare = world.spawn(Components::empty()).unwrap();
    player_input(&mut world, player, keys(false, false, true, false));
    assert_eq!(world.get(player).unwrap().velocity, Some(Velocity::new(point(260, 0))));
    player_input(&mut world, bare, keys(false, false, true, false));
    assert_eq!(world.get(bare), Some(Components::empty()));
    world.despawn(player);
    player_input(&mut world, player, keys(true, false, false, false));
    assert_eq!(world.get(player), None);
}

#[test]
fn the_player_runs_and_is_kept_in_the_arena() {
    let mut world = World::new();
    let player = spawn_player(&mut world).unwrap();
    let mut schedule = Schedule::new();
    CorePlugin.build(&mut schedule);
    player_input(&mut world, player, keys(false, false, true, false));
    schedule.advance(&mut world, Fixed::one());
    clamp_bounds(&mut world, player);
    assert_eq!(world.get(player).unwrap().position, Some(point(260, 0)));
    schedule.advance(&mut world, Fixed::one());
    clamp_bounds(&mut world, player);
    assert_eq!(world.get(player).unwrap().position, Some(point(480, 0)));
    player_input(&mut world, player, keys(false, true, false, false));
    schedule.advance(&mut world, Fixed::from_int(2));
    clamp_bounds(&mut world, player);
    assert_eq!(world.get(player).unwrap().position, Some(point(480, -270)));
}

#[test]
fn a_target_has_a_collider_and_a_lifetime() {
    let mut world = World::new();
    let t = spawn_target(&mut world, point(30, -40)).unwrap();
    let c = world.get(t).unwrap();
    assert_eq!(c.position, Some(point(30, -40)));
    assert_eq!(c.collider, Some(Collider::circle(Fixed::from_int(10))));
    assert_eq!(c.lifetime, Some(Lifetime::seconds(Fixed::from_int(5))));
    assert_eq!(c.velocity, None);
    assert_eq!(c.health, None);
}

#[test]
fn targets_appear_at_random_places_inside_the_margin() {
    let mut world = World::new();
    let mut seen_different = false;
    let mut first: Option<Vec2> = None;
    for _ in 0..200 {
        let t = spawn_target_periodically(&mut world, true, None).unwrap();
        let p = world.get(t).unwrap().position.unwrap();
        assert!(p.x.raw() >= -ARENA_HALF_W + TARGET_MARGIN);
        assert!(p.x.raw() < ARENA_HALF_W - TARGET_MARGIN);
        assert!(p.y.raw() >= -ARENA_HALF_H + TARGET_MARGIN);
        assert!(p.y.raw() < ARENA_HALF_H - TARGET_MARGIN);
        match first {
            Some(f) => seen_different = seen_different || f != p,
            None => first = Some(p),
        }
        world.despawn(t);
    }
    assert!(seen_different);
}

#[test]
fn a_target_is_spawned_only_when_due_and_none_is_there() {
    let mut world = World::new();
    assert_eq!(spawn_target_periodically(&mut world, false, None), None);
    assert_eq!(world.num_slots(), 0);
    let t = spawn_target_periodically(&mut world, true, None).unwrap();
    assert_eq!(spawn_target_periodically(&mut world, true, Some(t)), Some(t));
    assert_eq!(spawn_target_periodically(&mut world, false, Some(t)), Some(t));
    assert_eq!(world.num_slots(), 1);
    world.despawn(t);
    assert_eq!(spawn_target_periodically(&mut world, false, Some(t)), None);
    let u = spawn_target_periodically(&mut world, true, Some(t)).unwrap();
    assert!(u != t);
    assert!(world.contains(u));
}

#[test]
fn a_target_expires_after_its_lifetime() {
    let mut world = World::new();
    let mut schedule = Schedule::new();
    CorePlugin.build(&mut schedule);
    let t = spawn_target_periodically(&mut world, true, None).unwrap();
    schedule.advance(&mut world, raw(4_999_999));
    assert!(world.contains(t));
    schedule.advance(&mut world, raw(1));
    assert!(!world.contains(t));
}

#[test]
fn the_player_collects_the_first_target_it_touches() {
    let mut world = World::new();
    let player = spawn_player(&mut world).unwrap();
    let far = spawn_target(&mut world, point(81, 0)).unwrap();
    let near = spawn_target(&mut world, point(48, 64)).unwrap();
    let also = spawn_target(&mut world, point(0, 0)).unwrap();
    let targets = vec![far, near, also];
    assert_eq!(collect_targets(&mut world, player, &targets), Some(near));
    assert!(!world.contains(near));
    assert!(world.contains(far) && world.contains(also));
    assert_eq!(collect_targets(&mut world, player, &targets), Some(also));
    assert_eq!(collect_targets(&mut world, player, &targets), None);
    assert!(world.contains(far));
}

#[test]
fn circles_that_just_touch_count_as_touching() {
    let a = CircleCollider::new(Fixed::from_int(70));
    let b = CircleCollider::new(Fixed::from_int(10));
    assert!(a.overlaps(point(0, 0), &b, point(80, 0)));
    assert!(a.overlaps(point(0, 0), &b, point(48, 64)));
    assert!(!a.overlaps(point(0, 0), &b, Vec2::new(raw(80_000_001), raw(0))));
    assert!(!a.overlaps(point(0, 0), &b, Vec2::new(raw(48_000_001), raw(64_000_000))));
    assert!(a.overlaps(point(5, 5), &a, point(5, 5)));
}

#[test]
fn circle_overlap_survives_extremes() {
    let huge = CircleCollider::new(raw(i64::MAX));
    let tiny = CircleCollider::new(raw(0));
    let lowest = CircleCollider::new(raw(i64::MIN));
    let a = Vec2::new(raw(i64::MIN), raw(i64::MIN));
    let b = Vec2::new(raw(i64::MAX), raw(i64::MAX));
    assert!(!huge.overlaps(a, &huge, b));
    assert!(!tiny.overlaps(a, &tiny, b));
    assert!(lowest.overlaps(a, &lowest, Vec2::new(raw(i64::MAX), raw(i64::MIN))));
    assert!(!lowest.overlaps(a, &lowest, b));
    assert!(tiny.overlaps(a, &tiny, a));
}

#[test]
fn without_a_player_nothing_is_collected() {
    let mut world = World::new();
    let player = spawn_player(&mut world).unwrap();
    let t = spawn_target(&mut world, point(0, 0)).unwrap();
    world.despawn(player);
    assert_eq!(collect_targets(&mut world, player, &vec![t]), None);
    assert!(world.contains(t));
    let bare = world.spawn(Components::empty()).unwrap();
    assert_eq!(collect_targets(&mut world, bare, &vec![t]), None);
}

#[test]
fn the_round_counts_down_and_stops_at_zero() {
    let mut time_left = Fixed::from_int(60);
    assert!(!tick_round(&mut time_left, raw(16_667)));
    assert_eq!(time_left, raw(59_983_333));
    assert!(tick_round(&mut time_left, Fixed::from_int(60)));
    assert_eq!(time_left, Fixed::zero());
    assert!(tick_round(&mut time_left, Fixed::one()));
    assert_eq!(time_left, Fixed::zero());
}
