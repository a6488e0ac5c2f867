use core_engine::components::health::Health;
use core_engine::events::{DamageEvent, DeathEvent, HealEvent};
use core_engine::math::fixed::Fixed;
use core_engine::systems::health_pipeline::{apply_damage_events, apply_heal_events, tick_health};
use core_engine::world::{Components, Entity, World};

fn units(n: i64) -> Fixed {
    Fixed::from_int(n)
}

fn with_health(h: Health) -> Components {
    let mut c = Components::empty();
    c.health = Some(h);
    c
}

fn health_of(world: &World, e: Entity) -> Health {
    world.get(e).unwrap().health.unwrap()
}

#[test]
fn new_health_is_full_and_vulnerable() {
    let h = Health::new(units(10));
    assert_eq!(h.current, units(10));
    assert_eq!(h.max, units(10));
    assert_eq!(h.i_frames, Fixed::zero());
    assert!(!h.is_dead());
}

#[test]
fn new_health_raises_small_limits_to_one() {
    assert_eq!(Health::new(Fixed::zero()).max, Fixed::one());
    assert_eq!(Health::new(units(-5)).max, Fixed::one());
    assert_eq!(Health::new(Fixed::from_raw(500_000)).current, Fixed::one());
}

#[test]
fn with_invuln_keeps_window_and_drops_negative_ones() {
    let h = Health::with_invuln(units(10), Fixed::from_raw(500_000));
    assert_eq!(h.i_frames, Fixed::from_raw(500_000));
    assert_eq!(h.current, units(10));
    let g = Health::with_invuln(units(10), units(-1));
    assert_eq!(g.i_frames, Fixed::zero());
}

#[test]
fn is_dead_at_zero_and_below() {
    let mut h = Health::new(units(3));
    assert!(!h.is_dead());
    h.current = Fixed::zero();
    assert!(h.is_dead());
    h.current = units(-1);
    assert!(h.is_dead());
}

#[test]
fn ratio_is_the_fraction_left() {
    let mut h = Health::new(units(10));
    assert_eq!(h.ratio(), Fixed::one());
    h.current = Fixed::from_raw(2_500_000);
    assert_eq!(h.ratio(), Fixed::from_raw(250_000));
    h.current = units(1);
    h.max = units(3);
    assert_eq!(h.ratio(), Fixed::from_raw(333_333));
}

#[test]
fn ratio_is_clamped_and_zero_without_capacity() {
    let mut h = Health::new(units(10));
    h.current = units(25);
    assert_eq!(h.ratio(), Fixed::one());
    h.current = units(-4);
    assert_eq!(h.ratio(), Fixed::zero());
    h.current = units(5);
    h.max = Fixed::zero();
    assert_eq!(h.ratio(), Fixed::zero());
    h.max = units(-2);
    assert_eq!(h.ratio(), Fixed::zero());
}

#[test]
fn set_max_keeping_ratio_scales_current() {
    let mut h = Health::new(units(10));
    h.current = units(5);
    h.set_max(units(20), true);
    assert_eq!(h.max, units(20));
    assert_eq!(h.current, units(10));
}

#[test]
fn set_max_keeping_value_caps_current() {
    let mut h = Health::new(units(10));
    h.current = units(8);
    h.set_max(units(20), false);
    assert_eq!(h.current, units(8));
    h.set_max(units(5), false);
    assert_eq!(h.max, units(5));
    assert_eq!(h.current, units(5));
}

#[test]
fn set_max_raises_small_limits_to_one() {
    let mut h = Health::new(units(10));
    h.set_max(Fixed::zero(), false);
    assert_eq!(h.max, Fixed::one());
    assert_eq!(h.current, Fixed::one());
    let mut g = Health::new(units(10));
    g.current = units(5);
    g.set_max(units(-3), true);
    assert_eq!(g.max, Fixed::one());
    assert_eq!(g.current, Fixed::from_raw(500_000));
}

#[test]
fn tick_counts_invulnerability_down_to_zero() {
    let mut h = Health::with_invuln(units(10), Fixed::from_raw(500_000));
    h.tick(Fixed::from_raw(200_000));
    assert_eq!(h.i_frames, Fixed::from_raw(300_000));
    h.tick(Fixed::from_raw(400_000));
    assert_eq!(h.i_frames, Fixed::zero());
    h.tick(Fixed::from_raw(400_000));
    assert_eq!(h.i_frames, Fixed::zero());
}

#[test]
fn tick_cuts_overfull_health_back() {
    let mut h = Health::new(units(10));
    h.current = units(14);
    h.tick(Fixed::from_raw(16_000));
    assert_eq!(h.current, units(10));
}

#[test]
fn tick_of_no_or_negative_time_changes_no_window() {
    let mut h = Health::with_invuln(units(10), Fixed::from_raw(500_000));
    h.tick(Fixed::zero());
    assert_eq!(h.i_frames, Fixed::from_raw(500_000));
    h.tick(units(-3));
    assert_eq!(h.i_frames, Fixed::from_raw(500_000));
}

#[test]
fn tick_restores_the_bounds() {
    let mut h = Health { current: units(30), max: units(10), i_frames: Fixed::from_raw(1) };
    h.tick(units(1));
    assert!(h.current.raw() >= 0 && h.current.raw() <= h.max.raw());
    assert!(h.i_frames.raw() >= 0);
}

#[test]
fn tick_raises_negative_hit_points_to_zero() {
    let mut h = Health { current: units(-5), max: units(10), i_frames: Fixed::zero() };
    h.tick(units(1));
    assert_eq!(h.current, Fixed::zero());
    assert!(h.is_dead());
    let mut lowest = Health {
        current: Fixed::from_raw(i64::MIN),
        max: Fixed::one(),
        i_frames: units(-3),
    };
    lowest.tick(Fixed::zero());
    assert_eq!(lowest.current, Fixed::zero());
    assert_eq!(lowest.i_frames, Fixed::zero());
}

#[test]
fn set_max_keeping_ratio_never_kills() {
    let mut h = Health::new(units(2));
    h.current = Fixed::from_raw(1);
    h.set_max(units(2), true);
    assert_eq!(h.current, Fixed::from_raw(2));
    assert!(!h.is_dead());
    let mut faint = Health::new(units(1_000_000));
    faint.current = Fixed::from_raw(1);
    faint.set_max(Fixed::one(), true);
    assert_eq!(faint.current, Fixed::from_raw(1));
    assert!(!faint.is_dead());
    let mut dead = Health::new(units(10));
    dead.current = Fixed::zero();
    dead.set_max(units(20), true);
    assert_eq!(dead.current, Fixed::zero());
    dead.current = units(-4);
    dead.set_max(units(20), true);
    assert_eq!(dead.current, Fixed::zero());
    dead.current = units(-4);
    dead.set_max(units(20), false);
    assert_eq!(dead.current, units(-4));
    assert!(dead.is_dead());
}

#[test]
fn damage_lowers_current_and_floors_at_zero() {
    let mut h = Health::new(units(10));
    assert!(!h.apply_damage(units(4)));
    assert_eq!(h.current, units(6));
    assert!(h.apply_damage(units(15)));
    assert_eq!(h.current, Fixed::zero());
}

#[test]
fn negative_damage_counts_as_zero() {
    let mut h = Health::new(units(10));
    assert!(!h.apply_damage(units(-4)));
    assert_eq!(h.current, units(10));
}

#[test]
fn damage_to_invulnerable_or_dead_changes_nothing() {
    let mut h = Health::with_invuln(units(10), Fixed::from_raw(1));
    assert!(!h.apply_damage(units(15)));
    assert_eq!(h.current, units(10));
    let mut d = Health::new(units(10));
    d.current = Fixed::zero();
    assert!(!d.apply_damage(units(15)));
    assert_eq!(d.current, Fixed::zero());
}

#[test]
fn heal_raises_current_up_to_max() {
    let mut h = Health::new(units(10));
    h.current = units(3);
    h.apply_heal(units(4));
    assert_eq!(h.current, units(7));
    h.apply_heal(units(40));
    assert_eq!(h.current, units(10));
    h.apply_heal(Fixed::from_raw(i64::MAX));
    assert_eq!(h.current, units(10));
}

#[test]
fn heal_of_the_dead_and_negative_heal_change_nothing() {
    let mut d = Health::new(units(10));
    d.current = Fixed::zero();
    d.apply_heal(units(5));
    assert_eq!(d.current, Fixed::zero());
    let mut h = Health::new(units(10));
    h.current = units(3);
    h.apply_heal(units(-5));
    assert_eq!(h.current, units(3));
}

#[test]
fn lethal_damage_kills_and_announces_death() {
    let mut world = World::new();
    let e = world.spawn(with_health(Health::new(units(10)))).unwrap();
    world.send_damage(DamageEvent { target: e, amount: units(15) });
    apply_damage_events(&mut world);
    assert_eq!(health_of(&world, e).current, Fixed::zero());
    assert_eq!(world.pending_deaths().clone(), vec![DeathEvent { entity: e }]);
    assert!(world.pending_damage().is_empty());
}

#[test]
fn invulnerable_target_ignores_damage() {
    let mut world = World::new();
    let e = world
        .spawn(with_health(Health::with_invuln(units(10), Fixed::from_raw(500_000))))
        .unwrap();
    world.send_damage(DamageEvent { target: e, amount: units(15) });
    apply_damage_events(&mut world);
    assert_eq!(health_of(&world, e).current, units(10));
    assert!(world.pending_deaths().is_empty());
}

#[test]
fn repeated_damage_announces_one_death_only() {
    let mut world = World::new();
    let e = world.spawn(with_health(Health::new(units(10)))).unwrap();
    world.send_damage(DamageEvent { target: e, amount: units(6) });
    world.send_damage(DamageEvent { target: e, amount: units(6) });
    world.send_damage(DamageEvent { target: e, amount: units(6) });
    apply_damage_events(&mut world);
    assert_eq!(health_of(&world, e).current, Fixed::zero());
    assert_eq!(world.pending_deaths().len(), 1);
    world.send_damage(DamageEvent { target: e, amount: units(6) });
    apply_damage_events(&mut world);
    assert_eq!(world.pending_deaths().len(), 1);
}

#[test]
fn damage_is_applied_in_order_of_arrival() {
    let mut world = World::new();
    let a = world.spawn(with_health(Health::new(units(10)))).unwrap();
    let b = world.spawn(with_health(Health::new(units(5)))).unwrap();
    world.send_damage(DamageEvent { target: b, amount: units(5) });
    world.send_damage(DamageEvent { target: a, amount: units(3) });
    world.send_damage(DamageEvent { target: a, amount: units(7) });
    apply_damage_events(&mut world);
    assert_eq!(
        world.pending_deaths().clone(),
        vec![DeathEvent { entity: b }, DeathEvent { entity: a }]
    );
}

#[test]
fn messages_to_missing_targets_are_dropped() {
    let mut world = World::new();
    let gone = world.spawn(with_health(Health::new(units(10)))).unwrap();
    let bare = world.spawn(Components::empty()).unwrap();
    world.despawn(gone);
    world.send_damage(DamageEvent { target: gone, amount: units(15) });
    world.send_damage(DamageEvent { target: bare, amount: units(15) });
    world.send_heal(HealEvent { target: gone, amount: units(15) });
    world.send_heal(HealEvent { target: bare, amount: units(15) });
    apply_damage_events(&mut world);
    apply_heal_events(&mut world);
    assert!(world.pending_deaths().is_empty());
    assert!(world.pending_damage().is_empty());
    assert!(world.pending_heal().is_empty());
    assert_eq!(world.get(bare), Some(Components::empty()));
    assert_eq!(world.get(gone), None);
}

#[test]
fn heal_events_heal_the_living_only() {
    let mut world = World::new();
    let mut hurt = Health::new(units(10));
    hurt.current = units(2);
    let mut dead = Health::new(units(10));
    dead.current = Fixed::zero();
    let a = world.spawn(with_health(hurt)).unwrap();
    let b = world.spawn(with_health(dead)).unwrap();
    world.send_heal(HealEvent { target: a, amount: units(3) });
    world.send_heal(HealEvent { target: b, amount: units(3) });
    world.send_heal(HealEvent { target: a, amount: units(30) });
    apply_heal_events(&mut world);
    assert_eq!(health_of(&world, a).current, units(10));
    assert_eq!(health_of(&world, b).current, Fixed::zero());
}

#[test]
fn tick_health_reaches_every_entity() {
    let mut world = World::new();
    let a = world
        .spawn(with_health(Health::with_invuln(units(10), Fixed::from_raw(500_000))))
        .unwrap();
    let bare = world.spawn(Components::empty()).unwrap();
    let mut over = Health::new(units(4));
    over.current = units(9);
    let b = world.spawn(with_health(over)).unwrap();
    tick_health(&mut world, Fixed::from_raw(100_000));
    assert_eq!(health_of(&world, a).i_frames, Fixed::from_raw(400_000));
    assert_eq!(health_of(&world, b).current, units(4));
    assert_eq!(world.get(bare), Some(Components::empty()));
}
