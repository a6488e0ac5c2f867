use core_engine::components::collider::{CircleCollider, Collider, ColliderDebug};
use core_engine::components::health::Health;
use core_engine::components::lifetime::Lifetime;
use core_engine::components::velocity::Velocity;
use core_engine::events::{DamageEvent, DeathEvent, HealEvent};
use core_engine::math::fixed::Fixed;
use core_engine::math::vec2::Vec2;
use core_engine::plugins::{run_system, CorePlugin, CoreSet, CoreSystem, Schedule};
use core_engine::games::square_chaser::{setup_camera, spawn_player, spawn_ui};
use core_engine::world::{Components, Entity, World};

fn raw(r: i64) -> Fixed {
    Fixed::from_raw(r)
}

fn point(x: i64, y: i64) -> Vec2 {
    Vec2::new(Fixed::from_int(x), Fixed::from_int(y))
}

fn core_schedule() -> Schedule {
    let mut schedule = Schedule::new();
    CorePlugin.build(&mut schedule);
    schedule
}

#[test]
fn a_new_world_is_empty() {
    let world = World::new();
    assert_eq!(world.num_slots(), 0);
    assert!(!world.full());
    assert!(!world.contains(Entity { index: 0, generation: 0 }));
    assert_eq!(world.get(Entity { index: 0, generation: 0 }), None);
    assert_eq!(world.entity_at(0), None);
    assert!(world.pending_damage().is_empty());
    assert!(world.pending_heal().is_empty());
    assert!(world.pending_deaths().is_empty());
}

#[test]
fn spawn_gives_fresh_identifiers_and_stores_components() {
    let mut world = World::new();
    let mut c = Components::empty();
    c.position = Some(point(1, 2));
    let a = world.spawn(c).unwrap();
    let b = world.spawn(Components::empty()).unwrap();
    assert!(a != b);
    assert!(world.contains(a) && world.contains(b));
    assert_eq!(world.get(a), Some(c));
    assert_eq!(world.get(b), Some(Components::empty()));
    assert_eq!(world.num_slots(), 2);
    assert_eq!(world.entity_at(a.index as usize), Some(a));
    assert_eq!(world.entity_at(b.index as usize), Some(b));
    assert_eq!(world.entity_at(2), None);
}

#[test]
fn despawn_invalidates_the_identifier_for_good() {
    let mut world = World::new();
    let a = world.spawn(Components::empty()).unwrap();
    assert!(world.despawn(a));
    assert!(!world.contains(a));
    assert_eq!(world.get(a), None);
    assert_eq!(world.entity_at(a.index as usize), None);
    let b = world.spawn(Components::empty()).unwrap();
    assert_eq!(b.index, a.index);
    assert_eq!(b.generation, a.generation + 1);
    assert!(!world.contains(a));
    assert!(world.contains(b));
    assert_eq!(world.num_slots(), 1);
}

#[test]
fn despawn_of_what_is_gone_is_a_no_op() {
    let mut world = World::new();
    let a = world.spawn(Components::empty()).unwrap();
    let b = world.spawn(Components::empty()).unwrap();
    assert!(world.despawn(a));
    assert!(!world.despawn(a));
    assert!(!world.despawn(Entity { index: 77, generation: 0 }));
    assert!(world.contains(b));
    let c = world.spawn(Components::empty()).unwrap();
    let d = world.spawn(Components::empty()).unwrap();
    assert_eq!(c.index, a.index);
    assert_eq!(d.index, 2);
}

#[test]
fn set_replaces_components_of_live_entities_only() {
    let mut world = World::new();
    let a = world.spawn(Components::empty()).unwrap();
    let mut c = Components::empty();
    c.lifetime = Some(Lifetime::seconds(Fixed::from_int(5)));
    assert!(world.set(a, c));
    assert_eq!(world.get(a), Some(c));
    world.despawn(a);
    assert!(!world.set(a, c));
    assert_eq!(world.get(a), None);
}

#[test]
fn queues_keep_the_order_of_arrival_and_are_taken_once() {
    let mut world = World::new();
    let a = world.spawn(Components::empty()).unwrap();
    let b = world.spawn(Components::empty()).unwrap();
    world.send_damage(DamageEvent { target: a, amount: raw(1) });
    world.send_damage(DamageEvent { target: b, amount: raw(2) });
    world.send_heal(HealEvent { target: b, amount: raw(3) });
    world.send_death(DeathEvent { entity: b });
    world.send_death(DeathEvent { entity: a });
    assert_eq!(
        world.take_damage(),
        vec![DamageEvent { target: a, amount: raw(1) }, DamageEvent { target: b, amount: raw(2) }]
    );
    assert_eq!(world.take_heal(), vec![HealEvent { target: b, amount: raw(3) }]);
    assert_eq!(world.take_deaths(), vec![DeathEvent { entity: b }, DeathEvent { entity: a }]);
    assert!(world.take_damage().is_empty());
    assert!(world.take_heal().is_empty());
    assert!(world.take_deaths().is_empty());
    assert!(world.contains(a) && world.contains(b));
}

#[test]
fn collider_constructors() {
    assert_eq!(CircleCollider::new(Fixed::from_int(70)).radius, Fixed::from_int(70));
    let d = ColliderDebug::default();
    assert!(d.enabled);
    assert_eq!(d.radius_scale, Fixed::one());
    assert_eq!(d.line_thickness, Fixed::from_int(2));
}

#[test]
fn the_plugin_registers_the_core_systems_in_order() {
    let schedule = core_schedule();
    assert!(schedule.pre_physics.is_empty());
    assert_eq!(
        schedule.simulation,
        vec![
            CoreSystem::ApplyVelocity,
            CoreSystem::TickHealth,
            CoreSystem::ApplyDamageEvents,
            CoreSystem::ApplyHealEvents
        ]
    );
    assert_eq!(schedule.post, vec![CoreSystem::TickLifetimes, CoreSystem::DespawnOnDeath]);
}

#[test]
fn add_system_appends_to_its_phase() {
    let mut schedule = Schedule::new();
    schedule.add_system(CoreSet::PrePhysics, CoreSystem::TickHealth);
    schedule.add_system(CoreSet::Post, CoreSystem::DespawnOnDeath);
    schedule.add_system(CoreSet::PrePhysics, CoreSystem::ApplyVelocity);
    assert_eq!(schedule.pre_physics, vec![CoreSystem::TickHealth, CoreSystem::ApplyVelocity]);
    assert!(schedule.simulation.is_empty());
    assert_eq!(schedule.post, vec![CoreSystem::DespawnOnDeath]);
}

#[test]
fn a_frame_kills_and_removes_in_one_go() {
    let mut world = World::new();
    let mut c = Components::empty();
    c.health = Some(Health::new(Fixed::from_int(10)));
    let victim = world.spawn(c).unwrap();
    let bystander = world.spawn(c).unwrap();
    world.send_damage(DamageEvent { target: victim, amount: Fixed::from_int(15) });
    core_schedule().advance(&mut world, raw(16_667));
    assert!(!world.contains(victim));
    assert!(world.contains(bystander));
    assert!(world.pending_damage().is_empty());
    assert!(world.pending_heal().is_empty());
    assert!(world.pending_deaths().is_empty());
}

#[test]
fn a_frame_ticks_invulnerability_before_damage() {
    let mut world = World::new();
    let mut c = Components::empty();
    c.health = Some(Health::with_invuln(Fixed::from_int(10), raw(10_000)));
    let e = world.spawn(c).unwrap();
    world.send_damage(DamageEvent { target: e, amount: Fixed::from_int(4) });
    core_schedule().advance(&mut world, raw(16_667));
    assert_eq!(world.get(e).unwrap().health.unwrap().current, Fixed::from_int(6));
    let mut d = Components::empty();
    d.health = Some(Health::with_invuln(Fixed::from_int(10), raw(20_000)));
    let f = world.spawn(d).unwrap();
    world.send_damage(DamageEvent { target: f, amount: Fixed::from_int(4) });
    core_schedule().advance(&mut world, raw(16_667));
    assert_eq!(world.get(f).unwrap().health.unwrap().current, Fixed::from_int(10));
    assert_eq!(world.get(f).unwrap().health.unwrap().i_frames, raw(3_333));
}

#[test]
fn a_frame_applies_damage_before_healing() {
    let mut world = World::new();
    let mut c = Components::empty();
    c.health = Some(Health::new(Fixed::from_int(10)));
    let e = world.spawn(c).unwrap();
    world.send_heal(HealEvent { target: e, amount: Fixed::from_int(3) });
    world.send_damage(DamageEvent { target: e, amount: Fixed::from_int(4) });
    core_schedule().advance(&mut world, raw(16_667));
    assert_eq!(world.get(e).unwrap().health.unwrap().current, Fixed::from_int(9));
    let f = world.spawn(c).unwrap();
    world.send_heal(HealEvent { target: f, amount: Fixed::from_int(30) });
    world.send_damage(DamageEvent { target: f, amount: Fixed::from_int(10) });
    core_schedule().advance(&mut world, raw(16_667));
    assert!(!world.contains(f));
}

#[test]
fn a_frame_moves_counts_down_and_expires() {
    let mut world = World::new();
    let mut c = Components::empty();
    c.position = Some(point(0, 0));
    c.velocity = Some(Velocity::with_drag(point(100, 0), raw(50_000)));
    c.lifetime = Some(Lifetime::seconds(Fixed::from_int(2)));
    let e = world.spawn(c).unwrap();
    let schedule = core_schedule();
    schedule.advance(&mut world, Fixed::one());
    let after = world.get(e).unwrap();
    assert_eq!(after.position, Some(point(100, 0)));
    assert_eq!(after.velocity.unwrap().lin_vel, point(95, 0));
    assert_eq!(after.lifetime.unwrap().seconds_left, Fixed::one());
    schedule.advance(&mut world, Fixed::one());
    assert!(!world.contains(e));
}

#[test]
fn a_frame_of_no_time_is_a_pause() {
    let mut world = World::new();
    let mut c = Components::empty();
    c.position = Some(point(3, 4));
    c.velocity = Some(Velocity::with_drag(point(100, 0), raw(50_000)));
    c.lifetime = Some(Lifetime::seconds(Fixed::from_int(2)));
    c.health = Some(Health::with_invuln(Fixed::from_int(10), raw(20_000)));
    let e = world.spawn(c).unwrap();
    core_schedule().advance(&mut world, Fixed::zero());
    assert_eq!(world.get(e), Some(c));
}

#[test]
fn an_empty_schedule_changes_nothing() {
    let mut world = World::new();
    let mut c = Components::empty();
    c.lifetime = Some(Lifetime::seconds(Fixed::zero()));
    let e = world.spawn(c).unwrap();
    world.send_death(DeathEvent { entity: e });
    Schedule::new().advance(&mut world, Fixed::one());
    assert!(world.contains(e));
    assert_eq!(world.pending_deaths().len(), 1);
}

#[test]
fn run_set_runs_one_phase_only() {
    let mut world = World::new();
    let mut c = Components::empty();
    c.health = Some(Health::new(Fixed::from_int(10)));
    let e = world.spawn(c).unwrap();
    world.send_damage(DamageEvent { target: e, amount: Fixed::from_int(15) });
    let schedule = core_schedule();
    schedule.run_set(CoreSet::PrePhysics, &mut world, Fixed::one());
    assert_eq!(world.pending_damage().len(), 1);
    schedule.run_set(CoreSet::Simulation, &mut world, Fixed::one());
    assert!(world.contains(e));
    assert_eq!(world.pending_deaths().clone(), vec![DeathEvent { entity: e }]);
    schedule.run_set(CoreSet::Post, &mut world, Fixed::one());
    assert!(!world.contains(e));
}

#[test]
fn run_system_dispatches() {
    let mut world = World::new();
    let mut c = Components::empty();
    c.health = Some(Health::new(Fixed::from_int(10)));
    c.health.as_mut().unwrap().current = Fixed::from_int(2);
    let e = world.spawn(c).unwrap();
    world.send_heal(HealEvent { target: e, amount: Fixed::from_int(3) });
    run_system(CoreSystem::ApplyDamageEvents, &mut world, Fixed::one());
    assert_eq!(world.pending_heal().len(), 1);
    run_system(CoreSystem::ApplyHealEvents, &mut world, Fixed::one());
    assert_eq!(world.get(e).unwrap().health.unwrap().current, Fixed::from_int(5));
}

#[test]
fn the_opening_scene_of_the_arena() {
    let mut world = World::new();
    let camera = setup_camera(&mut world).unwrap();
    let player = spawn_player(&mut world).unwrap();
    let ui = spawn_ui(&mut world).unwrap();
    assert!(camera != player && player != ui && camera != ui);

    let c = world.get(camera).unwrap();
    assert_eq!(c.position, Some(Vec2::zero()));
    assert_eq!(c.velocity, None);
    assert_eq!(c.health, None);

    let p = world.get(player).unwrap();
    assert_eq!(p.position, Some(Vec2::zero()));
    assert_eq!(p.velocity, Some(Velocity::default()));
    assert_eq!(p.collider, Some(Collider::circle(Fixed::from_int(70))));
    assert_eq!(p.health, Some(Health::new(Fixed::one())));
    assert_eq!(p.lifetime, None);

    assert_eq!(world.get(ui), Some(Components::empty()));
}

#[test]
fn the_player_dies_of_any_full_hit() {
    let mut world = World::new();
    let player = spawn_player(&mut world).unwrap();
    world.send_damage(DamageEvent { target: player, amount: Fixed::one() });
    core_schedule().advance(&mut world, raw(16_667));
    assert!(!world.contains(player));
}

#[test]
fn a_frame_restores_the_bounds_of_every_health() {
    let mut world = World::new();
    let mut c = Components::empty();
    c.health = Some(Health {
        current: Fixed::from_int(-7),
        max: Fixed::from_int(10),
        i_frames: Fixed::from_int(-1),
    });
    let low = world.spawn(c).unwrap();
    c.health = Some(Health {
        current: Fixed::from_int(70),
        max: Fixed::from_int(10),
        i_frames: raw(5),
    });
    let high = world.spawn(c).unwrap();
    core_schedule().advance(&mut world, raw(16_667));
    let l = world.get(low).unwrap().health.unwrap();
    assert_eq!(l.current, Fixed::zero());
    assert_eq!(l.i_frames, Fixed::zero());
    let h = world.get(high).unwrap().health.unwrap();
    assert_eq!(h.current, Fixed::from_int(10));
    assert_eq!(h.i_frames, Fixed::zero());
}
