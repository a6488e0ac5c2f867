//! The frame schedule: three phases that run in a fixed order, and the
//! plugin that puts the core systems into them.
//!
//! `PrePhysics` is reserved for systems that decide on intent before the
//! physics runs; the core puts nothing there. `Simulation` holds movement
//! and then the health pipeline. `Post` holds the removal of entities, which
//! therefore sees every change that `Simulation` made in the same frame.

use vstd::prelude::*;
use crate::math::fixed::Fixed;
use crate::systems::health_pipeline::{
    apply_damage_events,
    apply_heal_events,
    damage_applied,
    heal_applied,
    health_ticked,
    lemma_damage_all_keeps_requests,
    lemma_heal_all_keeps_queues,
    tick_health,
};
use crate::systems::lifetime::{
    deaths_despawned,
    despawn_on_death,
    lifetimes_ticked,
    named,
    tick_lifetimes,
};
use crate::systems::movement::{apply_velocity, velocity_applied};
use crate::world::{Entity, World, WorldView};

verus! {

/// The phases of a frame, in the order in which they run.
#[derive(Clone, Copy, Debug, PartialEq, Eq, Structural, Hash)]
pub enum CoreSet {
    /// Input and decisions, before anything moves.
    PrePhysics,
    /// Movement and the health pipeline.
    Simulation,
    /// Clean-up: removal of expired and dead entities.
    Post,
}

/// The systems of the core.
#[derive(Clone, Copy, Debug, PartialEq, Eq, Structural, Hash)]
pub enum CoreSystem {
    ApplyVelocity,
    TickHealth,
    ApplyDamageEvents,
    ApplyHealEvents,
    TickLifetimes,
    DespawnOnDeath,
}

/// The systems of each phase, in the order in which they run.
pub struct Schedule {
    pub pre_physics: Vec<CoreSystem>,
    pub simulation: Vec<CoreSystem>,
    pub post: Vec<CoreSystem>,
}

/// Registers the core systems with a schedule.
pub struct CorePlugin;

/// The world after one system has run for a frame of `dt` seconds.
pub open spec fn after_system(system: CoreSystem, w: WorldView, dt: Fixed) -> WorldView {
    match system {
        CoreSystem::ApplyVelocity => velocity_applied(w, dt),
        CoreSystem::TickHealth => health_ticked(w, dt),
        CoreSystem::ApplyDamageEvents => damage_applied(w),
        CoreSystem::ApplyHealEvents => heal_applied(w),
        CoreSystem::TickLifetimes => lifetimes_ticked(w, dt),
        CoreSystem::DespawnOnDeath => deaths_despawned(w),
    }
}

/// The world after the given systems have run one after the other.
pub open spec fn after_systems(systems: Seq<CoreSystem>, w: WorldView, dt: Fixed) -> WorldView
    decreases systems.len(),
{
    if systems.len() == 0 {
        w
    } else {
        after_system(systems.last(), after_systems(systems.drop_last(), w, dt), dt)
    }
}

/// The systems that the core runs in `Simulation`, in order.
pub open spec fn core_simulation() -> Seq<CoreSystem> {
    seq![
        CoreSystem::ApplyVelocity,
        CoreSystem::TickHealth,
        CoreSystem::ApplyDamageEvents,
        CoreSystem::ApplyHealEvents,
    ]
}

/// The systems that the core runs in `Post`, in order.
pub open spec fn core_post() -> Seq<CoreSystem> {
    seq![CoreSystem::TickLifetimes, CoreSystem::DespawnOnDeath]
}

/// Runs one system on the world.
pub fn run_system(system: CoreSystem, world: &mut World, dt: Fixed)
    requires
        old(world).wf(),
    ensures
        final(world).wf(),
        final(world).succeeds(old(world)),
        final(world).slot_count() == old(world).slot_count(),
        final(world)@ == after_system(system, old(world)@, dt),
{
    match system {
        CoreSystem::ApplyVelocity => apply_velocity(world, dt),
        CoreSystem::TickHealth => tick_health(world, dt),
        CoreSystem::ApplyDamageEvents => apply_damage_events(world),
        CoreSystem::ApplyHealEvents => apply_heal_events(world),
        CoreSystem::TickLifetimes => tick_lifetimes(world, dt),
        CoreSystem::DespawnOnDeath => despawn_on_death(world),
    }
}

fn run_systems(systems: &Vec<CoreSystem>, world: &mut World, dt: Fixed)
    requires
        old(world).wf(),
    ensures
        final(world).wf(),
        final(world).succeeds(old(world)),
        final(world).slot_count() == old(world).slot_count(),
        final(world)@ == after_systems(systems@, old(world)@, dt),
{
    let mut i: usize = 0;
    while i < systems.len()
        invariant
            world.wf(),
            world.succeeds(old(world)),
            world.slot_count() == old(world).slot_count(),
            i <= systems.len(),
            world@ == after_systems(systems@.take(i as int), old(world)@, dt),
        decreases systems.len() - i,
    {
        proof {
            let next = systems@.take(i + 1);
            assert(next.drop_last() == systems@.take(i as int));
            assert(next.last() == systems@[i as int]);
        }
        run_system(systems[i], world, dt);
        i += 1;
    }
    assert(systems@.take(systems.len() as int) == systems@);
}

impl Schedule {
    /// The systems registered for the phase `set`.
    pub open spec fn systems_of(&self, set: CoreSet) -> Seq<CoreSystem> {
        match set {
            CoreSet::PrePhysics => self.pre_physics@,
            CoreSet::Simulation => self.simulation@,
            CoreSet::Post => self.post@,
        }
    }

    /// The world after one frame of `dt` seconds: all systems of
    /// `PrePhysics`, then all of `Simulation`, then all of `Post`.
    pub open spec fn after_frame(&self, w: WorldView, dt: Fixed) -> WorldView {
        after_systems(
            self.post@,
            after_systems(self.simulation@, after_systems(self.pre_physics@, w, dt), dt),
            dt,
        )
    }

    /// A schedule without systems.
    pub fn new() -> (s: Schedule)
        ensures
            s.pre_physics@ == Seq::<CoreSystem>::empty(),
            s.simulation@ == Seq::<CoreSystem>::empty(),
            s.post@ == Seq::<CoreSystem>::empty(),
    {
        Schedule { pre_physics: Vec::new(), simulation: Vec::new(), post: Vec::new() }
    }

    /// Adds `system` at the end of the phase `set`.
    pub fn add_system(&mut self, set: CoreSet, system: CoreSystem)
        ensures
            final(self).systems_of(set) == old(self).systems_of(set).push(system),
            forall|other: CoreSet|
                other != set ==> final(self).systems_of(other) == old(self).systems_of(other),
    {
        match set {
            CoreSet::PrePhysics => self.pre_physics.push(system),
            CoreSet::Simulation => self.simulation.push(system),
            CoreSet::Post => self.post.push(system),
        }
    }

    /// Runs the systems of one phase, in order.
    pub fn run_set(&self, set: CoreSet, world: &mut World, dt: Fixed)
        requires
            old(world).wf(),
        ensures
            final(world).wf(),
            final(world).succeeds(old(world)),
            final(world).slot_count() == old(world).slot_count(),
            final(world)@ == after_systems(self.systems_of(set), old(world)@, dt),
    {
        match set {
            CoreSet::PrePhysics => run_systems(&self.pre_physics, world, dt),
            CoreSet::Simulation => run_systems(&self.simulation, world, dt),
            CoreSet::Post => run_systems(&self.post, world, dt),
        }
    }

    /// Advances the world by one frame of `dt` seconds: runs every phase
    /// once, in order.
    pub fn advance(&self, world: &mut World, dt: Fixed)
        requires
            old(world).wf(),
        ensures
            final(world).wf(),
            final(world).succeeds(old(world)),
            final(world).slot_count() == old(world).slot_count(),
            final(world)@ == self.after_frame(old(world)@, dt),
    {
        self.run_set(CoreSet::PrePhysics, world, dt);
        self.run_set(CoreSet::Simulation, world, dt);
        self.run_set(CoreSet::Post, world, dt);
    }
}

impl CorePlugin {
    /// Registers the core systems: movement, then the health pipeline, in
    /// `Simulation`; lifetime expiry, then removal of the dead, in `Post`.
    pub fn build(&self, schedule: &mut Schedule)
        ensures
            final(schedule).pre_physics@ == old(schedule).pre_physics@,
            final(schedule).simulation@ == old(schedule).simulation@ + core_simulation(),
            final(schedule).post@ == old(schedule).post@ + core_post(),
    {
        schedule.add_system(CoreSet::Simulation, CoreSystem::ApplyVelocity);
        schedule.add_system(CoreSet::Simulation, CoreSystem::TickHealth);
        schedule.add_system(CoreSet::Simulation, CoreSystem::ApplyDamageEvents);
        schedule.add_system(CoreSet::Simulation, CoreSystem::ApplyHealEvents);
        schedule.add_system(CoreSet::Post, CoreSystem::TickLifetimes);
        schedule.add_system(CoreSet::Post, CoreSystem::DespawnOnDeath);
        proof {
            assert(schedule.systems_of(CoreSet::PrePhysics) == old(schedule).systems_of(
                CoreSet::PrePhysics,
            ));
            assert(schedule.systems_of(CoreSet::Simulation) == old(schedule).systems_of(
                CoreSet::Simulation,
            ) + core_simulation());
            assert(schedule.systems_of(CoreSet::Post) == old(schedule).systems_of(CoreSet::Post)
                + core_post());
        }
    }
}

/// The frame of the core: with nothing but the core systems registered, a
/// frame is movement, then the health tick, then damage, then healing, then
/// lifetime expiry, then removal of the dead.
pub proof fn lemma_core_frame(schedule: Schedule, w: WorldView, dt: Fixed)
    requires
        schedule.pre_physics@ == Seq::<CoreSystem>::empty(),
        schedule.simulation@ == core_simulation(),
        schedule.post@ == core_post(),
    ensures
        schedule.after_frame(w, dt) == after_core_frame(w, dt),
{
    let sim = core_simulation();
    let s3 = sim.drop_last();
    let s2 = s3.drop_last();
    let s1 = s2.drop_last();
    assert(s3.last() == CoreSystem::ApplyDamageEvents);
    assert(s2.last() == CoreSystem::TickHealth);
    assert(s1.last() == CoreSystem::ApplyVelocity);
    assert(s1.drop_last().len() == 0);
    assert(after_systems(s1.drop_last(), w, dt) == w);
    let a = velocity_applied(w, dt);
    assert(after_systems(s1, w, dt) == a);
    let b = health_ticked(a, dt);
    assert(after_systems(s2, w, dt) == b);
    let c = damage_applied(b);
    assert(after_systems(s3, w, dt) == c);
    let d = heal_applied(c);
    assert(sim.last() == CoreSystem::ApplyHealEvents);
    assert(after_systems(sim, w, dt) == d);
    let post = core_post();
    let p1 = post.drop_last();
    assert(p1.last() == CoreSystem::TickLifetimes);
    assert(p1.drop_last().len() == 0);
    assert(after_systems(p1.drop_last(), d, dt) == d);
    assert(after_systems(p1, d, dt) == lifetimes_ticked(d, dt));
    assert(post.last() == CoreSystem::DespawnOnDeath);
    assert(after_systems(schedule.pre_physics@, w, dt) == w);
}

/// The world at the end of `Simulation` in a frame of the core.
pub open spec fn after_core_simulation(w: WorldView, dt: Fixed) -> WorldView {
    heal_applied(damage_applied(health_ticked(velocity_applied(w, dt), dt)))
}

/// The world at the end of a frame of the core.
pub open spec fn after_core_frame(w: WorldView, dt: Fixed) -> WorldView {
    deaths_despawned(lifetimes_ticked(after_core_simulation(w, dt), dt))
}

/// No message outlives its frame: at the end of a frame of the core all
/// three queues are empty.
pub proof fn lemma_core_frame_drains_queues(w: WorldView, dt: Fixed)
    ensures
        after_core_frame(w, dt).damage.len() == 0,
        after_core_frame(w, dt).heal.len() == 0,
        after_core_frame(w, dt).deaths.len() == 0,
{
    let b = health_ticked(velocity_applied(w, dt), dt);
    lemma_damage_all_keeps_requests(WorldView { damage: Seq::empty(), ..b }, b.damage);
    let c = damage_applied(b);
    lemma_heal_all_keeps_queues(WorldView { heal: Seq::empty(), ..c }, c.heal);
}

/// A death announced during `Simulation`, or queued before the frame, is
/// acted upon in `Post` of the same frame: at the end of the frame the
/// entity it names is gone.
pub proof fn lemma_dead_are_removed_in_the_same_frame(w: WorldView, dt: Fixed, e: Entity)
    requires
        named(after_core_simulation(w, dt).deaths).contains(e),
    ensures
        !after_core_frame(w, dt).entities.contains_key(e),
{
}

} // verus!
