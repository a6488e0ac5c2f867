//! Entity storage and the message queues.
//!
//! Entities live in an arena of slots. An `Entity` names a slot and the
//! generation the slot had when the entity was spawned; removing the entity
//! advances the slot's generation, so that the old identifier stays invalid
//! when the slot is used again. A slot that has reached its last generation
//! is retired instead of being reused.
//!
//! Contracts speak of the view of a `World`: the map from the live entities
//! to their components, and the three queues as sequences.

use vstd::prelude::*;
use crate::components::collider::Collider;
use crate::components::health::Health;
use crate::components::lifetime::Lifetime;
use crate::components::velocity::Velocity;
use crate::events::{DamageEvent, DeathEvent, HealEvent};
use crate::math::vec2::Vec2;

verus! {

/// The identifier of an entity. It carries no data of its own.
#[derive(Clone, Copy, Debug, PartialEq, Eq, Structural, Hash)]
pub struct Entity {
    pub index: u32,
    pub generation: u32,
}

/// The components attached to one entity; each may be present or absent.
#[derive(Clone, Copy, Debug, PartialEq, Eq)]
pub struct Components {
    pub position: Option<Vec2>,
    pub velocity: Option<Velocity>,
    pub collider: Option<Collider>,
    pub health: Option<Health>,
    pub lifetime: Option<Lifetime>,
}

impl Components {
    /// No component at all.
    pub open spec fn spec_empty() -> Components {
        Components { position: None, velocity: None, collider: None, health: None, lifetime: None }
    }

    /// No component at all.
    pub fn empty() -> (c: Components)
        ensures
            c == Components::spec_empty(),
    {
        Components { position: None, velocity: None, collider: None, health: None, lifetime: None }
    }
}

/// Whether `after` differs from `before` by exactly one new entity `e` with
/// components `c`, or, if `e` is `None`, not at all; a new entity is
/// refused exactly when the world is full.
pub open spec fn spawned(before: &World, after: &World, e: Option<Entity>, c: Components) -> bool {
    &&& after.wf()
    &&& after.succeeds(before)
    &&& e.is_some() == !before.is_full()
    &&& e.is_none() ==> after.is_full()
    &&& match e {
        Some(e) => !before@.entities.contains_key(e) && after@.entities
            == before@.entities.insert(e, c),
        None => after@.entities == before@.entities,
    }
    &&& after@.damage == before@.damage
    &&& after@.heal == before@.heal
    &&& after@.deaths == before@.deaths
    &&& before.slot_count() <= after.slot_count() <= before.slot_count() + 1
}

/// Whether `after` differs from `before` at most in the components of `e`,
/// which are now `c`; if `e` is not live, not at all.
pub open spec fn updated(before: &World, after: &World, e: Entity, c: Components) -> bool {
    &&& after.wf()
    &&& after.succeeds(before)
    &&& after@.entities == if before@.entities.contains_key(e) {
        before@.entities.insert(e, c)
    } else {
        before@.entities
    }
    &&& after@.damage == before@.damage
    &&& after@.heal == before@.heal
    &&& after@.deaths == before@.deaths
    &&& after.slot_count() == before.slot_count()
    &&& after.is_full() == before.is_full()
}

/// What a `World` holds, as mathematics.
pub struct WorldView {
    /// The live entities and their components.
    pub entities: Map<Entity, Components>,
    /// Damage requests not yet applied, oldest first.
    pub damage: Seq<DamageEvent>,
    /// Heal requests not yet applied, oldest first.
    pub heal: Seq<HealEvent>,
    /// Deaths not yet acted upon, oldest first.
    pub deaths: Seq<DeathEvent>,
}

struct Slot {
    generation: u32,
    alive: bool,
    components: Components,
}

/// The entities, their components, and the pending messages.
pub struct World {
    slots: Vec<Slot>,
    free: Vec<u32>,
    damage: Vec<DamageEvent>,
    heal: Vec<HealEvent>,
    deaths: Vec<DeathEvent>,
}

impl View for World {
    type V = WorldView;

    closed spec fn view(&self) -> WorldView {
        WorldView {
            entities: Map::new(
                |e: Entity| self.holds(e),
                |e: Entity| self.slots@[e.index as int].components,
            ),
            damage: self.damage@,
            heal: self.heal@,
            deaths: self.deaths@,
        }
    }
}

impl World {
    spec fn holds(&self, e: Entity) -> bool {
        &&& (e.index as int) < self.slots@.len()
        &&& self.slots@[e.index as int].alive
        &&& self.slots@[e.index as int].generation == e.generation
    }

    /// The storage is consistent: every slot can be named by an `Entity`,
    /// no occupied slot has used up its generations, and the slots listed
    /// as free are distinct, unoccupied and still have a generation to
    /// give.
    pub closed spec fn wf(&self) -> bool {
        &&& self.slots@.len() <= u32::MAX
        &&& forall|i: int|
            0 <= i < self.slots@.len() && (#[trigger] self.slots@[i]).alive
                ==> self.slots@[i].generation < u32::MAX
        &&& forall|k: int|
            0 <= k < self.free@.len() ==> (#[trigger] self.free@[k] as int) < self.slots@.len()
                && !self.slots@[self.free@[k] as int].alive
                && self.slots@[self.free@[k] as int].generation < u32::MAX
        &&& forall|j: int, k: int|
            0 <= j < k < self.free@.len() ==> self.free@[j] != self.free@[k]
    }

    /// `e` named an entity that has since been removed. An identifier that
    /// is retired stays retired, whatever happens to the world.
    pub closed spec fn is_retired(&self, e: Entity) -> bool {
        &&& (e.index as int) < self.slots@.len()
        &&& self.slots@[e.index as int].generation > e.generation
    }

    /// This world is a later state of `before`: every identifier that was
    /// retired then is retired now, and so is every identifier that named
    /// a live entity then and names none now. Removal, in other words,
    /// invalidates an identifier for good.
    pub open spec fn succeeds(&self, before: &World) -> bool {
        &&& forall|x: Entity| #[trigger] before.is_retired(x) ==> self.is_retired(x)
        &&& forall|x: Entity| #[trigger]
            before@.entities.contains_key(x) ==> self@.entities.contains_key(x)
                || self.is_retired(x)
    }

    /// A world with fewer slots than identifiers can name has room for
    /// another entity.
    pub proof fn lemma_room(&self)
        requires
            self.slot_count() < u32::MAX,
        ensures
            !self.is_full(),
    {
    }

    /// Number of slots in the arena; every live entity has a smaller index.
    pub closed spec fn slot_count(&self) -> nat {
        self.slots@.len()
    }

    /// No further entity can be spawned.
    pub closed spec fn is_full(&self) -> bool {
        self.free@.len() == 0 && self.slots@.len() >= u32::MAX
    }

    /// The index of a live entity is below the slot count.
    pub proof fn lemma_index_in_range(&self, e: Entity)
        requires
            self.wf(),
            self@.entities.contains_key(e),
        ensures
            (e.index as int) < self.slot_count(),
            self.slot_count() <= u32::MAX,
    {
    }

    /// A retired identifier names no live entity.
    pub proof fn lemma_retired_is_gone(&self, e: Entity)
        requires
            self.is_retired(e),
        ensures
            !self@.entities.contains_key(e),
    {
    }

    /// At most one generation of a slot is live: two live entities with the
    /// same index are the same entity.
    pub proof fn lemma_one_generation(&self, a: Entity, b: Entity)
        requires
            self@.entities.contains_key(a),
            self@.entities.contains_key(b),
            a.index == b.index,
        ensures
            a == b,
    {
    }

    /// An empty world with empty queues: it has no slot yet, room for more
    /// entities, and no identifier that it has ever retired.
    pub fn new() -> (w: World)
        ensures
            w.wf(),
            w@.entities == Map::<Entity, Components>::empty(),
            w@.damage == Seq::<DamageEvent>::empty(),
            w@.heal == Seq::<HealEvent>::empty(),
            w@.deaths == Seq::<DeathEvent>::empty(),
            w.slot_count() == 0,
            !w.is_full(),
            forall|e: Entity| !(#[trigger] w.is_retired(e)),
    {
        let w = World {
            slots: Vec::new(),
            free: Vec::new(),
            damage: Vec::new(),
            heal: Vec::new(),
            deaths: Vec::new(),
        };
        assert(w@.entities =~= Map::<Entity, Components>::empty());
        w
    }

    /// Number of slots in the arena.
    pub fn num_slots(&self) -> (n: usize)
        ensures
            n == self.slot_count(),
    {
        self.slots.len()
    }

    /// Whether no further entity can be spawned.
    pub fn full(&self) -> (r: bool)
        ensures
            r == self.is_full(),
    {
        self.free.len() == 0 && self.slots.len() >= u32::MAX as usize
    }

    /// Whether `e` names a live entity.
    pub fn contains(&self, e: Entity) -> (r: bool)
        ensures
            r == self@.entities.contains_key(e),
    {
        let i: usize = e.index as usize;
        i < self.slots.len() && self.slots[i].alive && self.slots[i].generation == e.generation
    }

    /// The live entity in slot `index`, if there is one.
    pub fn entity_at(&self, index: usize) -> (r: Option<Entity>)
        requires
            self.wf(),
        ensures
            match r {
                Some(e) => e.index == index && self@.entities.contains_key(e),
                None => forall|e: Entity|
                    self@.entities.contains_key(e) ==> e.index != index,
            },
    {
        if index < self.slots.len() && self.slots[index].alive {
            Some(Entity { index: index as u32, generation: self.slots[index].generation })
        } else {
            None
        }
    }

    /// The components of `e`, if it is live.
    pub fn get(&self, e: Entity) -> (r: Option<Components>)
        ensures
            r == if self@.entities.contains_key(e) {
                Some(self@.entities[e])
            } else {
                None
            },
    {
        if self.contains(e) {
            Some(self.slots[e.index as usize].components)
        } else {
            None
        }
    }

    /// Replaces the components of `e`. Does nothing, and says so, when `e` is
    /// not live.
    pub fn set(&mut self, e: Entity, components: Components) -> (done: bool)
        requires
            old(self).wf(),
        ensures
            final(self).wf(),
            final(self).succeeds(old(self)),
            done == old(self)@.entities.contains_key(e),
            final(self)@.entities == if done {
                old(self)@.entities.insert(e, components)
            } else {
                old(self)@.entities
            },
            final(self)@.damage == old(self)@.damage,
            final(self)@.heal == old(self)@.heal,
            final(self)@.deaths == old(self)@.deaths,
            final(self).slot_count() == old(self).slot_count(),
            final(self).is_full() == old(self).is_full(),
    {
        if self.contains(e) {
            self.slots[e.index as usize].components = components;
            assert(self@.entities =~= old(self)@.entities.insert(e, components));
            true
        } else {
            false
        }
    }

    /// Creates an entity with the given components and returns its
    /// identifier, which no live entity has. Returns `None`, and changes
    /// nothing, exactly when the world is full.
    pub fn spawn(&mut self, components: Components) -> (r: Option<Entity>)
        requires
            old(self).wf(),
        ensures
            final(self).wf(),
            final(self).succeeds(old(self)),
            r.is_some() == !old(self).is_full(),
            r.is_none() ==> final(self).is_full(),
            match r {
                Some(e) => !old(self)@.entities.contains_key(e) && final(self)@.entities == old(
                    self,
                )@.entities.insert(e, components),
                None => final(self)@.entities == old(self)@.entities,
            },
            final(self)@.damage == old(self)@.damage,
            final(self)@.heal == old(self)@.heal,
            final(self)@.deaths == old(self)@.deaths,
            old(self).slot_count() <= final(self).slot_count() <= old(self).slot_count() + 1,
    {
        if self.free.len() > 0 {
            let index: u32 = self.free.pop().unwrap();
            let i: usize = index as usize;
            assert(old(self).free@[old(self).free@.len() - 1] == index);
            self.slots[i].alive = true;
            self.slots[i].components = components;
            let e = Entity { index, generation: self.slots[i].generation };
            assert(self@.entities =~= old(self)@.entities.insert(e, components));
            assert forall|k: int| 0 <= k < self.free@.len() implies (#[trigger] self.free@[k]
                as int) < self.slots@.len() && !self.slots@[self.free@[k] as int].alive
                && self.slots@[self.free@[k] as int].generation < u32::MAX by {
                assert(self.free@[k] == old(self).free@[k]);
            }
            Some(e)
        } else if self.slots.len() < u32::MAX as usize {
            let index: u32 = self.slots.len() as u32;
            self.slots.push(Slot { generation: 0, alive: true, components });
            let e = Entity { index, generation: 0 };
            assert(self@.entities =~= old(self)@.entities.insert(e, components));
            Some(e)
        } else {
            assert(self@.entities =~= old(self)@.entities);
            None
        }
    }

    /// Removes `e` with all its components and invalidates its identifier.
    /// Does nothing, and says so, when `e` is not live.
    pub fn despawn(&mut self, e: Entity) -> (removed: bool)
        requires
            old(self).wf(),
        ensures
            final(self).wf(),
            final(self).succeeds(old(self)),
            removed == old(self)@.entities.contains_key(e),
            removed ==> final(self).is_retired(e),
            final(self)@.entities == old(self)@.entities.remove(e),
            final(self)@.damage == old(self)@.damage,
            final(self)@.heal == old(self)@.heal,
            final(self)@.deaths == old(self)@.deaths,
            final(self).slot_count() == old(self).slot_count(),
    {
        if !self.contains(e) {
            assert(self@.entities =~= old(self)@.entities.remove(e));
            return false;
        }
        let i: usize = e.index as usize;
        self.slots[i].alive = false;
        self.slots[i].components = Components::empty();
        self.slots[i].generation = self.slots[i].generation + 1;
        if self.slots[i].generation < u32::MAX {
            self.free.push(e.index);
            assert forall|k: int| 0 <= k < self.free@.len() implies (#[trigger] self.free@[k]
                as int) < self.slots@.len() && !self.slots@[self.free@[k] as int].alive
                && self.slots@[self.free@[k] as int].generation < u32::MAX by {
                if k < old(self).free@.len() {
                    assert(self.free@[k] == old(self).free@[k]);
                }
            }
            assert forall|j: int, k: int| 0 <= j < k < self.free@.len() implies self.free@[j]
                != self.free@[k] by {
                assert(self.free@[j] == old(self).free@[j]);
                if k < old(self).free@.len() {
                    assert(self.free@[k] == old(self).free@[k]);
                }
            }
        }
        assert(self@.entities =~= old(self)@.entities.remove(e));
        true
    }

    /// Queues a damage request.
    pub fn send_damage(&mut self, event: DamageEvent)
        requires
            old(self).wf(),
        ensures
            final(self).wf(),
            final(self).succeeds(old(self)),
            final(self)@.damage == old(self)@.damage.push(event),
            final(self)@.entities == old(self)@.entities,
            final(self)@.heal == old(self)@.heal,
            final(self)@.deaths == old(self)@.deaths,
            final(self).slot_count() == old(self).slot_count(),
    {
        self.damage.push(event);
        assert(self@.entities =~= old(self)@.entities);
    }

    /// Queues a heal request.
    pub fn send_heal(&mut self, event: HealEvent)
        requires
            old(self).wf(),
        ensures
            final(self).wf(),
            final(self).succeeds(old(self)),
            final(self)@.heal == old(self)@.heal.push(event),
            final(self)@.entities == old(self)@.entities,
            final(self)@.damage == old(self)@.damage,
            final(self)@.deaths == old(self)@.deaths,
            final(self).slot_count() == old(self).slot_count(),
    {
        self.heal.push(event);
        assert(self@.entities =~= old(self)@.entities);
    }

    /// Queues a death, which asks for the removal of the entity it names.
    pub fn send_death(&mut self, event: DeathEvent)
        requires
            old(self).wf(),
        ensures
            final(self).wf(),
            final(self).succeeds(old(self)),
            final(self)@.deaths == old(self)@.deaths.push(event),
            final(self)@.entities == old(self)@.entities,
            final(self)@.damage == old(self)@.damage,
            final(self)@.heal == old(self)@.heal,
            final(self).slot_count() == old(self).slot_count(),
    {
        self.deaths.push(event);
        assert(self@.entities =~= old(self)@.entities);
    }

    /// Empties the damage queue and hands back what was in it, oldest first.
    pub fn take_damage(&mut self) -> (events: Vec<DamageEvent>)
        requires
            old(self).wf(),
        ensures
            final(self).wf(),
            final(self).succeeds(old(self)),
            events@ == old(self)@.damage,
            final(self)@.damage == Seq::<DamageEvent>::empty(),
            final(self)@.entities == old(self)@.entities,
            final(self)@.heal == old(self)@.heal,
            final(self)@.deaths == old(self)@.deaths,
            final(self).slot_count() == old(self).slot_count(),
    {
        let mut events: Vec<DamageEvent> = Vec::new();
        std::mem::swap(&mut events, &mut self.damage);
        assert(self@.entities =~= old(self)@.entities);
        events
    }

    /// Empties the heal queue and hands back what was in it, oldest first.
    pub fn take_heal(&mut self) -> (events: Vec<HealEvent>)
        requires
            old(self).wf(),
        ensures
            final(self).wf(),
            final(self).succeeds(old(self)),
            events@ == old(self)@.heal,
            final(self)@.heal == Seq::<HealEvent>::empty(),
            final(self)@.entities == old(self)@.entities,
            final(self)@.damage == old(self)@.damage,
            final(self)@.deaths == old(self)@.deaths,
            final(self).slot_count() == old(self).slot_count(),
    {
        let mut events: Vec<HealEvent> = Vec::new();
        std::mem::swap(&mut events, &mut self.heal);
        assert(self@.entities =~= old(self)@.entities);
        events
    }

    /// Empties the death queue and hands back what was in it, oldest first.
    pub fn take_deaths(&mut self) -> (events: Vec<DeathEvent>)
        requires
            old(self).wf(),
        ensures
            final(self).wf(),
            final(self).succeeds(old(self)),
            events@ == old(self)@.deaths,
            final(self)@.deaths == Seq::<DeathEvent>::empty(),
            final(self)@.entities == old(self)@.entities,
            final(self)@.damage == old(self)@.damage,
            final(self)@.heal == old(self)@.heal,
            final(self).slot_count() == old(self).slot_count(),
    {
        let mut events: Vec<DeathEvent> = Vec::new();
        std::mem::swap(&mut events, &mut self.deaths);
        assert(self@.entities =~= old(self)@.entities);
        events
    }

    /// The damage requests not yet applied, oldest first.
    pub fn pending_damage(&self) -> (events: &Vec<DamageEvent>)
        ensures
            events@ == self@.damage,
    {
        &self.damage
    }

    /// The heal requests not yet applied, oldest first.
    pub fn pending_heal(&self) -> (events: &Vec<HealEvent>)
        ensures
            events@ == self@.heal,
    {
        &self.heal
    }

    /// The deaths not yet acted upon, oldest first.
    pub fn pending_deaths(&self) -> (events: &Vec<DeathEvent>)
        ensures
            events@ == self@.deaths,
    {
        &self.deaths
    }
}

} // verus!
