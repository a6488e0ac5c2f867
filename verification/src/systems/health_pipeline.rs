//! The health pipeline: invulnerability ticks, then damage, then healing.
//!
//! Damage and healing arrive as queued messages. Each system empties its
//! queue and applies the messages in the order in which they were sent; a
//! message whose target is gone or has no `Health` is dropped.

use vstd::prelude::*;
use crate::events::{DamageEvent, DeathEvent, HealEvent};
use crate::math::fixed::Fixed;
use crate::world::{Components, Entity, World, WorldView};

verus! {

/// The components of an entity after its health, if it has any, has been
/// ticked by `dt`.
pub open spec fn tick_health_of(c: Components, dt: Fixed) -> Components {
    Components {
        health: match c.health {
            Some(h) => Some(h.ticked(dt)),
            None => None,
        },
        ..c
    }
}

/// The world after every health has been ticked by `dt`.
pub open spec fn health_ticked(w: WorldView, dt: Fixed) -> WorldView {
    WorldView { entities: w.entities.map_values(|c: Components| tick_health_of(c, dt)), ..w }
}

/// The world after one damage request has been applied: the target's
/// health takes the hit, and a death is queued if the hit killed. A request
/// whose target is not live or has no health changes nothing.
pub open spec fn damage_step(w: WorldView, event: DamageEvent) -> WorldView {
    if w.entities.contains_key(event.target) && w.entities[event.target].health.is_some() {
        let c = w.entities[event.target];
        let h = c.health.unwrap();
        WorldView {
            entities: w.entities.insert(
                event.target,
                Components { health: Some(h.damaged(event.amount)), ..c },
            ),
            deaths: if h.dies_from(event.amount) {
                w.deaths.push(DeathEvent { entity: event.target })
            } else {
                w.deaths
            },
            ..w
        }
    } else {
        w
    }
}

/// The world after the damage requests `events` have been applied in order.
pub open spec fn damage_all(w: WorldView, events: Seq<DamageEvent>) -> WorldView
    decreases events.len(),
{
    if events.len() == 0 {
        w
    } else {
        damage_step(damage_all(w, events.drop_last()), events.last())
    }
}

/// The world after the damage queue has been emptied and applied.
pub open spec fn damage_applied(w: WorldView) -> WorldView {
    damage_all(WorldView { damage: Seq::empty(), ..w }, w.damage)
}

/// The world after one heal request has been applied. A request whose
/// target is not live or has no health changes nothing.
pub open spec fn heal_step(w: WorldView, event: HealEvent) -> WorldView {
    if w.entities.contains_key(event.target) && w.entities[event.target].health.is_some() {
        let c = w.entities[event.target];
        let h = c.health.unwrap();
        WorldView {
            entities: w.entities.insert(
                event.target,
                Components { health: Some(h.healed(event.amount)), ..c },
            ),
            ..w
        }
    } else {
        w
    }
}

/// The world after the heal requests `events` have been applied in order.
pub open spec fn heal_all(w: WorldView, events: Seq<HealEvent>) -> WorldView
    decreases events.len(),
{
    if events.len() == 0 {
        w
    } else {
        heal_step(heal_all(w, events.drop_last()), events.last())
    }
}

/// The world after the heal queue has been emptied and applied.
pub open spec fn heal_applied(w: WorldView) -> WorldView {
    heal_all(WorldView { heal: Seq::empty(), ..w }, w.heal)
}

/// Lets `dt` seconds pass for every `Health` in the world.
pub fn tick_health(world: &mut World, dt: Fixed)
    requires
        old(world).wf(),
    ensures
        final(world).wf(),
        final(world).succeeds(old(world)),
        final(world)@ == health_ticked(old(world)@, dt),
        final(world).slot_count() == old(world).slot_count(),
{
    let ghost before = world@;
    let n: usize = world.num_slots();
    let mut i: usize = 0;
    while i < n
        invariant
            world.wf(),
            world.succeeds(old(world)),
            i <= n,
            n == world.slot_count(),
            world@.entities.dom() == before.entities.dom(),
            forall|e: Entity| #[trigger]
                before.entities.contains_key(e) ==> world@.entities[e] == if e.index < i {
                    tick_health_of(before.entities[e], dt)
                } else {
                    before.entities[e]
                },
            world@.damage == before.damage,
            world@.heal == before.heal,
            world@.deaths == before.deaths,
        decreases n - i,
    {
        let ghost prev = world@;
        let ghost mut touched: Option<Entity> = None;
        match world.entity_at(i) {
            Some(e) => {
                let c = world.get(e).unwrap();
                proof {
                    touched = Some(e);
                }
                match c.health {
                    Some(h) => {
                        let mut h = h;
                        h.tick(dt);
                        world.set(
                            e,
                            Components {
                                position: c.position,
                                velocity: c.velocity,
                                collider: c.collider,
                                health: Some(h),
                                lifetime: c.lifetime,
                            },
                        );
                    },
                    None => {},
                }
            },
            None => {},
        }
        proof {
            assert(world@.entities.dom() =~= before.entities.dom());
            assert forall|e: Entity| #[trigger] before.entities.contains_key(e) implies world@.entities[e]
                == if e.index < i + 1 {
                tick_health_of(before.entities[e], dt)
            } else {
                before.entities[e]
            } by {
                if e.index == i {
                    assert(prev.entities.contains_key(e));
                    match touched {
                        Some(t) => {
                            world.lemma_one_generation(e, t);
                        },
                        None => {},
                    }
                }
            }
        }
        i += 1;
    }
    proof {
        assert forall|e: Entity| #[trigger] before.entities.contains_key(e) implies e.index < n by {
            world.lemma_index_in_range(e);
        }
        assert(world@.entities =~= before.entities.map_values(
            |c: Components| tick_health_of(c, dt),
        ));
    }
}

/// Empties the damage queue and applies its requests in order. A request
/// is dropped when its target is gone, has no health, is invulnerable or is
/// already dead; a hit that kills queues exactly one death for its target.
pub fn apply_damage_events(world: &mut World)
    requires
        old(world).wf(),
    ensures
        final(world).wf(),
        final(world).succeeds(old(world)),
        final(world)@ == damage_applied(old(world)@),
        final(world).slot_count() == old(world).slot_count(),
{
    let ghost start = WorldView { damage: Seq::empty(), ..world@ };
    let events = world.take_damage();
    assert(world@ == start);
    let mut i: usize = 0;
    while i < events.len()
        invariant
            world.wf(),
            world.succeeds(old(world)),
            i <= events.len(),
            world@ == damage_all(start, events@.take(i as int)),
            world.slot_count() == old(world).slot_count(),
        decreases events.len() - i,
    {
        let event = events[i];
        let ghost prev = world@;
        proof {
            let next = events@.take(i + 1);
            assert(next.drop_last() == events@.take(i as int));
            assert(next.last() == event);
        }
        match world.get(event.target) {
            Some(c) => match c.health {
                Some(h) => {
                    let mut h = h;
                    let died = h.apply_damage(event.amount);
                    world.set(
                        event.target,
                        Components {
                            position: c.position,
                            velocity: c.velocity,
                            collider: c.collider,
                            health: Some(h),
                            lifetime: c.lifetime,
                        },
                    );
                    if died {
                        world.send_death(DeathEvent { entity: event.target });
                    }
                },
                None => {},
            },
            None => {},
        }
        assert(world@ == damage_step(prev, event));
        i += 1;
    }
    assert(events@.take(events.len() as int) == events@);
}

/// Empties the heal queue and applies its requests in order. A request is
/// dropped when its target is gone, has no health or is dead; healing never
/// raises the hit points above their limit.
pub fn apply_heal_events(world: &mut World)
    requires
        old(world).wf(),
    ensures
        final(world).wf(),
        final(world).succeeds(old(world)),
        final(world)@ == heal_applied(old(world)@),
        final(world).slot_count() == old(world).slot_count(),
{
    let ghost start = WorldView { heal: Seq::empty(), ..world@ };
    let events = world.take_heal();
    assert(world@ == start);
    let mut i: usize = 0;
    while i < events.len()
        invariant
            world.wf(),
            world.succeeds(old(world)),
            i <= events.len(),
            world@ == heal_all(start, events@.take(i as int)),
            world.slot_count() == old(world).slot_count(),
        decreases events.len() - i,
    {
        let event = events[i];
        let ghost prev = world@;
        proof {
            let next = events@.take(i + 1);
            assert(next.drop_last() == events@.take(i as int));
            assert(next.last() == event);
        }
        match world.get(event.target) {
            Some(c) => match c.health {
                Some(h) => {
                    let mut h = h;
                    h.apply_heal(event.amount);
                    world.set(
                        event.target,
                        Components {
                            position: c.position,
                            velocity: c.velocity,
                            collider: c.collider,
                            health: Some(h),
                            lifetime: c.lifetime,
                        },
                    );
                },
                None => {},
            },
            None => {},
        }
        assert(world@ == heal_step(prev, event));
        i += 1;
    }
    assert(events@.take(events.len() as int) == events@);
}

/// Number of deaths in the queue that name `e`.
pub open spec fn deaths_of(deaths: Seq<DeathEvent>, e: Entity) -> nat
    decreases deaths.len(),
{
    if deaths.len() == 0 {
        0
    } else {
        deaths_of(deaths.drop_last(), e) + if deaths.last().entity == e {
            1nat
        } else {
            0nat
        }
    }
}

/// A damage request against an invulnerable or dead target changes nothing
/// in the world: no hit points are lost and no death is announced.
pub proof fn lemma_protected_target_is_untouched(w: WorldView, event: DamageEvent)
    requires
        w.entities.contains_key(event.target),
        w.entities[event.target].health.is_some(),
        w.entities[event.target].health.unwrap().is_invulnerable()
            || w.entities[event.target].health.unwrap().spec_is_dead(),
    ensures
        damage_step(w, event) == w,
{
    assert(damage_step(w, event).entities =~= w.entities);
}

/// A damage request that takes a vulnerable, living target to zero hit
/// points announces exactly one death, that of the target, and leaves the
/// target dead.
pub proof fn lemma_lethal_damage_announces_death(w: WorldView, event: DamageEvent)
    requires
        w.entities.contains_key(event.target),
        w.entities[event.target].health.is_some(),
        w.entities[event.target].health.unwrap().takes_damage(),
        event.amount@ >= w.entities[event.target].health.unwrap().current@,
    ensures
        damage_step(w, event).deaths == w.deaths.push(DeathEvent { entity: event.target }),
        damage_step(w, event).entities[event.target].health.unwrap().spec_is_dead(),
        damage_step(w, event).entities[event.target].health.unwrap().current@ == 0,
{
}

/// A damage request never removes an entity, never revives a dead one, and
/// announces a death only for its own target and only by killing it.
pub proof fn lemma_damage_step_deaths(w: WorldView, event: DamageEvent, e: Entity)
    ensures
        damage_step(w, event).entities.dom() == w.entities.dom(),
        w.entities.contains_key(e) ==> damage_step(w, event).entities[e].health.is_some()
            == w.entities[e].health.is_some(),
        deaths_of(damage_step(w, event).deaths, e) <= deaths_of(w.deaths, e) + 1,
        deaths_of(damage_step(w, event).deaths, e) > deaths_of(w.deaths, e) ==> {
            &&& event.target == e
            &&& w.entities.contains_key(e)
            &&& w.entities[e].health.is_some()
            &&& !w.entities[e].health.unwrap().spec_is_dead()
            &&& damage_step(w, event).entities[e].health.unwrap().spec_is_dead()
        },
        w.entities.contains_key(e) && w.entities[e].health.is_some()
            && w.entities[e].health.unwrap().spec_is_dead() ==> {
            &&& damage_step(w, event).entities[e] == w.entities[e]
            &&& deaths_of(damage_step(w, event).deaths, e) == deaths_of(w.deaths, e)
        },
{
    let after = damage_step(w, event);
    assert(after.entities.dom() =~= w.entities.dom());
    if after.deaths != w.deaths {
        let d = DeathEvent { entity: event.target };
        assert(after.deaths == w.deaths.push(d));
        assert(after.deaths.drop_last() == w.deaths);
        assert(after.deaths.last() == d);
    }
}

/// While one damage queue is applied, at most one death is announced for
/// any one entity, however many requests name it; and an entity that was
/// dead before gets none.
pub proof fn lemma_one_death_per_entity(w: WorldView, events: Seq<DamageEvent>, e: Entity)
    ensures
        damage_all(w, events).entities.dom() == w.entities.dom(),
        w.entities.contains_key(e) ==> damage_all(w, events).entities[e].health.is_some()
            == w.entities[e].health.is_some(),
        deaths_of(damage_all(w, events).deaths, e) <= deaths_of(w.deaths, e) + 1,
        deaths_of(damage_all(w, events).deaths, e) > deaths_of(w.deaths, e) ==> {
            &&& w.entities.contains_key(e)
            &&& w.entities[e].health.is_some()
            &&& !w.entities[e].health.unwrap().spec_is_dead()
            &&& damage_all(w, events).entities[e].health.is_some()
            &&& damage_all(w, events).entities[e].health.unwrap().spec_is_dead()
        },
        w.entities.contains_key(e) && w.entities[e].health.is_some()
            && w.entities[e].health.unwrap().spec_is_dead() ==> {
            &&& damage_all(w, events).entities[e] == w.entities[e]
            &&& deaths_of(damage_all(w, events).deaths, e) == deaths_of(w.deaths, e)
        },
    decreases events.len(),
{
    if events.len() > 0 {
        let mid = damage_all(w, events.drop_last());
        lemma_one_death_per_entity(w, events.drop_last(), e);
        lemma_damage_step_deaths(mid, events.last(), e);
    }
}

/// A heal request for a dead target changes nothing in the world, and after
/// any heal request the target's hit points are within their limit if they
/// were before.
pub proof fn lemma_heal_step_is_capped(w: WorldView, event: HealEvent)
    requires
        w.entities.contains_key(event.target),
        w.entities[event.target].health.is_some(),
    ensures
        w.entities[event.target].health.unwrap().spec_is_dead() ==> heal_step(w, event) == w,
        !w.entities[event.target].health.unwrap().spec_is_dead() ==> heal_step(
            w,
            event,
        ).entities[event.target].health.unwrap().current@
            <= w.entities[event.target].health.unwrap().max@,
        heal_step(w, event).deaths == w.deaths,
{
    assert(w.entities[event.target].health.unwrap().spec_is_dead() ==> heal_step(
        w,
        event,
    ).entities =~= w.entities);
}

/// Applying damage touches neither of the request queues.
pub proof fn lemma_damage_all_keeps_requests(w: WorldView, events: Seq<DamageEvent>)
    ensures
        damage_all(w, events).damage == w.damage,
        damage_all(w, events).heal == w.heal,
    decreases events.len(),
{
    if events.len() > 0 {
        lemma_damage_all_keeps_requests(w, events.drop_last());
    }
}

/// Applying heals touches no queue and neither adds nor removes an entity.
pub proof fn lemma_heal_all_keeps_queues(w: WorldView, events: Seq<HealEvent>)
    ensures
        heal_all(w, events).damage == w.damage,
        heal_all(w, events).heal == w.heal,
        heal_all(w, events).deaths == w.deaths,
        heal_all(w, events).entities.dom() == w.entities.dom(),
    decreases events.len(),
{
    if events.len() > 0 {
        lemma_heal_all_keeps_queues(w, events.drop_last());
        let mid = heal_all(w, events.drop_last());
        assert(heal_step(mid, events.last()).entities.dom() =~= mid.entities.dom());
    }
}

} // verus!
