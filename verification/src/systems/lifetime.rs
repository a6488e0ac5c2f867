//! Removal of entities: those whose lifetime has run out, and those whose
//! death has been announced.

use vstd::prelude::*;
use crate::events::DeathEvent;
use crate::math::fixed::Fixed;
use crate::world::{Components, Entity, World, WorldView};

verus! {

/// The components of an entity after its lifetime, if it has one, has been
/// counted down by `dt`.
pub open spec fn tick_lifetime_of(c: Components, dt: Fixed) -> Components {
    Components {
        lifetime: match c.lifetime {
            Some(l) => Some(l.ticked(dt)),
            None => None,
        },
        ..c
    }
}

/// Whether an entity with components `c` expires when `dt` seconds pass.
pub open spec fn expires(c: Components, dt: Fixed) -> bool {
    c.lifetime.is_some() && c.lifetime.unwrap().ticked(dt).is_expired()
}

/// The entities after `dt` seconds have passed: every lifetime has been
/// counted down, and the entities whose lifetime ran out are gone.
pub open spec fn after_lifetimes(entities: Map<Entity, Components>, dt: Fixed) -> Map<
    Entity,
    Components,
> {
    Map::new(
        |e: Entity| entities.contains_key(e) && !expires(entities[e], dt),
        |e: Entity| tick_lifetime_of(entities[e], dt),
    )
}

/// The entities that the deaths in the queue name.
pub open spec fn named(deaths: Seq<DeathEvent>) -> Set<Entity> {
    Set::new(|e: Entity| deaths.contains(DeathEvent { entity: e }))
}

/// The world after `dt` seconds of lifetime have passed.
pub open spec fn lifetimes_ticked(w: WorldView, dt: Fixed) -> WorldView {
    WorldView { entities: after_lifetimes(w.entities, dt), ..w }
}

/// The world after the death queue has been emptied and every entity that
/// it named has been removed.
pub open spec fn deaths_despawned(w: WorldView) -> WorldView {
    WorldView { entities: w.entities.remove_keys(named(w.deaths)), deaths: Seq::empty(), ..w }
}

/// Counts every lifetime down by `dt` and removes the entities whose
/// lifetime has run out.
pub fn tick_lifetimes(world: &mut World, dt: Fixed)
    requires
        old(world).wf(),
    ensures
        final(world).wf(),
        final(world).succeeds(old(world)),
        final(world)@ == lifetimes_ticked(old(world)@, dt),
        final(world).slot_count() == old(world).slot_count(),
{
    let ghost before = world@;
    let n: usize = world.num_slots();
    let mut i: usize = 0;
    while i < n
        invariant
            world.wf(),
            world.succeeds(old(world)),
            i <= n,
            n == world.slot_count(),
            world.slot_count() == old(world).slot_count(),
            forall|e: Entity| #[trigger]
                world@.entities.contains_key(e) ==> before.entities.contains_key(e),
            forall|e: Entity| #[trigger]
                before.entities.contains_key(e) ==> if e.index < i {
                    if expires(before.entities[e], dt) {
                        !world@.entities.contains_key(e)
                    } else {
                        world@.entities.contains_key(e) && world@.entities[e] == tick_lifetime_of(
                            before.entities[e],
                            dt,
                        )
                    }
                } else {
                    world@.entities.contains_key(e) && world@.entities[e] == before.entities[e]
                },
            world@.damage == before.damage,
            world@.heal == before.heal,
            world@.deaths == before.deaths,
        decreases n - i,
    {
        let ghost prev = world@;
        let ghost mut touched: Option<Entity> = None;
        match world.entity_at(i) {
            Some(e) => {
                let c = world.get(e).unwrap();
                proof {
                    touched = Some(e);
                    assert(before.entities.contains_key(e));
                    assert forall|x: Entity|
                        prev.entities.contains_key(x) && x.index == i implies x == e by {
                        world.lemma_one_generation(x, e);
                    }
                }
                match c.lifetime {
                    Some(life) => {
                        let mut life = life;
                        if life.tick(dt) {
                            world.despawn(e);
                        } else {
                            world.set(
                                e,
                                Components {
                                    position: c.position,
                                    velocity: c.velocity,
                                    collider: c.collider,
                                    health: c.health,
                                    lifetime: Some(life),
                                },
                            );
                        }
                    },
                    None => {},
                }
            },
            None => {},
        }
        proof {
            assert forall|e: Entity| #[trigger] before.entities.contains_key(e) implies if e.index
                < i + 1 {
                if expires(before.entities[e], dt) {
                    !world@.entities.contains_key(e)
                } else {
                    world@.entities.contains_key(e) && world@.entities[e] == tick_lifetime_of(
                        before.entities[e],
                        dt,
                    )
                }
            } else {
                world@.entities.contains_key(e) && world@.entities[e] == before.entities[e]
            } by {
                if e.index == i {
                    assert(prev.entities.contains_key(e));
                    match touched {
                        Some(t) => {
                            assert(e == t);
                        },
                        None => {},
                    }
                }
            }
        }
        i += 1;
    }
    proof {
        assert forall|e: Entity| #[trigger] before.entities.contains_key(e) implies e.index < n by {
            old(world).lemma_index_in_range(e);
        }
        assert(world@.entities =~= after_lifetimes(before.entities, dt));
    }
}

/// Empties the death queue and removes every entity that it names. Naming
/// an entity that is already gone, or naming one twice, is harmless.
pub fn despawn_on_death(world: &mut World)
    requires
        old(world).wf(),
    ensures
        final(world).wf(),
        final(world).succeeds(old(world)),
        final(world)@ == deaths_despawned(old(world)@),
        final(world).slot_count() == old(world).slot_count(),
{
    let ghost before = world@;
    let events = world.take_deaths();
    let mut i: usize = 0;
    assert(world@.entities =~= before.entities.remove_keys(named(events@.take(0))));
    while i < events.len()
        invariant
            world.wf(),
            world.succeeds(old(world)),
            i <= events.len(),
            world@.entities == before.entities.remove_keys(named(events@.take(i as int))),
            world@.deaths == Seq::<DeathEvent>::empty(),
            world@.damage == before.damage,
            world@.heal == before.heal,
            world.slot_count() == old(world).slot_count(),
        decreases events.len() - i,
    {
        let event = events[i];
        world.despawn(event.entity);
        proof {
            let done = events@.take(i as int);
            let next = events@.take(i + 1);
            assert(next == done.push(event));
            assert forall|e: Entity| named(next).contains(e) <==> (named(done).contains(e) || e
                == event.entity) by {
                let d = DeathEvent { entity: e };
                if done.contains(d) {
                    let k = choose|k: int| 0 <= k < done.len() && done[k] == d;
                    assert(next[k] == d);
                }
                if e == event.entity {
                    assert(next[i as int] == d);
                }
            }
            assert(world@.entities =~= before.entities.remove_keys(named(next)));
        }
        i += 1;
    }
    assert(events@.take(events.len() as int) == events@);
}

/// An entity expires exactly when it has a lifetime of no more seconds
/// than pass; a frame of no time expires only what had already run out.
pub proof fn lemma_expiry(c: Components, dt: Fixed)
    ensures
        expires(c, dt) <==> c.lifetime.is_some() && c.lifetime.unwrap().seconds_left@ <= if dt@
            > 0 {
            dt@
        } else {
            0
        },
{
}

/// Removal is idempotent: acting on a death and then on the same death
/// again leaves the world as acting on it once does, and so does a queue
/// that holds the death twice.
pub proof fn lemma_death_is_idempotent(w: WorldView, death: DeathEvent)
    ensures
        ({
            let once = deaths_despawned(WorldView { deaths: seq![death], ..w });
            let again = deaths_despawned(WorldView { deaths: seq![death], ..once });
            let twice = deaths_despawned(WorldView { deaths: seq![death, death], ..w });
            again == once && twice == once
        }),
{
    let once = deaths_despawned(WorldView { deaths: seq![death], ..w });
    let again = deaths_despawned(WorldView { deaths: seq![death], ..once });
    let twice = deaths_despawned(WorldView { deaths: seq![death, death], ..w });
    assert(seq![death][0] == death);
    assert(seq![death, death][0] == death);
    assert(named(seq![death]) =~= named(seq![death, death]));
    assert(again.entities =~= once.entities);
    assert(twice.entities =~= once.entities);
}

/// After the death queue has been acted upon, no entity that it named is
/// live, every other entity is as it was, and the queue is empty.
pub proof fn lemma_named_entities_are_gone(w: WorldView, e: Entity)
    ensures
        named(w.deaths).contains(e) ==> !deaths_despawned(w).entities.contains_key(e),
        !named(w.deaths).contains(e) && w.entities.contains_key(e) ==> deaths_despawned(
            w,
        ).entities.contains_key(e) && deaths_despawned(w).entities[e] == w.entities[e],
        deaths_despawned(w).deaths.len() == 0,
{
}

/// Lifetime expiry and removal of the dead may run in either order: the
/// world is the same afterwards.
pub proof fn lemma_removal_order_is_immaterial(w: WorldView, dt: Fixed)
    ensures
        deaths_despawned(lifetimes_ticked(w, dt)) == lifetimes_ticked(deaths_despawned(w), dt),
{
    assert(deaths_despawned(lifetimes_ticked(w, dt)).entities =~= lifetimes_ticked(
        deaths_despawned(w),
        dt,
    ).entities);
}

} // verus!
