//! The messages by which state changes are requested. A producer only ever
//! appends a message to the queue of its kind; the system that owns the
//! queue consumes it once per frame, in the order of arrival.

use vstd::prelude::*;
use crate::math::fixed::Fixed;
use crate::world::Entity;

verus! {

/// A request to take `amount` hit points from `target`.
#[derive(Clone, Copy, Debug, PartialEq, Eq, Structural)]
pub struct DamageEvent {
    pub target: Entity,
    pub amount: Fixed,
}

/// A request to give `amount` hit points to `target`.
#[derive(Clone, Copy, Debug, PartialEq, Eq, Structural)]
pub struct HealEvent {
    pub target: Entity,
    pub amount: Fixed,
}

/// The announcement that `entity` has died, and the request to remove it.
#[derive(Clone, Copy, Debug, PartialEq, Eq, Structural)]
pub struct DeathEvent {
    pub entity: Entity,
}

} // verus!
