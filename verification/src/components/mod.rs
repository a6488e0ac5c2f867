//! The data that can be attached to an entity.

pub mod collider;
pub mod health;
pub mod lifetime;
pub mod velocity;
