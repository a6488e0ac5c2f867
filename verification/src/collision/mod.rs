//! Collision detection and response for circular movers against boxes.

pub mod aabb;
pub mod sweep;
pub mod response;
pub mod walls;
pub mod containment;
