//! A deterministic entity-simulation core: fixed-point kinematics with drag,
//! swept collision against boxes, and a message-driven health and lifetime
//! pipeline, all stated over integer models and checked by Verus.

pub mod math;
pub mod collision;
pub mod components;
pub mod events;
pub mod world;
pub mod systems;
pub mod plugins;
pub mod games;
