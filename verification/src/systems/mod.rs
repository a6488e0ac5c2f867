//! The systems that advance a `World` by one frame.

pub mod collision;
pub mod health_pipeline;
pub mod lifetime;
pub mod movement;
