//! Fixed-point numbers and the small amount of 2D algebra the simulation needs.

pub mod decay;
pub mod fixed;
pub mod vec2;
