//! The rules of the small games that are built on the core. Each game keeps
//! its entities in a `World` and remembers the ones it cares about by their
//! identifiers; drawing and input devices are the front end's business.

pub mod bounce_engine;
pub mod pixel_dodge;
pub mod pongs;
pub mod random;
pub mod rusty_slots;
pub mod square_chaser;
pub mod tiny_tycoon;
