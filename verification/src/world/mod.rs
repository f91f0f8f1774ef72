//! The simulated world.

pub mod gameworld;
