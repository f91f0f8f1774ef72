//! Everything that moves messages between clients and the simulation.

pub mod codec;
pub mod message;
pub mod peer;
pub mod state;
