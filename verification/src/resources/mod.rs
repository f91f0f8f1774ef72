//! Values that the whole world shares.

pub mod delta_time;
