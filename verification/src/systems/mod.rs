//! The systems of the world: each changes, once per tick, the entities that
//! carry the components it works on, and no others.

pub mod sys_colliding;
pub mod sys_moving;
