use crate::components::Vector2;
use vstd::prelude::*;

verus! {

/// Where an entity is, how it is turned, and how large it is.
#[derive(Debug, Clone, Copy, PartialEq)]
pub struct Transform<S> {
    pub position: Vector2<S>,
    pub rotation: S,
    pub size: Vector2<S>,
}

impl<S: Copy> Transform<S> {
    /// A transform at the given place and angle, of the given size.
    pub fn new(position: Vector2<S>, rotation: S, size: Vector2<S>) -> (transform: Self)
        ensures
            transform == (Transform { position, rotation, size }),
    {
        Transform { position, rotation, size }
    }
}

} // verus!
