use crate::components::{sum_of, Vector2};
use vstd::prelude::*;

verus! {

/// Lets an entity move: its velocity, in distance per tick.
#[derive(Debug, Clone, Copy, PartialEq)]
pub struct Moving<S> {
    pub velocity: Vector2<S>,
}

impl<S: Copy> Moving<S> {
    /// A moving component with the given velocity.
    pub fn new(velocity: Vector2<S>) -> (moving: Self)
        ensures
            moving.velocity == velocity,
    {
        Moving { velocity }
    }

    /// Applies a force: adds it to the velocity.
    pub fn apply_force<A: Fn(S, S) -> S>(&mut self, force: Vector2<S>, sum: &A)
        requires
            forall|a: S, b: S| call_requires(*sum, (a, b)),
        ensures
            sum_of(*sum, old(self).velocity, force, final(self).velocity),
    {
        self.velocity = self.velocity.plus(&force, sum);
    }
}

/// Marker component: an entity that carries it is pulled by gravity.
#[derive(Debug, Clone, Copy, PartialEq, Eq, Structural)]
pub struct GravityAffected {}

impl GravityAffected {
    /// Creates the marker.
    pub fn new() -> (marker: Self)
        ensures
            marker == (GravityAffected {  }),
    {
        GravityAffected {  }
    }
}

} // verus!
