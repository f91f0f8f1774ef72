//! Components that an entity of the world can carry.
//!
//! The world is generic in its scalar `S`, the type of one coordinate. It
//! never computes on scalars itself: whoever runs it hands it the sum of two
//! scalars as a function.

pub mod collider;
pub mod moving;
pub mod transform;

use crate::components::collider::Collider;
use crate::components::moving::{GravityAffected, Moving};
use crate::components::transform::Transform;
use vstd::prelude::*;

verus! {

/// A vector of the plane.
#[derive(Debug, Clone, Copy, PartialEq)]
pub struct Vector2<S> {
    pub x: S,
    pub y: S,
}

/// Whether `out` is the sum of `a` and `b`, coordinate by coordinate, as
/// `sum` computes sums.
pub open spec fn sum_of<S, A: Fn(S, S) -> S>(
    sum: A,
    a: Vector2<S>,
    b: Vector2<S>,
    out: Vector2<S>,
) -> bool {
    call_ensures(sum, (a.x, b.x), out.x) && call_ensures(sum, (a.y, b.y), out.y)
}

impl<S: Copy> Vector2<S> {
    /// The vector with the given coordinates.
    pub fn new(x: S, y: S) -> (vector: Self)
        ensures
            vector == (Vector2 { x, y }),
    {
        Vector2 { x, y }
    }

    /// The sum of two vectors, coordinate by coordinate.
    pub fn plus<A: Fn(S, S) -> S>(&self, other: &Vector2<S>, sum: &A) -> (out: Self)
        requires
            forall|a: S, b: S| call_requires(*sum, (a, b)),
        ensures
            sum_of(*sum, *self, *other, out),
    {
        Vector2 { x: sum(self.x, other.x), y: sum(self.y, other.y) }
    }
}

/// The components of one entity.
#[derive(Debug, Clone, Copy)]
pub struct Components<S> {
    pub transform: Option<Transform<S>>,
    pub moving: Option<Moving<S>>,
    pub gravity_affected: Option<GravityAffected>,
    pub collider: Option<Collider>,
}

impl<S> Components<S> {
    /// Whether gravity changes the entity's velocity: it moves, and gravity
    /// pulls it.
    pub open spec fn pulled(self) -> bool {
        self.moving is Some && self.gravity_affected is Some
    }

    /// Whether the entity's velocity changes its place: it has a place, and
    /// it moves.
    pub open spec fn moved(self) -> bool {
        self.transform is Some && self.moving is Some
    }

    /// Whether the collision world follows the entity: it has a place and a
    /// collider.
    pub open spec fn collides(self) -> bool {
        self.transform is Some && self.collider is Some
    }

    /// An entity without any component.
    pub fn new() -> (components: Self)
        ensures
            components.transform is None,
            components.moving is None,
            components.gravity_affected is None,
            components.collider is None,
    {
        Components { transform: None, moving: None, gravity_affected: None, collider: None }
    }
}

} // verus!
