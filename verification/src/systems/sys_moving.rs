use crate::components::transform::Transform;
use crate::components::{sum_of, Components, Vector2};
use vstd::prelude::*;

verus! {

/// Whether `force` is the pull of gravity for one tick: sideways the gravity
/// vector's own `x`, whatever the delta time; downwards its `y` scaled by
/// the delta time, as `scale` scales.
pub open spec fn pull_of<S, C: Fn(S, u64) -> S>(
    scale: C,
    gravity_vec: Vector2<S>,
    delta_ns: u64,
    force: Vector2<S>,
) -> bool {
    force.x == gravity_vec.x && call_ensures(scale, (gravity_vec.y, delta_ns), force.y)
}

/// What the gravity system makes of one entity: where gravity pulls it, its
/// velocity grows by the pull of gravity for this tick; everything else
/// stays.
pub open spec fn gravity_applied<S, A: Fn(S, S) -> S, C: Fn(S, u64) -> S>(
    before: Components<S>,
    after: Components<S>,
    gravity_vec: Vector2<S>,
    delta_ns: u64,
    sum: A,
    scale: C,
) -> bool {
    &&& after.transform == before.transform
    &&& after.gravity_affected == before.gravity_affected
    &&& after.collider == before.collider
    &&& if before.pulled() {
        after.moving matches Some(moving) && exists|force: Vector2<S>|
            pull_of(scale, gravity_vec, delta_ns, force) && #[trigger] sum_of(
                sum,
                before.moving->Some_0.velocity,
                force,
                moving.velocity,
            )
    } else {
        after.moving == before.moving
    }
}

/// What the movement system makes of one entity: where it has a place and
/// moves, its position grows by its velocity, whatever the delta time;
/// everything else stays, its angle and its size too.
pub open spec fn movement_applied<S, A: Fn(S, S) -> S>(
    before: Components<S>,
    after: Components<S>,
    sum: A,
) -> bool {
    &&& after.moving == before.moving
    &&& after.gravity_affected == before.gravity_affected
    &&& after.collider == before.collider
    &&& if before.moved() {
        &&& after.transform matches Some(transform)
        &&& transform.rotation == before.transform->Some_0.rotation
        &&& transform.size == before.transform->Some_0.size
        &&& sum_of(
            sum,
            before.transform->Some_0.position,
            before.moving->Some_0.velocity,
            transform.position,
        )
    } else {
        after.transform == before.transform
    }
}

/// The system that changes the velocity of what gravity pulls.
pub struct SysMovingGravity<S> {
    gravity_vec: Vector2<S>,
}

impl<S: Copy> SysMovingGravity<S> {
    /// The gravity vector.
    pub closed spec fn gravity(&self) -> Vector2<S> {
        self.gravity_vec
    }

    /// A gravity system with the given gravity vector.
    pub fn new_custom(x: S, y: S) -> (system: Self)
        ensures
            system.gravity() == (Vector2 { x, y }),
    {
        SysMovingGravity { gravity_vec: Vector2 { x, y } }
    }

    /// The gravity vector.
    pub fn gravity_vec(&self) -> (gravity_vec: Vector2<S>)
        ensures
            gravity_vec == self.gravity(),
    {
        self.gravity_vec
    }

    /// Adds the pull of gravity for this tick to the velocity of every
    /// entity that moves and that gravity pulls.
    pub fn run<A: Fn(S, S) -> S, C: Fn(S, u64) -> S>(
        &mut self,
        entities: &mut Vec<Components<S>>,
        delta_ns: u64,
        sum: &A,
        scale: &C,
    )
        requires
            forall|a: S, b: S| call_requires(*sum, (a, b)),
            forall|a: S, delta: u64| call_requires(*scale, (a, delta)),
        ensures
            final(self).gravity() == old(self).gravity(),
            final(entities)@.len() == old(entities)@.len(),
            forall|i: int|
                0 <= i < old(entities)@.len() ==> gravity_applied(
                    old(entities)@[i],
                    #[trigger] final(entities)@[i],
                    old(self).gravity(),
                    delta_ns,
                    *sum,
                    *scale,
                ),
    {
        let n: usize = entities.len();
        let mut i: usize = 0;
        while i < n
            invariant
                i <= n,
                n == entities@.len(),
                n == old(entities)@.len(),
                self.gravity() == old(self).gravity(),
                forall|a: S, b: S| call_requires(*sum, (a, b)),
                forall|a: S, delta: u64| call_requires(*scale, (a, delta)),
                forall|j: int| i <= j < n ==> entities@[j] == old(entities)@[j],
                forall|j: int|
                    0 <= j < i ==> gravity_applied(
                        old(entities)@[j],
                        #[trigger] entities@[j],
                        old(self).gravity(),
                        delta_ns,
                        *sum,
                        *scale,
                    ),
            decreases n - i,
        {
            if entities[i].gravity_affected.is_some() {
                match entities[i].moving {
                    Some(moving) => {
                        let force = Vector2 {
                            x: self.gravity_vec.x,
                            y: scale(self.gravity_vec.y, delta_ns),
                        };
                        let mut pulled = moving;
                        pulled.apply_force(force, sum);
                        entities[i].moving = Some(pulled);
                        proof {
                            assert(pull_of(*scale, old(self).gravity(), delta_ns, force));
                            assert(sum_of(
                                *sum,
                                old(entities)@[i as int].moving->Some_0.velocity,
                                force,
                                entities@[i as int].moving->Some_0.velocity,
                            ));
                        }
                    },
                    None => {},
                }
            }
            i += 1;
        }
    }
}

/// The system that changes the place of what moves.
pub struct SysMoving {}

impl SysMoving {
    /// Adds its velocity to the position of every entity that has a place
    /// and moves.
    pub fn run<S: Copy, A: Fn(S, S) -> S>(&mut self, entities: &mut Vec<Components<S>>, sum: &A)
        requires
            forall|a: S, b: S| call_requires(*sum, (a, b)),
        ensures
            final(entities)@.len() == old(entities)@.len(),
            forall|i: int|
                0 <= i < old(entities)@.len() ==> movement_applied(
                    old(entities)@[i],
                    #[trigger] final(entities)@[i],
                    *sum,
                ),
    {
        let n: usize = entities.len();
        let mut i: usize = 0;
        while i < n
            invariant
                i <= n,
                n == entities@.len(),
                n == old(entities)@.len(),
                forall|a: S, b: S| call_requires(*sum, (a, b)),
                forall|j: int| i <= j < n ==> entities@[j] == old(entities)@[j],
                forall|j: int|
                    0 <= j < i ==> movement_applied(
                        old(entities)@[j],
                        #[trigger] entities@[j],
                        *sum,
                    ),
            decreases n - i,
        {
            match (entities[i].transform, entities[i].moving) {
                (Some(transform), Some(moving)) => {
                    let position = transform.position.plus(&moving.velocity, sum);
                    entities[i].transform = Some(
                        Transform { position, rotation: transform.rotation, size: transform.size },
                    );
                },
                _ => {},
            }
            i += 1;
        }
    }
}

} // verus!
