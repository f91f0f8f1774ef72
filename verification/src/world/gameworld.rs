//! The world: its entities with their components, the delta time of the
//! current tick, and the pipeline of systems that one update runs.

use crate::components::collider::Collider;
use crate::components::transform::Transform;
use crate::components::{sum_of, Components, Vector2};
use crate::resources::delta_time::DeltaTime;
use crate::systems::sys_colliding::{positions_of, SysCollide};
use crate::systems::sys_moving::{
    gravity_applied, movement_applied, pull_of, SysMoving, SysMovingGravity,
};
use vstd::prelude::*;

verus! {

/// The handle of an entity: it stays the same for as long as the world
/// lives, and holds no data of its own.
#[derive(Debug, Clone, Copy, PartialEq, Eq, Structural)]
pub struct Entity {
    /// The entity's number, in the order in which entities were added.
    pub id: usize,
}

/// What one update makes of one entity. Gravity comes first and changes the
/// velocity; movement comes second and works on the velocity that gravity
/// left.
pub open spec fn updated<S, A: Fn(S, S) -> S, C: Fn(S, u64) -> S>(
    before: Components<S>,
    after: Components<S>,
    gravity_vec: Vector2<S>,
    delta_ns: u64,
    sum: A,
    scale: C,
) -> bool {
    let between = Components {
        transform: before.transform,
        moving: after.moving,
        gravity_affected: before.gravity_affected,
        collider: before.collider,
    };
    gravity_applied(before, between, gravity_vec, delta_ns, sum, scale) && movement_applied(
        between,
        after,
        sum,
    )
}

/// One update adds to the velocity of an entity that moves and that gravity
/// pulls the pull of gravity for the tick: sideways the gravity vector's own
/// `x`, downwards its `y` scaled by the delta time. Where the entity has no
/// place it still has none.
pub proof fn lemma_update_pulls<S, A: Fn(S, S) -> S, C: Fn(S, u64) -> S>(
    before: Components<S>,
    after: Components<S>,
    gravity_vec: Vector2<S>,
    delta_ns: u64,
    sum: A,
    scale: C,
)
    requires
        updated(before, after, gravity_vec, delta_ns, sum, scale),
        before.moving is Some,
        before.gravity_affected is Some,
    ensures
        after.moving is Some,
        exists|force: Vector2<S>|
            {
                &&& force.x == gravity_vec.x
                &&& call_ensures(scale, (gravity_vec.y, delta_ns), force.y)
                &&& call_ensures(
                    sum,
                    (before.moving->Some_0.velocity.x, force.x),
                    after.moving->Some_0.velocity.x,
                )
                &&& #[trigger] call_ensures(
                    sum,
                    (before.moving->Some_0.velocity.y, force.y),
                    after.moving->Some_0.velocity.y,
                )
            },
        before.transform is None ==> after.transform is None,
        after.gravity_affected == before.gravity_affected,
        after.collider == before.collider,
{
    let force = choose|force: Vector2<S>|
        pull_of(scale, gravity_vec, delta_ns, force) && #[trigger] sum_of(
            sum,
            before.moving->Some_0.velocity,
            force,
            after.moving->Some_0.velocity,
        );
    assert(call_ensures(
        sum,
        (before.moving->Some_0.velocity.y, force.y),
        after.moving->Some_0.velocity.y,
    ));
}

/// One update adds to the position of an entity that has a place and moves
/// its velocity after gravity, whatever the delta time, and leaves its angle
/// and its size. Without the pull of gravity that velocity is the old one.
pub proof fn lemma_update_moves<S, A: Fn(S, S) -> S, C: Fn(S, u64) -> S>(
    before: Components<S>,
    after: Components<S>,
    gravity_vec: Vector2<S>,
    delta_ns: u64,
    sum: A,
    scale: C,
)
    requires
        updated(before, after, gravity_vec, delta_ns, sum, scale),
        before.transform is Some,
        before.moving is Some,
    ensures
        after.moving is Some,
        after.transform is Some,
        call_ensures(
            sum,
            (before.transform->Some_0.position.x, after.moving->Some_0.velocity.x),
            after.transform->Some_0.position.x,
        ),
        call_ensures(
            sum,
            (before.transform->Some_0.position.y, after.moving->Some_0.velocity.y),
            after.transform->Some_0.position.y,
        ),
        after.transform->Some_0.rotation == before.transform->Some_0.rotation,
        after.transform->Some_0.size == before.transform->Some_0.size,
        before.gravity_affected is None ==> after.moving == before.moving,
{
}

/// One update leaves an entity as it is where it does not move.
pub proof fn lemma_update_skips<S, A: Fn(S, S) -> S, C: Fn(S, u64) -> S>(
    before: Components<S>,
    after: Components<S>,
    gravity_vec: Vector2<S>,
    delta_ns: u64,
    sum: A,
    scale: C,
)
    requires
        updated(before, after, gravity_vec, delta_ns, sum, scale),
        before.moving is None,
    ensures
        after == before,
{
}

/// Everything that a running game holds.
pub struct GameWorld<S> {
    entities: Vec<Components<S>>,
    delta_time: DeltaTime,
    sys_moving_gravity: SysMovingGravity<S>,
}

impl<S: Copy> GameWorld<S> {
    /// The entities with their components, in the order of their handles.
    pub closed spec fn view(&self) -> Seq<Components<S>> {
        self.entities@
    }

    /// The delta-time resource.
    pub closed spec fn time(&self) -> DeltaTime {
        self.delta_time
    }

    /// The delta time of the last tick, in nanoseconds.
    pub open spec fn delta(&self) -> u64 {
        self.time().delta()
    }

    /// The gravity vector.
    pub closed spec fn gravity(&self) -> Vector2<S> {
        self.sys_moving_gravity.gravity()
    }

    /// Creates a world without entities, at the counter's current value,
    /// around the given gravity system.
    pub fn new(sys_moving_gravity: SysMovingGravity<S>) -> (world: Self)
        ensures
            world@ == Seq::<Components<S>>::empty(),
            world.delta() == 0,
            world.gravity() == sys_moving_gravity.gravity(),
    {
        GameWorld { entities: Vec::new(), delta_time: DeltaTime::new(), sys_moving_gravity }
    }

    /// The number of entities.
    pub fn len(&self) -> (n: usize)
        ensures
            n == self@.len(),
    {
        self.entities.len()
    }

    /// The delta time of the last tick, in nanoseconds.
    pub fn delta_ns(&self) -> (ns: u64)
        ensures
            ns == self.delta(),
    {
        self.delta_time.delta_ns()
    }

    /// Adds an entity with the given components and hands out its handle.
    pub fn add_game_entity(&mut self, components: Components<S>) -> (entity: Entity)
        ensures
            final(self)@ == old(self)@.push(components),
            final(self).time() == old(self).time(),
            final(self).gravity() == old(self).gravity(),
            entity.id == old(self)@.len(),
    {
        let id: usize = self.entities.len();
        self.entities.push(components);
        Entity { id }
    }

    /// The components of an entity; none for a handle that this world has no
    /// entity for.
    pub fn components(&self, entity: Entity) -> (found: Option<Components<S>>)
        ensures
            entity.id < self@.len() ==> found == Some(self@[entity.id as int]),
            entity.id >= self@.len() ==> found is None,
    {
        if entity.id < self.entities.len() {
            Some(self.entities[entity.id])
        } else {
            None
        }
    }

    /// One step of the world. The delta-time resource is brought up to the
    /// counter once, then the systems run once each, in this order: gravity, movement,
    /// collision. What comes back are the positions that the collision
    /// system gathered after every entity has moved: the caller sets them
    /// all in the collision world and then updates it once.
    pub fn update<A: Fn(S, S) -> S, C: Fn(S, u64) -> S>(&mut self, sum: &A, scale: &C) -> (positions:
        Vec<(Collider, Transform<S>)>)
        requires
            forall|a: S, b: S| call_requires(*sum, (a, b)),
            forall|a: S, delta: u64| call_requires(*scale, (a, delta)),
        ensures
            exists|now: u64, moved: bool| #[trigger]
                final(self).time().follows(old(self).time(), now, moved),
            final(self).gravity() == old(self).gravity(),
            final(self)@.len() == old(self)@.len(),
            forall|i: int|
                0 <= i < old(self)@.len() ==> updated(
                    old(self)@[i],
                    #[trigger] final(self)@[i],
                    old(self).gravity(),
                    final(self).delta(),
                    *sum,
                    *scale,
                ),
            positions@ == positions_of(final(self)@),
    {
        let moved = self.delta_time.update();
        let delta_ns: u64 = self.delta_time.delta_ns();
        let ghost read = choose|now: u64| #[trigger]
            self.delta_time.follows(old(self).time(), now, moved);

        let mut sys_moving = SysMoving {  };
        let mut sys_moving_collide = SysCollide {  };

        self.sys_moving_gravity.run(&mut self.entities, delta_ns, sum, scale);
        let ghost pulled = self.entities@;
        sys_moving.run(&mut self.entities, sum);
        proof {
            assert forall|i: int| 0 <= i < old(self)@.len() implies updated(
                old(self)@[i],
                #[trigger] self.entities@[i],
                old(self).gravity(),
                delta_ns,
                *sum,
                *scale,
            ) by {
                let between = Components {
                    transform: old(self)@[i].transform,
                    moving: self.entities@[i].moving,
                    gravity_affected: old(self)@[i].gravity_affected,
                    collider: old(self)@[i].collider,
                };
                assert(gravity_applied(
                    old(self)@[i],
                    pulled[i],
                    old(self).gravity(),
                    delta_ns,
                    *sum,
                    *scale,
                ));
                assert(movement_applied(pulled[i], self.entities@[i], *sum));
                assert(pulled[i] == between);
            }
        }
        proof {
            assert(self.time().follows(old(self).time(), read, moved));
        }
        sys_moving_collide.run(&self.entities)
    }
}

} // verus!
