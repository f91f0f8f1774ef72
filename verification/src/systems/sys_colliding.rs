use crate::components::collider::Collider;
use crate::components::transform::Transform;
use crate::components::Components;
use vstd::prelude::*;

verus! {

/// The positions that the collision world must learn of: for each entity
/// that has a place and a collider, in the order of the entities, its
/// collider and its transform.
pub open spec fn positions_of<S>(entities: Seq<Components<S>>) -> Seq<(Collider, Transform<S>)>
    decreases entities.len(),
{
    if entities.len() == 0 {
        Seq::empty()
    } else {
        let earlier = positions_of(entities.drop_last());
        let last = entities.last();
        if last.collides() {
            earlier.push((last.collider->Some_0, last.transform->Some_0))
        } else {
            earlier
        }
    }
}

/// The system that tells the collision world where the colliders are.
pub struct SysCollide {}

impl SysCollide {
    /// Gathers the position of every entity that has a place and a collider.
    /// The caller sets them all in the collision world and then updates it
    /// once.
    pub fn run<S: Copy>(&mut self, entities: &Vec<Components<S>>) -> (positions: Vec<
        (Collider, Transform<S>),
    >)
        ensures
            positions@ == positions_of(entities@),
    {
        let mut positions: Vec<(Collider, Transform<S>)> = Vec::new();
        let n: usize = entities.len();
        let mut i: usize = 0;
        while i < n
            invariant
                i <= n,
                n == entities@.len(),
                positions@ == positions_of(entities@.take(i as int)),
            decreases n - i,
        {
            proof {
                assert(entities@.take(i as int + 1).drop_last() =~= entities@.take(i as int));
            }
            match (entities[i].collider, entities[i].transform) {
                (Some(collider), Some(transform)) => {
                    positions.push((collider, transform));
                },
                _ => {},
            }
            i += 1;
        }
        proof {
            assert(entities@.take(n as int) =~= entities@);
        }
        positions
    }
}

} // verus!
