use ncollide2d::pipeline::CollisionObjectSlabHandle;
use vstd::prelude::*;

verus! {

#[verifier::external_type_specification]
#[verifier::external_body]
pub struct ExCollisionObjectSlabHandle(ncollide2d::pipeline::CollisionObjectSlabHandle);

/// The handle of an entity's shape in the collision world. It is made once,
/// when the entity is built, and never changes.
#[derive(Debug, Clone, Copy)]
pub struct Collider {
    pub collision_object_handle: CollisionObjectSlabHandle,
}

impl Collider {
    /// Wraps a handle of the collision world.
    pub fn new(handle: CollisionObjectSlabHandle) -> (collider: Self)
        ensures
            collider.collision_object_handle == handle,
    {
        Collider { collision_object_handle: handle }
    }
}

} // verus!
