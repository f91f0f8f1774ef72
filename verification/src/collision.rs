//! The layers in which things collide, and the group that stands for each.

use ncollide2d::pipeline::CollisionGroups;
use vstd::prelude::*;

verus! {

#[verifier::external_type_specification]
#[verifier::external_body]
pub struct ExCollisionGroups(ncollide2d::pipeline::CollisionGroups);

/// `CollisionGroups::new`: a group that lets its members meet everything but
/// each other. Nothing is claimed of it.
pub assume_specification[ CollisionGroups::new ]() -> (group: CollisionGroups)
;

/// A layer of the collision world: things collide with what shares their
/// layer.
#[derive(Debug, Clone, Copy, PartialEq, Eq, Hash, Structural)]
pub enum CollisionLayer {
    /// The layer of everything solid.
    Normal,
}

/// The group that the entries give to a layer: that of the first entry for
/// it, if there is one.
pub open spec fn group_in<G>(entries: Seq<(CollisionLayer, G)>, layer: CollisionLayer) -> Option<G>
    decreases entries.len(),
{
    if entries.len() == 0 {
        None
    } else if entries[0].0 == layer {
        Some(entries[0].1)
    } else {
        group_in(entries.drop_first(), layer)
    }
}

/// An entry added behind the others gives its layer a group only where the
/// layer had none, and changes the group of no other layer.
pub proof fn lemma_group_in_push<G>(
    entries: Seq<(CollisionLayer, G)>,
    layer: CollisionLayer,
    group: G,
    other: CollisionLayer,
)
    ensures
        group_in(entries, other) is Some ==> group_in(entries.push((layer, group)), other)
            == group_in(entries, other),
        group_in(entries, other) is None && other == layer ==> group_in(
            entries.push((layer, group)),
            other,
        ) == Some(group),
        group_in(entries, other) is None && other != layer ==> group_in(
            entries.push((layer, group)),
            other,
        ) is None,
    decreases entries.len(),
{
    let pushed = entries.push((layer, group));
    if entries.len() == 0 {
        assert(pushed.drop_first() =~= entries);
    } else {
        assert(pushed[0] == entries[0]);
        assert(pushed.drop_first() =~= entries.drop_first().push((layer, group)));
        lemma_group_in_push(entries.drop_first(), layer, group, other);
    }
}

/// Keeps, for each collision layer in use, the group of the collision world
/// that stands for it.
pub struct CollisionHandler {
    collision_groups: Vec<(CollisionLayer, CollisionGroups)>,
}

impl CollisionHandler {
    /// The group kept for a layer, if one is kept.
    pub closed spec fn group_of(&self, layer: CollisionLayer) -> Option<CollisionGroups> {
        group_in(self.collision_groups@, layer)
    }

    /// Creates a handler that keeps no group yet.
    pub fn new() -> (handler: Self)
        ensures
            forall|layer: CollisionLayer| handler.group_of(layer) is None,
    {
        CollisionHandler { collision_groups: Vec::new() }
    }

    /// The group of a layer. Where the layer has one, that one is handed out
    /// and nothing changes. Where it has none yet, a new group is made, kept
    /// for the layer and handed out. No other layer's group changes.
    pub fn get_collision_group(&mut self, layer: CollisionLayer) -> (group: CollisionGroups)
        ensures
            final(self).group_of(layer) == Some(group),
            old(self).group_of(layer) matches Some(kept) ==> group == kept,
            forall|other: CollisionLayer|
                other != layer ==> final(self).group_of(other) == old(self).group_of(other),
    {
        let mut i: usize = 0;
        while i < self.collision_groups.len()
            invariant
                i <= self.collision_groups@.len(),
                *self == *old(self),
                group_in(self.collision_groups@.subrange(i as int, self.collision_groups@.len() as int), layer)
                    == self.group_of(layer),
            decreases self.collision_groups@.len() - i,
        {
            let ghost rest = self.collision_groups@.subrange(
                i as int,
                self.collision_groups@.len() as int,
            );
            let entry: (CollisionLayer, CollisionGroups) = self.collision_groups[i];
            proof {
                assert(rest[0] == entry);
                assert(rest.drop_first() =~= self.collision_groups@.subrange(
                    i as int + 1,
                    self.collision_groups@.len() as int,
                ));
            }
            if entry.0 == layer {
                return entry.1;
            }
            i += 1;
        }
        let fresh = CollisionGroups::new();
        proof {
            assert(self.collision_groups@.subrange(
                i as int,
                self.collision_groups@.len() as int,
            ).len() == 0);
            assert forall|other: CollisionLayer|
                group_in(self.collision_groups@.push((layer, fresh)), other) == (if other
                    == layer {
                    Some(fresh)
                } else {
                    self.group_of(other)
                }) by {
                lemma_group_in_push(self.collision_groups@, layer, fresh, other);
            }
        }
        self.collision_groups.push((layer, fresh));
        fresh
    }
}

} // verus!
