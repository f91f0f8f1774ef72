//! The time between two updates of the world.

use vstd::prelude::*;

verus! {

/// `time::precise_time_ns`: the value of a high-resolution counter, in
/// nanoseconds since an epoch that is not told. Nothing is claimed of it.
#[verifier::external_body]
fn precise_time_ns() -> (now: u64) {
    time::precise_time_ns()
}

/// The time that passed between the last two updates.
pub struct DeltaTime {
    delta_ns: u64,
    old_time: u64,
}

impl DeltaTime {
    /// The time between the last two updates, in nanoseconds.
    pub closed spec fn delta(&self) -> u64 {
        self.delta_ns
    }

    /// The time between the last two updates, in nanoseconds.
    pub fn delta_ns(&self) -> (ns: u64)
        ensures
            ns == self.delta(),
    {
        self.delta_ns
    }

    /// The counter's value at the last update.
    pub closed spec fn last(&self) -> u64 {
        self.old_time
    }

    /// The counter's value at the last update.
    pub fn old_time(&self) -> (at: u64)
        ensures
            at == self.last(),
    {
        self.old_time
    }

    /// Starts at the counter's current value, with no time passed yet.
    pub fn new() -> (delta: Self)
        ensures
            delta.delta() == 0,
    {
        DeltaTime::starting_at(precise_time_ns())
    }

    /// Starts at the given value of the counter, with no time passed yet.
    pub fn starting_at(now: u64) -> (delta: Self)
        ensures
            delta.delta() == 0,
            delta.last() == now,
    {
        DeltaTime { delta_ns: 0, old_time: now }
    }

    /// Moves on to the given value of the counter: the delta is the time
    /// since the last update, which is now this one.
    pub fn update_to(&mut self, new_time: u64)
        requires
            new_time >= old(self).last(),
        ensures
            final(self).delta() == new_time - old(self).last(),
            final(self).last() == new_time,
    {
        self.delta_ns = new_time - self.old_time;
        self.old_time = new_time;
    }

    /// Whether `self` and `moved` are what an update at the counter's value
    /// `now` makes of `before`: where the counter has not gone backwards, the
    /// delta is the time since the last update, which is now this one; where
    /// it has, nothing changes.
    pub open spec fn follows(self, before: DeltaTime, now: u64, moved: bool) -> bool {
        &&& moved == (now >= before.last())
        &&& moved ==> self.last() == now && self.delta() == now - before.last()
        &&& !moved ==> self == before
    }

    /// Reads the counter and moves on to its value. Where the counter went
    /// backwards nothing changes, and the answer is `false`.
    pub fn update(&mut self) -> (moved: bool)
        ensures
            exists|now: u64| #[trigger] final(self).follows(*old(self), now, moved),
            moved ==> final(self).last() >= old(self).last(),
            moved ==> final(self).delta() == final(self).last() - old(self).last(),
            !moved ==> *final(self) == *old(self),
    {
        let new_time: u64 = precise_time_ns();
        if new_time >= self.old_time {
            self.update_to(new_time);
            proof {
                assert(self.follows(*old(self), new_time, true));
            }
            true
        } else {
            proof {
                assert(self.follows(*old(self), new_time, false));
            }
            false
        }
    }
}

impl Default for DeltaTime {
    fn default() -> (delta: Self)
        ensures
            delta.delta() == 0,
    {
        DeltaTime::new()
    }
}

} // verus!
