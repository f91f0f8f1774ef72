//! The game: what a drained message sets off, what one tick does, and how
//! long a frame may rest.

use crate::components::collider::Collider;
use crate::components::transform::Transform;
use crate::sync::message::{Client, Server};
use crate::sync::state::{is_broadcast, Broadcast, State};
use crate::systems::sys_colliding::positions_of;
use crate::world::gameworld::{updated, GameWorld};
use std::sync::mpsc::Receiver;
use vstd::prelude::*;

verus! {

#[verifier::external_type_specification]
#[verifier::external_body]
#[verifier::reject_recursive_types(T)]
pub struct ExReceiver<T>(std::sync::mpsc::Receiver<T>);

/// `Receiver::try_recv` of `std::sync::mpsc`: the next entry that waits on
/// the channel, without blocking; none where the channel is empty or closed.
/// Nothing is claimed of the answer.
#[verifier::external_body]
fn next_entry(receiver: &Receiver<(Client, u64)>) -> (entry: Option<(Client, u64)>) {
    receiver.try_recv().ok()
}

/// A message reached the game that a session must have kept to itself.
#[derive(Debug, Clone, Copy, PartialEq, Eq, Structural)]
pub enum GameError {
    /// A `Ping` came through the channel, from the given author.
    UnexpectedPing(u64),
}

/// The time that one frame may take, in nanoseconds: a sixtieth of a second,
/// cut to whole nanoseconds.
pub const FRAME_BUDGET_NS: u64 = 16_666_666;

/// How a frame ends.
#[derive(Debug, Clone, Copy, PartialEq, Eq, Structural)]
pub struct Pause {
    /// How long to sleep before the next frame, in nanoseconds.
    pub sleep_ns: u64,
    /// Whether the frame took more than its budget.
    pub overrun: bool,
}

/// The time a frame took: from its start to its end, and nothing where the
/// clock went backwards.
pub open spec fn elapsed_ns(frame_start_ns: u64, frame_done_ns: u64) -> int {
    if frame_done_ns >= frame_start_ns {
        frame_done_ns - frame_start_ns
    } else {
        0
    }
}

/// The pacing rule: a frame sleeps for what is left of its budget; one that
/// took more than the budget is an overrun and does not sleep. Lost time is
/// never made up for.
pub open spec fn pause_of(frame_start_ns: u64, frame_done_ns: u64) -> Pause {
    let elapsed = elapsed_ns(frame_start_ns, frame_done_ns);
    if elapsed > FRAME_BUDGET_NS {
        Pause { sleep_ns: 0, overrun: true }
    } else {
        Pause { sleep_ns: (FRAME_BUDGET_NS - elapsed) as u64, overrun: false }
    }
}

/// Decides how a frame ends, from the times at which its work began and was
/// done.
pub fn frame_pause(frame_start_ns: u64, frame_done_ns: u64) -> (pause: Pause)
    ensures
        pause == pause_of(frame_start_ns, frame_done_ns),
{
    let elapsed: u64 = if frame_done_ns >= frame_start_ns {
        frame_done_ns - frame_start_ns
    } else {
        0
    };
    if elapsed > FRAME_BUDGET_NS {
        Pause { sleep_ns: 0, overrun: true }
    } else {
        Pause { sleep_ns: FRAME_BUDGET_NS - elapsed, overrun: false }
    }
}

/// Whether `sent` is what a `Test` sets off among `peers`: a `Test` to every
/// one of them but the author, who is the one left out.
pub open spec fn answers_test(peers: Seq<u64>, sent: Broadcast) -> bool {
    is_broadcast(peers, Server::Test, sent.excluded, sent)
}

/// Sets off what one drained message asks for. A `Test` is answered by a
/// `Test` to every peer but its author. A `Ping` must never come this far
/// and is an error.
pub fn process(state: &State, message: Client, author: u64) -> (done: Result<Broadcast, GameError>)
    ensures
        message is Ping ==> done == Err::<Broadcast, GameError>(GameError::UnexpectedPing(author)),
        message is Test ==> {
            &&& done matches Ok(sent)
            &&& sent.excluded == author
            &&& answers_test(state.peers(), sent)
        },
{
    match message {
        Client::Test => Ok(state.broadcast_except(Server::Test, author)),
        Client::Ping(_) => Err(GameError::UnexpectedPing(author)),
    }
}

/// How draining goes on behind one look at the channel.
#[derive(Debug, Clone, Copy, PartialEq, Eq, Structural)]
pub enum Step {
    /// An entry was there and is processed: there may be more.
    More,
    /// The channel gave nothing: draining is done.
    Empty,
    /// An entry was there that must not have come: draining stops on it.
    Violation(GameError),
}

/// What one look at the channel makes of what was sent so far. Nothing in
/// the channel ends draining and changes nothing. A `Test` from an author
/// adds one broadcast, behind the others: a `Test` to every peer but the
/// author. A `Ping` stops draining with an error and changes nothing.
pub open spec fn step_of(
    peers: Seq<u64>,
    entry: Option<(Client, u64)>,
    before: Seq<Broadcast>,
    after: Seq<Broadcast>,
    next: Step,
) -> bool {
    match entry {
        None => next == Step::Empty && after == before,
        Some((Client::Ping(_), author)) => next == Step::Violation(
            GameError::UnexpectedPing(author),
        ) && after == before,
        Some((Client::Test, author)) => {
            &&& next == Step::More
            &&& after.len() == before.len() + 1
            &&& after.drop_last() == before
            &&& after.last().excluded == author
            &&& answers_test(peers, after.last())
        },
    }
}

/// Takes what one look at the channel gave: processes the entry, if there is
/// one, and adds what it set off to what was sent so far.
pub fn step(state: &State, entry: Option<(Client, u64)>, sent: &mut Vec<Broadcast>) -> (next: Step)
    ensures
        step_of(state.peers(), entry, old(sent)@, final(sent)@, next),
{
    match entry {
        Some((message, author)) => {
            match process(state, message, author) {
                Ok(broadcast) => {
                    sent.push(broadcast);
                    proof {
                        assert(sent@.drop_last() =~= old(sent)@);
                    }
                    Step::More
                },
                Err(violation) => Step::Violation(violation),
            }
        },
        None => Step::Empty,
    }
}

/// What one tick did.
pub struct Tick<S> {
    /// How many messages were drained and processed.
    pub handled: usize,
    /// What each of them set off, in the order in which they were drained.
    pub broadcasts: Vec<Broadcast>,
    /// The positions for the collision world, gathered after the world's
    /// step.
    pub positions: Vec<(Collider, Transform<S>)>,
}

/// Whether `after` is `before` one step later, and `positions` are what the
/// collision system gathered at the end of that step.
pub open spec fn stepped<S: Copy, A: Fn(S, S) -> S, C: Fn(S, u64) -> S>(
    before: GameWorld<S>,
    after: GameWorld<S>,
    positions: Seq<(Collider, Transform<S>)>,
    sum: A,
    scale: C,
) -> bool {
    &&& exists|now: u64, moved: bool| #[trigger] after.time().follows(before.time(), now, moved)
    &&& after.gravity() == before.gravity()
    &&& after@.len() == before@.len()
    &&& forall|i: int|
        0 <= i < before@.len() ==> updated(
            before@[i],
            #[trigger] after@[i],
            before.gravity(),
            after.delta(),
            sum,
            scale,
        )
    &&& positions == positions_of(after@)
}

/// The server side of the game: it takes what the sessions forward, sets off
/// what each message asks for, and steps the world.
pub struct Game<S> {
    receiver: Receiver<(Client, u64)>,
    world: GameWorld<S>,
}

impl<S: Copy> Game<S> {
    /// The world as it stands.
    pub closed spec fn world_view(&self) -> GameWorld<S> {
        self.world
    }

    /// Creates the game on the receiving end of the channel from the
    /// sessions, around the given world.
    pub fn new(receiver: Receiver<(Client, u64)>, world: GameWorld<S>) -> (game: Self)
        ensures
            game.world_view() == world,
    {
        Game { receiver, world }
    }

    /// The world as it stands.
    pub fn world(&self) -> (world: &GameWorld<S>)
        ensures
            *world == self.world_view(),
    {
        &self.world
    }

    /// Drains the channel until it is empty and processes each entry in the
    /// order of arrival. Hands back what each entry set off, one broadcast
    /// for each, or stops at the first entry that must not have come. The
    /// world is not touched.
    pub fn drain(&mut self, state: &State) -> (drained: Result<Vec<Broadcast>, GameError>)
        ensures
            final(self).world_view() == old(self).world_view(),
            drained matches Ok(sent) ==> forall|i: int|
                0 <= i < sent@.len() ==> answers_test(state.peers(), #[trigger] sent@[i]),
    {
        let mut sent: Vec<Broadcast> = Vec::new();
        while sent.len() < usize::MAX
            invariant
                self.world_view() == old(self).world_view(),
                forall|i: int|
                    0 <= i < sent@.len() ==> answers_test(state.peers(), #[trigger] sent@[i]),
            decreases usize::MAX - sent@.len(),
        {
            let ghost before = sent@;
            match step(state, next_entry(&self.receiver), &mut sent) {
                Step::More => {
                    proof {
                        assert forall|i: int| 0 <= i < sent@.len() implies answers_test(
                            state.peers(),
                            #[trigger] sent@[i],
                        ) by {
                            if i < before.len() {
                                assert(sent@[i] == sent@.drop_last()[i]);
                            }
                        }
                    }
                },
                Step::Empty => {
                    return Ok(sent);
                },
                Step::Violation(violation) => {
                    return Err(violation);
                },
            }
        }
        Ok(sent)
    }

    /// Ends a tick on what draining came to. Where every entry was in order,
    /// the world is stepped exactly once and the tick tells what was sent and
    /// where the colliders are. Where an entry must not have come, the error
    /// is handed on and the world is not touched.
    pub fn conclude<A: Fn(S, S) -> S, C: Fn(S, u64) -> S>(
        &mut self,
        drained: Result<Vec<Broadcast>, GameError>,
        sum: &A,
        scale: &C,
    ) -> (tick: Result<Tick<S>, GameError>)
        requires
            forall|a: S, b: S| call_requires(*sum, (a, b)),
            forall|a: S, delta: u64| call_requires(*scale, (a, delta)),
        ensures
            match drained {
                Ok(sent) => {
                    &&& tick matches Ok(done)
                    &&& done.broadcasts == sent
                    &&& done.handled == sent@.len()
                    &&& stepped(
                        old(self).world_view(),
                        final(self).world_view(),
                        done.positions@,
                        *sum,
                        *scale,
                    )
                },
                Err(violation) => {
                    &&& tick matches Err(found)
                    &&& found == violation
                    &&& final(self).world_view() == old(self).world_view()
                },
            },
    {
        match drained {
            Ok(broadcasts) => {
                let handled: usize = broadcasts.len();
                let positions = self.world.update(sum, scale);
                Ok(Tick { handled, broadcasts, positions })
            },
            Err(violation) => Err(violation),
        }
    }

    /// One tick: drains the channel, then steps the world exactly once. A
    /// message that must not have come stops the tick before the world is
    /// touched.
    pub fn update<A: Fn(S, S) -> S, C: Fn(S, u64) -> S>(
        &mut self,
        state: &State,
        sum: &A,
        scale: &C,
    ) -> (tick: Result<Tick<S>, GameError>)
        requires
            forall|a: S, b: S| call_requires(*sum, (a, b)),
            forall|a: S, delta: u64| call_requires(*scale, (a, delta)),
        ensures
            tick is Err ==> final(self).world_view() == old(self).world_view(),
            tick matches Ok(done) ==> {
                &&& done.handled == done.broadcasts@.len()
                &&& forall|i: int|
                    0 <= i < done.broadcasts@.len() ==> answers_test(
                        state.peers(),
                        #[trigger] done.broadcasts@[i],
                    )
                &&& stepped(
                    old(self).world_view(),
                    final(self).world_view(),
                    done.positions@,
                    *sum,
                    *scale,
                )
            },
    {
        let drained = self.drain(state);
        self.conclude(drained, sum, scale)
    }
}

} // verus!
