//! The session of one connection.
//!
//! A session owns the codec of its connection and the receiving end of its
//! outbound queue. The transport stays with the caller, who feeds the codec
//! with what it read and writes what the codec holds. How a message turns
//! into bytes and back is the caller's too, and comes in as a function. The
//! session frames the bytes, decides where each message goes and sends it
//! there.

use crate::sync::codec::{frame, refusal, split_frame, CodecError, Decoded, Lines};
use crate::sync::message::{Client, Server};
use crate::sync::state::{apart, feeds, ids, others, Outcome, State};
use futures::sync::mpsc::UnboundedReceiver;
use std::sync::mpsc::Sender;
use std::time::SystemTime;
use vstd::prelude::*;

verus! {

#[verifier::external_type_specification]
#[verifier::external_body]
#[verifier::reject_recursive_types(T)]
pub struct ExSender<T>(std::sync::mpsc::Sender<T>);

#[verifier::external_type_specification]
#[verifier::external_body]
pub struct ExJsonError(serde_json::Error);

/// `SystemTime::now`: the wall clock's time. Nothing is claimed of it.
#[verifier::external_body]
fn wall_clock() -> (now: SystemTime) {
    SystemTime::now()
}

/// `Sender::send` of `std::sync::mpsc`: puts the entry on the channel to the
/// game; tells whether the channel took it, which it does unless its
/// receiving end is gone. Nothing is claimed of the answer.
#[verifier::external_body]
fn forward(game: &Sender<(Client, u64)>, message: Client, author: u64) -> (taken: bool) {
    game.send((message, author)).is_ok()
}

/// Where a message from a client goes.
#[derive(Debug, Clone, Copy, PartialEq, Eq)]
pub enum Route {
    /// Straight back to the client's own outbound queue, past the game.
    Reply(Server),
    /// To the game, together with the identity of its author.
    Forward(Client, u64),
}

/// What became of a message from a client.
#[derive(Debug, Clone, Copy, PartialEq, Eq)]
pub enum Handled {
    /// The session answered by itself: the answer, and what became of it on
    /// the client's own queue. Nothing went to the game.
    Replied(Server, Outcome),
    /// The game's channel took the message.
    Forwarded,
    /// The game's channel is closed: the simulation has stopped, and the
    /// session cannot go on.
    SimulationGone,
}

/// What the game channel's answer to a forwarded message means: the channel
/// took it, or the game is gone.
pub open spec fn forwarded_for(taken: bool) -> Handled {
    if taken {
        Handled::Forwarded
    } else {
        Handled::SimulationGone
    }
}

/// Tells what became of a forwarded message from what the game's channel
/// answered.
pub fn forwarded(taken: bool) -> (done: Handled)
    ensures
        done == forwarded_for(taken),
{
    if taken {
        Handled::Forwarded
    } else {
        Handled::SimulationGone
    }
}

/// Why a message for the client was not queued for writing.
#[derive(Debug)]
pub enum SendError {
    /// The message could not be turned into bytes.
    Unserializable(serde_json::Error),
    /// The codec refused the bytes of the message.
    Refused(CodecError),
}

/// What one step of reading found.
#[derive(Debug)]
pub enum Received {
    /// A whole message came, and this became of it.
    Message(Client, Handled),
    /// A whole frame came that holds no message. The frame is gone from the
    /// buffer; a session that meets one ends.
    Malformed(serde_json::Error),
    /// No whole frame is buffered and the client has closed the stream.
    Closed,
    /// No whole frame is buffered yet; more input may come.
    NotReady,
}

/// What a session does behind one step of reading.
#[derive(Debug, Clone, Copy, PartialEq, Eq, Structural)]
pub enum Next {
    /// It reads on: there may be another message.
    GoOn,
    /// It waits until more input has come.
    Suspend,
    /// It ends in order: the client has closed the stream.
    End,
    /// It ends out of order: the stream cannot be read any more.
    Fail,
    /// It cannot go on at all: the game is gone, and nothing can be served
    /// without it.
    Fatal,
}

/// The session's rule of what follows one step of reading. A message that
/// was answered or forwarded lets it read on; one that found the game gone
/// is fatal. A frame that holds no message makes it fail. A closed stream
/// ends it, and a frame that is not whole yet makes it wait.
pub open spec fn next_for(received: Received) -> Next {
    match received {
        Received::Message(_, Handled::SimulationGone) => Next::Fatal,
        Received::Message(_, _) => Next::GoOn,
        Received::Malformed(_) => Next::Fail,
        Received::Closed => Next::End,
        Received::NotReady => Next::Suspend,
    }
}

/// Decides what the session does behind one step of reading.
pub fn next_step(received: &Received) -> (next: Next)
    ensures
        next == next_for(*received),
{
    match received {
        Received::Message(_, done) => {
            match done {
                Handled::SimulationGone => Next::Fatal,
                _ => Next::GoOn,
            }
        },
        Received::Malformed(_) => Next::Fail,
        Received::Closed => Next::End,
        Received::NotReady => Next::Suspend,
    }
}

/// What sending along a route may come to: a reply goes to the session's own
/// queue, which takes it where the session is registered; anything else goes
/// to the game or finds it gone.
pub open spec fn sent_as(to: Route, registered: bool, done: Handled) -> bool {
    match to {
        Route::Reply(answer) => {
            &&& done matches Handled::Replied(given, outcome)
            &&& given == answer
            &&& !registered ==> outcome == Outcome::Unknown
            &&& registered ==> outcome == Outcome::Delivered || outcome == Outcome::Dropped
        },
        Route::Forward(_, _) => done == Handled::Forwarded || done == Handled::SimulationGone,
    }
}

/// What handling a message may come to: the message is sent along its route
/// for some time of the server's clock. So a `Ping` is answered by a `Pong`
/// with the client's own time and never goes to the game.
pub open spec fn handled_as(message: Client, author: u64, registered: bool, done: Handled) -> bool {
    exists|now: SystemTime| sent_as(#[trigger] route_of(message, author, now), registered, done)
}

/// A `Ping` stays with the session: it is answered by a `Pong` that carries
/// the client's own time, and does not go to the game.
pub proof fn lemma_ping_is_answered(sent: SystemTime, author: u64, registered: bool, done: Handled)
    requires
        handled_as(Client::Ping(sent), author, registered, done),
    ensures
        done matches Handled::Replied(Server::Pong { client, server }, _) && client == sent,
        done != Handled::Forwarded,
        done != Handled::SimulationGone,
{
}

/// A `Test` goes to the game, or finds it gone: the session does not answer
/// it.
pub proof fn lemma_test_is_forwarded(author: u64, registered: bool, done: Handled)
    requires
        handled_as(Client::Test, author, registered, done),
    ensures
        done == Handled::Forwarded || done == Handled::SimulationGone,
{
}

/// The routing rule: a `Ping` is answered at once with a `Pong` that carries
/// the client's time and the server's; every other message goes to the game
/// under its author's identity.
pub open spec fn route_of(message: Client, author: u64, now: SystemTime) -> Route {
    match message {
        Client::Ping(sent) => Route::Reply(Server::Pong { client: sent, server: now }),
        Client::Test => Route::Forward(Client::Test, author),
    }
}

/// Decides where a message goes, given the server's current time.
pub fn route(message: Client, author: u64, now: SystemTime) -> (to: Route)
    ensures
        to == route_of(message, author, now),
{
    match message {
        Client::Ping(sent) => Route::Reply(Server::Pong { client: sent, server: now }),
        other => Route::Forward(other, author),
    }
}

/// The session of one connection.
pub struct Peer {
    /// The codec of the connection.
    pub lines: Lines,
    /// The receiving end of the outbound queue: what comes off it is encoded
    /// and written to the client.
    pub rx: UnboundedReceiver<Server>,
    /// The sending end of the channel to the game.
    pub game: Sender<(Client, u64)>,
    /// The identity under which the session is registered.
    pub addr: u64,
}

impl Peer {
    /// Opens a session: registers the identity in the shared state, behind
    /// all other entries, and keeps the receiving end of the new outbound
    /// queue, whose sending end the shared state now holds under the
    /// identity. No other entry of the shared state changes.
    pub fn new(state: &mut State, game: Sender<(Client, u64)>, lines: Lines, addr: u64) -> (peer:
        Self)
        ensures
            final(state).links().len() > 0,
            final(state).links() == old(state).links().filter(others(addr)).push(
                final(state).links().last(),
            ),
            final(state).links().last().0 == addr,
            final(state).sender_of(addr) == Some(final(state).links().last().1),
            feeds(final(state).links().last().1, peer.rx),
            forall|other: u64|
                other != addr ==> final(state).sender_of(other) == old(state).sender_of(other),
            final(state).peers() == old(state).peers().filter(apart(addr)).push(addr),
            !old(state)@.contains(addr) ==> final(state).links().drop_last() == old(state).links(),
            final(state)@ == old(state)@.insert(addr),
            old(state).wf() ==> final(state).wf(),
            peer.addr == addr,
            peer.lines == lines,
            peer.game == game,
    {
        let rx = state.register(addr);
        Peer { lines, rx, game, addr }
    }

    /// Sends a message along its route: a reply to the session's own queue in
    /// the shared state, anything else to the game.
    pub fn dispatch(&self, state: &State, to: Route) -> (done: Handled)
        ensures
            sent_as(to, state@.contains(self.addr), done),
    {
        match to {
            Route::Reply(answer) => Handled::Replied(answer, state.send_to(self.addr, answer)),
            Route::Forward(message, author) => forwarded(forward(&self.game, message, author)),
        }
    }

    /// Handles one decoded message: reads the clock, routes the message and
    /// sends it. A `Ping` is answered on the spot and never reaches the game.
    pub fn handle(&self, state: &State, message: Client) -> (done: Handled)
        ensures
            handled_as(message, self.addr, state@.contains(self.addr), done),
    {
        let now = wall_clock();
        let to = route(message, self.addr, now);
        let done = self.dispatch(state, to);
        proof {
            assert(sent_as(route_of(message, self.addr, now), state@.contains(self.addr), done));
        }
        done
    }

    /// Queues a message for writing: has the caller's function turn it into
    /// bytes and appends them, as one frame, to the write buffer. Where the
    /// function fails or the codec refuses the bytes, nothing changes.
    pub fn send<E: Fn(Server) -> Result<Vec<u8>, serde_json::Error>>(
        &mut self,
        message: Server,
        serialize: &E,
    ) -> (done: Result<(), SendError>)
        requires
            call_requires(*serialize, (message,)),
        ensures
            final(self).addr == old(self).addr,
            final(self).game == old(self).game,
            final(self).rx == old(self).rx,
            final(self).lines.inbound() == old(self).lines.inbound(),
            exists|encoded: Result<Vec<u8>, serde_json::Error>|
                {
                    &&& #[trigger] call_ensures(*serialize, (message,), encoded)
                    &&& match encoded {
                        Ok(payload) => match refusal(
                            old(self).lines.outbound().len(),
                            payload@,
                        ) {
                            Some(refused) => {
                                &&& done matches Err(SendError::Refused(found))
                                &&& found == refused
                                &&& final(self).lines.outbound() == old(self).lines.outbound()
                            },
                            None => {
                                &&& done is Ok
                                &&& final(self).lines.outbound() == old(self).lines.outbound()
                                    + frame(payload@)
                            },
                        },
                        Err(error) => {
                            &&& done matches Err(SendError::Unserializable(found))
                            &&& found == error
                            &&& final(self).lines.outbound() == old(self).lines.outbound()
                        },
                    }
                },
    {
        let encoded = serialize(message);
        proof {
            assert(call_ensures(*serialize, (message,), encoded));
        }
        match encoded {
            Ok(payload) => {
                match self.lines.buffer(payload.as_slice()) {
                    Ok(()) => Ok(()),
                    Err(refused) => Err(SendError::Refused(refused)),
                }
            },
            Err(error) => Err(SendError::Unserializable(error)),
        }
    }

    /// One step of reading: takes the next whole frame out of the read
    /// buffer, if there is one, has the caller's function make a message of
    /// its payload, and handles the message. A payload that holds no message
    /// is handed back with the error and not handled. Without a whole frame
    /// nothing changes, and the answer tells whether the stream has ended.
    pub fn receive<D: Fn(Vec<u8>) -> Result<Client, serde_json::Error>>(
        &mut self,
        state: &State,
        sock_closed: bool,
        deserialize: &D,
    ) -> (step: Received)
        requires
            forall|payload: Vec<u8>| call_requires(*deserialize, (payload,)),
        ensures
            final(self).addr == old(self).addr,
            final(self).game == old(self).game,
            final(self).rx == old(self).rx,
            final(self).lines.outbound() == old(self).lines.outbound(),
            match split_frame(old(self).lines.inbound()) {
                Some((payload, rest)) => {
                    &&& final(self).lines.inbound() == rest
                    &&& exists|line: Vec<u8>, parsed: Result<Client, serde_json::Error>|
                        {
                            &&& line@ == payload
                            &&& #[trigger] call_ensures(*deserialize, (line,), parsed)
                            &&& match parsed {
                                Ok(message) => {
                                    &&& step matches Received::Message(given, done)
                                    &&& given == message
                                    &&& handled_as(
                                        message,
                                        old(self).addr,
                                        state@.contains(old(self).addr),
                                        done,
                                    )
                                },
                                Err(error) => step matches Received::Malformed(found) && found
                                    == error,
                            }
                        }
                },
                None => {
                    &&& final(self).lines.inbound() == old(self).lines.inbound()
                    &&& sock_closed ==> step is Closed
                    &&& !sock_closed ==> step is NotReady
                },
            },
    {
        match self.lines.poll(sock_closed) {
            Decoded::Frame(line) => {
                let ghost given = line;
                let parsed = deserialize(line);
                proof {
                    assert(call_ensures(*deserialize, (given,), parsed));
                }
                match parsed {
                    Ok(message) => {
                        let done = self.handle(state, message);
                        Received::Message(message, done)
                    },
                    Err(error) => Received::Malformed(error),
                }
            },
            Decoded::Closed => Received::Closed,
            Decoded::NotReady => Received::NotReady,
        }
    }

    /// Ends the session: takes its identity out of the shared state, and
    /// leaves every other entry as it is. Doing it again changes nothing.
    pub fn leave(&self, state: &mut State) -> (was_registered: bool)
        ensures
            final(state).links() == old(state).links().filter(others(self.addr)),
            final(state).sender_of(self.addr) is None,
            forall|other: u64|
                other != self.addr ==> final(state).sender_of(other) == old(state).sender_of(
                    other,
                ),
            final(state).peers() == old(state).peers().filter(apart(self.addr)),
            !old(state)@.contains(self.addr) ==> final(state).links() == old(state).links(),
            old(state).links().len() > 0 && old(state).links().last().0 == self.addr && !ids(
                old(state).links().drop_last(),
            ).contains(self.addr) ==> final(state).links() == old(state).links().drop_last(),
            final(state)@ == old(state)@.remove(self.addr),
            old(state).wf() ==> final(state).wf(),
            was_registered == old(state)@.contains(self.addr),
    {
        state.remove(self.addr)
    }
}

} // verus!
