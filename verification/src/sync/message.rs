//! The messages that clients and the server exchange.

use std::time::SystemTime;
use vstd::prelude::*;

verus! {

#[verifier::external_type_specification]
#[verifier::external_body]
pub struct ExSystemTime(std::time::SystemTime);

/// What a client sends.
#[derive(Debug, Clone, Copy, PartialEq, Eq)]
pub enum Client {
    /// An empty message, to try the protocol.
    Test,
    /// The client's time of sending, to measure the round trip.
    Ping(SystemTime),
}

/// What the server sends.
#[derive(Debug, Clone, Copy, PartialEq, Eq)]
pub enum Server {
    /// Tells every other peer that some client sent `Test`.
    Test,
    /// The answer to a `Ping`: the client's time of sending and the server's
    /// time of answering.
    Pong { client: SystemTime, server: SystemTime },
}

} // verus!
