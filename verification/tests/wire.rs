use futures::sync::mpsc::UnboundedReceiver;
use futures::{Async, Future, Stream};
use serde_json::Value;
use some_platformer::sync::codec::{CodecError, Lines, MAX_BUFFERED};
use some_platformer::sync::message::{Client, Server};
use some_platformer::sync::peer::{next_step, Handled, Next, Peer, Received, SendError};
use some_platformer::sync::state::{Outcome, State};
use std::sync::mpsc::{channel, TryRecvError};
use std::time::{Duration, SystemTime};

fn queued(rx: &mut UnboundedReceiver<Server>) -> Vec<Server> {
    futures::future::lazy(|| {
        let mut out = Vec::new();
        while let Ok(Async::Ready(Some(message))) = rx.poll() {
            out.push(message);
        }
        Ok::<Vec<Server>, ()>(out)
    })
    .wait()
    .unwrap()
}

fn to_json(message: Server) -> Result<Vec<u8>, serde_json::Error> {
    let value = match message {
        Server::Test => Value::String("Test".to_string()),
        Server::Pong { client, server } => {
            let mut times = serde_json::Map::new();
            times.insert("client".to_string(), serde_json::to_value(client)?);
            times.insert("server".to_string(), serde_json::to_value(server)?);
            let mut pong = serde_json::Map::new();
            pong.insert("Pong".to_string(), Value::Object(times));
            Value::Object(pong)
        }
    };
    serde_json::to_vec(&value)
}

fn from_json(payload: Vec<u8>) -> Result<Client, serde_json::Error> {
    let value: Value = serde_json::from_slice(&payload)?;
    match value.get("Ping") {
        Some(sent) => Ok(Client::Ping(serde_json::from_value::<SystemTime>(sent.clone())?)),
        None => serde_json::from_value::<()>(match value {
            Value::String(ref name) if name == "Test" => Value::Null,
            other => other,
        })
        .map(|_| Client::Test),
    }
}

fn refusing(_: Server) -> Result<Vec<u8>, serde_json::Error> {
    serde_json::from_slice::<u8>(b"not a number").map(|byte| vec![byte])
}

fn session(state: &mut State, addr: u64) -> (Peer, std::sync::mpsc::Receiver<(Client, u64)>) {
    let (to_game, from_sessions) = channel();
    (Peer::new(state, to_game, Lines::new(), addr), from_sessions)
}

#[test]
fn send_queues_one_frame_per_message() {
    let mut state = State::new();
    let (mut peer, _game) = session(&mut state, 1);
    assert!(peer.send(Server::Test, &to_json).is_ok());
    assert!(peer.send(Server::Test, &to_json).is_ok());
    assert_eq!(peer.lines.pending(), &b"\"Test\"\r\n\"Test\"\r\n"[..]);
}

#[test]
fn send_of_a_pong_writes_both_times() {
    let mut state = State::new();
    let (mut peer, _game) = session(&mut state, 1);
    let client = SystemTime::UNIX_EPOCH + Duration::new(3, 4);
    let server = SystemTime::UNIX_EPOCH + Duration::new(5, 6);
    assert!(peer.send(Server::Pong { client, server }, &to_json).is_ok());
    let expected = "{\"Pong\":{\"client\":{\"nanos_since_epoch\":4,\"secs_since_epoch\":3},\"server\":{\"nanos_since_epoch\":6,\"secs_since_epoch\":5}}}\r\n";
    assert_eq!(peer.lines.pending(), expected.as_bytes());
}

#[test]
fn send_that_cannot_be_serialized_changes_nothing() {
    let mut state = State::new();
    let (mut peer, _game) = session(&mut state, 1);
    assert!(peer.send(Server::Test, &to_json).is_ok());
    assert!(matches!(peer.send(Server::Test, &refusing), Err(SendError::Unserializable(_))));
    assert_eq!(peer.lines.pending(), &b"\"Test\"\r\n"[..]);
}

#[test]
fn send_over_the_cap_changes_nothing() {
    let mut state = State::new();
    let (mut peer, _game) = session(&mut state, 1);
    let huge = |_: Server| Ok::<Vec<u8>, serde_json::Error>(vec![b'x'; MAX_BUFFERED - 1]);
    assert!(matches!(
        peer.send(Server::Test, &huge),
        Err(SendError::Refused(CodecError::BufferOverflow))
    ));
    assert!(peer.lines.is_flushed());
}

#[test]
fn send_of_bytes_that_hold_the_delimiter_changes_nothing() {
    let mut state = State::new();
    let (mut peer, _game) = session(&mut state, 1);
    let broken = |_: Server| Ok::<Vec<u8>, serde_json::Error>(b"a\r\nb".to_vec());
    assert!(matches!(
        peer.send(Server::Test, &broken),
        Err(SendError::Refused(CodecError::DelimiterInPayload))
    ));
    assert!(peer.lines.is_flushed());
}

#[test]
fn receive_without_a_frame_waits_or_closes() {
    let mut state = State::new();
    let (mut peer, _game) = session(&mut state, 1);
    assert!(matches!(peer.receive(&state, false, &from_json), Received::NotReady));
    assert_eq!(peer.lines.fill_read_buf(b"\"Te"), Ok(()));
    assert!(matches!(peer.receive(&state, false, &from_json), Received::NotReady));
    assert!(matches!(peer.receive(&state, true, &from_json), Received::Closed));
}

#[test]
fn receive_forwards_a_test_to_the_game() {
    let mut state = State::new();
    let (mut peer, game) = session(&mut state, 6);
    assert_eq!(peer.lines.fill_read_buf(b"\"Test\"\r\n"), Ok(()));
    assert!(matches!(
        peer.receive(&state, false, &from_json),
        Received::Message(Client::Test, Handled::Forwarded)
    ));
    assert_eq!(game.try_recv(), Ok((Client::Test, 6)));
    assert!(matches!(peer.receive(&state, false, &from_json), Received::NotReady));
}

#[test]
fn receive_answers_a_ping_and_keeps_it_from_the_game() {
    let mut state = State::new();
    let (mut peer, game) = session(&mut state, 6);
    let t0 = SystemTime::now();
    let mut ping = serde_json::Map::new();
    ping.insert("Ping".to_string(), serde_json::to_value(t0).unwrap());
    let mut wire = serde_json::to_vec(&Value::Object(ping)).unwrap();
    wire.extend_from_slice(b"\r\n");
    assert_eq!(peer.lines.fill_read_buf(&wire), Ok(()));

    let step = peer.receive(&state, false, &from_json);

    assert!(matches!(
        step,
        Received::Message(
            Client::Ping(sent),
            Handled::Replied(Server::Pong { client, server }, Outcome::Delivered)
        ) if sent == t0 && client == t0 && server >= t0
    ));
    let answers = queued(&mut peer.rx);
    assert_eq!(answers.len(), 1);
    assert!(matches!(
        answers[0],
        Server::Pong { client, server } if client == t0 && server >= t0
    ));
    assert_eq!(game.try_recv(), Err(TryRecvError::Empty));
}

#[test]
fn receive_hands_back_a_malformed_frame_and_goes_on_behind_it() {
    let mut state = State::new();
    let (mut peer, game) = session(&mut state, 6);
    assert_eq!(peer.lines.fill_read_buf(b"{oops\r\n\"Test\"\r\n"), Ok(()));
    assert!(matches!(peer.receive(&state, false, &from_json), Received::Malformed(_)));
    assert_eq!(game.try_recv(), Err(TryRecvError::Empty));
    assert!(matches!(
        peer.receive(&state, true, &from_json),
        Received::Message(Client::Test, Handled::Forwarded)
    ));
    assert!(matches!(peer.receive(&state, true, &from_json), Received::Closed));
}

#[test]
fn what_one_session_sends_another_receives() {
    let mut state = State::new();
    let (mut writer, _unused) = session(&mut state, 1);
    let ping = |_: Server| serde_json::to_vec(&Value::String("Test".to_string()));
    assert!(writer.send(Server::Test, &ping).is_ok());
    let (mut reader, game) = session(&mut state, 2);
    assert_eq!(reader.lines.fill_read_buf(writer.lines.pending()), Ok(()));
    assert!(matches!(
        reader.receive(&state, false, &from_json),
        Received::Message(Client::Test, Handled::Forwarded)
    ));
    assert_eq!(game.try_recv(), Ok((Client::Test, 2)));
}

#[test]
fn next_step_follows_what_was_received() {
    let pong = Server::Pong { client: SystemTime::UNIX_EPOCH, server: SystemTime::UNIX_EPOCH };
    let ping = Client::Ping(SystemTime::UNIX_EPOCH);
    assert_eq!(next_step(&Received::Message(Client::Test, Handled::Forwarded)), Next::GoOn);
    assert_eq!(
        next_step(&Received::Message(ping, Handled::Replied(pong, Outcome::Delivered))),
        Next::GoOn
    );
    assert_eq!(
        next_step(&Received::Message(ping, Handled::Replied(pong, Outcome::Dropped))),
        Next::GoOn
    );
    assert_eq!(
        next_step(&Received::Message(Client::Test, Handled::SimulationGone)),
        Next::Fatal
    );
    let error = serde_json::from_slice::<u8>(b"x").unwrap_err();
    assert_eq!(next_step(&Received::Malformed(error)), Next::Fail);
    assert_eq!(next_step(&Received::Closed), Next::End);
    assert_eq!(next_step(&Received::NotReady), Next::Suspend);
}

#[test]
fn session_without_a_game_is_fatal() {
    let mut state = State::new();
    let (mut peer, game) = session(&mut state, 6);
    drop(game);
    assert_eq!(peer.lines.fill_read_buf(b"\"Test\"\r\n"), Ok(()));
    let step = peer.receive(&state, false, &from_json);
    assert!(matches!(step, Received::Message(Client::Test, Handled::SimulationGone)));
    assert_eq!(next_step(&step), Next::Fatal);
}
