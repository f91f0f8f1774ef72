//! Line framing over a byte stream.
//!
//! A frame is a payload followed by the two bytes CR LF. The codec keeps a
//! read buffer and a write buffer; the transport itself stays with the caller,
//! who feeds what it read and takes what it must write.

use bytes::BytesMut;
use vstd::prelude::*;

verus! {

#[verifier::external_type_specification]
#[verifier::external_body]
pub struct ExBytesMut(bytes::BytesMut);

/// The bytes that a `BytesMut` holds, front first.
pub uninterp spec fn contents(buf: BytesMut) -> Seq<u8>;

/// `BytesMut::new`: the new buffer holds nothing.
pub assume_specification[ BytesMut::new ]() -> (buf: BytesMut)
    ensures
        contents(buf) == Seq::<u8>::empty(),
;

/// `BytesMut::len`: the number of bytes held.
pub assume_specification[ BytesMut::len ](buf: &BytesMut) -> (n: usize)
    ensures
        n == contents(*buf).len(),
;

/// `BytesMut::is_empty`: whether no byte is held.
pub assume_specification[ BytesMut::is_empty ](buf: &BytesMut) -> (empty: bool)
    ensures
        empty == (contents(*buf).len() == 0),
;

/// `BytesMut::extend_from_slice`: grows the buffer as needed and appends the
/// slice. The outside function panics when the capacity that it asks for
/// overflows. It asks for less than four times the new length, so the
/// precondition keeps the new length under a quarter of the least
/// `isize::MAX`.
pub assume_specification[ BytesMut::extend_from_slice ](buf: &mut BytesMut, extend: &[u8])
    requires
        contents(*old(buf)).len() + extend@.len() <= 0x0fff_ffff,
    ensures
        contents(*final(buf)) == contents(*old(buf)) + extend@,
;

/// `BytesMut::split_to`: hands out the first `at` bytes and keeps the rest.
/// The outside function panics when `at` is past the length.
pub assume_specification[ BytesMut::split_to ](buf: &mut BytesMut, at: usize) -> (head: BytesMut)
    requires
        at <= contents(*old(buf)).len(),
    ensures
        contents(head) == contents(*old(buf)).subrange(0, at as int),
        contents(*final(buf)) == contents(*old(buf)).subrange(
            at as int,
            contents(*old(buf)).len() as int,
        ),
;

/// `BytesMut::split_off`: keeps the first `at` bytes and hands out the rest.
/// The outside function panics when `at` is past the capacity; the
/// precondition asks for `at` within the length, which is never more.
pub assume_specification[ BytesMut::split_off ](buf: &mut BytesMut, at: usize) -> (tail: BytesMut)
    requires
        at <= contents(*old(buf)).len(),
    ensures
        contents(*final(buf)) == contents(*old(buf)).subrange(0, at as int),
        contents(tail) == contents(*old(buf)).subrange(
            at as int,
            contents(*old(buf)).len() as int,
        ),
;

/// `Deref` of `BytesMut`: the held bytes as a slice.
#[verifier::external_body]
fn as_slice(buf: &BytesMut) -> (bytes: &[u8])
    ensures
        bytes@ == contents(*buf),
{
    &buf[..]
}

/// The first byte of the frame delimiter (carriage return).
pub const CR: u8 = 13;

/// The second byte of the frame delimiter (line feed).
pub const LF: u8 = 10;

/// The two bytes that end every frame.
pub open spec fn delimiter() -> Seq<u8> {
    seq![CR, LF]
}

/// A payload followed by the delimiter.
pub open spec fn frame(payload: Seq<u8>) -> Seq<u8> {
    payload + delimiter()
}

/// Whether the delimiter stands in `s` at index `i`.
pub open spec fn delimiter_at(s: Seq<u8>, i: int) -> bool {
    0 <= i && i + 1 < s.len() && s[i] == CR && s[i + 1] == LF
}

/// Whether the delimiter stands anywhere in `s`.
pub open spec fn has_delimiter(s: Seq<u8>) -> bool {
    exists|i: int| delimiter_at(s, i)
}

/// The first index at or after `from` where the delimiter stands.
pub open spec fn first_delimiter_from(s: Seq<u8>, from: int) -> Option<int>
    decreases s.len() - from,
{
    if from < 0 || from + 2 > s.len() {
        None
    } else if delimiter_at(s, from) {
        Some(from)
    } else {
        first_delimiter_from(s, from + 1)
    }
}

/// The first index where the delimiter stands.
pub open spec fn first_delimiter(s: Seq<u8>) -> Option<int> {
    first_delimiter_from(s, 0)
}

/// `first_delimiter_from` finds the least index not before `from` at which the
/// delimiter stands, and finds none exactly when there is none.
pub proof fn lemma_first_delimiter_from(s: Seq<u8>, from: int)
    requires
        0 <= from,
    ensures
        match first_delimiter_from(s, from) {
            Some(p) => from <= p && delimiter_at(s, p) && forall|j: int|
                from <= j < p ==> !delimiter_at(s, j),
            None => forall|j: int| from <= j ==> !delimiter_at(s, j),
        },
    decreases s.len() - from,
{
    if from + 2 > s.len() {
    } else if delimiter_at(s, from) {
    } else {
        lemma_first_delimiter_from(s, from + 1);
    }
}

/// `first_delimiter` is the least index at which the delimiter stands.
pub proof fn lemma_first_delimiter(s: Seq<u8>)
    ensures
        match first_delimiter(s) {
            Some(p) => delimiter_at(s, p) && forall|j: int| 0 <= j < p ==> !delimiter_at(s, j),
            None => !has_delimiter(s),
        },
{
    lemma_first_delimiter_from(s, 0);
}

/// What one decoding step makes of a buffer: the payload before the first
/// delimiter and the bytes after it, or nothing while no delimiter is there.
pub open spec fn split_frame(s: Seq<u8>) -> Option<(Seq<u8>, Seq<u8>)> {
    match first_delimiter(s) {
        Some(p) => Some((s.subrange(0, p), s.subrange(p + 2, s.len() as int))),
        None => None,
    }
}

/// The byte stream that encoding the payloads one after another writes.
pub open spec fn encode_all(payloads: Seq<Seq<u8>>) -> Seq<u8>
    decreases payloads.len(),
{
    if payloads.len() == 0 {
        Seq::empty()
    } else {
        frame(payloads[0]) + encode_all(payloads.drop_first())
    }
}

/// Encoding one more payload appends its frame to what was written before.
pub proof fn lemma_encode_all_push(payloads: Seq<Seq<u8>>, payload: Seq<u8>)
    ensures
        encode_all(payloads.push(payload)) == encode_all(payloads) + frame(payload),
    decreases payloads.len(),
{
    let more = payloads.push(payload);
    if payloads.len() == 0 {
        assert(more.drop_first() =~= payloads);
        assert(encode_all(more) =~= frame(payload) + Seq::<u8>::empty());
        assert(encode_all(more) =~= encode_all(payloads) + frame(payload));
    } else {
        assert(more[0] == payloads[0]);
        assert(more.drop_first() =~= payloads.drop_first().push(payload));
        lemma_encode_all_push(payloads.drop_first(), payload);
        assert(encode_all(more) =~= encode_all(payloads) + frame(payload));
    }
}

/// The payloads that repeated decoding steps hand out of a buffer, in order.
pub open spec fn decode_all(s: Seq<u8>) -> Seq<Seq<u8>>
    decreases s.len(),
    via decode_all_decreases
{
    match split_frame(s) {
        Some((payload, rest)) => seq![payload] + decode_all(rest),
        None => Seq::empty(),
    }
}

#[via_fn]
proof fn decode_all_decreases(s: Seq<u8>) {
    lemma_first_delimiter(s);
}

/// The bytes that stay buffered once no decoding step finds a frame any more.
pub open spec fn leftover(s: Seq<u8>) -> Seq<u8>
    decreases s.len(),
    via leftover_decreases
{
    match split_frame(s) {
        Some((_, rest)) => leftover(rest),
        None => s,
    }
}

#[via_fn]
proof fn leftover_decreases(s: Seq<u8>) {
    lemma_first_delimiter(s);
}

/// A decoding step on a frame followed by anything hands out the frame's
/// payload and keeps what follows, provided the payload holds no delimiter.
pub proof fn lemma_split_frame_of_framed(payload: Seq<u8>, rest: Seq<u8>)
    requires
        !has_delimiter(payload),
    ensures
        split_frame(frame(payload) + rest) == Some((payload, rest)),
{
    let s = frame(payload) + rest;
    let n = payload.len() as int;
    assert(delimiter_at(s, n));
    assert forall|j: int| 0 <= j < n implies !delimiter_at(s, j) by {
        if j + 1 < n {
            assert(s[j] == payload[j] && s[j + 1] == payload[j + 1]);
            assert(!delimiter_at(payload, j));
        } else {
            assert(s[j + 1] == CR);
        }
    }
    lemma_first_delimiter(s);
    assert(first_delimiter(s) == Some(n));
    assert(s.subrange(0, n) =~= payload);
    assert(s.subrange(n + 2, s.len() as int) =~= rest);
}

/// Round trip, with a partial frame behind: decoding what the codec wrote for
/// a sequence of payloads, followed by bytes that hold no delimiter, yields
/// the payloads in order and leaves exactly those bytes buffered. It holds
/// for payloads that do not contain the delimiter themselves.
pub proof fn lemma_round_trip_with_tail(payloads: Seq<Seq<u8>>, tail: Seq<u8>)
    requires
        forall|i: int| 0 <= i < payloads.len() ==> !has_delimiter(#[trigger] payloads[i]),
        !has_delimiter(tail),
    ensures
        decode_all(encode_all(payloads) + tail) == payloads,
        leftover(encode_all(payloads) + tail) == tail,
    decreases payloads.len(),
{
    if payloads.len() == 0 {
        assert(encode_all(payloads) + tail =~= tail);
        lemma_first_delimiter(tail);
        assert(decode_all(tail) =~= payloads);
    } else {
        let head = payloads[0];
        let others = payloads.drop_first();
        let rest = encode_all(others) + tail;
        assert(encode_all(payloads) + tail =~= frame(head) + rest);
        lemma_split_frame_of_framed(head, rest);
        assert forall|i: int| 0 <= i < others.len() implies !has_delimiter(
            #[trigger] others[i],
        ) by {
            assert(others[i] == payloads[i + 1]);
        }
        lemma_round_trip_with_tail(others, tail);
        assert(seq![head] + others =~= payloads);
    }
}

/// Round trip: decoding the concatenation of the frames that the codec wrote
/// for a sequence of payloads yields the payloads in order and leaves nothing
/// buffered. It holds for payloads that do not contain the delimiter, and
/// `Lines::buffer` encodes no others.
pub proof fn lemma_round_trip(payloads: Seq<Seq<u8>>)
    requires
        forall|i: int| 0 <= i < payloads.len() ==> !has_delimiter(#[trigger] payloads[i]),
    ensures
        decode_all(encode_all(payloads)) == payloads,
        leftover(encode_all(payloads)) == Seq::<u8>::empty(),
{
    let tail = Seq::<u8>::empty();
    assert(!has_delimiter(tail));
    lemma_round_trip_with_tail(payloads, tail);
    assert(encode_all(payloads) + tail =~= encode_all(payloads));
}

/// Finds the first delimiter in a slice. The delimiter found lies within the
/// slice, so the index behind it fits in `usize`.
pub fn find_delimiter(bytes: &[u8]) -> (pos: Option<usize>)
    ensures
        match pos {
            Some(p) => first_delimiter(bytes@) == Some(p as int) && p + 2 <= bytes@.len()
                <= usize::MAX,
            None => first_delimiter(bytes@) is None,
        },
{
    let n: usize = bytes.len();
    if n < 2 {
        return None;
    }
    let mut i: usize = 0;
    while i < n - 1
        invariant
            n == bytes@.len(),
            2 <= n,
            i <= n - 1,
            first_delimiter_from(bytes@, i as int) == first_delimiter(bytes@),
        decreases n - i,
    {
        if bytes[i] == CR && bytes[i + 1] == LF {
            return Some(i);
        }
        i += 1;
    }
    None
}

/// What one call of [`Lines::poll`] found.
#[derive(Debug, PartialEq, Eq)]
pub enum Decoded {
    /// One complete payload, without its delimiter.
    Frame(Vec<u8>),
    /// No complete frame is buffered and the stream has ended.
    Closed,
    /// No complete frame is buffered yet; more input may come.
    NotReady,
}

/// The most bytes that either buffer of a codec holds: 256 MiB less one. A
/// frame, with its delimiter, cannot be longer.
pub const MAX_BUFFERED: usize = 0x0fff_ffff;

/// Why the codec refused bytes.
#[derive(Debug, Clone, Copy, PartialEq, Eq, Structural)]
pub enum CodecError {
    /// The buffer would hold more than `MAX_BUFFERED` bytes.
    BufferOverflow,
    /// The payload holds the delimiter: as a frame it would be read back as
    /// two.
    DelimiterInPayload,
}

/// Why a payload cannot be encoded behind `held` bytes that wait to be
/// written, if it cannot: the size is looked at first.
pub open spec fn refusal(held: nat, payload: Seq<u8>) -> Option<CodecError> {
    if held + payload.len() + 2 > MAX_BUFFERED {
        Some(CodecError::BufferOverflow)
    } else if has_delimiter(payload) {
        Some(CodecError::DelimiterInPayload)
    } else {
        None
    }
}

/// The framing codec of one connection: a read buffer of bytes that came in
/// and are not decoded yet, and a write buffer of bytes that are encoded and
/// not written yet.
pub struct Lines {
    rd: BytesMut,
    wr: BytesMut,
}

impl Lines {
    /// The bytes received and not yet decoded.
    pub closed spec fn inbound(&self) -> Seq<u8> {
        contents(self.rd)
    }

    /// The bytes encoded and not yet written.
    pub closed spec fn outbound(&self) -> Seq<u8> {
        contents(self.wr)
    }

    /// Creates a codec with both buffers empty.
    pub fn new() -> (lines: Self)
        ensures
            lines.inbound() == Seq::<u8>::empty(),
            lines.outbound() == Seq::<u8>::empty(),
    {
        Lines { rd: BytesMut::new(), wr: BytesMut::new() }
    }

    /// Encodes one payload: appends it and the delimiter to the write buffer.
    /// A payload that would make the buffer hold more than `MAX_BUFFERED`
    /// bytes, or that holds the delimiter itself, is refused, and nothing
    /// changes.
    pub fn buffer(&mut self, payload: &[u8]) -> (done: Result<(), CodecError>)
        ensures
            final(self).inbound() == old(self).inbound(),
            match refusal(old(self).outbound().len(), payload@) {
                Some(error) => done == Err::<(), CodecError>(error) && final(self).outbound()
                    == old(self).outbound(),
                None => done is Ok && final(self).outbound() == old(self).outbound() + frame(
                    payload@,
                ),
            },
    {
        let held: usize = self.wr.len();
        if payload.len() > MAX_BUFFERED - 2 || held > MAX_BUFFERED - 2 - payload.len() {
            return Err(CodecError::BufferOverflow);
        }
        proof {
            lemma_first_delimiter(payload@);
        }
        if find_delimiter(payload).is_some() {
            return Err(CodecError::DelimiterInPayload);
        }
        let end: [u8; 2] = [CR, LF];
        self.wr.extend_from_slice(payload);
        self.wr.extend_from_slice(end.as_slice());
        proof {
            assert(end@ =~= delimiter());
            assert(old(self).outbound() + payload@ + delimiter() =~= old(self).outbound() + frame(
                payload@,
            ));
        }
        Ok(())
    }

    /// Whether nothing is waiting to be written.
    pub fn is_flushed(&self) -> (flushed: bool)
        ensures
            flushed == (self.outbound().len() == 0),
    {
        self.wr.is_empty()
    }

    /// The bytes waiting to be written, oldest first.
    pub fn pending(&self) -> (bytes: &[u8])
        ensures
            bytes@ == self.outbound(),
    {
        as_slice(&self.wr)
    }

    /// Records that the transport took the first `n` pending bytes.
    pub fn consume_written(&mut self, n: usize)
        requires
            0 < n <= old(self).outbound().len(),
        ensures
            final(self).outbound() == old(self).outbound().subrange(
                n as int,
                old(self).outbound().len() as int,
            ),
            final(self).inbound() == old(self).inbound(),
    {
        let _ = self.wr.split_to(n);
    }

    /// Takes bytes that the transport read into the read buffer. Fails, and
    /// changes nothing, when the buffer would hold more than `MAX_BUFFERED`
    /// bytes.
    pub fn fill_read_buf(&mut self, received: &[u8]) -> (done: Result<(), CodecError>)
        ensures
            final(self).outbound() == old(self).outbound(),
            old(self).inbound().len() + received@.len() <= MAX_BUFFERED ==> done is Ok
                && final(self).inbound() == old(self).inbound() + received@,
            old(self).inbound().len() + received@.len() > MAX_BUFFERED ==> done == Err::<
                (),
                CodecError,
            >(CodecError::BufferOverflow) && final(self).inbound() == old(self).inbound(),
    {
        let held: usize = self.rd.len();
        if received.len() > MAX_BUFFERED || held > MAX_BUFFERED - received.len() {
            return Err(CodecError::BufferOverflow);
        }
        self.rd.extend_from_slice(received);
        Ok(())
    }

    /// One decoding step. Where the read buffer holds a delimiter, the payload
    /// before the first one is handed out and the bytes after it stay
    /// buffered. Where it holds none, the buffer stays as it is and the answer
    /// tells whether the stream has ended.
    pub fn poll(&mut self, sock_closed: bool) -> (found: Decoded)
        ensures
            final(self).outbound() == old(self).outbound(),
            match split_frame(old(self).inbound()) {
                Some((payload, rest)) => {
                    &&& found matches Decoded::Frame(line)
                    &&& line@ == payload
                    &&& final(self).inbound() == rest
                },
                None => {
                    &&& final(self).inbound() == old(self).inbound()
                    &&& sock_closed ==> found == Decoded::Closed
                    &&& !sock_closed ==> found == Decoded::NotReady
                },
            },
    {
        let pos = find_delimiter(as_slice(&self.rd));
        match pos {
            Some(pos) => {
                proof {
                    lemma_first_delimiter(self.inbound());
                    assert(delimiter_at(self.inbound(), pos as int));
                }
                let mut line = self.rd.split_to(pos + 2);
                let _ = line.split_off(pos);
                let payload = vstd::slice::slice_to_vec(as_slice(&line));
                proof {
                    let s = old(self).inbound();
                    assert(contents(line) =~= s.subrange(0, pos as int));
                }
                Decoded::Frame(payload)
            },
            None => {
                if sock_closed {
                    Decoded::Closed
                } else {
                    Decoded::NotReady
                }
            },
        }
    }
}

} // verus!
