//! The registry of connected peers.
//!
//! Each live connection is known by its identity and holds the receiving end
//! of an outbound queue; the registry holds the sending end. The registry is
//! a plain value: whoever shares it between tasks guards it with a lock.

use crate::sync::message::Server;
use futures::sync::mpsc::{UnboundedReceiver, UnboundedSender};
use vstd::prelude::*;

verus! {

#[verifier::external_type_specification]
#[verifier::external_body]
#[verifier::reject_recursive_types(T)]
pub struct ExUnboundedSender<T>(futures::sync::mpsc::UnboundedSender<T>);

#[verifier::external_type_specification]
#[verifier::external_body]
#[verifier::reject_recursive_types(T)]
pub struct ExUnboundedReceiver<T>(futures::sync::mpsc::UnboundedReceiver<T>);

/// Whether a sending end and a receiving end belong to one queue, so that
/// what is put in at the one comes out at the other.
pub uninterp spec fn feeds(tx: UnboundedSender<Server>, rx: UnboundedReceiver<Server>) -> bool;

/// `futures::sync::mpsc::unbounded`: a new queue without a bound, as its two
/// ends. The two ends that it hands out hold the same inner queue: that, and
/// no more, is claimed of them.
#[verifier::external_body]
fn outbound_queue() -> (ends: (UnboundedSender<Server>, UnboundedReceiver<Server>))
    ensures
        feeds(ends.0, ends.1),
{
    futures::sync::mpsc::unbounded()
}

/// `UnboundedSender::unbounded_send`: puts the message on the queue; tells
/// whether the queue took it, which it does unless its receiving end is gone.
/// Nothing is claimed of the answer: the receiving end lives elsewhere. The
/// outside function panics once the queue holds half of `usize::MAX`
/// messages, which no memory holds.
#[verifier::external_body]
fn enqueue(tx: &UnboundedSender<Server>, message: Server) -> (taken: bool) {
    tx.unbounded_send(message).is_ok()
}

/// What became of a message for one registered peer.
#[derive(Debug, Clone, Copy, PartialEq, Eq, Structural)]
pub enum Outcome {
    /// The peer was left out on purpose: nothing was sent.
    Excluded,
    /// The peer's queue took the message.
    Delivered,
    /// The peer is departing, its queue is closed: the message was dropped.
    Dropped,
    /// No peer is registered under the identity: nothing was sent.
    Unknown,
}

/// What a queue's answer to a message means: the queue took it, or it is
/// closed and the message was dropped.
pub open spec fn outcome_for(taken: bool) -> Outcome {
    if taken {
        Outcome::Delivered
    } else {
        Outcome::Dropped
    }
}

/// Tells what became of a message from what its queue answered.
pub fn outcome_of(taken: bool) -> (outcome: Outcome)
    ensures
        outcome == outcome_for(taken),
{
    if taken {
        Outcome::Delivered
    } else {
        Outcome::Dropped
    }
}

/// One line of a broadcast's report.
#[derive(Debug, Clone, Copy, PartialEq, Eq, Structural)]
pub struct Receipt {
    /// The peer's identity.
    pub addr: u64,
    /// What became of the message for that peer.
    pub outcome: Outcome,
}

/// Whether `report` is what a broadcast to `peers` that leaves out
/// `excluded` reports: one line for each peer, in order, that marks exactly
/// the excluded identity as such and tells of every other whether its queue
/// took the message.
pub open spec fn is_report(peers: Seq<u64>, excluded: u64, report: Seq<Receipt>) -> bool {
    &&& report.len() == peers.len()
    &&& forall|j: int|
        0 <= j < report.len() ==> {
            &&& (#[trigger] report[j]).addr == peers[j]
            &&& (report[j].addr == excluded <==> report[j].outcome == Outcome::Excluded)
            &&& report[j].outcome != Outcome::Unknown
        }
}

/// What a broadcast did: the message, who was left out, and what became of
/// the message peer by peer.
#[derive(Debug, PartialEq, Eq)]
pub struct Broadcast {
    /// The message that was handed to the queues.
    pub message: Server,
    /// The identity that was left out.
    pub excluded: u64,
    /// What became of the message, peer by peer.
    pub report: Vec<Receipt>,
}

/// Whether `sent` is what a broadcast of `message` to `peers` that leaves
/// out `excluded` hands back.
pub open spec fn is_broadcast(
    peers: Seq<u64>,
    message: Server,
    excluded: u64,
    sent: Broadcast,
) -> bool {
    sent.message == message && sent.excluded == excluded && is_report(
        peers,
        excluded,
        sent.report@,
    )
}

/// The identities to which a report says a message was sent.
pub open spec fn targeted(report: Seq<Receipt>) -> Set<u64> {
    Set::new(
        |addr: u64|
            exists|j: int|
                0 <= j < report.len() && #[trigger] report[j].addr == addr && report[j].outcome
                    != Outcome::Excluded,
    )
}

/// Taking one entry out of a sequence takes nothing else out of its set,
/// brings nothing in, and makes nothing occur twice.
proof fn lemma_remove_entry(s: Seq<u64>, i: int)
    requires
        0 <= i < s.len(),
    ensures
        s.remove(i).to_set().remove(s[i]) == s.to_set().remove(s[i]),
        forall|a: u64| s.remove(i).to_set().contains(a) ==> s.to_set().contains(a),
        s.no_duplicates() ==> s.remove(i).no_duplicates(),
{
    let r = s.remove(i);
    assert forall|a: u64| r.to_set().contains(a) implies s.to_set().contains(a) by {
        let j = choose|j: int| 0 <= j < r.len() && r[j] == a;
        if j < i {
            assert(s[j] == a);
        } else {
            assert(s[j + 1] == a);
        }
    }
    assert forall|a: u64| s.to_set().remove(s[i]).contains(a) implies r.to_set().remove(
        s[i],
    ).contains(a) by {
        let j = choose|j: int| 0 <= j < s.len() && s[j] == a;
        if j < i {
            assert(r[j] == a);
        } else {
            assert(r[j - 1] == a);
        }
    }
    assert(r.to_set().remove(s[i]) =~= s.to_set().remove(s[i]));
}

/// The test that keeps every entry but those of one identity.
pub open spec fn others(addr: u64) -> spec_fn((u64, UnboundedSender<Server>)) -> bool {
    |link: (u64, UnboundedSender<Server>)| link.0 != addr
}

/// The test that keeps every identity but one.
pub open spec fn apart(addr: u64) -> spec_fn(u64) -> bool {
    |other: u64| other != addr
}

/// The identities of the entries, in their order.
pub open spec fn ids(links: Seq<(u64, UnboundedSender<Server>)>) -> Seq<u64> {
    links.map_values(|link: (u64, UnboundedSender<Server>)| link.0)
}

/// The sending end that the entries keep for an identity: that of the first
/// entry for it, if there is one.
pub open spec fn sender_in(links: Seq<(u64, UnboundedSender<Server>)>, addr: u64) -> Option<
    UnboundedSender<Server>,
>
    decreases links.len(),
{
    if links.len() == 0 {
        None
    } else if links[0].0 == addr {
        Some(links[0].1)
    } else {
        sender_in(links.drop_first(), addr)
    }
}

/// The entries keep a sending end for exactly the identities that occur in
/// them.
pub proof fn lemma_sender_in_occurs(links: Seq<(u64, UnboundedSender<Server>)>, addr: u64)
    ensures
        sender_in(links, addr) is Some <==> ids(links).contains(addr),
    decreases links.len(),
{
    if links.len() == 0 {
    } else if links[0].0 == addr {
        assert(ids(links)[0] == addr);
    } else {
        let rest = links.drop_first();
        lemma_sender_in_occurs(rest, addr);
        if ids(rest).contains(addr) {
            let j = choose|j: int| 0 <= j < ids(rest).len() && ids(rest)[j] == addr;
            assert(ids(links)[j + 1] == addr);
        }
        if ids(links).contains(addr) {
            let j = choose|j: int| 0 <= j < ids(links).len() && ids(links)[j] == addr;
            assert(ids(rest)[j - 1] == addr);
        }
    }
}

/// An entry added behind the others gives its identity a sending end only
/// where it had none, and changes that of no other identity.
pub proof fn lemma_sender_in_push(
    links: Seq<(u64, UnboundedSender<Server>)>,
    link: (u64, UnboundedSender<Server>),
    other: u64,
)
    ensures
        sender_in(links.push(link), other) == (if sender_in(links, other) is Some {
            sender_in(links, other)
        } else if other == link.0 {
            Some(link.1)
        } else {
            None
        }),
    decreases links.len(),
{
    let pushed = links.push(link);
    if links.len() == 0 {
        assert(pushed.drop_first() =~= links);
    } else {
        assert(pushed[0] == links[0]);
        assert(pushed.drop_first() =~= links.drop_first().push(link));
        lemma_sender_in_push(links.drop_first(), link, other);
    }
}

/// Without the entries of one identity, that identity has no sending end and
/// every other keeps its own.
pub proof fn lemma_sender_in_others(
    links: Seq<(u64, UnboundedSender<Server>)>,
    addr: u64,
    other: u64,
)
    ensures
        sender_in(links.filter(others(addr)), other) == (if other == addr {
            None
        } else {
            sender_in(links, other)
        }),
    decreases links.len(),
{
    if links.len() == 0 {
        links.lemma_filter_len(others(addr));
    } else {
        let front = links.drop_last();
        let last = links.last();
        assert(links =~= front.push(last));
        front.lemma_filter_push(last, others(addr));
        lemma_sender_in_others(front, addr, other);
        lemma_sender_in_push(front, last, other);
        lemma_sender_in_push(front.filter(others(addr)), last, other);
    }
}

/// The identities of the entries without those of one identity are the
/// identities without that one, in the same order.
pub proof fn lemma_ids_of_others(links: Seq<(u64, UnboundedSender<Server>)>, addr: u64)
    ensures
        ids(links.filter(others(addr))) == ids(links).filter(apart(addr)),
    decreases links.len(),
{
    if links.len() == 0 {
        links.lemma_filter_len(others(addr));
        ids(links).lemma_filter_len(apart(addr));
        assert(ids(links.filter(others(addr))) =~= ids(links).filter(apart(addr)));
    } else {
        let front = links.drop_last();
        let last = links.last();
        assert(links =~= front.push(last));
        assert(ids(links) =~= ids(front).push(last.0));
        front.lemma_filter_push(last, others(addr));
        ids(front).lemma_filter_push(last.0, apart(addr));
        lemma_ids_of_others(front, addr);
        assert(ids(front.filter(others(addr)).push(last)) =~= ids(
            front.filter(others(addr)),
        ).push(last.0));
    }
}

/// The shared state: who is connected, and how to reach each of them.
pub struct State {
    peers: Vec<(u64, UnboundedSender<Server>)>,
}

impl State {
    /// The entries of the registry, in the order in which a broadcast visits
    /// them: each an identity and the sending end of its outbound queue.
    pub closed spec fn links(&self) -> Seq<(u64, UnboundedSender<Server>)> {
        self.peers@
    }

    /// The registered identities, in the order in which a broadcast visits
    /// them.
    pub open spec fn peers(&self) -> Seq<u64> {
        ids(self.links())
    }

    /// The sending end kept for an identity, if it is registered.
    pub open spec fn sender_of(&self, addr: u64) -> Option<UnboundedSender<Server>> {
        sender_in(self.links(), addr)
    }

    /// No identity is registered twice. It holds of a new registry, and
    /// `register` and `remove` keep it.
    pub open spec fn wf(&self) -> bool {
        self.peers().no_duplicates()
    }

    /// The set of registered identities.
    pub open spec fn view(&self) -> Set<u64> {
        self.peers().to_set()
    }

    /// Creates a registry without peers.
    pub fn new() -> (state: Self)
        ensures
            state.wf(),
            state@ == Set::<u64>::empty(),
            state.peers() == Seq::<u64>::empty(),
            state.links() == Seq::<(u64, UnboundedSender<Server>)>::empty(),
    {
        let state = State { peers: Vec::new() };
        proof {
            assert(state.peers() =~= Seq::<u64>::empty());
            assert(state@ =~= Set::<u64>::empty());
        }
        state
    }

    /// The number of registered peers.
    pub fn len(&self) -> (n: usize)
        ensures
            n == self.peers().len(),
    {
        self.peers.len()
    }

    fn position(&self, addr: u64) -> (idx: Option<usize>)
        ensures
            match idx {
                Some(i) => i < self.peers().len() && self.peers()[i as int] == addr
                    && self.sender_of(addr) == Some(self.links()[i as int].1),
                None => !self.peers().contains(addr) && self.sender_of(addr) is None,
            },
    {
        let mut i: usize = 0;
        proof {
            assert(self.links().skip(0) =~= self.links());
        }
        while i < self.peers.len()
            invariant
                i <= self.peers@.len(),
                forall|j: int| 0 <= j < i ==> self.peers()[j] != addr,
                sender_in(self.links().skip(i as int), addr) == self.sender_of(addr),
            decreases self.peers@.len() - i,
        {
            proof {
                let rest = self.links().skip(i as int);
                assert(rest[0] == self.links()[i as int]);
                assert(rest.drop_first() =~= self.links().skip(i as int + 1));
                assert(self.peers()[i as int] == self.links()[i as int].0);
            }
            if self.peers[i].0 == addr {
                return Some(i);
            }
            i += 1;
        }
        None
    }

    /// Whether a peer is registered under the identity.
    pub fn contains(&self, addr: u64) -> (found: bool)
        ensures
            found == self@.contains(addr),
    {
        self.position(addr).is_some()
    }

    /// Registers a peer: makes a new outbound queue, keeps its sending end
    /// under the identity, behind all other entries, and hands out its
    /// receiving end. An entry that was there under the same identity is
    /// replaced. No other entry changes.
    pub fn register(&mut self, addr: u64) -> (rx: UnboundedReceiver<Server>)
        ensures
            final(self).links().len() > 0,
            final(self).links() == old(self).links().filter(others(addr)).push(
                final(self).links().last(),
            ),
            final(self).links().last().0 == addr,
            feeds(final(self).links().last().1, rx),
            final(self).sender_of(addr) == Some(final(self).links().last().1),
            forall|other: u64|
                other != addr ==> final(self).sender_of(other) == old(self).sender_of(other),
            final(self).peers() == old(self).peers().filter(apart(addr)).push(addr),
            !old(self)@.contains(addr) ==> final(self).links().drop_last() == old(self).links(),
            final(self)@ == old(self)@.insert(addr),
            old(self).wf() ==> final(self).wf(),
    {
        let _ = self.remove(addr);
        let (tx, rx) = outbound_queue();
        let ghost before = self.peers();
        let ghost kept = self.links();
        self.peers.push((addr, tx));
        proof {
            assert(self.links() =~= kept.push((addr, tx)));
            assert(self.peers() =~= before.push(addr));
            assert(before.to_set() == old(self)@.remove(addr));
            assert(!before.to_set().contains(addr));
            assert(!before.contains(addr));
            before.lemma_push_to_set_commute(addr);
            assert(self@ =~= old(self)@.insert(addr));
            lemma_ids_of_others(old(self).links(), addr);
            assert forall|other: u64| true implies #[trigger] self.sender_of(other) == (if other
                == addr {
                Some(tx)
            } else {
                old(self).sender_of(other)
            }) by {
                lemma_sender_in_push(kept, (addr, tx), other);
                lemma_sender_in_others(old(self).links(), addr, other);
            }
            assert(self.sender_of(addr) == Some(tx));
            assert(self.links().drop_last() =~= kept);
        }
        rx
    }

    /// Removes the peer registered under the identity, if there is one, and
    /// tells whether there was. No other entry changes, and the others keep
    /// their order.
    pub fn remove(&mut self, addr: u64) -> (removed: bool)
        ensures
            final(self).links() == old(self).links().filter(others(addr)),
            final(self).sender_of(addr) is None,
            forall|other: u64|
                other != addr ==> final(self).sender_of(other) == old(self).sender_of(other),
            final(self).peers() == old(self).peers().filter(apart(addr)),
            !old(self)@.contains(addr) ==> final(self).links() == old(self).links(),
            old(self).links().len() > 0 && old(self).links().last().0 == addr && !ids(
                old(self).links().drop_last(),
            ).contains(addr) ==> final(self).links() == old(self).links().drop_last(),
            final(self)@ == old(self)@.remove(addr),
            removed == old(self)@.contains(addr),
            old(self).wf() ==> final(self).wf(),
    {
        let mut removed = false;
        let mut i: usize = 0;
        let ghost mut seen: int = 0;
        proof {
            old(self).links().take(0).lemma_filter_len(others(addr));
            assert(old(self).links().take(0).filter(others(addr)) + old(self).links().skip(0)
                =~= old(self).links());
        }
        while i < self.peers.len()
            invariant
                i <= self.peers@.len(),
                0 <= seen <= old(self).links().len(),
                i == old(self).links().take(seen).filter(others(addr)).len(),
                self.links() == old(self).links().take(seen).filter(others(addr)) + old(
                    self,
                ).links().skip(seen),
                forall|j: int| 0 <= j < i ==> self.peers()[j] != addr,
                self@.remove(addr) == old(self)@.remove(addr),
                self@.contains(addr) ==> old(self)@.contains(addr),
                removed ==> old(self)@.contains(addr),
                !removed ==> self.peers() == old(self).peers(),
                old(self).wf() ==> self.wf(),
            decreases self.peers@.len() - i,
        {
            let ghost before = self.peers();
            let ghost held = self.links();
            let ghost front = old(self).links().take(seen);
            proof {
                assert(seen < old(self).links().len());
                assert(held[i as int] == old(self).links()[seen]);
                assert(old(self).links().take(seen + 1) =~= front.push(old(self).links()[seen]));
                front.lemma_filter_push(old(self).links()[seen], others(addr));
                assert(before[i as int] == held[i as int].0);
            }
            if self.peers[i].0 == addr {
                let _ = self.peers.remove(i);
                removed = true;
                proof {
                    assert(self.links() =~= held.remove(i as int));
                    assert(self.peers() =~= before.remove(i as int));
                    assert(before.to_set().contains(before[i as int]));
                    lemma_remove_entry(before, i as int);
                    assert(self.links() =~= front.filter(others(addr)) + old(self).links().skip(
                        seen + 1,
                    ));
                    seen = seen + 1;
                }
            } else {
                i += 1;
                proof {
                    assert(self.links() =~= front.filter(others(addr)).push(
                        old(self).links()[seen],
                    ) + old(self).links().skip(seen + 1));
                    seen = seen + 1;
                }
            }
        }
        proof {
            assert(!self.peers().contains(addr));
            assert(self@ =~= self@.remove(addr));
            assert(seen == old(self).links().len());
            assert(old(self).links().take(seen) =~= old(self).links());
            assert(self.links() =~= old(self).links().filter(others(addr)));
            lemma_ids_of_others(old(self).links(), addr);
            assert forall|other: u64| true implies #[trigger] self.sender_of(other) == (if other
                == addr {
                None
            } else {
                old(self).sender_of(other)
            }) by {
                lemma_sender_in_others(old(self).links(), addr, other);
            }
            assert(self.sender_of(addr) is None);
            if !old(self)@.contains(addr) {
                assert(!ids(old(self).links()).contains(addr));
                lemma_others_of_stranger(old(self).links(), addr);
            }
            if old(self).links().len() > 0 && old(self).links().last().0 == addr && !ids(
                old(self).links().drop_last(),
            ).contains(addr) {
                let front = old(self).links().drop_last();
                assert(old(self).links() =~= front.push(old(self).links().last()));
                front.lemma_filter_push(old(self).links().last(), others(addr));
                lemma_others_of_stranger(front, addr);
            }
        }
        removed
    }

    /// Sends a message to one peer's own queue: on the sending end kept for
    /// the identity, if it is registered.
    pub fn send_to(&self, addr: u64, message: Server) -> (outcome: Outcome)
        ensures
            !self@.contains(addr) ==> outcome == Outcome::Unknown,
            self@.contains(addr) ==> outcome == Outcome::Delivered || outcome == Outcome::Dropped,
    {
        match self.position(addr) {
            Some(i) => outcome_of(enqueue(&self.peers[i].1, message)),
            None => Outcome::Unknown,
        }
    }

    /// Sends a copy of the message to every registered peer but the excluded
    /// one, and hands back the message, the excluded identity and a report.
    /// The report has one line for each registered peer, in the order of
    /// `peers()`: `Excluded` for the excluded identity, and for every other
    /// whether its queue took the message or was closed already. A closed
    /// queue stops nothing.
    pub fn broadcast_except(&self, message: Server, excluded: u64) -> (sent: Broadcast)
        ensures
            is_broadcast(self.peers(), message, excluded, sent),
    {
        let mut report: Vec<Receipt> = Vec::new();
        let mut i: usize = 0;
        while i < self.peers.len()
            invariant
                i <= self.peers@.len(),
                report@.len() == i,
                forall|j: int|
                    0 <= j < i ==> {
                        &&& (#[trigger] report@[j]).addr == self.peers()[j]
                        &&& (report@[j].addr == excluded <==> report@[j].outcome
                            == Outcome::Excluded)
                        &&& report@[j].outcome != Outcome::Unknown
                    },
            decreases self.peers@.len() - i,
        {
            let addr: u64 = self.peers[i].0;
            let outcome = if addr == excluded {
                Outcome::Excluded
            } else {
                outcome_of(enqueue(&self.peers[i].1, message))
            };
            report.push(Receipt { addr, outcome });
            i += 1;
        }
        Broadcast { message, excluded, report }
    }
}

/// A broadcast targets every registered identity other than the excluded
/// one, and no one else: the identities that its report says were sent to
/// are the registered ones without the excluded one.
pub proof fn lemma_broadcast_targets(state: State, excluded: u64, report: Seq<Receipt>)
    requires
        is_report(state.peers(), excluded, report),
    ensures
        targeted(report) == state@.remove(excluded),
{
    assert forall|a: u64| targeted(report).contains(a) <==> state@.remove(excluded).contains(
        a,
    ) by {
        if targeted(report).contains(a) {
            let j = choose|j: int|
                0 <= j < report.len() && #[trigger] report[j].addr == a && report[j].outcome
                    != Outcome::Excluded;
            assert(state.peers()[j] == a);
        }
        if state@.remove(excluded).contains(a) {
            let j = choose|j: int| 0 <= j < state.peers().len() && state.peers()[j] == a;
            assert(report[j].addr == a);
        }
    }
    assert(targeted(report) =~= state@.remove(excluded));
}

/// Entries that hold nothing of an identity stay as they are where that
/// identity's entries are taken out.
pub proof fn lemma_others_of_stranger(links: Seq<(u64, UnboundedSender<Server>)>, addr: u64)
    requires
        !ids(links).contains(addr),
    ensures
        links.filter(others(addr)) == links,
    decreases links.len(),
{
    if links.len() == 0 {
        links.lemma_filter_len(others(addr));
        assert(links.filter(others(addr)) =~= links);
    } else {
        let front = links.drop_last();
        let last = links.last();
        assert(links =~= front.push(last));
        assert(ids(links)[links.len() - 1] == last.0);
        assert forall|j: int| 0 <= j < ids(front).len() implies ids(front)[j] != addr by {
            assert(ids(links)[j] == ids(front)[j]);
        }
        front.lemma_filter_push(last, others(addr));
        lemma_others_of_stranger(front, addr);
    }
}

/// Registering an identity and removing it at once leaves the registry
/// without it and every other identity with the sending end it had, and
/// removing it once more changes nothing. Where the identity was not
/// registered before, the registry is again what it was, entry by entry.
pub proof fn lemma_register_then_remove(
    before: State,
    registered: State,
    removed: State,
    again: State,
    addr: u64,
)
    requires
        registered.links().len() > 0,
        registered.links().last().0 == addr,
        registered.links() == before.links().filter(others(addr)).push(registered.links().last()),
        removed.links() == registered.links().filter(others(addr)),
        again.links() == removed.links().filter(others(addr)),
    ensures
        !removed@.contains(addr),
        removed.sender_of(addr) is None,
        forall|other: u64| other != addr ==> removed.sender_of(other) == before.sender_of(other),
        removed.links() == before.links().filter(others(addr)),
        !before@.contains(addr) ==> removed.links() == before.links(),
        again.links() == removed.links(),
        again@ == removed@,
{
    let kept = before.links().filter(others(addr));
    kept.lemma_filter_push(registered.links().last(), others(addr));
    assert forall|other: u64| true implies #[trigger] sender_in(kept, other) == (if other == addr {
        None
    } else {
        before.sender_of(other)
    }) by {
        lemma_sender_in_others(before.links(), addr, other);
    }
    lemma_sender_in_occurs(kept, addr);
    assert(!ids(kept).contains(addr));
    lemma_others_of_stranger(kept, addr);
    assert(removed.links() == kept);
    if !before@.contains(addr) {
        assert(!ids(before.links()).contains(addr));
        lemma_others_of_stranger(before.links(), addr);
    }
}

/// After a peer is removed, a broadcast never targets it: whatever identity
/// is excluded, the departed one is not among those sent to.
pub proof fn lemma_departed_not_targeted(
    before: State,
    after: State,
    departed: u64,
    excluded: u64,
    report: Seq<Receipt>,
)
    requires
        after@ == before@.remove(departed),
        is_report(after.peers(), excluded, report),
    ensures
        !targeted(report).contains(departed),
{
    lemma_broadcast_targets(after, excluded, report);
}

} // verus!
