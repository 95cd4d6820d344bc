//! The relay as a whole: the acceptor, the ingestion loops, the event
//! channel and the dispatcher, as one state machine over mathematical
//! values, and what holds in every state that it can reach.
//!
//! Each step is made of the functions that the contracts of
//! `register_connection`, `Ingestion::step` and `dispatch` are stated with,
//! so what is proved here of the steps holds of those functions, run in any
//! interleaving that passes every event through one channel.

use vstd::prelude::*;
use crate::addr::PeerAddr;
use crate::dispatch::{recipients_of, registry_after};
use crate::event::EventView;
use crate::ingest::{ingest_start, ingest_step, IngestionView, LineReadView};
use crate::roster::{lemma_others_members, lemma_others_no_duplicates, with_addr};

verus! {

/// An event in the channel, with the connection whose loop sent it.
/// Connections are numbered in the order of their admission, from zero.
pub struct Envelope {
    pub from: int,
    pub event: EventView,
}

/// One line handed out by the dispatcher: the peer it goes to, and the
/// number of the event that caused it, counted in the order in which the
/// dispatcher received the events.
pub struct Sent {
    pub to: PeerAddr,
    pub event: nat,
}

/// The state of the relay.
pub struct Relay {
    /// The registered addresses, in the order of admission.
    pub registry: Seq<PeerAddr>,
    /// The address under which each connection was registered.
    pub admissions: Seq<PeerAddr>,
    /// The state of each connection's ingestion loop.
    pub loops: Seq<IngestionView>,
    /// The events sent and not yet applied, oldest first.
    pub channel: Seq<Envelope>,
    /// The number of events that the dispatcher has applied.
    pub applied: nat,
    /// The lines that the dispatcher has handed out, oldest first.
    pub log: Seq<Sent>,
}

/// What can happen next.
pub enum Step {
    /// The acceptor registers a new connection from `address` and starts its
    /// ingestion loop.
    Admission { address: PeerAddr },
    /// The ingestion loop of `connection` takes in one read.
    Ingest { connection: int, read: LineReadView },
    /// The dispatcher applies the oldest event in the channel.
    Dispatch,
}

/// Where a connection stands in its life.
pub enum ConnectionState {
    /// Accepted, not yet registered.
    Connecting,
    /// In the registry; its display name is not known yet.
    Registered,
    /// In the registry; its display name has been received.
    Active,
    /// Taken out of the registry.
    Disconnected,
}

/// One line to each peer of `to`, all caused by event number `event`.
pub open spec fn lines_for(to: Seq<PeerAddr>, event: nat) -> Seq<Sent> {
    Seq::new(to.len(), |i: int| Sent { to: to[i], event })
}

impl Relay {
    /// The relay before anything has happened.
    pub open spec fn init() -> Relay {
        Relay {
            registry: Seq::empty(),
            admissions: Seq::empty(),
            loops: Seq::empty(),
            channel: Seq::empty(),
            applied: 0,
            log: Seq::empty(),
        }
    }

    /// Whether `step` can be taken: a loop must exist to read, and the
    /// channel must hold an event to dispatch.
    pub open spec fn enabled(self, step: Step) -> bool {
        match step {
            Step::Admission { .. } => true,
            Step::Ingest { connection, .. } => 0 <= connection < self.loops.len(),
            Step::Dispatch => self.channel.len() > 0,
        }
    }

    /// The state after `step`. A step that cannot be taken changes nothing.
    pub open spec fn next(self, step: Step) -> Relay {
        if !self.enabled(step) {
            self
        } else {
            match step {
                Step::Admission { address } => Relay {
                    registry: with_addr(self.registry, address),
                    admissions: self.admissions.push(address),
                    loops: self.loops.push(ingest_start(address)),
                    ..self
                },
                Step::Ingest { connection, read } => {
                    let (state, sent) = ingest_step(self.loops[connection], read);
                    Relay {
                        loops: self.loops.update(connection, state),
                        channel: match sent {
                            Some(event) => self.channel.push(Envelope { from: connection, event }),
                            None => self.channel,
                        },
                        ..self
                    }
                },
                Step::Dispatch => {
                    let event = self.channel[0].event;
                    Relay {
                        registry: registry_after(self.registry, event),
                        channel: self.channel.drop_first(),
                        applied: self.applied + 1,
                        log: self.log + lines_for(recipients_of(self.registry, event), self.applied),
                        ..self
                    }
                },
            }
        }
    }

    /// The state that `steps` lead to from the start.
    pub open spec fn after(steps: Seq<Step>) -> Relay
        decreases steps.len(),
    {
        if steps.len() == 0 {
            Relay::init()
        } else {
            Relay::after(steps.drop_last()).next(steps.last())
        }
    }

    /// Where `connection` stands in its life, provided that no other
    /// connection has used its address.
    pub open spec fn state_of(self, connection: int) -> ConnectionState {
        if connection >= self.admissions.len() {
            ConnectionState::Connecting
        } else if !self.registry.contains(self.admissions[connection]) {
            ConnectionState::Disconnected
        } else if self.loops[connection].name is None {
            ConnectionState::Registered
        } else {
            ConnectionState::Active
        }
    }

    /// Whether the event at place `i` of the channel is the disconnect of
    /// `connection`.
    pub open spec fn pending_disconnect(self, connection: int, i: int) -> bool {
        &&& 0 <= i < self.channel.len()
        &&& self.channel[i].from == connection
        &&& self.channel[i].event is Disconnect
    }

    /// Every loop belongs to an admission and carries its address.
    pub open spec fn loops_follow_admissions(self) -> bool {
        &&& self.loops.len() == self.admissions.len()
        &&& forall|c: int|
            0 <= c < self.loops.len() ==> (#[trigger] self.loops[c]).address == self.admissions[c]
    }

    /// Every event in the channel comes from a connection whose admission
    /// has been made, and carries that connection's address.
    pub open spec fn channel_follows_admissions(self) -> bool {
        forall|i: int|
            0 <= i < self.channel.len() ==> {
                &&& 0 <= (#[trigger] self.channel[i]).from < self.admissions.len()
                &&& self.channel[i].event.origin() == self.admissions[self.channel[i].from]
            }
    }

    /// The log holds the lines of applied events only, in the order of the
    /// events.
    pub open spec fn log_in_order(self) -> bool {
        &&& forall|p: int| 0 <= p < self.log.len() ==> (#[trigger] self.log[p]).event < self.applied
        &&& forall|p: int, q: int|
            0 <= p <= q < self.log.len() ==> (#[trigger] self.log[p]).event <= (
            #[trigger] self.log[q]).event
    }

    /// No address is registered twice, and every registered address was
    /// registered by an admission.
    pub open spec fn registry_follows_admissions(self) -> bool {
        &&& self.registry.no_duplicates()
        &&& forall|a: PeerAddr| #[trigger]
            self.registry.contains(a) ==> self.admissions.contains(a)
    }

    /// The life of `connection`: until its loop ends it is registered and has
    /// no disconnect under way; from then on it is registered exactly as long
    /// as its one disconnect waits in the channel.
    pub open spec fn settled(self, connection: int) -> bool {
        let address = self.admissions[connection];
        if !self.loops[connection].finished {
            &&& self.registry.contains(address)
            &&& forall|i: int| !self.pending_disconnect(connection, i)
        } else {
            &&& self.registry.contains(address) <==> exists|i: int|
                self.pending_disconnect(connection, i)
            &&& forall|i: int, j: int|
                self.pending_disconnect(connection, i) && self.pending_disconnect(connection, j)
                    ==> i == j
        }
    }

    /// While no address has been used by two connections, every connection
    /// is settled.
    pub open spec fn connections_settled(self) -> bool {
        self.admissions.no_duplicates() ==> forall|c: int|
            0 <= c < self.admissions.len() ==> #[trigger] self.settled(c)
    }

    /// What holds in every state that the relay can reach.
    pub open spec fn inv(self) -> bool {
        &&& self.loops_follow_admissions()
        &&& self.channel_follows_admissions()
        &&& self.log_in_order()
        &&& self.registry_follows_admissions()
        &&& self.connections_settled()
    }
}

/// The start satisfies the invariant.
pub proof fn lemma_init_inv()
    ensures
        Relay::init().inv(),
{
}

/// An admission keeps the invariant.
proof fn lemma_admission_inv(s: Relay, address: PeerAddr)
    requires
        s.inv(),
    ensures
        s.next(Step::Admission { address }).inv(),
{
    let t = s.next(Step::Admission { address });
    let n = s.admissions.len() as int;
    assert(t.admissions[n] == address);
    assert(t.loops_follow_admissions());
    assert(t.channel_follows_admissions()) by {
        assert forall|i: int| 0 <= i < t.channel.len() implies {
            &&& 0 <= (#[trigger] t.channel[i]).from < t.admissions.len()
            &&& t.channel[i].event.origin() == t.admissions[t.channel[i].from]
        } by {
            assert(s.channel[i] == t.channel[i]);
        }
    }
    assert(t.registry_follows_admissions()) by {
        assert forall|a: PeerAddr| #[trigger] t.registry.contains(a) implies t.admissions.contains(
            a,
        ) by {
            if a == address {
                assert(t.admissions[n] == a);
            } else {
                if !s.registry.contains(address) {
                    let k = choose|k: int| 0 <= k < t.registry.len() && t.registry[k] == a;
                    assert(s.registry[k] == a);
                }
                assert(s.registry.contains(a));
                let k = choose|k: int| 0 <= k < s.admissions.len() && s.admissions[k] == a;
                assert(t.admissions[k] == a);
            }
        }
    }
    if t.admissions.no_duplicates() {
        assert(s.admissions.no_duplicates()) by {
            assert forall|i: int, j: int|
                0 <= i < s.admissions.len() && 0 <= j < s.admissions.len() && i != j implies s.admissions[i]
                != s.admissions[j] by {
                assert(t.admissions[i] == s.admissions[i]);
                assert(t.admissions[j] == s.admissions[j]);
            }
        }
        assert(!s.admissions.contains(address)) by {
            if s.admissions.contains(address) {
                let k = choose|k: int| 0 <= k < s.admissions.len() && s.admissions[k] == address;
                assert(t.admissions[k] == t.admissions[n]);
            }
        }
        assert(!s.registry.contains(address));
        assert(t.registry == s.registry.push(address));
        assert(t.registry[s.registry.len() as int] == address);
        assert forall|c: int| 0 <= c < t.admissions.len() implies #[trigger] t.settled(c) by {
            if c < n {
                assert(s.settled(c));
                let a = s.admissions[c];
                assert(t.admissions[c] == a);
                assert(t.loops[c] == s.loops[c]);
                assert(s.registry.contains(a) ==> t.registry.contains(a)) by {
                    if s.registry.contains(a) {
                        let k = choose|k: int| 0 <= k < s.registry.len() && s.registry[k] == a;
                        assert(t.registry[k] == a);
                    }
                }
                assert(t.registry.contains(a) ==> s.registry.contains(a)) by {
                    if t.registry.contains(a) {
                        let k = choose|k: int| 0 <= k < t.registry.len() && t.registry[k] == a;
                        assert(a != address);
                        assert(s.registry[k] == a);
                    }
                }
                assert(forall|i: int| t.pending_disconnect(c, i) == s.pending_disconnect(c, i));
            } else {
                assert(t.loops[c] == ingest_start(address));
                assert forall|i: int| !t.pending_disconnect(c, i) by {
                    if 0 <= i < t.channel.len() {
                        assert(s.channel[i].from < n);
                    }
                }
            }
        }
    }
}

/// A read by an ingestion loop keeps the invariant.
proof fn lemma_ingest_inv(s: Relay, connection: int, read: LineReadView)
    requires
        s.inv(),
    ensures
        s.next(Step::Ingest { connection, read }).inv(),
{
    let step = Step::Ingest { connection, read };
    let t = s.next(step);
    if s.enabled(step) {
        let (state, sent) = ingest_step(s.loops[connection], read);
        assert(state.address == s.loops[connection].address);
        assert(t.loops_follow_admissions());
        assert(sent is Some ==> sent->0.origin() == s.admissions[connection]);
        assert(t.channel_follows_admissions()) by {
            assert forall|i: int| 0 <= i < t.channel.len() implies {
                &&& 0 <= (#[trigger] t.channel[i]).from < t.admissions.len()
                &&& t.channel[i].event.origin() == t.admissions[t.channel[i].from]
            } by {
                if i < s.channel.len() {
                    assert(s.channel[i] == t.channel[i]);
                }
            }
        }
        if s.admissions.no_duplicates() {
            let last = s.channel.len() as int;
            assert forall|c: int| 0 <= c < t.admissions.len() implies #[trigger] t.settled(c) by {
                assert(s.settled(c));
                assert(forall|i: int|
                    0 <= i < s.channel.len() ==> t.pending_disconnect(c, i) == s.pending_disconnect(
                        c,
                        i,
                    ));
                if c != connection {
                    assert(t.loops[c] == s.loops[c]);
                    assert(forall|i: int| t.pending_disconnect(c, i) == s.pending_disconnect(c, i));
                } else if s.loops[c].finished {
                    assert(t.channel == s.channel);
                    assert(t.loops[c] == s.loops[c]);
                } else if sent is Some && sent->0 is Disconnect {
                    assert(t.pending_disconnect(c, last));
                    assert(forall|i: int| !s.pending_disconnect(c, i));
                    assert(forall|i: int| t.pending_disconnect(c, i) ==> i == last);
                } else {
                    assert(!state.finished);
                    assert(forall|i: int| !s.pending_disconnect(c, i));
                    assert(forall|i: int| !t.pending_disconnect(c, i));
                }
            }
        }
    }
}

/// Taking the oldest event out of the channel, where it is not the
/// disconnect of `connection`, moves that connection's disconnects one
/// place forward and loses none of them.
proof fn lemma_drop_first_keeps_pending(s: Relay, t: Relay, connection: int)
    requires
        s.channel.len() > 0,
        t.channel == s.channel.drop_first(),
        !s.pending_disconnect(connection, 0),
    ensures
        (exists|i: int| s.pending_disconnect(connection, i)) <==> (exists|i: int|
            t.pending_disconnect(connection, i)),
        (forall|i: int, j: int|
            s.pending_disconnect(connection, i) && s.pending_disconnect(connection, j) ==> i
                == j) ==> (forall|i: int, j: int|
            t.pending_disconnect(connection, i) && t.pending_disconnect(connection, j) ==> i
                == j),
{
    assert forall|i: int| 0 <= i implies t.pending_disconnect(connection, i)
        == s.pending_disconnect(connection, i + 1) by {
        if i < t.channel.len() {
            assert(t.channel[i] == s.channel[i + 1]);
        }
    }
    if exists|i: int| s.pending_disconnect(connection, i) {
        let i = choose|i: int| s.pending_disconnect(connection, i);
        assert(t.pending_disconnect(connection, i - 1));
    }
    if exists|i: int| t.pending_disconnect(connection, i) {
        let i = choose|i: int| t.pending_disconnect(connection, i);
        assert(s.pending_disconnect(connection, i + 1));
    }
    if forall|i: int, j: int|
        s.pending_disconnect(connection, i) && s.pending_disconnect(connection, j) ==> i == j {
        assert forall|i: int, j: int|
            t.pending_disconnect(connection, i) && t.pending_disconnect(
                connection,
                j,
            ) implies i == j by {
            assert(s.pending_disconnect(connection, i + 1));
            assert(s.pending_disconnect(connection, j + 1));
        }
    }
}

/// Applying the oldest event keeps the invariant.
proof fn lemma_dispatch_inv(s: Relay)
    requires
        s.inv(),
    ensures
        s.next(Step::Dispatch).inv(),
{
    let t = s.next(Step::Dispatch);
    if s.enabled(Step::Dispatch) {
        let head = s.channel[0];
        let event = head.event;
        assert(t.channel_follows_admissions()) by {
            assert forall|i: int| 0 <= i < t.channel.len() implies {
                &&& 0 <= (#[trigger] t.channel[i]).from < t.admissions.len()
                &&& t.channel[i].event.origin() == t.admissions[t.channel[i].from]
            } by {
                assert(t.channel[i] == s.channel[i + 1]);
            }
        }
        assert(t.log_in_order()) by {
            let added = lines_for(recipients_of(s.registry, event), s.applied);
            assert forall|p: int| 0 <= p < t.log.len() implies (#[trigger] t.log[p]).event
                < t.applied by {
                if p < s.log.len() {
                    assert(t.log[p] == s.log[p]);
                } else {
                    assert(t.log[p] == added[p - s.log.len()]);
                }
            }
            assert forall|p: int, q: int| 0 <= p <= q < t.log.len() implies (#[trigger] t.log[p]).event
                <= (#[trigger] t.log[q]).event by {
                if q < s.log.len() {
                    assert(t.log[p] == s.log[p]);
                    assert(t.log[q] == s.log[q]);
                } else if p < s.log.len() {
                    assert(t.log[p] == s.log[p]);
                    assert(t.log[q] == added[q - s.log.len()]);
                } else {
                    assert(t.log[p] == added[p - s.log.len()]);
                    assert(t.log[q] == added[q - s.log.len()]);
                }
            }
        }
        match event {
            EventView::Message { .. } => {},
            EventView::Disconnect { address } => {
                lemma_others_no_duplicates(s.registry, address);
                lemma_others_members(s.registry, address);
            },
        }
        assert(t.registry_follows_admissions());
        if s.admissions.no_duplicates() {
            assert forall|c: int| 0 <= c < t.admissions.len() implies #[trigger] t.settled(c) by {
                assert(s.settled(c));
                let a = s.admissions[c];
                if s.pending_disconnect(c, 0) {
                    assert(event == EventView::Disconnect { address: a });
                    assert(!t.registry.contains(a));
                    assert forall|i: int| !t.pending_disconnect(c, i) by {
                        if t.pending_disconnect(c, i) {
                            assert(t.channel[i] == s.channel[i + 1]);
                            assert(s.pending_disconnect(c, i + 1));
                        }
                    }
                } else {
                    lemma_drop_first_keeps_pending(s, t, c);
                    assert(t.registry.contains(a) == s.registry.contains(a)) by {
                        if event is Disconnect {
                            assert(s.admissions[head.from] == event->address);
                            assert(head.from != c);
                        }
                    }
                }
            }
        }
    }
}

/// Every step keeps the invariant.
pub proof fn lemma_next_inv(s: Relay, step: Step)
    requires
        s.inv(),
    ensures
        s.next(step).inv(),
{
    match step {
        Step::Admission { address } => lemma_admission_inv(s, address),
        Step::Ingest { connection, read } => lemma_ingest_inv(s, connection, read),
        Step::Dispatch => lemma_dispatch_inv(s),
    }
}

/// Every state that the relay can reach satisfies the invariant.
pub proof fn lemma_after_inv(steps: Seq<Step>)
    ensures
        Relay::after(steps).inv(),
    decreases steps.len(),
{
    if steps.len() == 0 {
        lemma_init_inv();
    } else {
        lemma_after_inv(steps.drop_last());
        lemma_next_inv(Relay::after(steps.drop_last()), steps.last());
    }
}

} // verus!
