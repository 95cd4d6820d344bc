//! What the relay guarantees, stated over the functions that the dispatcher,
//! the registry and the relay as a whole are specified with.

use vstd::prelude::*;
use crate::addr::PeerAddr;
use crate::dispatch::{recipients_of, registry_after};
use crate::event::EventView;
use crate::ingest::ingest_step;
use crate::relay::{lemma_after_inv, Relay, Step};
use crate::roster::{lemma_others_absent, lemma_others_len, lemma_others_members,
    lemma_others_no_duplicates, lemma_others_twice};

verus! {

/// Self-exclusion: whoever is registered, no event is delivered to the
/// connection that it comes from. A sender never receives its own message.
pub proof fn law_self_exclusion(addrs: Seq<PeerAddr>, event: EventView)
    ensures
        !recipients_of(addrs, event).contains(event.origin()),
{
    match event {
        EventView::Message { sender_address, .. } => {
            lemma_others_members(addrs, sender_address);
        },
        EventView::Disconnect { .. } => {},
    }
}

/// Every registered peer but the sender receives a message, and nobody else
/// does.
pub proof fn law_recipients(
    addrs: Seq<PeerAddr>,
    sender_address: PeerAddr,
    sender_name: Seq<char>,
    text: Seq<char>,
    peer: PeerAddr,
)
    ensures
        recipients_of(addrs, EventView::Message { sender_address, sender_name, text }).contains(
            peer,
        ) <==> (addrs.contains(peer) && peer != sender_address),
{
    lemma_others_members(addrs, sender_address);
}

/// Idempotent removal: a disconnect for an address that is not registered
/// leaves the registered addresses as they are.
pub proof fn law_idempotent_removal(addrs: Seq<PeerAddr>, address: PeerAddr)
    requires
        !addrs.contains(address),
    ensures
        registry_after(addrs, EventView::Disconnect { address }) == addrs,
{
    lemma_others_absent(addrs, address);
}

/// A second disconnect for the same address changes nothing: after the
/// first the address is gone, and the second leaves the registry as the
/// first left it. Where the address was registered, the two together make
/// the registry smaller by exactly one.
pub proof fn law_repeated_disconnect(addrs: Seq<PeerAddr>, address: PeerAddr)
    requires
        addrs.no_duplicates(),
    ensures
        ({
            let once = registry_after(addrs, EventView::Disconnect { address });
            let twice = registry_after(once, EventView::Disconnect { address });
            &&& !once.contains(address)
            &&& twice == once
            &&& addrs.contains(address) ==> twice.len() == addrs.len() - 1
            &&& !addrs.contains(address) ==> twice == addrs
        }),
{
    lemma_others_members(addrs, address);
    lemma_others_twice(addrs, address);
    if addrs.contains(address) {
        lemma_others_len(addrs, address);
    } else {
        lemma_others_absent(addrs, address);
    }
}

/// Fan-out count: with N connections registered, a message from one of them
/// goes to exactly N - 1 peers, each of them once.
pub proof fn law_fan_out(
    addrs: Seq<PeerAddr>,
    sender_address: PeerAddr,
    sender_name: Seq<char>,
    text: Seq<char>,
)
    requires
        addrs.no_duplicates(),
        addrs.contains(sender_address),
    ensures
        ({
            let to = recipients_of(addrs, EventView::Message { sender_address, sender_name, text });
            &&& to.len() == addrs.len() - 1
            &&& to.no_duplicates()
        }),
{
    lemma_others_len(addrs, sender_address);
    lemma_others_no_duplicates(addrs, sender_address);
}

/// A message changes nothing in the registry.
pub proof fn law_message_keeps_registry(
    addrs: Seq<PeerAddr>,
    sender_address: PeerAddr,
    sender_name: Seq<char>,
    text: Seq<char>,
)
    ensures
        registry_after(addrs, EventView::Message { sender_address, sender_name, text }) == addrs,
{
}

/// Ordering: whatever has happened, the lines of an event that the
/// dispatcher received earlier stand in its output before the lines of an
/// event that it received later. So a peer that receives both sees them in
/// the order in which the dispatcher received the events.
pub proof fn law_ordering(steps: Seq<Step>, p: int, q: int)
    requires
        0 <= p < Relay::after(steps).log.len(),
        0 <= q < Relay::after(steps).log.len(),
        Relay::after(steps).log[p].event < Relay::after(steps).log[q].event,
    ensures
        p < q,
{
    lemma_after_inv(steps);
}

/// Admission before disconnect: whatever has happened, every event in the
/// channel comes from a connection whose admission has been made, under the
/// address that the event carries. No event is applied for a connection
/// that was never registered.
pub proof fn law_admission_before_event(steps: Seq<Step>, i: int)
    requires
        0 <= i < Relay::after(steps).channel.len(),
    ensures
        ({
            let s = Relay::after(steps);
            &&& 0 <= s.channel[i].from < s.admissions.len()
            &&& s.admissions[s.channel[i].from] == s.channel[i].event.origin()
        }),
{
    lemma_after_inv(steps);
}

/// Where no address has been used by two connections, the disconnect that
/// the dispatcher is about to apply finds its address registered, and
/// applying it makes the registry smaller by exactly one.
pub proof fn law_disconnect_finds_registered(steps: Seq<Step>)
    requires
        Relay::after(steps).admissions.no_duplicates(),
        Relay::after(steps).channel.len() > 0,
        Relay::after(steps).channel[0].event is Disconnect,
    ensures
        ({
            let s = Relay::after(steps);
            &&& s.registry.contains(s.channel[0].event.origin())
            &&& s.next(Step::Dispatch).registry.len() == s.registry.len() - 1
            &&& !s.next(Step::Dispatch).registry.contains(s.channel[0].event.origin())
        }),
{
    lemma_after_inv(steps);
    let s = Relay::after(steps);
    let c = s.channel[0].from;
    let address = s.channel[0].event.origin();
    assert(s.settled(c));
    assert(s.pending_disconnect(c, 0));
    lemma_others_len(s.registry, address);
    lemma_others_members(s.registry, address);
}

/// In every state that the relay can reach, no address is registered twice.
pub proof fn law_registry_unique(steps: Seq<Step>)
    ensures
        Relay::after(steps).registry.no_duplicates(),
{
    lemma_after_inv(steps);
}

/// The life of a connection: where no address is used by two connections,
/// a step leaves a connection where it stands or moves it one way only. An
/// admission takes it from connecting to registered, a read by its
/// ingestion loop from registered to active, and the dispatcher from
/// registered or active to disconnected, where it stays.
pub proof fn law_connection_life(steps: Seq<Step>, step: Step, connection: int)
    requires
        0 <= connection,
        Relay::after(steps).next(step).admissions.no_duplicates(),
    ensures
        ({
            let before = Relay::after(steps).state_of(connection);
            let after = Relay::after(steps).next(step).state_of(connection);
            ||| after == before
            ||| step is Admission && before is Connecting && after is Registered
            ||| step is Ingest && before is Registered && after is Active
            ||| step is Dispatch && (before is Registered || before is Active)
                && after is Disconnected
        }),
{
    lemma_after_inv(steps);
    let s = Relay::after(steps);
    let t = s.next(step);
    let n = s.admissions.len() as int;
    if s.enabled(step) {
        match step {
            Step::Admission { address } => {
                assert(t.admissions[n] == address);
                if s.admissions.contains(address) {
                    let k = choose|k: int| 0 <= k < n && s.admissions[k] == address;
                    assert(t.admissions[k] == t.admissions[n]);
                }
                assert(!s.registry.contains(address));
                assert(t.registry[s.registry.len() as int] == address);
                if connection < n {
                    let a = s.admissions[connection];
                    assert(t.admissions[connection] == a);
                    if s.registry.contains(a) {
                        let k = choose|k: int| 0 <= k < s.registry.len() && s.registry[k] == a;
                        assert(t.registry[k] == a);
                    }
                    if t.registry.contains(a) {
                        let k = choose|k: int| 0 <= k < t.registry.len() && t.registry[k] == a;
                        assert(s.registry[k] == a);
                    }
                }
            },
            Step::Ingest { connection: reader, read } => {
                let (state, sent) = ingest_step(s.loops[reader], read);
                assert(s.loops[reader].name is Some ==> state.name is Some);
            },
            Step::Dispatch => {
                match s.channel[0].event {
                    EventView::Message { .. } => {},
                    EventView::Disconnect { address } => {
                        lemma_others_members(s.registry, address);
                    },
                }
            },
        }
    }
}

} // verus!
