//! The dispatcher: the one place where events are applied to the registry,
//! one at a time and in the order in which they arrive.

use vstd::prelude::*;
use crate::addr::PeerAddr;
use crate::event::{Event, EventView};
use crate::registry::Registry;
use crate::roster::others;
use crate::text::{is_relayed_line, relay_line};

verus! {

/// One line to write to one peer.
#[derive(Clone, Debug, PartialEq, Eq)]
pub struct Delivery {
    pub to: PeerAddr,
    pub line: String,
}

/// The registered addresses once `event` has been applied to `addrs`: a
/// message leaves them as they are, a disconnect takes its address out.
pub open spec fn registry_after(addrs: Seq<PeerAddr>, event: EventView) -> Seq<PeerAddr> {
    match event {
        EventView::Message { .. } => addrs,
        EventView::Disconnect { address } => others(addrs, address),
    }
}

/// The peers that `event` is delivered to when `addrs` are registered: for a
/// message every address but the sender's, for a disconnect none.
pub open spec fn recipients_of(addrs: Seq<PeerAddr>, event: EventView) -> Seq<PeerAddr> {
    match event {
        EventView::Message { sender_address, .. } => others(addrs, sender_address),
        EventView::Disconnect { .. } => Seq::<PeerAddr>::empty(),
    }
}

/// The peers that the lines of `out` go to, in the order of `out`.
pub open spec fn addressed_to(out: Seq<Delivery>) -> Seq<PeerAddr> {
    Seq::new(out.len(), |i: int| out[i].to)
}

/// Whether `out` holds one line for each peer of `to`, in that order, each
/// relaying `text` from `name`.
pub open spec fn delivers(
    out: Seq<Delivery>,
    to: Seq<PeerAddr>,
    name: Seq<char>,
    text: Seq<char>,
) -> bool {
    &&& out.len() == to.len()
    &&& forall|i: int|
        0 <= i < out.len() ==> (#[trigger] out[i]).to == to[i] && is_relayed_line(
            out[i].line@,
            name,
            text,
        )
}

/// The lines that relay `text` from the peer `sender`, called `name`, to
/// every other registered peer. Each line carries the time at which it was
/// composed.
pub fn broadcast<H>(registry: &Registry<H>, sender: PeerAddr, name: &str, text: &str) -> (out: Vec<
    Delivery,
>)
    ensures
        delivers(out@, others(registry.addrs(), sender), name@, text@),
        addressed_to(out@) == others(registry.addrs(), sender),
        forall|i: int| 0 <= i < out@.len() ==> (#[trigger] out@[i]).to != sender,
        forall|i: int, j: int| 0 <= i < j < out@.len() ==> out@[i].to != out@[j].to,
        registry.addrs().contains(sender) ==> out@.len() == registry.addrs().len() - 1,
        !registry.addrs().contains(sender) ==> out@.len() == registry.addrs().len(),
        registry.valid(),
{
    let to = registry.recipients(sender);
    let mut out: Vec<Delivery> = Vec::new();
    let mut i: usize = 0;
    while i < to.len()
        invariant
            i <= to@.len(),
            out@.len() == i,
            forall|j: int|
                0 <= j < i ==> (#[trigger] out@[j]).to == to@[j] && is_relayed_line(
                    out@[j].line@,
                    name@,
                    text@,
                ),
        decreases to@.len() - i,
    {
        let line = relay_line(name, text);
        out.push(Delivery { to: to[i], line });
        i += 1;
    }
    assert forall|k: int| 0 <= k < out@.len() implies (#[trigger] out@[k]).to != sender by {
        assert(to@.contains(to@[k]));
    }
    assert(addressed_to(out@) =~= to@);
    out
}

/// Applies one event to the registry and returns the lines to write.
///
/// A message changes nothing in the registry and yields one line for every
/// registered peer but the sender. A disconnect removes the connection of
/// its address, if there is one, and yields no line.
pub fn dispatch<H>(registry: &mut Registry<H>, event: &Event) -> (out: Vec<Delivery>)
    ensures
        final(registry).addrs() == registry_after(old(registry).addrs(), event@),
        addressed_to(out@) == recipients_of(old(registry).addrs(), event@),
        match event@ {
            EventView::Message { sender_address, sender_name, text } => {
                &&& *final(registry) == *old(registry)
                &&& delivers(
                    out@,
                    others(old(registry).addrs(), sender_address),
                    sender_name,
                    text,
                )
                &&& old(registry).addrs().contains(sender_address) ==> out@.len() == old(
                    registry,
                ).addrs().len() - 1
            },
            EventView::Disconnect { address } => {
                &&& out@.len() == 0
                &&& final(registry)@ == old(registry)@.remove(address)
                &&& !old(registry).addrs().contains(address) ==> *final(registry) == *old(
                    registry,
                )
            },
        },
        forall|i: int| 0 <= i < out@.len() ==> (#[trigger] out@[i]).to != event@.origin(),
        forall|i: int, j: int| 0 <= i < j < out@.len() ==> out@[i].to != out@[j].to,
        final(registry).valid(),
{
    match event {
        Event::Message { sender_address, sender_name, text } => broadcast(
            registry,
            *sender_address,
            sender_name.as_str(),
            text.as_str(),
        ),
        Event::Disconnect { address } => {
            let _ = registry.remove(*address);
            let out: Vec<Delivery> = Vec::new();
            assert(addressed_to(out@) =~= Seq::<PeerAddr>::empty());
            out
        },
    }
}

} // verus!
