//! The events that ingestion loops send to the dispatcher.

use vstd::prelude::*;
use crate::addr::PeerAddr;

verus! {

/// What a connection's ingestion loop reports to the dispatcher.
#[derive(Clone, Debug, PartialEq, Eq)]
pub enum Event {
    /// The peer at `sender_address`, who goes by `sender_name`, sent `text`.
    Message { sender_address: PeerAddr, sender_name: String, text: String },
    /// The connection of the peer at `address` has ended.
    Disconnect { address: PeerAddr },
}

/// An event as a mathematical value.
pub enum EventView {
    Message { sender_address: PeerAddr, sender_name: Seq<char>, text: Seq<char> },
    Disconnect { address: PeerAddr },
}

impl View for Event {
    type V = EventView;

    open spec fn view(&self) -> EventView {
        match *self {
            Event::Message { sender_address, sender_name, text } => EventView::Message {
                sender_address,
                sender_name: sender_name@,
                text: text@,
            },
            Event::Disconnect { address } => EventView::Disconnect { address },
        }
    }
}

impl EventView {
    /// The address of the connection that the event comes from.
    pub open spec fn origin(self) -> PeerAddr {
        match self {
            EventView::Message { sender_address, .. } => sender_address,
            EventView::Disconnect { address } => address,
        }
    }
}

/// The view of an event that may or may not be there.
pub open spec fn view_of(event: Option<Event>) -> Option<EventView> {
    match event {
        Some(e) => Some(e@),
        None => None,
    }
}

impl Event {
    /// The address of the connection that the event comes from.
    pub fn origin(&self) -> (addr: PeerAddr)
        ensures
            addr == self@.origin(),
    {
        match self {
            Event::Message { sender_address, .. } => *sender_address,
            Event::Disconnect { address } => *address,
        }
    }
}

} // verus!
