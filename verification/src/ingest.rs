//! The ingestion loop of one connection, as a step function: each read on
//! the connection's stream goes in, and the event to send, if any, comes out.

use vstd::prelude::*;
use crate::addr::PeerAddr;
use crate::event::{Event, EventView, view_of};
use crate::text::{trimmed, trim_line};

verus! {

/// What one read of a line from a connection's stream gave.
#[derive(Clone, Debug, PartialEq, Eq)]
pub enum LineRead {
    /// The characters read, the line feed included. Nothing read means that
    /// the peer has closed the stream.
    Line(String),
    /// The read failed.
    Failed,
}

/// A read as a mathematical value.
pub enum LineReadView {
    Line(Seq<char>),
    Failed,
}

impl View for LineRead {
    type V = LineReadView;

    open spec fn view(&self) -> LineReadView {
        match *self {
            LineRead::Line(s) => LineReadView::Line(s@),
            LineRead::Failed => LineReadView::Failed,
        }
    }
}

/// How far a connection's ingestion loop has come.
#[derive(Clone, Copy, Debug, PartialEq, Eq, Structural)]
pub enum Phase {
    /// Registered; the line with the display name has not arrived yet.
    Registered,
    /// The display name is known; every further line is a message.
    Active,
    /// The disconnect event has been sent; the loop has ended.
    Finished,
}

/// The state of one connection's ingestion loop.
pub struct Ingestion {
    address: PeerAddr,
    name: Option<String>,
    finished: bool,
}

/// An ingestion loop's state as a mathematical value.
pub struct IngestionView {
    /// The address of the connection.
    pub address: PeerAddr,
    /// The display name, once the line with it has arrived.
    pub name: Option<Seq<char>>,
    /// Whether the loop has sent its disconnect event and ended.
    pub finished: bool,
}

impl IngestionView {
    /// How far the loop has come.
    pub open spec fn phase(self) -> Phase {
        if self.finished {
            Phase::Finished
        } else if self.name is None {
            Phase::Registered
        } else {
            Phase::Active
        }
    }
}

impl View for Ingestion {
    type V = IngestionView;

    closed spec fn view(&self) -> IngestionView {
        IngestionView {
            address: self.address,
            name: match self.name {
                Some(name) => Some(name@),
                None => None,
            },
            finished: self.finished,
        }
    }
}

/// The state in which the loop of the connection at `address` starts.
pub open spec fn ingest_start(address: PeerAddr) -> IngestionView {
    IngestionView { address, name: None, finished: false }
}

/// One step of an ingestion loop: the state after `read`, and the event sent.
///
/// A failed read and a read of nothing end the loop with a disconnect event.
/// The first line read is the display name and sends nothing. Every later
/// line is a message under that name. A loop that has ended stays as it is.
pub open spec fn ingest_step(s: IngestionView, read: LineReadView) -> (
    IngestionView,
    Option<EventView>,
) {
    if s.finished {
        (s, None)
    } else {
        match read {
            LineReadView::Line(line) if line.len() > 0 => match s.name {
                None => (IngestionView { name: Some(trimmed(line)), ..s }, None),
                Some(name) => (
                    s,
                    Some(
                        EventView::Message {
                            sender_address: s.address,
                            sender_name: name,
                            text: trimmed(line),
                        },
                    ),
                ),
            },
            _ => (
                IngestionView { finished: true, ..s },
                Some(EventView::Disconnect { address: s.address }),
            ),
        }
    }
}

impl Ingestion {
    /// The loop of a connection that has just been registered under `address`.
    pub(crate) fn start(address: PeerAddr) -> (r: Self)
        ensures
            r@ == ingest_start(address),
    {
        Ingestion { address, name: None, finished: false }
    }

    /// The address of the connection.
    pub fn address(&self) -> (addr: PeerAddr)
        ensures
            addr == self@.address,
    {
        self.address
    }

    /// The display name, once the line with it has arrived.
    pub fn name(&self) -> (name: Option<&String>)
        ensures
            match name {
                Some(text) => self@.name == Some(text@),
                None => self@.name is None,
            },
    {
        match &self.name {
            Some(name) => Some(name),
            None => None,
        }
    }

    /// How far the loop has come.
    pub fn phase(&self) -> (phase: Phase)
        ensures
            phase == self@.phase(),
    {
        if self.finished {
            Phase::Finished
        } else if self.name.is_none() {
            Phase::Registered
        } else {
            Phase::Active
        }
    }

    /// Whether the loop has ended.
    pub fn is_finished(&self) -> (r: bool)
        ensures
            r == self@.finished,
    {
        self.finished
    }

    /// Takes in one read and returns the event to send to the dispatcher.
    pub fn step(&mut self, read: &LineRead) -> (sent: Option<Event>)
        ensures
            final(self)@ == ingest_step(old(self)@, read@).0,
            view_of(sent) == ingest_step(old(self)@, read@).1,
    {
        if self.finished {
            return None;
        }
        match read {
            LineRead::Line(line) => {
                if line.as_str().is_empty() {
                    self.finished = true;
                    Some(Event::Disconnect { address: self.address })
                } else {
                    let text = trim_line(line.as_str());
                    match &self.name {
                        None => {
                            self.name = Some(text);
                            None
                        },
                        Some(name) => Some(
                            Event::Message {
                                sender_address: self.address,
                                sender_name: name.clone(),
                                text,
                            },
                        ),
                    }
                }
            },
            LineRead::Failed => {
                self.finished = true;
                Some(Event::Disconnect { address: self.address })
            },
        }
    }
}

} // verus!
