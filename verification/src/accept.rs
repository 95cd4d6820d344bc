//! Admission: a newly accepted connection enters the registry before its
//! ingestion loop exists.

use vstd::prelude::*;
use crate::addr::PeerAddr;
use crate::ingest::{Ingestion, ingest_start};
use crate::registry::Registry;
use crate::roster::with_addr;

verus! {

/// Why a connection was turned away.
#[derive(Clone, Copy, Debug, PartialEq, Eq, Structural)]
pub enum AdmissionError {
    /// The transport could not tell the peer's address.
    TransportError,
}

impl AdmissionError {
    /// The error in words.
    pub fn message(&self) -> (text: String)
        ensures
            text@ == "peer address unavailable"@,
    {
        "peer address unavailable".to_owned()
    }
}

/// Admission of an accepted connection: registers `handle` under the peer's
/// address and returns the state in which the connection's ingestion loop
/// starts. Without a peer address the connection is turned away and the
/// registry stays as it is.
pub fn register_connection<H>(registry: &mut Registry<H>, peer: Option<PeerAddr>, handle: H) -> (r: Result<
    Ingestion,
    AdmissionError,
>)
    ensures
        match peer {
            Some(addr) => {
                &&& r is Ok
                &&& r->Ok_0@ == ingest_start(addr)
                &&& final(registry)@ == old(registry)@.insert(addr, handle)
                &&& final(registry).addrs() == with_addr(old(registry).addrs(), addr)
                &&& final(registry).addrs().contains(addr)
                &&& !old(registry).addrs().contains(addr) ==> final(registry).addrs().len()
                    == old(registry).addrs().len() + 1
            },
            None => {
                &&& r == Err::<Ingestion, AdmissionError>(AdmissionError::TransportError)
                &&& *final(registry) == *old(registry)
            },
        },
        final(registry).valid(),
{
    match peer {
        Some(addr) => {
            let _ = registry.insert(addr, handle);
            proof {
                let before = old(registry).addrs();
                if !before.contains(addr) {
                    assert(before.push(addr)[before.len() as int] == addr);
                }
            }
            Ok(Ingestion::start(addr))
        },
        None => {
            registry.known_valid();
            Err(AdmissionError::TransportError)
        },
    }
}

} // verus!
