//! Peer identity: the transport-level address that keys the registry.

use vstd::prelude::*;

verus! {

/// The address of a peer, held as plain integers.
///
/// Two addresses are the same peer exactly when they are the same variant
/// with the same fields, which is how a socket address compares.
#[derive(Clone, Copy, Debug, PartialEq, Eq, Structural, Hash)]
pub enum PeerAddr {
    /// An IPv4 endpoint: the four octets as one big-endian integer, and the port.
    V4 { ipv4: u32, port: u16 },
    /// An IPv6 endpoint: the sixteen octets as one big-endian integer, the port,
    /// the flow information and the scope identifier.
    V6 { ipv6: u128, port: u16, flowinfo: u32, scope_id: u32 },
}

impl PeerAddr {
    /// An IPv4 peer address.
    pub fn v4(ipv4: u32, port: u16) -> (addr: PeerAddr)
        ensures
            addr == (PeerAddr::V4 { ipv4, port }),
    {
        PeerAddr::V4 { ipv4, port }
    }

    /// An IPv6 peer address.
    pub fn v6(ipv6: u128, port: u16, flowinfo: u32, scope_id: u32) -> (addr: PeerAddr)
        ensures
            addr == (PeerAddr::V6 { ipv6, port, flowinfo, scope_id }),
    {
        PeerAddr::V6 { ipv6, port, flowinfo, scope_id }
    }

    /// Whether two addresses name the same peer.
    pub fn same(&self, other: &PeerAddr) -> (r: bool)
        ensures
            r == (*self == *other),
    {
        *self == *other
    }
}

} // verus!
