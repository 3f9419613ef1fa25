//! The network address of a connected client.

use vstd::prelude::*;

verus! {

/// The IP address of a peer, as its octets.
#[derive(Clone, Copy, Debug, PartialEq, Eq)]
pub enum PeerIp {
    V4([u8; 4]),
    V6([u8; 16]),
}

/// Where a client connected from. It is handed to the dispatcher with every
/// request of the connection.
#[derive(Clone, Copy, Debug, PartialEq, Eq)]
pub struct PeerAddr {
    pub ip: PeerIp,
    pub port: u16,
}

} // verus!
