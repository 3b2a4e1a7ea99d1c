//! Peers: the read-only view of other hosts on the network.
//!
//! The peer directory itself is an external collaborator; this host only
//! consumes a snapshot of the peers it announced and found, for future
//! placement decisions. Nothing here is mutated by the host core.

use vstd::prelude::*;

verus! {

/// A network address of a peer.
#[derive(Clone, Copy, Debug, PartialEq, Eq, Structural)]
pub enum IpAddress {
    V4(u32),
    V6(u128),
}

/// One known peer: its identity, where it can be reached, and the
/// protocol version it speaks.
pub struct Peer {
    pub uuid: u128,
    pub hostname: String,
    pub addresses: Vec<IpAddress>,
    pub port: u16,
    pub version: String,
}

/// Mathematical model of a peer.
pub struct PeerModel {
    pub uuid: u128,
    pub hostname: Seq<char>,
    pub addresses: Seq<IpAddress>,
    pub port: u16,
    pub version: Seq<char>,
}

impl View for Peer {
    type V = PeerModel;

    open spec fn view(&self) -> PeerModel {
        PeerModel {
            uuid: self.uuid,
            hostname: self.hostname@,
            addresses: self.addresses@,
            port: self.port,
            version: self.version@,
        }
    }
}

/// The model of a sequence of peers.
pub open spec fn peers_view(s: Seq<Peer>) -> Seq<PeerModel> {
    s.map_values(|p: Peer| p@)
}

} // verus!
