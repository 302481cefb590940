use crate::types::PeerId;
use vstd::prelude::*;

verus! {

/// An internet address: four bytes of IPv4 or sixteen of IPv6.
#[derive(Clone, Copy, Debug, PartialEq, Eq)]
pub enum IpAddress {
    V4([u8; 4]),
    V6([u8; 16]),
}

/// The transport address of a peer.
#[derive(Clone, Copy, Debug, PartialEq, Eq)]
pub struct PeerAddr {
    pub ip: IpAddress,
    pub port: u16,
}

/// A candidate peer: where to reach it and which identity to expect there.
#[derive(Clone, Copy, Debug, PartialEq, Eq)]
pub struct NodeRecord {
    pub id: PeerId,
    pub addr: PeerAddr,
}

/// Failure of a source of peers.
#[derive(Clone, Copy, Debug, PartialEq, Eq)]
pub enum DiscoveryError {
    /// The source knows no peer.
    NoPeers,
}

/// A source of candidate peers. How a source finds them is its own matter, so
/// nothing is promised of the record that comes back.
pub trait Discovery {
    fn get_new_peer(&mut self) -> Result<NodeRecord, DiscoveryError>;
}

/// A fixed list of peers is a source that always offers its first entry.
impl Discovery for Vec<NodeRecord> {
    fn get_new_peer(&mut self) -> (r: Result<NodeRecord, DiscoveryError>)
        ensures
            final(self)@ == old(self)@,
            old(self)@.len() > 0 ==> r == Ok::<NodeRecord, DiscoveryError>(old(self)@[0]),
            old(self)@.len() == 0 ==> r == Err::<NodeRecord, DiscoveryError>(
                DiscoveryError::NoPeers,
            ),
    {
        if self.len() > 0 {
            Ok(self[0])
        } else {
            Err(DiscoveryError::NoPeers)
        }
    }
}

} // verus!
