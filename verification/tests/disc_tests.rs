use devp2p::disc::{Discovery, DiscoveryError, IpAddress, NodeRecord, PeerAddr};

fn record(last: u8, port: u16) -> NodeRecord {
    NodeRecord {
        id: [last; 64],
        addr: PeerAddr { ip: IpAddress::V4([10, 0, 0, last]), port },
    }
}

#[test]
fn empty_list_offers_no_peer() {
    let mut peers: Vec<NodeRecord> = Vec::new();
    assert_eq!(peers.get_new_peer(), Err(DiscoveryError::NoPeers));
}

#[test]
fn list_offers_its_first_entry_and_keeps_it() {
    let mut peers = vec![record(1, 30303), record(2, 30304)];
    assert_eq!(peers.get_new_peer(), Ok(record(1, 30303)));
    assert_eq!(peers.get_new_peer(), Ok(record(1, 30303)));
    assert_eq!(peers.len(), 2);
}
