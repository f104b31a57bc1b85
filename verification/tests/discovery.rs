use gossip::bridge::BridgeEvent;
use gossip::codec::PeerId;
use gossip::discovery::{DiscoveredVia, PeerTable, PEER_TTL_SECS};
use gossip::topics::TopicRegistry;

fn peer(n: u8) -> PeerId {
    PeerId::new(vec![n])
}

#[test]
fn first_beacon_is_reported_once() {
    let mut t = PeerTable::new(PEER_TTL_SECS);
    match t.on_beacon(&peer(1), &vec![4, 4], 100) {
        Some(BridgeEvent::PeerDiscovered { id }) => assert_eq!(id.bytes, vec![1u8]),
        _ => panic!("no discovery"),
    }
    assert!(t.on_beacon(&peer(1), &vec![4, 4], 110).is_none());
    assert_eq!(t.len(), 1);
    assert_eq!(t.last_seen(&peer(1)), Some(110));
    assert_eq!(t.peers[0].address, vec![4u8, 4]);
    assert_eq!(t.peers[0].via, DiscoveredVia::Beacon);
}

#[test]
fn silent_peer_expires_once() {
    let mut t = PeerTable::new(120);
    t.on_beacon(&peer(1), &vec![], 100);
    t.on_beacon(&peer(2), &vec![], 100);
    t.on_beacon(&peer(2), &vec![], 200);
    assert!(t.sweep(220).is_empty());
    let gone = t.sweep(221);
    assert_eq!(gone.len(), 1);
    match &gone[0] {
        BridgeEvent::PeerExpired { id } => assert_eq!(id.bytes, vec![1u8]),
        _ => panic!("not an expiry"),
    }
    assert!(!t.knows(&peer(1)));
    assert!(t.knows(&peer(2)));
    assert!(t.sweep(221).is_empty());
}

#[test]
fn expired_peer_is_discovered_anew() {
    let mut t = PeerTable::new(10);
    t.on_beacon(&peer(1), &vec![], 0);
    assert_eq!(t.sweep(11).len(), 1);
    assert!(t.on_beacon(&peer(1), &vec![], 12).is_some());
    assert_eq!(t.last_seen(&peer(1)), Some(12));
}

#[test]
fn sweep_before_last_seen_keeps_everyone() {
    let mut t = PeerTable::new(10);
    t.on_beacon(&peer(1), &vec![], 500);
    assert!(t.sweep(3).is_empty());
    assert_eq!(t.len(), 1);
}

#[test]
fn subscribe_is_idempotent() {
    let mut r = TopicRegistry::new();
    r.subscribe(&b"chat".to_vec());
    r.add_peer(&b"chat".to_vec(), &peer(1));
    r.subscribe(&b"chat".to_vec());
    assert_eq!(r.topics.len(), 1);
    assert_eq!(r.peers_for(&b"chat".to_vec()).len(), 1);
    assert!(r.is_subscribed(&b"chat".to_vec()));
    assert!(!r.is_subscribed(&b"other".to_vec()));
}

#[test]
fn subscriber_is_listed_once_and_can_leave() {
    let mut r = TopicRegistry::new();
    r.add_peer(&b"a".to_vec(), &peer(1));
    r.add_peer(&b"a".to_vec(), &peer(1));
    r.add_peer(&b"a".to_vec(), &peer(2));
    r.add_peer(&b"b".to_vec(), &peer(1));
    assert_eq!(r.peers_for(&b"a".to_vec()).len(), 2);
    r.remove_peer(&peer(1));
    let left = r.peers_for(&b"a".to_vec());
    assert_eq!(left.len(), 1);
    assert_eq!(left[0].bytes, vec![2u8]);
    assert!(r.peers_for(&b"b".to_vec()).is_empty());
    assert!(r.is_subscribed(&b"b".to_vec()));
    assert!(r.peers_for(&b"unknown".to_vec()).is_empty());
}
