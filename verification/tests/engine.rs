use gossip::bridge::BridgeEvent;
use gossip::codec::{content_id, Envelope, PeerId};
use gossip::engine::{GossipEngine, Strategy, ValidationMode};

fn peer(n: u8) -> PeerId {
    PeerId::new(vec![n])
}

fn ids(list: &Vec<PeerId>) -> Vec<Vec<u8>> {
    list.iter().map(|p| p.bytes.clone()).collect()
}

fn flood_with(topic: &[u8], peers: &[u8]) -> GossipEngine {
    let mut e = GossipEngine::new(peer(0), Strategy::Flood, 16);
    for p in peers {
        e.topics.add_peer(&topic.to_vec(), &peer(*p));
    }
    e
}

#[test]
fn flood_publish_reaches_each_subscriber_once() {
    let mut e = flood_with(b"T", &[1, 2]);
    e.topics.add_peer(&b"other".to_vec(), &peer(3));
    let out = e.publish(b"T".to_vec(), b"M".to_vec(), None, 5);
    assert_eq!(ids(&out.targets), vec![vec![1u8], vec![2u8]]);
    assert_eq!(out.envelope.sender.bytes, vec![0u8]);
    assert_eq!(out.envelope.topic, b"T".to_vec());
    assert_eq!(out.envelope.payload, b"M".to_vec());
    assert_eq!(out.envelope.content_id, content_id(&b"M".to_vec()));
    assert!(e.seen.contains(out.envelope.content_id));
}

#[test]
fn publish_carries_the_signature_given() {
    let mut e = flood_with(b"T", &[1]);
    let out = e.publish(b"T".to_vec(), b"M".to_vec(), Some(vec![5, 6]), 5);
    assert_eq!(out.envelope.signature, Some(vec![5u8, 6]));
}

#[test]
fn publish_to_empty_view_sends_nothing() {
    let mut e = GossipEngine::new(peer(0), Strategy::Flood, 16);
    let out = e.publish(b"nobody".to_vec(), b"M".to_vec(), None, 1);
    assert!(out.targets.is_empty());
    assert!(e.seen.contains(out.envelope.content_id));
}

#[test]
fn second_delivery_is_dropped() {
    let mut e = flood_with(b"T", &[1, 2, 3]);
    let env = Envelope::new(b"T".to_vec(), peer(9), b"hello".to_vec(), None);
    let first = e.on_inbound(&env, &peer(1), false, 10);
    match first.event {
        Some(BridgeEvent::MessageReceived { sender, topic, payload }) => {
            assert_eq!(sender.bytes, vec![9u8]);
            assert_eq!(topic, b"T".to_vec());
            assert_eq!(payload, b"hello".to_vec());
        }
        _ => panic!("no event for the first delivery"),
    }
    assert_eq!(ids(&first.targets), vec![vec![2u8], vec![3u8]]);
    let second = e.on_inbound(&env, &peer(2), false, 11);
    assert!(second.event.is_none());
    assert!(second.targets.is_empty());
    assert_eq!(e.seen.len(), 1);
    assert_eq!(e.seen.first_seen(env.content_id), Some(10));
}

#[test]
fn own_message_coming_back_is_dropped() {
    let mut e = flood_with(b"T", &[1]);
    let out = e.publish(b"T".to_vec(), b"M".to_vec(), None, 1);
    let back = e.on_inbound(&out.envelope, &peer(1), false, 2);
    assert!(back.event.is_none());
    assert!(back.targets.is_empty());
}

#[test]
fn strict_mode_drops_invalid_signature() {
    let strategy = Strategy::Mesh { validation: ValidationMode::StrictSigned, degree: 4 };
    let mut e = GossipEngine::new(peer(0), strategy, 16);
    e.topics.add_peer(&b"T".to_vec(), &peer(1));
    e.topics.add_peer(&b"T".to_vec(), &peer(2));
    let bad = Envelope::new(b"T".to_vec(), peer(9), b"x".to_vec(), Some(vec![1, 2]));
    let r = e.on_inbound(&bad, &peer(1), false, 3);
    assert!(r.event.is_none());
    assert!(r.targets.is_empty());
    assert_eq!(e.seen.len(), 0);
    let unsigned = Envelope::new(b"T".to_vec(), peer(9), b"y".to_vec(), None);
    let r = e.on_inbound(&unsigned, &peer(1), true, 3);
    assert!(r.event.is_none());
    assert_eq!(e.seen.len(), 0);
    let good = Envelope::new(b"T".to_vec(), peer(9), b"x".to_vec(), Some(vec![1, 2]));
    let r = e.on_inbound(&good, &peer(1), true, 4);
    assert!(r.event.is_some());
    assert_eq!(ids(&r.targets), vec![vec![2u8]]);
}

#[test]
fn permissive_mode_takes_unsigned_and_refuses_bad_signature() {
    let strategy = Strategy::Mesh { validation: ValidationMode::Permissive, degree: 4 };
    let mut e = GossipEngine::new(peer(0), strategy, 16);
    let unsigned = Envelope::new(b"T".to_vec(), peer(9), b"a".to_vec(), None);
    assert!(e.on_inbound(&unsigned, &peer(1), false, 1).event.is_some());
    let bad = Envelope::new(b"T".to_vec(), peer(9), b"b".to_vec(), Some(vec![0]));
    assert!(e.on_inbound(&bad, &peer(1), false, 1).event.is_none());
}

#[test]
fn unchecked_mode_takes_everything_new() {
    let strategy = Strategy::Mesh { validation: ValidationMode::Unchecked, degree: 4 };
    let mut e = GossipEngine::new(peer(0), strategy, 16);
    let bad = Envelope::new(b"T".to_vec(), peer(9), b"b".to_vec(), Some(vec![0]));
    assert!(e.on_inbound(&bad, &peer(1), false, 1).event.is_some());
}

#[test]
fn mesh_is_bounded_and_heartbeat_covers_the_rest() {
    let strategy = Strategy::Mesh { validation: ValidationMode::Unchecked, degree: 2 };
    let mut e = GossipEngine::new(peer(0), strategy, 16);
    for p in [1u8, 2, 3, 4] {
        e.topics.add_peer(&b"T".to_vec(), &peer(p));
    }
    let out = e.publish(b"T".to_vec(), b"M".to_vec(), None, 1);
    assert_eq!(ids(&out.targets), vec![vec![1u8], vec![2u8]]);
    let beat = e.heartbeat(&b"T".to_vec());
    assert_eq!(ids(&beat.peers), vec![vec![3u8], vec![4u8]]);
    assert_eq!(beat.ids, vec![content_id(&b"M".to_vec())]);
    assert_eq!(e.missing(&vec![7, content_id(&b"M".to_vec()), 8]), vec![7, 8]);
}

#[test]
fn flood_heartbeat_names_nobody() {
    let e = flood_with(b"T", &[1, 2]);
    assert!(e.heartbeat(&b"T".to_vec()).peers.is_empty());
}

#[test]
fn full_cache_forgets_the_oldest() {
    let mut e = GossipEngine::new(peer(0), Strategy::Flood, 2);
    let a = Envelope::new(b"T".to_vec(), peer(9), b"a".to_vec(), None);
    let b = Envelope::new(b"T".to_vec(), peer(9), b"b".to_vec(), None);
    let c = Envelope::new(b"T".to_vec(), peer(9), b"c".to_vec(), None);
    assert!(e.on_inbound(&a, &peer(1), false, 1).event.is_some());
    assert!(e.on_inbound(&b, &peer(1), false, 2).event.is_some());
    assert!(e.on_inbound(&c, &peer(1), false, 3).event.is_some());
    assert_eq!(e.seen.len(), 2);
    assert!(!e.seen.contains(a.content_id));
    assert!(e.seen.contains(b.content_id));
    assert!(e.seen.contains(c.content_id));
}
