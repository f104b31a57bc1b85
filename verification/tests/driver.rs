use gossip::address::{parse_address, AddressParseError};
use gossip::bridge::{BoundedQueue, Bridge, BridgeCommand, BridgeEvent, QueueError, BRIDGE_CAPACITY};
use gossip::codec::{decode, encode, PeerId};
use gossip::discovery::DiscoveredVia;
use gossip::driver::{Action, NetEvent, Node};
use gossip::engine::{Strategy, ValidationMode};
use gossip::identity::{checked_signature, envelope_verifies, sign_payload};
use libp2p::identity::Keypair;

fn peer(n: u8) -> PeerId {
    PeerId::new(vec![n])
}

fn node(n: u8) -> Node {
    Node::new(peer(n), Strategy::Flood, 64, 120)
}

#[test]
fn two_nodes_exchange_one_message() {
    let mut one = node(1);
    let mut two = node(2);
    let e = two.handle_event(NetEvent::Beacon { from: peer(1), address: vec![] }, 0);
    assert_eq!(e.events.len(), 1);
    let e = one.handle_event(NetEvent::Beacon { from: peer(2), address: vec![] }, 0);
    assert!(matches!(&e.events[0], BridgeEvent::PeerDiscovered { id } if id.bytes == vec![2u8]));
    one.handle_event(NetEvent::Joined { peer: peer(2), topic: b"chat".to_vec() }, 0);
    two.handle_event(NetEvent::Joined { peer: peer(1), topic: b"chat".to_vec() }, 0);
    let cmd = BridgeCommand::Send { topic: b"chat".to_vec(), payload: b"hello".to_vec() };
    let actions = one.handle_command(cmd, 1).unwrap();
    assert_eq!(actions.len(), 1);
    let bytes = match &actions[0] {
        Action::Send { to, bytes } => {
            assert_eq!(to.bytes, vec![2u8]);
            bytes.clone()
        }
        _ => panic!("not a send"),
    };
    let got = two.handle_event(
        NetEvent::Inbound { from: peer(1), bytes: bytes.clone() },
        2,
    );
    assert_eq!(got.events.len(), 1);
    match &got.events[0] {
        BridgeEvent::MessageReceived { sender, topic, payload } => {
            assert_eq!(sender.bytes, vec![1u8]);
            assert_eq!(topic, &b"chat".to_vec());
            assert_eq!(payload, &b"hello".to_vec());
        }
        _ => panic!("not a message"),
    }
    assert!(got.actions.is_empty());
    let again = two.handle_event(NetEvent::Inbound { from: peer(1), bytes }, 3);
    assert!(again.events.is_empty());
    assert!(again.actions.is_empty());
}

#[test]
fn forwarded_bytes_are_the_bytes_received() {
    let mut one = node(1);
    let mut two = node(2);
    one.on_joined(&peer(2), &b"t".to_vec());
    two.on_joined(&peer(1), &b"t".to_vec());
    two.on_joined(&peer(3), &b"t".to_vec());
    let actions = one.send(b"t".to_vec(), b"m".to_vec(), 1);
    let bytes = match &actions[0] {
        Action::Send { bytes, .. } => bytes.clone(),
        _ => panic!("not a send"),
    };
    assert_eq!(decode(&bytes).unwrap().payload, b"m".to_vec());
    let got = two.on_wire(&peer(1), &bytes, 2);
    assert_eq!(got.actions.len(), 1);
    match &got.actions[0] {
        Action::Send { to, bytes: passed } => {
            assert_eq!(to.bytes, vec![3u8]);
            assert_eq!(passed, &bytes);
        }
        _ => panic!("not a send"),
    }
}

#[test]
fn invalid_address_is_refused_and_changes_nothing() {
    let mut n = node(1);
    n.handle_event(NetEvent::Beacon { from: peer(2), address: vec![] }, 0);
    n.on_joined(&peer(2), &b"chat".to_vec());
    let r = n.handle_command(
        BridgeCommand::AddPeer { address: String::from("not-a-valid-address") },
        1,
    );
    assert!(matches!(r, Err(AddressParseError::Invalid)));
    assert_eq!(n.peers.len(), 1);
    assert_eq!(n.engine.partial_view(&b"chat".to_vec()).len(), 1);
    assert_eq!(n.engine.topics.topics.len(), 1);
}

#[test]
fn valid_address_gives_a_dial() {
    let mut n = node(1);
    let r = n
        .handle_command(BridgeCommand::AddPeer { address: String::from("/ip4/127.0.0.1/tcp/4001") }, 1)
        .unwrap();
    assert_eq!(r.len(), 1);
    match &r[0] {
        Action::Dial { address } => {
            assert_eq!(address, &vec![4u8, 127, 0, 0, 1, 6, 0x0f, 0xa1]);
        }
        _ => panic!("not a dial"),
    }
    assert_eq!(n.peers.len(), 0);
}

#[test]
fn address_parser_is_the_multiaddr_parser() {
    assert_eq!(parse_address("/ip4/10.0.0.1/tcp/80"), Ok(vec![4u8, 10, 0, 0, 1, 6, 0, 80]));
    assert_eq!(parse_address("/ip4/10.0.0.1/nonsense"), Err(AddressParseError::Invalid));
    assert_eq!(parse_address("ip4/10.0.0.1"), Err(AddressParseError::Invalid));
    assert_eq!(parse_address(""), Ok(Vec::new()));
}

#[test]
fn subscribe_command_takes_up_the_topic() {
    let mut n = node(1);
    let r = n.handle_command(BridgeCommand::Subscribe { topic: b"chat".to_vec() }, 0).unwrap();
    assert!(r.is_empty());
    assert!(n.engine.topics.is_subscribed(&b"chat".to_vec()));
    n.handle_command(BridgeCommand::Subscribe { topic: b"chat".to_vec() }, 0).unwrap();
    assert_eq!(n.engine.topics.topics.len(), 1);
}

#[test]
fn malformed_bytes_are_dropped() {
    let mut n = node(1);
    n.on_joined(&peer(2), &b"chat".to_vec());
    let got = n.handle_event(NetEvent::Inbound { from: peer(2), bytes: vec![1, 2, 3] }, 1);
    assert!(got.events.is_empty());
    assert!(got.actions.is_empty());
    assert_eq!(n.engine.seen.len(), 0);
}

#[test]
fn sweep_removes_expired_peer_from_views() {
    let mut n = node(1);
    n.handle_event(NetEvent::Beacon { from: peer(2), address: vec![] }, 0);
    n.handle_event(NetEvent::Beacon { from: peer(3), address: vec![] }, 100);
    n.on_joined(&peer(2), &b"chat".to_vec());
    n.on_joined(&peer(3), &b"chat".to_vec());
    let out = n.handle_event(NetEvent::SweepTick, 130);
    assert_eq!(out.events.len(), 1);
    assert!(matches!(&out.events[0], BridgeEvent::PeerExpired { id } if id.bytes == vec![2u8]));
    let view = n.engine.partial_view(&b"chat".to_vec());
    assert_eq!(view.len(), 1);
    assert_eq!(view[0].bytes, vec![3u8]);
    assert!(n.handle_event(NetEvent::SweepTick, 130).events.is_empty());
}

#[test]
fn dialed_peer_enters_the_table_once() {
    let mut n = node(1);
    let out = n.handle_event(NetEvent::Dialed { peer: peer(5), address: vec![4, 1] }, 3);
    assert!(matches!(&out.events[0], BridgeEvent::PeerDiscovered { id } if id.bytes == vec![5u8]));
    assert_eq!(n.peers.peers[0].via, DiscoveredVia::Dial);
    let out = n.handle_event(NetEvent::Beacon { from: peer(5), address: vec![9] }, 4);
    assert!(out.events.is_empty());
    assert_eq!(n.peers.peers[0].via, DiscoveredVia::Dial);
    assert_eq!(n.peers.peers[0].address, vec![4u8, 1]);
    assert_eq!(n.peers.last_seen(&peer(5)), Some(4));
}

#[test]
fn announce_tick_asks_for_a_beacon() {
    let mut n = node(7);
    let out = n.handle_event(NetEvent::AnnounceTick, 0);
    assert!(out.events.is_empty());
    assert_eq!(out.actions.len(), 1);
    assert!(matches!(&out.actions[0], Action::Announce { id } if id.bytes == vec![7u8]));
}

#[test]
fn listener_ready_is_forwarded() {
    let mut n = node(1);
    let out = n.handle_event(NetEvent::ListenerReady { listening: String::from("/ip4/0.0.0.0/tcp/1") }, 0);
    assert!(matches!(&out.events[0], BridgeEvent::ListenReady { address } if address == "/ip4/0.0.0.0/tcp/1"));
}

#[test]
fn full_command_queue_hands_the_command_back() {
    let mut q: BoundedQueue<u32> = BoundedQueue::new(2);
    assert!(q.try_push(1).is_ok());
    assert!(q.try_push(2).is_ok());
    assert!(q.is_full());
    match q.try_push(3) {
        Err(refused) => {
            assert_eq!(refused.reason, QueueError::Full);
            assert_eq!(refused.item, 3);
        }
        Ok(_) => panic!("a full queue took an item"),
    }
    assert_eq!(q.try_pop(), Some(1));
    assert!(q.try_push(3).is_ok());
    assert_eq!(q.try_pop(), Some(2));
    assert_eq!(q.try_pop(), Some(3));
    assert_eq!(q.try_pop(), None);
}

#[test]
fn closed_queue_takes_nothing_more() {
    let mut q: BoundedQueue<u32> = BoundedQueue::new(2);
    assert!(q.try_push(1).is_ok());
    q.close();
    match q.try_push(2) {
        Err(refused) => assert_eq!(refused.reason, QueueError::Closed),
        Ok(_) => panic!("a closed queue took an item"),
    }
    assert_eq!(q.try_pop(), Some(1));
}

#[test]
fn bridge_has_two_queues_of_the_given_length() {
    let mut b = Bridge::new(BRIDGE_CAPACITY);
    assert_eq!(b.commands.capacity, 128);
    assert_eq!(b.events.capacity, 128);
    for i in 0..128u8 {
        assert!(b.commands.try_push(BridgeCommand::Subscribe { topic: vec![i] }).is_ok());
    }
    assert!(b.commands.try_push(BridgeCommand::Subscribe { topic: vec![] }).is_err());
    assert!(b.events.try_pop().is_none());
}

fn strict() -> Strategy {
    Strategy::Mesh { validation: ValidationMode::StrictSigned, degree: 8 }
}

fn signed_hello(key: &Keypair) -> Vec<u8> {
    let mut one = Node::with_key(key.clone(), strict(), 64, 120);
    assert_eq!(one.engine.local.bytes, key.public().encode_protobuf());
    one.on_joined(&peer(2), &b"chat".to_vec());
    let actions = one.send(b"chat".to_vec(), b"hello".to_vec(), 1);
    assert_eq!(actions.len(), 1);
    match &actions[0] {
        Action::Send { bytes, .. } => bytes.clone(),
        _ => panic!("not a send"),
    }
}

#[test]
fn signed_message_passes_strict_validation() {
    let key = Keypair::generate_ed25519();
    let bytes = signed_hello(&key);
    let envelope = decode(&bytes).unwrap();
    assert_eq!(envelope.sender.bytes, key.public().encode_protobuf());
    assert!(envelope.signature.is_some());
    assert!(envelope_verifies(&envelope));
    let mut two = Node::new(peer(2), strict(), 64, 120);
    two.on_joined(&peer(3), &b"chat".to_vec());
    let got = two.on_wire(&peer(1), &bytes, 2);
    assert_eq!(got.events.len(), 1);
    match &got.events[0] {
        BridgeEvent::MessageReceived { sender, payload, .. } => {
            assert_eq!(sender.bytes, key.public().encode_protobuf());
            assert_eq!(payload, &b"hello".to_vec());
        }
        _ => panic!("not a message"),
    }
    assert_eq!(got.actions.len(), 1);
}

#[test]
fn invalid_signature_is_dropped_in_strict_mode() {
    let key = Keypair::generate_ed25519();
    let bytes = signed_hello(&key);
    let mut tampered = decode(&bytes).unwrap();
    let mut signature = tampered.signature.take().unwrap();
    signature[0] ^= 1;
    tampered.signature = Some(signature);
    assert!(!envelope_verifies(&tampered));
    let mut two = Node::new(peer(2), strict(), 64, 120);
    two.on_joined(&peer(3), &b"chat".to_vec());
    let got = two.on_wire(&peer(1), &encode(&tampered), 2);
    assert!(got.events.is_empty());
    assert!(got.actions.is_empty());
    assert_eq!(two.engine.seen.len(), 0);
    let got = two.on_wire(&peer(1), &bytes, 3);
    assert_eq!(got.events.len(), 1);
}

#[test]
fn signature_of_another_key_is_dropped_in_strict_mode() {
    let key = Keypair::generate_ed25519();
    let other = Keypair::generate_ed25519();
    let mut forged = decode(&signed_hello(&key)).unwrap();
    forged.signature =
        sign_payload(&other, &other.public().encode_protobuf(), &b"hello".to_vec());
    assert!(forged.signature.is_some());
    let mut two = Node::new(peer(2), strict(), 64, 120);
    let got = two.on_wire(&peer(1), &encode(&forged), 2);
    assert!(got.events.is_empty());
    assert!(got.actions.is_empty());
}

#[test]
fn unsigned_message_is_dropped_in_strict_mode() {
    let mut one = Node::new(peer(1), strict(), 64, 120);
    one.on_joined(&peer(2), &b"chat".to_vec());
    let actions = one.send(b"chat".to_vec(), b"hello".to_vec(), 1);
    let bytes = match &actions[0] {
        Action::Send { bytes, .. } => bytes.clone(),
        _ => panic!("not a send"),
    };
    let mut two = Node::new(peer(2), strict(), 64, 120);
    let got = two.on_wire(&peer(1), &bytes, 2);
    assert!(got.events.is_empty());
    assert!(got.actions.is_empty());
}

#[test]
fn events_that_do_not_fit_are_handed_back() {
    let mut q: BoundedQueue<u32> = BoundedQueue::new(3);
    assert!(q.try_push(1).is_ok());
    let rest = q.push_all(vec![2, 3, 4, 5]);
    assert_eq!(rest, vec![4, 5]);
    assert_eq!(q.items, vec![1, 2, 3]);
    assert_eq!(q.try_pop(), Some(1));
    assert_eq!(q.push_all(rest), vec![5]);
    q.close();
    assert_eq!(q.try_pop(), Some(2));
    assert_eq!(q.push_all(vec![9]), vec![9]);
    assert_eq!(q.items, vec![3, 4]);
}

#[test]
fn one_command_is_drained_per_step() {
    let mut n = node(1);
    let mut b = Bridge::new(4);
    assert!(n.drain_command(&mut b, 0).is_none());
    assert!(b.commands.try_push(BridgeCommand::Subscribe { topic: b"a".to_vec() }).is_ok());
    assert!(b.commands.try_push(BridgeCommand::AddPeer { address: String::from("nope") }).is_ok());
    let r = n.drain_command(&mut b, 0);
    assert!(matches!(r, Some(Ok(ref actions)) if actions.is_empty()));
    assert!(n.engine.topics.is_subscribed(&b"a".to_vec()));
    assert_eq!(b.commands.len(), 1);
    let r = n.drain_command(&mut b, 0);
    assert!(matches!(r, Some(Err(AddressParseError::Invalid))));
    assert!(n.drain_command(&mut b, 0).is_none());
    assert_eq!(b.events.len(), 0);
}

#[test]
fn signature_is_kept_only_under_the_signer_identity() {
    let key = Keypair::generate_ed25519();
    let other = Keypair::generate_ed25519();
    let identity = key.public().encode_protobuf();
    let payload = b"hello".to_vec();
    let signature = sign_payload(&key, &identity, &payload).unwrap();
    assert_eq!(signature, key.sign(&payload).unwrap());
    assert!(key.public().verify(&payload, &signature));
    assert_eq!(sign_payload(&key, &other.public().encode_protobuf(), &payload), None);
    assert_eq!(sign_payload(&key, &vec![1, 2, 3], &payload), None);
}

#[test]
fn checked_signature_drops_what_does_not_verify() {
    let key = Keypair::generate_ed25519();
    let identity = key.public().encode_protobuf();
    let payload = b"hello".to_vec();
    let good = key.sign(&payload).unwrap();
    assert_eq!(checked_signature(&identity, &payload, Ok(good.clone())), Some(good.clone()));
    assert_eq!(checked_signature(&identity, &b"other".to_vec(), Ok(good.clone())), None);
    let mut bad = good;
    bad[3] ^= 0x40;
    assert_eq!(checked_signature(&identity, &payload, Ok(bad)), None);
    assert_eq!(checked_signature(&identity, &payload, Ok(Vec::new())), None);
}
