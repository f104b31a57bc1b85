//! One node: the decisions of its loop. Each command of the application and
//! each event of the network is turned into the node's next state, the
//! events for the application and the actions for the transport. The loop
//! itself, which waits and sends, is the caller's.

use vstd::prelude::*;
use crate::address::{parse_address, spec_multiaddr, AddressParseError};
use crate::bridge::{events_view, Bridge, BridgeCommand, BridgeEvent, BridgeEventView};
use crate::bytes::copy_bytes;
use crate::codec::{
    bytes_view,
    decode,
    encode,
    spec_content_id,
    spec_decode,
    spec_encode,
    EnvelopeView,
    PeerId,
};
use crate::identity::{
    envelope_verifies,
    public_bytes,
    sign_payload,
    spec_own_signature,
    spec_verifies,
};
use crate::discovery::{
    spec_alive,
    spec_expiries,
    spec_gone,
    spec_knows,
    spec_refreshed,
    DiscoveredVia,
    PeerTable,
    PeerView,
};
use crate::engine::{spec_accepts, spec_seen_after, GossipEngine, Strategy};
use crate::seen::{spec_remember, spec_seen, SeenEntry};
use crate::topics::{distinct, ids_of, spec_without};

verus! {

/// What the network brings.
pub enum NetEvent {
    /// The peer `from` announced itself from `address`.
    Beacon { from: PeerId, address: Vec<u8> },
    /// A dial to the peer `peer` at `address` succeeded.
    Dialed { peer: PeerId, address: Vec<u8> },
    /// It is time to announce this node on the local network.
    AnnounceTick,
    /// It is time to look for peers that fell silent.
    SweepTick,
    /// The peer `peer` takes part in `topic`.
    Joined { peer: PeerId, topic: Vec<u8> },
    /// The bytes of an envelope arrived from `from`.
    Inbound { from: PeerId, bytes: Vec<u8> },
    /// The transport listens on the address that `listening` spells.
    ListenerReady { listening: String },
}

/// What the transport is to do.
pub enum Action {
    /// Send `bytes` to the peer `to`.
    Send { to: PeerId, bytes: Vec<u8> },
    /// Dial the peer at `address`.
    Dial { address: Vec<u8> },
    /// Broadcast a beacon for the node `id` on the local network.
    Announce { id: PeerId },
}

/// An action as mathematical values.
pub ghost enum ActionView {
    Send { to: Seq<u8>, bytes: Seq<u8> },
    Dial { address: Seq<u8> },
    Announce { id: Seq<u8> },
}

impl View for Action {
    type V = ActionView;

    open spec fn view(&self) -> ActionView {
        match self {
            Action::Send { to, bytes } => ActionView::Send { to: to@, bytes: bytes@ },
            Action::Dial { address } => ActionView::Dial { address: address@ },
            Action::Announce { id } => ActionView::Announce { id: id@ },
        }
    }
}

/// The views of a list of actions, in its order.
pub open spec fn actions_view(actions: Seq<Action>) -> Seq<ActionView> {
    Seq::new(actions.len(), |i: int| actions[i]@)
}

/// One send of `bytes` to each of `targets`, in their order.
pub open spec fn spec_sends(targets: Seq<Seq<u8>>, bytes: Seq<u8>) -> Seq<ActionView> {
    Seq::new(targets.len(), |i: int| ActionView::Send { to: targets[i], bytes })
}

/// Handing a message to a list of peers in which nobody stands twice sends
/// it exactly once to each of them, and to nobody else.
pub proof fn lemma_fan_out(targets: Seq<Seq<u8>>, bytes: Seq<u8>, peer: Seq<u8>)
    requires
        distinct(targets),
    ensures
        spec_sends(targets, bytes).len() == targets.len(),
        targets.contains(peer) ==> exists|i: int|
            0 <= i < targets.len() && #[trigger] spec_sends(targets, bytes)[i] == (ActionView::Send {
                to: peer,
                bytes,
            }) && forall|j: int|
                0 <= j < targets.len() && #[trigger] spec_sends(targets, bytes)[j] == (
                ActionView::Send { to: peer, bytes }) ==> j == i,
        !targets.contains(peer) ==> forall|j: int|
            0 <= j < targets.len() ==> #[trigger] spec_sends(targets, bytes)[j] != (ActionView::Send {
                to: peer,
                bytes,
            }),
{
    let sends = spec_sends(targets, bytes);
    if targets.contains(peer) {
        let i = choose|i: int| 0 <= i < targets.len() && targets[i] == peer;
        assert(sends[i] == (ActionView::Send { to: peer, bytes }));
        assert forall|j: int|
            0 <= j < targets.len() && #[trigger] sends[j] == (ActionView::Send {
                to: peer,
                bytes,
            }) implies j == i by {
            assert(targets[j] == peer);
            if j < i {
                assert(targets[j] != targets[i]);
            }
            if i < j {
                assert(targets[i] != targets[j]);
            }
        }
    } else {
        assert forall|j: int| 0 <= j < targets.len() implies #[trigger] sends[j] != (
        ActionView::Send { to: peer, bytes }) by {
            if sends[j] == (ActionView::Send { to: peer, bytes }) {
                assert(targets[j] == peer);
            }
        }
    }
}

/// `ids` without each of `gone`.
pub open spec fn spec_without_all(ids: Seq<Seq<u8>>, gone: Seq<Seq<u8>>) -> Seq<Seq<u8>>
    decreases gone.len(),
{
    if gone.len() == 0 {
        ids
    } else {
        spec_without(spec_without_all(ids, gone.drop_last()), gone.last())
    }
}

/// What one step of the loop gives: events for the application and actions
/// for the transport.
pub struct Effects {
    pub events: Vec<BridgeEvent>,
    pub actions: Vec<Action>,
}

/// One send of `bytes` to each of `targets`.
pub fn sends_to(targets: &Vec<PeerId>, bytes: &Vec<u8>) -> (r: Vec<Action>)
    ensures
        actions_view(r@) == spec_sends(ids_of(targets@), bytes@),
{
    let mut out: Vec<Action> = Vec::new();
    let mut i: usize = 0;
    while i < targets.len()
        invariant
            0 <= i <= targets@.len(),
            out@.len() == i,
            forall|j: int|
                0 <= j < i ==> (#[trigger] out@[j])@ == (ActionView::Send {
                    to: targets@[j]@,
                    bytes: bytes@,
                }),
        decreases targets@.len() - i,
    {
        out.push(Action::Send { to: targets[i].copy(), bytes: copy_bytes(bytes) });
        i += 1;
    }
    assert(actions_view(out@) =~= spec_sends(ids_of(targets@), bytes@));
    out
}

/// The action for an address that was parsed, or the error for one that
/// was refused.
pub fn dial(parsed: Result<Vec<u8>, AddressParseError>) -> (r: Result<Vec<Action>, AddressParseError>)
    ensures
        match parsed {
            Ok(b) => r.is_ok() && actions_view(r.unwrap()@) == seq![
                ActionView::Dial { address: b@ },
            ],
            Err(e) => r == Err::<Vec<Action>, AddressParseError>(e),
        },
{
    match parsed {
        Ok(b) => {
            let mut out: Vec<Action> = Vec::new();
            out.push(Action::Dial { address: b });
            assert(actions_view(out@) =~= seq![ActionView::Dial { address: b@ }]);
            Ok(out)
        },
        Err(e) => Err(e),
    }
}

/// A node: its engine, its table of peers, and the key with which it signs
/// what it publishes, if it has one.
pub struct Node {
    pub engine: GossipEngine,
    pub peers: PeerTable,
    pub key: Option<libp2p::identity::Keypair>,
}

/// What holds after a payload was published.
pub open spec fn spec_sent(
    pre: Node,
    post: Node,
    topic: Seq<u8>,
    payload: Seq<u8>,
    signature: Option<Seq<u8>>,
    now: u64,
    actions: Seq<Action>,
) -> bool {
    let id = spec_content_id(payload);
    let e = EnvelopeView { content_id: id, topic, sender: pre.engine.local@, payload, signature };
    &&& post.wf()
    &&& post.key == pre.key
    &&& post.peers == pre.peers
    &&& post.engine.local == pre.engine.local
    &&& post.engine.strategy == pre.engine.strategy
    &&& post.engine.topics == pre.engine.topics
    &&& post.engine.seen.capacity == pre.engine.seen.capacity
    &&& actions_view(actions) == spec_sends(pre.engine.spec_partial_view(topic), spec_encode(e))
    &&& post.engine.seen@ == if spec_seen(pre.engine.seen@, id) {
        pre.engine.seen@
    } else {
        spec_remember(
            pre.engine.seen@,
            pre.engine.seen.capacity as int,
            SeenEntry { id, first_seen: now },
        )
    }
}

/// What holds after a topic was taken up.
pub open spec fn spec_took_up(pre: Node, post: Node, topic: Seq<u8>) -> bool {
    &&& post.wf()
    &&& post.key == pre.key
    &&& post.peers == pre.peers
    &&& post.engine.local == pre.engine.local
    &&& post.engine.strategy == pre.engine.strategy
    &&& post.engine.seen == pre.engine.seen
    &&& post.engine.topics.spec_subscribed(topic)
    &&& forall|other: Seq<u8>|
        other != topic ==> post.engine.topics.spec_subscribed(other)
            == pre.engine.topics.spec_subscribed(other)
    &&& forall|any: Seq<u8>|
        post.engine.topics.spec_peers_for(any) == pre.engine.topics.spec_peers_for(any)
}

/// What holds after a peer joined a topic.
pub open spec fn spec_joined(pre: Node, post: Node, peer: Seq<u8>, topic: Seq<u8>) -> bool {
    &&& post.wf()
    &&& post.key == pre.key
    &&& post.peers == pre.peers
    &&& post.engine.local == pre.engine.local
    &&& post.engine.strategy == pre.engine.strategy
    &&& post.engine.seen == pre.engine.seen
    &&& post.engine.topics.spec_subscribed(topic)
    &&& forall|other: Seq<u8>|
        other != topic ==> post.engine.topics.spec_subscribed(other)
            == pre.engine.topics.spec_subscribed(other) && post.engine.topics.spec_peers_for(other)
            == pre.engine.topics.spec_peers_for(other)
    &&& post.engine.topics.spec_peers_for(topic) == if pre.engine.topics.spec_peers_for(
        topic,
    ).contains(peer) {
        pre.engine.topics.spec_peers_for(topic)
    } else {
        pre.engine.topics.spec_peers_for(topic).push(peer)
    }
}

/// What holds after a peer was heard of, by its beacon or by a dial.
pub open spec fn spec_heard(
    pre: Node,
    post: Node,
    from: Seq<u8>,
    address: Seq<u8>,
    now: u64,
    via: DiscoveredVia,
    out: Effects,
) -> bool {
    &&& post.wf()
    &&& post.key == pre.key
    &&& post.engine == pre.engine
    &&& post.peers.ttl == pre.peers.ttl
    &&& out.actions@.len() == 0
    &&& if spec_knows(pre.peers@, from) {
        &&& out.events@.len() == 0
        &&& post.peers@ == spec_refreshed(pre.peers@, from, now)
    } else {
        &&& events_view(out.events@) == seq![BridgeEventView::PeerDiscovered { id: from }]
        &&& post.peers@ == pre.peers@.push(
            PeerView { id: from, address, last_seen: now, via },
        )
    }
}

/// What holds after a sweep.
pub open spec fn spec_swept(pre: Node, post: Node, now: u64, out: Effects) -> bool {
    let gone = spec_gone(pre.peers@, now, pre.peers.ttl);
    &&& post.wf()
    &&& post.key == pre.key
    &&& post.peers.ttl == pre.peers.ttl
    &&& post.peers@ == spec_alive(pre.peers@, now, pre.peers.ttl)
    &&& events_view(out.events@) == spec_expiries(gone)
    &&& out.actions@.len() == 0
    &&& post.engine.local == pre.engine.local
    &&& post.engine.strategy == pre.engine.strategy
    &&& post.engine.seen == pre.engine.seen
    &&& forall|any: Seq<u8>|
        post.engine.topics.spec_subscribed(any) == pre.engine.topics.spec_subscribed(any)
    &&& forall|any: Seq<u8>|
        post.engine.topics.spec_peers_for(any) == spec_without_all(
            pre.engine.topics.spec_peers_for(any),
            gone,
        )
}

/// What holds after bytes arrived from a peer.
pub open spec fn spec_arrived(
    pre: Node,
    post: Node,
    from: Seq<u8>,
    bytes: Seq<u8>,
    now: u64,
    out: Effects,
) -> bool {
    &&& post.wf()
    &&& post.key == pre.key
    &&& post.peers == pre.peers
    &&& post.engine.local == pre.engine.local
    &&& post.engine.strategy == pre.engine.strategy
    &&& post.engine.topics == pre.engine.topics
    &&& post.engine.seen.capacity == pre.engine.seen.capacity
    &&& match spec_decode(bytes) {
        None => {
            &&& post.engine.seen@ == pre.engine.seen@
            &&& out.events@.len() == 0
            &&& out.actions@.len() == 0
        },
        Some(e) => {
            &&& post.engine.seen@ == spec_seen_after(
                pre.engine.strategy,
                pre.engine.seen@,
                pre.engine.seen.capacity as int,
                e,
                spec_verifies(e),
                now,
            )
            &&& if spec_accepts(pre.engine.strategy, pre.engine.seen@, e, spec_verifies(e)) {
                &&& events_view(out.events@) == seq![
                    BridgeEventView::MessageReceived {
                        sender: e.sender,
                        topic: e.topic,
                        payload: e.payload,
                    },
                ]
                &&& actions_view(out.actions@) == spec_sends(
                    spec_without(pre.engine.spec_partial_view(e.topic), from),
                    bytes,
                )
            } else {
                &&& out.events@.len() == 0
                &&& out.actions@.len() == 0
            }
        },
    }
}

/// What holds after a command of the application was carried out.
pub open spec fn spec_commanded(
    pre: Node,
    post: Node,
    cmd: BridgeCommand,
    now: u64,
    r: Result<Vec<Action>, AddressParseError>,
) -> bool {
    match cmd {
        BridgeCommand::Send { topic, payload } => r.is_ok() && (exists|
            signature: Option<Seq<u8>>,
        |
            spec_sent(pre, post, topic@, payload@, signature, now, r.unwrap()@)
                && spec_own_signature(pre.engine.local@, payload@, signature)) && (
        pre.key.is_none() ==> spec_sent(pre, post, topic@, payload@, None, now, r.unwrap()@)),
        BridgeCommand::AddPeer { address } => post == pre && (match spec_multiaddr(address@) {
            Some(b) => r.is_ok() && actions_view(r.unwrap()@) == seq![
                ActionView::Dial { address: b },
            ],
            None => r == Err::<Vec<Action>, AddressParseError>(AddressParseError::Invalid),
        }) && (address@.len() > 0 && address@[0] != '/' ==> r.is_err()),
        BridgeCommand::Subscribe { topic } => r.is_ok() && r.unwrap()@.len() == 0 && spec_took_up(
            pre,
            post,
            topic@,
        ),
    }
}

impl Node {
    pub open spec fn wf(&self) -> bool {
        self.engine.wf() && self.peers.wf()
    }

    /// Takes at most one command that waits on the bridge, without waiting
    /// for one, and carries it out. With no command waiting nothing happens.
    pub fn drain_command(&mut self, bridge: &mut Bridge, now: u64) -> (r: Option<
        Result<Vec<Action>, AddressParseError>,
    >)
        requires
            old(self).wf(),
            old(bridge).wf(),
        ensures
            final(self).wf(),
            final(bridge).wf(),
            final(bridge).events == old(bridge).events,
            final(bridge).commands.capacity == old(bridge).commands.capacity,
            final(bridge).commands.closed == old(bridge).commands.closed,
            old(bridge).commands@.len() == 0 ==> r.is_none() && *final(self) == *old(self)
                && final(bridge).commands@ == old(bridge).commands@,
            old(bridge).commands@.len() > 0 ==> r.is_some() && final(bridge).commands@ == old(bridge).commands@.drop_first() && spec_commanded(
                *old(self),
                *final(self),
                old(bridge).commands@[0],
                now,
                r.unwrap(),
            ),
    {
        match bridge.commands.try_pop() {
            Some(cmd) => Some(self.handle_command(cmd, now)),
            None => None,
        }
    }

    /// A node that knows no peer and follows no topic, and signs with `key`
    /// under the identity that goes with it.
    pub fn with_key(
        key: libp2p::identity::Keypair,
        strategy: Strategy,
        seen_capacity: usize,
        ttl: u64,
    ) -> (n: Node)
        requires
            seen_capacity >= 1,
        ensures
            n.wf(),
            n.key == Some(key),
            n.engine.strategy == strategy,
            n.engine.seen@.len() == 0,
            n.engine.seen.capacity == seen_capacity,
            n.peers@.len() == 0,
            n.peers.ttl == ttl,
            forall|name: Seq<u8>| !n.engine.topics.spec_subscribed(name),
    {
        let local = PeerId::new(public_bytes(&key));
        Node {
            engine: GossipEngine::new(local, strategy, seen_capacity),
            peers: PeerTable::new(ttl),
            key: Some(key),
        }
    }

    /// A node that knows no peer and follows no topic, and signs nothing.
    pub fn new(local: PeerId, strategy: Strategy, seen_capacity: usize, ttl: u64) -> (n: Node)
        requires
            seen_capacity >= 1,
        ensures
            n.wf(),
            n.key.is_none(),
            n.engine.local@ == local@,
            n.engine.strategy == strategy,
            n.engine.seen@.len() == 0,
            n.engine.seen.capacity == seen_capacity,
            n.peers@.len() == 0,
            n.peers.ttl == ttl,
            forall|name: Seq<u8>| !n.engine.topics.spec_subscribed(name),
    {
        Node {
            engine: GossipEngine::new(local, strategy, seen_capacity),
            peers: PeerTable::new(ttl),
            key: None,
        }
    }

    /// Publishes `payload` on `topic` with the signature given: one send of
    /// the encoded envelope to each peer of the topic's partial view.
    pub fn send_signed(
        &mut self,
        topic: Vec<u8>,
        payload: Vec<u8>,
        signature: Option<Vec<u8>>,
        now: u64,
    ) -> (r: Vec<Action>)
        requires
            old(self).wf(),
        ensures
            spec_sent(*old(self), *final(self), topic@, payload@, bytes_view(signature), now, r@),
    {
        let out = self.engine.publish(topic, payload, signature, now);
        let bytes = encode(&out.envelope);
        sends_to(&out.targets, &bytes)
    }

    /// Publishes `payload` on `topic`, signed with the node's key if it has
    /// one: one send of the encoded envelope to each peer of the topic's
    /// partial view. A signature that the envelope carries verifies under
    /// the node's identity; where the key gave none that does, the envelope
    /// goes unsigned.
    pub fn send(&mut self, topic: Vec<u8>, payload: Vec<u8>, now: u64) -> (r: Vec<Action>)
        requires
            old(self).wf(),
        ensures
            exists|signature: Option<Seq<u8>>|
                spec_sent(*old(self), *final(self), topic@, payload@, signature, now, r@)
                    && spec_own_signature(old(self).engine.local@, payload@, signature),
            old(self).key.is_none() ==> spec_sent(
                *old(self),
                *final(self),
                topic@,
                payload@,
                None,
                now,
                r@,
            ),
    {
        let signature = match &self.key {
            Some(key) => sign_payload(key, &self.engine.local.bytes, &payload),
            None => None,
        };
        let ghost chosen = bytes_view(signature);
        let r = self.send_signed(topic, payload, signature, now);
        assert(spec_sent(*old(self), *self, topic@, payload@, chosen, now, r@)
            && spec_own_signature(old(self).engine.local@, payload@, chosen));
        r
    }

    /// Asks for a dial to the peer at `address`. A text that is no address
    /// is refused. The node stays as it is either way.
    pub fn add_peer(&self, address: &str) -> (r: Result<Vec<Action>, AddressParseError>)
        ensures
            match spec_multiaddr(address@) {
                Some(b) => r.is_ok() && actions_view(r.unwrap()@) == seq![
                    ActionView::Dial { address: b },
                ],
                None => r == Err::<Vec<Action>, AddressParseError>(AddressParseError::Invalid),
            },
            address@.len() > 0 && address@[0] != '/' ==> r.is_err(),
    {
        dial(parse_address(address))
    }

    /// Takes up `topic`; doing so again changes nothing.
    pub fn subscribe(&mut self, topic: &Vec<u8>)
        requires
            old(self).wf(),
        ensures
            spec_took_up(*old(self), *final(self), topic@),
            old(self).engine.topics.spec_subscribed(topic@) ==> final(self).engine.topics.topics@
                == old(self).engine.topics.topics@,
    {
        self.engine.topics.subscribe(topic);
    }

    /// Carries out one command of the application.
    pub fn handle_command(&mut self, cmd: BridgeCommand, now: u64) -> (r: Result<
        Vec<Action>,
        AddressParseError,
    >)
        requires
            old(self).wf(),
        ensures
            final(self).wf(),
            spec_commanded(*old(self), *final(self), cmd, now, r),
    {
        match cmd {
            BridgeCommand::Send { topic, payload } => {
                let ghost wanted = (topic@, payload@);
                let actions = self.send(topic, payload, now);
                proof {
                    let signature = choose|signature: Option<Seq<u8>>|
                        spec_sent(
                            *old(self),
                            *self,
                            wanted.0,
                            wanted.1,
                            signature,
                            now,
                            actions@,
                        ) && spec_own_signature(old(self).engine.local@, wanted.1, signature);
                    assert(spec_sent(
                        *old(self),
                        *self,
                        wanted.0,
                        wanted.1,
                        signature,
                        now,
                        actions@,
                    ) && spec_own_signature(old(self).engine.local@, wanted.1, signature));
                }
                let r: Result<Vec<Action>, AddressParseError> = Ok(actions);
                assert(r.unwrap()@ == actions@);
                r
            },
            BridgeCommand::AddPeer { address } => self.add_peer(address.as_str()),
            BridgeCommand::Subscribe { topic } => {
                self.subscribe(&topic);
                Ok(Vec::new())
            },
        }
    }

    /// Notes that the peer `from` was heard of, by its beacon or by a dial
    /// that succeeded. A peer that is new to the table is reported as
    /// discovered, once; one that the table holds is marked as seen.
    pub fn on_seen(
        &mut self,
        from: &PeerId,
        address: &Vec<u8>,
        now: u64,
        via: DiscoveredVia,
    ) -> (out: Effects)
        requires
            old(self).wf(),
        ensures
            spec_heard(*old(self), *final(self), from@, address@, now, via, out),
    {
        let mut events: Vec<BridgeEvent> = Vec::new();
        match self.peers.observe(from, address, now, via) {
            Some(e) => {
                events.push(e);
                assert(events_view(events@) =~= seq![BridgeEventView::PeerDiscovered { id: from@ }]);
            },
            None => {},
        }
        Effects { events, actions: Vec::new() }
    }

    /// Gives up the peers that fell silent: they leave the table and every
    /// topic, and each is reported as expired, once.
    pub fn on_sweep(&mut self, now: u64) -> (out: Effects)
        requires
            old(self).wf(),
        ensures
            spec_swept(*old(self), *final(self), now, out),
    {
        let events = self.peers.sweep(now);
        let ghost gone = spec_gone(old(self).peers@, now, old(self).peers.ttl);
        let mut i: usize = 0;
        proof {
            assert(events_view(events@).len() == spec_expiries(gone).len());
            assert(gone.take(0).len() == 0);
        }
        while i < events.len()
            invariant
                0 <= i <= events@.len(),
                events@.len() == gone.len(),
                events_view(events@) == spec_expiries(gone),
                self.wf(),
                self.peers@ == spec_alive(old(self).peers@, now, old(self).peers.ttl),
                self.peers.ttl == old(self).peers.ttl,
                self.key == old(self).key,
                self.engine.local == old(self).engine.local,
                self.engine.strategy == old(self).engine.strategy,
                self.engine.seen == old(self).engine.seen,
                forall|any: Seq<u8>|
                    self.engine.topics.spec_subscribed(any) == old(self).engine.topics.spec_subscribed(any),
                forall|any: Seq<u8>|
                    self.engine.topics.spec_peers_for(any) == spec_without_all(
                        old(self).engine.topics.spec_peers_for(any),
                        gone.take(i as int),
                    ),
            decreases events@.len() - i,
        {
            proof {
                assert(events_view(events@)[i as int] == spec_expiries(gone)[i as int]);
                assert(gone.take(i + 1).drop_last() =~= gone.take(i as int));
                assert(gone.take(i + 1).last() == gone[i as int]);
            }
            match &events[i] {
                BridgeEvent::PeerExpired { id } => {
                    self.engine.topics.remove_peer(id);
                },
                _ => {},
            }
            i += 1;
        }
        proof {
            assert(gone.take(gone.len() as int) =~= gone);
        }
        Effects { events, actions: Vec::new() }
    }

    /// Notes that `peer` takes part in `topic`.
    pub fn on_joined(&mut self, peer: &PeerId, topic: &Vec<u8>)
        requires
            old(self).wf(),
        ensures
            spec_joined(*old(self), *final(self), peer@, topic@),
    {
        self.engine.topics.add_peer(topic, peer);
    }

    /// Takes bytes that arrived from the peer `from`. Bytes that are no
    /// envelope are dropped, and so is an envelope that the engine does not
    /// accept, its signature held against its sender's identity. An accepted
    /// one is reported to the application and its bytes are passed on to the
    /// topic's partial view but `from`.
    pub fn on_wire(&mut self, from: &PeerId, bytes: &Vec<u8>, now: u64) -> (out: Effects)
        requires
            old(self).wf(),
        ensures
            spec_arrived(*old(self), *final(self), from@, bytes@, now, out),
    {
        let envelope = match decode(bytes) {
            Ok(e) => e,
            Err(_) => {
                return Effects { events: Vec::new(), actions: Vec::new() };
            },
        };
        let verifies = envelope_verifies(&envelope);
        let inbound = self.engine.on_inbound(&envelope, from, verifies, now);
        let mut events: Vec<BridgeEvent> = Vec::new();
        let actions = sends_to(&inbound.targets, bytes);
        match inbound.event {
            Some(e) => {
                events.push(e);
                assert(events_view(events@) =~= seq![
                    BridgeEventView::MessageReceived {
                        sender: envelope@.sender,
                        topic: envelope@.topic,
                        payload: envelope@.payload,
                    },
                ]);
            },
            None => {
                assert(actions_view(actions@).len() == 0);
            },
        }
        Effects { events, actions }
    }

    /// Carries out one event of the network.
    pub fn handle_event(&mut self, event: NetEvent, now: u64) -> (out: Effects)
        requires
            old(self).wf(),
        ensures
            final(self).wf(),
            match event {
                NetEvent::Beacon { from, address } => spec_heard(
                    *old(self),
                    *final(self),
                    from@,
                    address@,
                    now,
                    DiscoveredVia::Beacon,
                    out,
                ),
                NetEvent::Dialed { peer, address } => spec_heard(
                    *old(self),
                    *final(self),
                    peer@,
                    address@,
                    now,
                    DiscoveredVia::Dial,
                    out,
                ),
                NetEvent::AnnounceTick => *final(self) == *old(self) && out.events@.len() == 0
                    && actions_view(out.actions@) == seq![
                    ActionView::Announce { id: old(self).engine.local@ },
                ],
                NetEvent::SweepTick => spec_swept(*old(self), *final(self), now, out),
                NetEvent::Joined { peer, topic } => spec_joined(
                    *old(self),
                    *final(self),
                    peer@,
                    topic@,
                ) && out.events@.len() == 0 && out.actions@.len() == 0,
                NetEvent::Inbound { from, bytes } => spec_arrived(
                    *old(self),
                    *final(self),
                    from@,
                    bytes@,
                    now,
                    out,
                ),
                NetEvent::ListenerReady { listening } => *final(self) == *old(self) && events_view(
                    out.events@,
                ) == seq![BridgeEventView::ListenReady { address: listening@ }]
                    && out.actions@.len() == 0,
            },
    {
        match event {
            NetEvent::Beacon { from, address } => self.on_seen(
                &from,
                &address,
                now,
                DiscoveredVia::Beacon,
            ),
            NetEvent::Dialed { peer, address } => self.on_seen(
                &peer,
                &address,
                now,
                DiscoveredVia::Dial,
            ),
            NetEvent::AnnounceTick => {
                let mut actions: Vec<Action> = Vec::new();
                actions.push(Action::Announce { id: self.engine.local.copy() });
                assert(actions_view(actions@) =~= seq![
                    ActionView::Announce { id: self.engine.local@ },
                ]);
                Effects { events: Vec::new(), actions }
            },
            NetEvent::SweepTick => self.on_sweep(now),
            NetEvent::Joined { peer, topic } => {
                self.on_joined(&peer, &topic);
                Effects { events: Vec::new(), actions: Vec::new() }
            },
            NetEvent::Inbound { from, bytes } => self.on_wire(&from, &bytes, now),
            NetEvent::ListenerReady { listening } => {
                let mut events: Vec<BridgeEvent> = Vec::new();
                let ghost shown = listening@;
                events.push(BridgeEvent::ListenReady { address: listening });
                assert(events_view(events@) =~= seq![BridgeEventView::ListenReady { address: shown }]);
                Effects { events, actions: Vec::new() }
            },
        }
    }
}

} // verus!
