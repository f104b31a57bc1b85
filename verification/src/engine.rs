//! Publishing and receiving: whom a message is handed to, and which
//! messages are taken at all.

use vstd::prelude::*;
use crate::bridge::{event_view, BridgeEvent, BridgeEventView};
use crate::bytes::copy_bytes;
use crate::codec::{bytes_view, spec_content_id, Envelope, EnvelopeView, PeerId};
use crate::seen::{spec_remember, spec_seen, SeenCache, SeenEntry};
use crate::topics::{distinct, ids_of, lemma_without, spec_without, without_peer, TopicRegistry};

verus! {

/// How far a signature is looked at before a message is taken.
#[derive(Clone, Copy, Debug, PartialEq, Eq, Structural)]
pub enum ValidationMode {
    /// Every message is taken.
    Unchecked,
    /// A message with a signature that does not verify is refused; one
    /// without a signature is taken.
    Permissive,
    /// Only a message with a signature that verifies is taken.
    StrictSigned,
}

/// How messages spread.
#[derive(Clone, Copy, Debug, PartialEq, Eq, Structural)]
pub enum Strategy {
    /// To every subscriber of the topic.
    Flood,
    /// To the first `degree` subscribers of the topic, the mesh; the others
    /// hear of new messages at the heartbeat.
    Mesh { validation: ValidationMode, degree: usize },
}

/// The interval between two heartbeats, in seconds.
pub const HEARTBEAT_SECS: u64 = 10;

/// Whether a message with this signature passes validation, given whether
/// the signature verifies against the sender's identity.
pub open spec fn spec_passes(strategy: Strategy, signature: Option<Seq<u8>>, verifies: bool) -> bool {
    match strategy {
        Strategy::Flood => true,
        Strategy::Mesh { validation, degree } => match validation {
            ValidationMode::Unchecked => true,
            ValidationMode::Permissive => signature.is_none() || verifies,
            ValidationMode::StrictSigned => signature.is_some() && verifies,
        },
    }
}

/// The subscribers that a message is handed to directly.
pub open spec fn spec_view(strategy: Strategy, subscribers: Seq<Seq<u8>>) -> Seq<Seq<u8>> {
    match strategy {
        Strategy::Flood => subscribers,
        Strategy::Mesh { validation, degree } => if degree < subscribers.len() {
            subscribers.take(degree as int)
        } else {
            subscribers
        },
    }
}

/// The subscribers that are left to the heartbeat.
pub open spec fn spec_outside(strategy: Strategy, subscribers: Seq<Seq<u8>>) -> Seq<Seq<u8>> {
    match strategy {
        Strategy::Flood => Seq::empty(),
        Strategy::Mesh { validation, degree } => if degree < subscribers.len() {
            subscribers.skip(degree as int)
        } else {
            Seq::empty()
        },
    }
}

/// Whether an arriving message is taken: it passes validation and its
/// content was not seen before.
pub open spec fn spec_accepts(
    strategy: Strategy,
    seen: Seq<SeenEntry>,
    e: EnvelopeView,
    verifies: bool,
) -> bool {
    spec_passes(strategy, e.signature, verifies) && !spec_seen(seen, e.content_id)
}

/// The seen cache after a message has arrived.
pub open spec fn spec_seen_after(
    strategy: Strategy,
    seen: Seq<SeenEntry>,
    capacity: int,
    e: EnvelopeView,
    verifies: bool,
    now: u64,
) -> Seq<SeenEntry> {
    if spec_accepts(strategy, seen, e, verifies) {
        spec_remember(seen, capacity, SeenEntry { id: e.content_id, first_seen: now })
    } else {
        seen
    }
}

/// The ids of the entries of a seen cache, in its order.
pub open spec fn spec_ids(seen: Seq<SeenEntry>) -> Seq<u64> {
    Seq::new(seen.len(), |i: int| seen[i].id)
}

/// A message that passed validation is not taken a second time: after its
/// first arrival, whether it was taken then or known already, no message of
/// the same content is accepted.
pub proof fn lemma_redelivery_dropped(
    strategy: Strategy,
    seen: Seq<SeenEntry>,
    capacity: int,
    first: EnvelopeView,
    first_verifies: bool,
    now: u64,
    second: EnvelopeView,
    second_verifies: bool,
)
    requires
        1 <= capacity,
        seen.len() <= capacity,
        spec_passes(strategy, first.signature, first_verifies),
        second.content_id == first.content_id,
    ensures
        !spec_accepts(
            strategy,
            spec_seen_after(strategy, seen, capacity, first, first_verifies, now),
            second,
            second_verifies,
        ),
{
    let after = spec_seen_after(strategy, seen, capacity, first, first_verifies, now);
    if spec_accepts(strategy, seen, first, first_verifies) {
        assert(after[after.len() - 1].id == first.content_id);
    }
}

/// Under strict validation a message whose signature is missing or does not
/// verify is never accepted, whatever the cache holds.
pub proof fn lemma_strict_refuses(
    degree: usize,
    seen: Seq<SeenEntry>,
    e: EnvelopeView,
    verifies: bool,
)
    requires
        e.signature.is_none() || !verifies,
    ensures
        !spec_accepts(
            Strategy::Mesh { validation: ValidationMode::StrictSigned, degree },
            seen,
            e,
            verifies,
        ),
{
}

/// What `publish` hands back: the envelope and the peers to send it to.
pub struct Outgoing {
    pub envelope: Envelope,
    pub targets: Vec<PeerId>,
}

/// What `on_inbound` hands back: the event for the application, if the
/// message was taken, and the peers to pass the envelope on to.
pub struct Inbound {
    pub event: Option<BridgeEvent>,
    pub targets: Vec<PeerId>,
}

/// What a heartbeat on one topic sends: the ids seen lately, to each of the
/// subscribers outside the mesh.
pub struct Heartbeat {
    pub peers: Vec<PeerId>,
    pub ids: Vec<u64>,
}

/// The state of publishing and receiving on one node.
pub struct GossipEngine {
    pub local: PeerId,
    pub strategy: Strategy,
    pub seen: SeenCache,
    pub topics: TopicRegistry,
}

/// The first `n` of `list`, or all of it where it has fewer.
fn first_peers(list: Vec<PeerId>, n: usize) -> (out: Vec<PeerId>)
    ensures
        ids_of(out@) == if n < list@.len() {
            ids_of(list@).take(n as int)
        } else {
            ids_of(list@)
        },
{
    let mut out = list;
    assert(ids_of(list@).take(list@.len() as int) =~= ids_of(list@));
    while out.len() > n
        invariant
            out@.len() <= list@.len(),
            n < list@.len() ==> out@.len() >= n,
            n >= list@.len() ==> out@.len() == list@.len(),
            ids_of(out@) == ids_of(list@).take(out@.len() as int),
        decreases out@.len(),
    {
        out.pop();
        assert(ids_of(out@) =~= ids_of(list@).take(out@.len() as int));
    }
    out
}

/// The peers of `list` from place `n` on; none where it has no more than `n`.
fn later_peers(list: &Vec<PeerId>, n: usize) -> (out: Vec<PeerId>)
    ensures
        ids_of(out@) == if n < list@.len() {
            ids_of(list@).skip(n as int)
        } else {
            Seq::empty()
        },
{
    let mut out: Vec<PeerId> = Vec::new();
    if n >= list.len() {
        assert(ids_of(out@) =~= Seq::<Seq<u8>>::empty());
        return out;
    }
    let mut i: usize = n;
    while i < list.len()
        invariant
            n <= i <= list@.len(),
            out@.len() == i - n,
            forall|j: int| 0 <= j < out@.len() ==> out@[j]@ == list@[n + j]@,
        decreases list@.len() - i,
    {
        out.push(list[i].copy());
        i += 1;
    }
    assert(ids_of(out@) =~= ids_of(list@).skip(n as int));
    out
}

impl GossipEngine {
    pub open spec fn wf(&self) -> bool {
        self.seen.wf() && self.topics.wf()
    }

    /// The peers that a message on `topic` is handed to directly.
    pub open spec fn spec_partial_view(&self, topic: Seq<u8>) -> Seq<Seq<u8>> {
        spec_view(self.strategy, self.topics.spec_peers_for(topic))
    }

    /// An engine for the node `local` that follows no topic and has seen no
    /// message, with a cache of `seen_capacity` content ids.
    pub fn new(local: PeerId, strategy: Strategy, seen_capacity: usize) -> (e: GossipEngine)
        requires
            seen_capacity >= 1,
        ensures
            e.wf(),
            e.local@ == local@,
            e.strategy == strategy,
            e.seen@.len() == 0,
            e.seen.capacity == seen_capacity,
            forall|name: Seq<u8>| !e.topics.spec_subscribed(name),
    {
        GossipEngine {
            local,
            strategy,
            seen: SeenCache::new(seen_capacity),
            topics: TopicRegistry::new(),
        }
    }

    /// The peers that a message on `topic` is handed to directly.
    pub fn partial_view(&self, topic: &Vec<u8>) -> (r: Vec<PeerId>)
        requires
            self.wf(),
        ensures
            ids_of(r@) == self.spec_partial_view(topic@),
            distinct(ids_of(r@)),
    {
        let all = self.topics.peers_for(topic);
        let ghost ids = ids_of(all@);
        let r = match self.strategy {
            Strategy::Flood => all,
            Strategy::Mesh { validation, degree } => first_peers(all, degree),
        };
        proof {
            let got = ids_of(r@);
            assert forall|i: int, j: int| 0 <= i < j < got.len() implies got[i] != got[j] by {
                assert(got[i] == ids[i] && got[j] == ids[j]);
            }
        }
        r
    }

    /// Publishes `payload` on `topic`: wraps it into an envelope from this
    /// node with the signature given, records its content as seen, and names
    /// every peer of the topic's partial view as a target, each once. With an
    /// empty partial view there are no targets.
    pub fn publish(
        &mut self,
        topic: Vec<u8>,
        payload: Vec<u8>,
        signature: Option<Vec<u8>>,
        now: u64,
    ) -> (out: Outgoing)
        requires
            old(self).wf(),
        ensures
            final(self).wf(),
            final(self).local == old(self).local,
            final(self).strategy == old(self).strategy,
            final(self).topics == old(self).topics,
            final(self).seen.capacity == old(self).seen.capacity,
            out.envelope@ == (EnvelopeView {
                content_id: spec_content_id(payload@),
                topic: topic@,
                sender: old(self).local@,
                payload: payload@,
                signature: bytes_view(signature),
            }),
            out.envelope.wf(),
            ids_of(out.targets@) == old(self).spec_partial_view(topic@),
            distinct(ids_of(out.targets@)),
            spec_seen(final(self).seen@, spec_content_id(payload@)),
            final(self).seen@ == if spec_seen(old(self).seen@, spec_content_id(payload@)) {
                old(self).seen@
            } else {
                spec_remember(
                    old(self).seen@,
                    old(self).seen.capacity as int,
                    SeenEntry { id: spec_content_id(payload@), first_seen: now },
                )
            },
    {
        let targets = self.partial_view(&topic);
        let envelope = Envelope::new(topic, self.local.copy(), payload, signature);
        self.seen.insert(envelope.content_id, now);
        Outgoing { envelope, targets }
    }

    /// Whether an arriving envelope passes validation, given whether its
    /// signature verifies against the sender's identity.
    pub fn passes(&self, envelope: &Envelope, verifies: bool) -> (r: bool)
        ensures
            r == spec_passes(self.strategy, envelope@.signature, verifies),
    {
        match self.strategy {
            Strategy::Flood => true,
            Strategy::Mesh { validation, degree } => match validation {
                ValidationMode::Unchecked => true,
                ValidationMode::Permissive => envelope.signature.is_none() || verifies,
                ValidationMode::StrictSigned => envelope.signature.is_some() && verifies,
            },
        }
    }

    /// Takes an envelope that arrived from `from`. One that fails
    /// validation, or whose content was seen before, is dropped: no event,
    /// no targets, nothing changed. Any other is recorded as seen, reported
    /// to the application with its true sender, and passed on to every peer
    /// of the topic's partial view but `from`.
    pub fn on_inbound(&mut self, envelope: &Envelope, from: &PeerId, verifies: bool, now: u64) -> (r:
        Inbound)
        requires
            old(self).wf(),
        ensures
            final(self).wf(),
            final(self).local == old(self).local,
            final(self).strategy == old(self).strategy,
            final(self).topics == old(self).topics,
            final(self).seen.capacity == old(self).seen.capacity,
            final(self).seen@ == spec_seen_after(
                old(self).strategy,
                old(self).seen@,
                old(self).seen.capacity as int,
                envelope@,
                verifies,
                now,
            ),
            spec_accepts(old(self).strategy, old(self).seen@, envelope@, verifies) ==> {
                &&& event_view(r.event) == Some(
                    BridgeEventView::MessageReceived {
                        sender: envelope@.sender,
                        topic: envelope@.topic,
                        payload: envelope@.payload,
                    },
                )
                &&& ids_of(r.targets@) == spec_without(
                    old(self).spec_partial_view(envelope@.topic),
                    from@,
                )
                &&& distinct(ids_of(r.targets@))
                &&& spec_seen(final(self).seen@, envelope@.content_id)
            },
            !spec_accepts(old(self).strategy, old(self).seen@, envelope@, verifies) ==> {
                &&& r.event.is_none()
                &&& r.targets@.len() == 0
            },
    {
        if !self.passes(envelope, verifies) || self.seen.contains(envelope.content_id) {
            return Inbound { event: None, targets: Vec::new() };
        }
        self.seen.insert(envelope.content_id, now);
        let view = self.partial_view(&envelope.topic);
        let targets = without_peer(&view, from);
        proof {
            lemma_without(ids_of(view@), from@);
        }
        let event = BridgeEvent::MessageReceived {
            sender: envelope.sender.copy(),
            topic: copy_bytes(&envelope.topic),
            payload: copy_bytes(&envelope.payload),
        };
        Inbound { event: Some(event), targets }
    }

    /// What the heartbeat sends on `topic`: the ids in the seen cache, oldest
    /// first, for each subscriber outside the mesh. Flooding leaves nobody
    /// outside.
    pub fn heartbeat(&self, topic: &Vec<u8>) -> (r: Heartbeat)
        requires
            self.wf(),
        ensures
            ids_of(r.peers@) == spec_outside(self.strategy, self.topics.spec_peers_for(topic@)),
            r.ids@ == spec_ids(self.seen@),
    {
        let all = self.topics.peers_for(topic);
        let peers = match self.strategy {
            Strategy::Flood => {
                let none: Vec<PeerId> = Vec::new();
                assert(ids_of(none@) =~= Seq::<Seq<u8>>::empty());
                none
            },
            Strategy::Mesh { validation, degree } => later_peers(&all, degree),
        };
        let mut ids: Vec<u64> = Vec::new();
        let mut i: usize = 0;
        while i < self.seen.entries.len()
            invariant
                0 <= i <= self.seen.entries@.len(),
                ids@.len() == i,
                forall|j: int| 0 <= j < i ==> ids@[j] == self.seen.entries@[j].id,
            decreases self.seen.entries@.len() - i,
        {
            ids.push(self.seen.entries[i].id);
            i += 1;
        }
        assert(ids@ =~= spec_ids(self.seen@));
        Heartbeat { peers, ids }
    }

    /// Of the ids that a peer announced at its heartbeat, those that this
    /// node has not seen, in the order announced.
    pub fn missing(&self, announced: &Vec<u64>) -> (r: Vec<u64>)
        ensures
            r@ == announced@.filter(|id: u64| !spec_seen(self.seen@, id)),
    {
        let mut out: Vec<u64> = Vec::new();
        let mut i: usize = 0;
        let ghost unseen = |id: u64| !spec_seen(self.seen@, id);
        assert(announced@.take(0).filter(unseen) =~= Seq::<u64>::empty()) by {
            reveal(Seq::filter);
        }
        while i < announced.len()
            invariant
                0 <= i <= announced@.len(),
                unseen == |id: u64| !spec_seen(self.seen@, id),
                out@ == announced@.take(i as int).filter(unseen),
            decreases announced@.len() - i,
        {
            let id: u64 = announced[i];
            proof {
                let next = announced@.take(i + 1);
                assert(next.drop_last() =~= announced@.take(i as int));
                assert(next.last() == id);
                reveal(Seq::filter);
            }
            if !self.seen.contains(id) {
                out.push(id);
            }
            i += 1;
        }
        assert(announced@.take(announced@.len() as int) =~= announced@);
        out
    }
}

} // verus!
