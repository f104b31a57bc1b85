//! The table of peers that were heard of lately.

use vstd::prelude::*;
use crate::bridge::{event_view, events_view, BridgeEvent, BridgeEventView};
use crate::bytes::copy_bytes;
use crate::codec::PeerId;

verus! {

/// How this node came to know a peer.
#[derive(Clone, Copy, Debug, PartialEq, Eq, Structural)]
pub enum DiscoveredVia {
    /// The peer announced itself on the local network.
    Beacon,
    /// The application asked to dial it.
    Dial,
}

/// A peer that is taken to be alive.
pub struct Peer {
    pub id: PeerId,
    pub address: Vec<u8>,
    pub last_seen: u64,
    pub via: DiscoveredVia,
}

/// A peer as mathematical values.
pub ghost struct PeerView {
    pub id: Seq<u8>,
    pub address: Seq<u8>,
    pub last_seen: u64,
    pub via: DiscoveredVia,
}

impl View for Peer {
    type V = PeerView;

    open spec fn view(&self) -> PeerView {
        PeerView {
            id: self.id@,
            address: self.address@,
            last_seen: self.last_seen,
            via: self.via,
        }
    }
}

/// The time after which a peer that was not heard of is given up, in
/// seconds.
pub const PEER_TTL_SECS: u64 = 120;

/// Whether `id` is the identity of one of `peers`.
pub open spec fn spec_knows(peers: Seq<PeerView>, id: Seq<u8>) -> bool {
    exists|i: int| 0 <= i < peers.len() && #[trigger] peers[i].id == id
}

/// No two of `peers` have the same identity.
pub open spec fn spec_distinct(peers: Seq<PeerView>) -> bool {
    forall|i: int, j: int| 0 <= i < j < peers.len() ==> peers[i].id != peers[j].id
}

/// `peers` with the peer `id` last seen at `now`.
pub open spec fn spec_refreshed(peers: Seq<PeerView>, id: Seq<u8>, now: u64) -> Seq<PeerView> {
    Seq::new(
        peers.len(),
        |i: int|
            if peers[i].id == id {
                PeerView { last_seen: now, ..peers[i] }
            } else {
                peers[i]
            },
    )
}

/// Whether a peer was last heard of more than `ttl` before `now`.
pub open spec fn spec_expired(p: PeerView, now: u64, ttl: u64) -> bool {
    now > p.last_seen && now - p.last_seen > ttl
}

/// Those of `peers` that have not expired at `now`, in their order.
pub open spec fn spec_alive(peers: Seq<PeerView>, now: u64, ttl: u64) -> Seq<PeerView>
    decreases peers.len(),
{
    if peers.len() == 0 {
        peers
    } else if spec_expired(peers.last(), now, ttl) {
        spec_alive(peers.drop_last(), now, ttl)
    } else {
        spec_alive(peers.drop_last(), now, ttl).push(peers.last())
    }
}

/// The identities of those of `peers` that have expired at `now`, in their
/// order.
pub open spec fn spec_gone(peers: Seq<PeerView>, now: u64, ttl: u64) -> Seq<Seq<u8>>
    decreases peers.len(),
{
    if peers.len() == 0 {
        Seq::empty()
    } else if spec_expired(peers.last(), now, ttl) {
        spec_gone(peers.drop_last(), now, ttl).push(peers.last().id)
    } else {
        spec_gone(peers.drop_last(), now, ttl)
    }
}

/// One `PeerExpired` for each of `ids`.
pub open spec fn spec_expiries(ids: Seq<Seq<u8>>) -> Seq<BridgeEventView> {
    Seq::new(ids.len(), |i: int| BridgeEventView::PeerExpired { id: ids[i] })
}

/// What a sweep keeps and what it gives up: a peer of the table is kept if
/// and only if it has not expired, every identity given up is that of an
/// expired peer of the table, and none is given up twice.
pub proof fn lemma_sweep(peers: Seq<PeerView>, now: u64, ttl: u64)
    requires
        spec_distinct(peers),
    ensures
        spec_distinct(spec_alive(peers, now, ttl)),
        forall|p: PeerView|
            spec_alive(peers, now, ttl).contains(p) <==> (peers.contains(p) && !spec_expired(
                p,
                now,
                ttl,
            )),
        forall|id: Seq<u8>| #[trigger]
            spec_gone(peers, now, ttl).contains(id) <==> exists|k: int|
                0 <= k < peers.len() && #[trigger] peers[k].id == id && spec_expired(
                    peers[k],
                    now,
                    ttl,
                ),
        forall|i: int, j: int|
            0 <= i < j < spec_gone(peers, now, ttl).len() ==> spec_gone(peers, now, ttl)[i]
                != spec_gone(peers, now, ttl)[j],
    decreases peers.len(),
{
    if peers.len() > 0 {
        let front = peers.drop_last();
        let last = peers.last();
        assert(spec_distinct(front)) by {
            assert forall|i: int, j: int| 0 <= i < j < front.len() implies front[i].id
                != front[j].id by {
                assert(front[i] == peers[i] && front[j] == peers[j]);
            }
        }
        lemma_sweep(front, now, ttl);
        let alive0 = spec_alive(front, now, ttl);
        let gone0 = spec_gone(front, now, ttl);
        let alive = spec_alive(peers, now, ttl);
        let gone = spec_gone(peers, now, ttl);
        assert forall|p: PeerView| peers.contains(p) <==> (front.contains(p) || p == last) by {
            if peers.contains(p) {
                let k = choose|k: int| 0 <= k < peers.len() && peers[k] == p;
                if k < front.len() {
                    assert(front[k] == p);
                }
            }
            if front.contains(p) {
                let k = choose|k: int| 0 <= k < front.len() && front[k] == p;
                assert(peers[k] == p);
            }
            if p == last {
                assert(peers[peers.len() - 1] == p);
            }
        }
        assert forall|k: int| 0 <= k < front.len() implies front[k].id != last.id by {
            assert(front[k] == peers[k]);
            assert(peers[k].id != peers[peers.len() - 1].id);
        }
        if spec_expired(last, now, ttl) {
            assert(gone == gone0.push(last.id));
            assert forall|id: Seq<u8>| #[trigger] gone.contains(id) <==> exists|k: int|
                0 <= k < peers.len() && #[trigger] peers[k].id == id && spec_expired(
                    peers[k],
                    now,
                    ttl,
                ) by {
                if gone.contains(id) {
                    let a = choose|a: int| 0 <= a < gone.len() && gone[a] == id;
                    if a < gone0.len() {
                        assert(gone0[a] == id);
                        assert(gone0.contains(id));
                        let k = choose|k: int|
                            0 <= k < front.len() && #[trigger] front[k].id == id && spec_expired(
                                front[k],
                                now,
                                ttl,
                            );
                        assert(peers[k].id == id);
                    } else {
                        assert(peers[peers.len() - 1].id == id);
                    }
                }
                if exists|k: int|
                    0 <= k < peers.len() && #[trigger] peers[k].id == id && spec_expired(
                        peers[k],
                        now,
                        ttl,
                    ) {
                    let k = choose|k: int|
                        0 <= k < peers.len() && #[trigger] peers[k].id == id && spec_expired(
                            peers[k],
                            now,
                            ttl,
                        );
                    if k < front.len() {
                        assert(front[k].id == id);
                        assert(gone0.contains(id));
                        let a = choose|a: int| 0 <= a < gone0.len() && gone0[a] == id;
                        assert(gone[a] == id);
                    } else {
                        assert(gone[gone.len() - 1] == id);
                    }
                }
            }
            assert forall|i: int, j: int| 0 <= i < j < gone.len() implies gone[i] != gone[j] by {
                if j < gone0.len() {
                    assert(gone0[i] != gone0[j]);
                } else {
                    assert(gone0.contains(gone0[i]));
                }
            }
        } else {
            assert(alive == alive0.push(last));
            assert forall|p: PeerView| alive.contains(p) <==> (peers.contains(p) && !spec_expired(
                p,
                now,
                ttl,
            )) by {
                if alive.contains(p) {
                    let a = choose|a: int| 0 <= a < alive.len() && alive[a] == p;
                    if a < alive0.len() {
                        assert(alive0[a] == p);
                        assert(alive0.contains(p));
                    }
                }
                if peers.contains(p) && !spec_expired(p, now, ttl) {
                    if front.contains(p) {
                        assert(alive0.contains(p));
                        let a = choose|a: int| 0 <= a < alive0.len() && alive0[a] == p;
                        assert(alive[a] == p);
                    } else {
                        assert(alive[alive.len() - 1] == p);
                    }
                }
            }
            assert forall|i: int, j: int| 0 <= i < j < alive.len() implies alive[i].id
                != alive[j].id by {
                if j < alive0.len() {
                    assert(alive0[i].id != alive0[j].id);
                } else {
                    assert(alive0.contains(alive0[i]));
                    assert(front.contains(alive0[i]));
                    let k = choose|k: int| 0 <= k < front.len() && front[k] == alive0[i];
                    assert(front[k].id != last.id);
                }
            }
            assert forall|id: Seq<u8>| #[trigger] gone.contains(id) <==> exists|k: int|
                0 <= k < peers.len() && #[trigger] peers[k].id == id && spec_expired(
                    peers[k],
                    now,
                    ttl,
                ) by {
                if gone.contains(id) {
                    let k = choose|k: int|
                        0 <= k < front.len() && #[trigger] front[k].id == id && spec_expired(
                            front[k],
                            now,
                            ttl,
                        );
                    assert(peers[k].id == id);
                }
                if exists|k: int|
                    0 <= k < peers.len() && #[trigger] peers[k].id == id && spec_expired(
                        peers[k],
                        now,
                        ttl,
                    ) {
                    let k = choose|k: int|
                        0 <= k < peers.len() && #[trigger] peers[k].id == id && spec_expired(
                            peers[k],
                            now,
                            ttl,
                        );
                    assert(k < front.len());
                    assert(front[k].id == id);
                }
            }
        }
    }
}

/// A peer that was not heard of within the time allowed leaves the table
/// at the next sweep, and the sweep gives up its identity exactly once.
pub proof fn lemma_expired_once(peers: Seq<PeerView>, k: int, now: u64, ttl: u64)
    requires
        spec_distinct(peers),
        0 <= k < peers.len(),
        spec_expired(peers[k], now, ttl),
    ensures
        !spec_knows(spec_alive(peers, now, ttl), peers[k].id),
        exists|a: int|
            0 <= a < spec_gone(peers, now, ttl).len() && spec_gone(peers, now, ttl)[a]
                == peers[k].id && forall|b: int|
                0 <= b < spec_gone(peers, now, ttl).len() && spec_gone(peers, now, ttl)[b]
                    == peers[k].id ==> b == a,
{
    lemma_sweep(peers, now, ttl);
    let alive = spec_alive(peers, now, ttl);
    let gone = spec_gone(peers, now, ttl);
    let id = peers[k].id;
    if spec_knows(alive, id) {
        let a = choose|a: int| 0 <= a < alive.len() && #[trigger] alive[a].id == id;
        assert(alive.contains(alive[a]));
        assert(peers.contains(alive[a]));
        let m = choose|m: int| 0 <= m < peers.len() && peers[m] == alive[a];
        if m < k {
            assert(peers[m].id != peers[k].id);
        }
        if k < m {
            assert(peers[k].id != peers[m].id);
        }
        assert(false);
    }
    assert(gone.contains(id));
    let a = choose|a: int| 0 <= a < gone.len() && gone[a] == id;
    assert forall|b: int| 0 <= b < gone.len() && gone[b] == id implies b == a by {
        if b < a {
            assert(gone[b] != gone[a]);
        }
        if a < b {
            assert(gone[a] != gone[b]);
        }
    }
}

/// The peers that are taken to be alive, none twice.
pub struct PeerTable {
    pub peers: Vec<Peer>,
    pub ttl: u64,
}

impl View for PeerTable {
    type V = Seq<PeerView>;

    open spec fn view(&self) -> Seq<PeerView> {
        Seq::new(self.peers@.len(), |i: int| self.peers@[i]@)
    }
}

impl PeerTable {
    pub open spec fn wf(&self) -> bool {
        spec_distinct(self@)
    }

    /// An empty table whose peers expire `ttl` after they were last seen.
    pub fn new(ttl: u64) -> (t: PeerTable)
        ensures
            t.wf(),
            t@.len() == 0,
            t.ttl == ttl,
    {
        PeerTable { peers: Vec::new(), ttl }
    }

    pub fn len(&self) -> (n: usize)
        ensures
            n == self@.len(),
    {
        self.peers.len()
    }

    /// The place of the peer `id`, if the table holds it.
    fn find(&self, id: &PeerId) -> (r: Option<usize>)
        ensures
            match r {
                Some(i) => i < self@.len() && self@[i as int].id == id@,
                None => !spec_knows(self@, id@),
            },
    {
        let mut i: usize = 0;
        while i < self.peers.len()
            invariant
                0 <= i <= self.peers@.len(),
                forall|j: int| 0 <= j < i ==> self@[j].id != id@,
            decreases self.peers@.len() - i,
        {
            if self.peers[i].id.same(id) {
                assert(self@[i as int].id == id@);
                return Some(i);
            }
            i += 1;
        }
        None
    }

    /// Whether the table holds the peer `id`.
    pub fn knows(&self, id: &PeerId) -> (r: bool)
        ensures
            r == spec_knows(self@, id@),
    {
        let r = self.find(id);
        proof {
            if r.is_some() {
                assert(self@[r.unwrap() as int].id == id@);
            }
        }
        r.is_some()
    }

    /// When the peer `id` was last seen, if the table holds it.
    pub fn last_seen(&self, id: &PeerId) -> (r: Option<u64>)
        ensures
            match r {
                Some(t) => exists|i: int|
                    0 <= i < self@.len() && #[trigger] self@[i].id == id@ && self@[i].last_seen
                        == t,
                None => !spec_knows(self@, id@),
            },
    {
        match self.find(id) {
            Some(i) => {
                assert(self@[i as int].id == id@);
                Some(self.peers[i].last_seen)
            },
            None => None,
        }
    }

    /// Notes that the peer `from` was heard of at `now`. A peer that the
    /// table holds is marked as seen at `now`, and nothing is reported. A
    /// peer that it does not hold is put behind the others with `address`,
    /// and its discovery is reported.
    pub fn observe(&mut self, from: &PeerId, address: &Vec<u8>, now: u64, via: DiscoveredVia) -> (r:
        Option<BridgeEvent>)
        requires
            old(self).wf(),
        ensures
            final(self).wf(),
            final(self).ttl == old(self).ttl,
            spec_knows(final(self)@, from@),
            spec_knows(old(self)@, from@) ==> r.is_none() && final(self)@ == spec_refreshed(
                old(self)@,
                from@,
                now,
            ),
            !spec_knows(old(self)@, from@) ==> event_view(r) == Some(
                BridgeEventView::PeerDiscovered { id: from@ },
            ) && final(self)@ == old(self)@.push(
                PeerView { id: from@, address: address@, last_seen: now, via },
            ),
    {
        match self.find(from) {
            Some(i) => {
                let p = Peer {
                    id: self.peers[i].id.copy(),
                    address: copy_bytes(&self.peers[i].address),
                    last_seen: now,
                    via: self.peers[i].via,
                };
                self.peers.set(i, p);
                proof {
                    assert(old(self)@[i as int].id == from@);
                    assert forall|j: int| 0 <= j < self@.len() implies self@[j] == spec_refreshed(
                        old(self)@,
                        from@,
                        now,
                    )[j] by {
                        if j != i {
                            assert(self.peers@[j] == old(self).peers@[j]);
                            if j < i {
                                assert(old(self)@[j].id != old(self)@[i as int].id);
                            } else {
                                assert(old(self)@[i as int].id != old(self)@[j].id);
                            }
                        }
                    }
                    assert(self@ =~= spec_refreshed(old(self)@, from@, now));
                    assert forall|a: int, b: int| 0 <= a < b < self@.len() implies self@[a].id
                        != self@[b].id by {
                        assert(self@[a].id == old(self)@[a].id);
                        assert(self@[b].id == old(self)@[b].id);
                    }
                    assert(self@[i as int].id == from@);
                }
                None
            },
            None => {
                let p = Peer {
                    id: from.copy(),
                    address: copy_bytes(address),
                    last_seen: now,
                    via,
                };
                self.peers.push(p);
                proof {
                    assert(self@ =~= old(self)@.push(
                        PeerView { id: from@, address: address@, last_seen: now, via },
                    ));
                    assert(self@[self@.len() - 1].id == from@);
                    assert forall|a: int, b: int| 0 <= a < b < self@.len() implies self@[a].id
                        != self@[b].id by {
                        if b < old(self)@.len() {
                            assert(old(self)@[a].id != old(self)@[b].id);
                        } else {
                            assert(old(self)@[a].id != from@);
                        }
                    }
                }
                Some(BridgeEvent::PeerDiscovered { id: from.copy() })
            },
        }
    }

    /// Takes the beacon of the peer `from`, heard at `now`.
    pub fn on_beacon(&mut self, from: &PeerId, address: &Vec<u8>, now: u64) -> (r: Option<
        BridgeEvent,
    >)
        requires
            old(self).wf(),
        ensures
            final(self).wf(),
            final(self).ttl == old(self).ttl,
            spec_knows(final(self)@, from@),
            spec_knows(old(self)@, from@) ==> r.is_none() && final(self)@ == spec_refreshed(
                old(self)@,
                from@,
                now,
            ),
            !spec_knows(old(self)@, from@) ==> event_view(r) == Some(
                BridgeEventView::PeerDiscovered { id: from@ },
            ) && final(self)@ == old(self)@.push(
                PeerView {
                    id: from@,
                    address: address@,
                    last_seen: now,
                    via: DiscoveredVia::Beacon,
                },
            ),
    {
        self.observe(from, address, now, DiscoveredVia::Beacon)
    }

    /// Gives up the peers that were last seen more than the time allowed
    /// before `now`, and reports each of them as expired, once.
    pub fn sweep(&mut self, now: u64) -> (r: Vec<BridgeEvent>)
        requires
            old(self).wf(),
        ensures
            final(self).wf(),
            final(self).ttl == old(self).ttl,
            final(self)@ == spec_alive(old(self)@, now, old(self).ttl),
            events_view(r@) == spec_expiries(spec_gone(old(self)@, now, old(self).ttl)),
    {
        let ttl = self.ttl;
        let mut kept: Vec<Peer> = Vec::new();
        let mut events: Vec<BridgeEvent> = Vec::new();
        let ghost all = self@;
        let ghost mut kept_view: Seq<PeerView> = Seq::empty();
        let ghost mut gone: Seq<Seq<u8>> = Seq::empty();
        let mut i: usize = 0;
        proof {
            assert(all.take(0) =~= Seq::<PeerView>::empty());
        }
        while i < self.peers.len()
            invariant
                0 <= i <= self.peers@.len(),
                self@ == all,
                self.ttl == ttl,
                kept_view == spec_alive(all.take(i as int), now, ttl),
                gone == spec_gone(all.take(i as int), now, ttl),
                kept@.len() == kept_view.len(),
                forall|j: int| 0 <= j < kept@.len() ==> (#[trigger] kept@[j])@ == kept_view[j],
                events@.len() == gone.len(),
                forall|j: int|
                    0 <= j < events@.len() ==> (#[trigger] events@[j])@
                        == (BridgeEventView::PeerExpired { id: gone[j] }),
            decreases self.peers@.len() - i,
        {
            let p = &self.peers[i];
            proof {
                let next = all.take(i + 1);
                assert(next.drop_last() =~= all.take(i as int));
                assert(next.last() == p@);
            }
            if now > p.last_seen && now - p.last_seen > ttl {
                events.push(BridgeEvent::PeerExpired { id: p.id.copy() });
                proof {
                    gone = gone.push(p@.id);
                }
            } else {
                kept.push(
                    Peer {
                        id: p.id.copy(),
                        address: copy_bytes(&p.address),
                        last_seen: p.last_seen,
                        via: p.via,
                    },
                );
                proof {
                    kept_view = kept_view.push(p@);
                }
            }
            i += 1;
        }
        self.peers = kept;
        proof {
            assert(all.take(all.len() as int) =~= all);
            assert(self@ =~= kept_view);
            assert(events_view(events@) =~= spec_expiries(gone));
            lemma_sweep(all, now, ttl);
        }
        events
    }
}

} // verus!
