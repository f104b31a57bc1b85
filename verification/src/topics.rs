//! Which peers take part in which topic.

use vstd::prelude::*;
use crate::bytes::{copy_bytes, same_bytes};
use crate::codec::PeerId;

verus! {

/// The identities of a list of peers, in its order.
pub open spec fn ids_of(peers: Seq<PeerId>) -> Seq<Seq<u8>> {
    Seq::new(peers.len(), |i: int| peers[i]@)
}

/// No identity occurs twice in `ids`.
pub open spec fn distinct(ids: Seq<Seq<u8>>) -> bool {
    forall|i: int, j: int| 0 <= i < j < ids.len() ==> ids[i] != ids[j]
}

/// `ids` without `id`, the order kept.
pub open spec fn spec_without(ids: Seq<Seq<u8>>, id: Seq<u8>) -> Seq<Seq<u8>>
    decreases ids.len(),
{
    if ids.len() == 0 {
        ids
    } else if ids.last() == id {
        spec_without(ids.drop_last(), id)
    } else {
        spec_without(ids.drop_last(), id).push(ids.last())
    }
}

/// What is left of a list without `id` holds only members of the list, never
/// `id`, and nothing twice if the list held nothing twice.
pub proof fn lemma_without(ids: Seq<Seq<u8>>, id: Seq<u8>)
    ensures
        !spec_without(ids, id).contains(id),
        forall|x: Seq<u8>| spec_without(ids, id).contains(x) <==> (ids.contains(x) && x != id),
        distinct(ids) ==> distinct(spec_without(ids, id)),
        spec_without(ids, id).len() <= ids.len(),
        !ids.contains(id) ==> spec_without(ids, id) == ids,
    decreases ids.len(),
{
    if ids.len() > 0 {
        let front = ids.drop_last();
        let w = spec_without(front, id);
        lemma_without(front, id);
        assert forall|x: Seq<u8>| ids.contains(x) <==> (front.contains(x) || x == ids.last()) by {
            if ids.contains(x) {
                let k = choose|k: int| 0 <= k < ids.len() && ids[k] == x;
                if k < front.len() {
                    assert(front[k] == x);
                }
            }
            if front.contains(x) {
                let k = choose|k: int| 0 <= k < front.len() && front[k] == x;
                assert(ids[k] == x);
            }
            if x == ids.last() {
                assert(ids[ids.len() - 1] == x);
            }
        }
        let r = spec_without(ids, id);
        if ids.last() != id {
            assert(r == w.push(ids.last()));
            assert forall|x: Seq<u8>| r.contains(x) <==> (w.contains(x) || x == ids.last()) by {
                if r.contains(x) {
                    let k = choose|k: int| 0 <= k < r.len() && r[k] == x;
                    if k < w.len() {
                        assert(w[k] == x);
                    }
                }
                if w.contains(x) {
                    let k = choose|k: int| 0 <= k < w.len() && w[k] == x;
                    assert(r[k] == x);
                }
                if x == ids.last() {
                    assert(r[r.len() - 1] == x);
                }
            }
            if distinct(ids) {
                assert(distinct(front)) by {
                    assert forall|i: int, j: int| 0 <= i < j < front.len() implies front[i]
                        != front[j] by {
                        assert(front[i] == ids[i] && front[j] == ids[j]);
                    }
                }
                assert(!front.contains(ids.last())) by {
                    if front.contains(ids.last()) {
                        let k = choose|k: int| 0 <= k < front.len() && front[k] == ids.last();
                        assert(ids[k] == ids[ids.len() - 1]);
                    }
                }
                assert forall|i: int, j: int| 0 <= i < j < r.len() implies r[i] != r[j] by {
                    if j < w.len() {
                        assert(w[i] != w[j]);
                    } else {
                        assert(w.contains(w[i]));
                    }
                }
            }
            if !ids.contains(id) {
                assert(w == front);
                assert(r =~= ids);
            }
        } else {
            if distinct(ids) {
                assert forall|i: int, j: int| 0 <= i < j < front.len() implies front[i]
                    != front[j] by {
                    assert(front[i] == ids[i] && front[j] == ids[j]);
                }
            }
        }
    }
}

/// Whether `peer` is one of `list`.
pub fn contains_peer(list: &Vec<PeerId>, peer: &PeerId) -> (r: bool)
    ensures
        r == ids_of(list@).contains(peer@),
{
    let mut i: usize = 0;
    while i < list.len()
        invariant
            0 <= i <= list@.len(),
            forall|j: int| 0 <= j < i ==> ids_of(list@)[j] != peer@,
        decreases list@.len() - i,
    {
        if list[i].same(peer) {
            assert(ids_of(list@)[i as int] == peer@);
            return true;
        }
        i += 1;
    }
    false
}

/// A copy of `list`.
pub fn copy_peers(list: &Vec<PeerId>) -> (out: Vec<PeerId>)
    ensures
        ids_of(out@) == ids_of(list@),
{
    let mut out: Vec<PeerId> = Vec::new();
    let mut i: usize = 0;
    while i < list.len()
        invariant
            0 <= i <= list@.len(),
            out@.len() == i,
            forall|j: int| 0 <= j < i ==> out@[j]@ == list@[j]@,
        decreases list@.len() - i,
    {
        out.push(list[i].copy());
        i += 1;
    }
    assert(ids_of(out@) =~= ids_of(list@));
    out
}

/// A copy of `list` without `peer`, the order kept.
pub fn without_peer(list: &Vec<PeerId>, peer: &PeerId) -> (out: Vec<PeerId>)
    ensures
        ids_of(out@) == spec_without(ids_of(list@), peer@),
{
    let mut out: Vec<PeerId> = Vec::new();
    let mut i: usize = 0;
    assert(ids_of(out@) =~= spec_without(ids_of(list@).take(0), peer@));
    while i < list.len()
        invariant
            0 <= i <= list@.len(),
            ids_of(out@) == spec_without(ids_of(list@).take(i as int), peer@),
        decreases list@.len() - i,
    {
        let ghost before = ids_of(out@);
        proof {
            let next = ids_of(list@).take(i + 1);
            assert(next.drop_last() =~= ids_of(list@).take(i as int));
            assert(next.last() == list@[i as int]@);
        }
        if !list[i].same(peer) {
            out.push(list[i].copy());
            assert(ids_of(out@) =~= before.push(list@[i as int]@));
        }
        i += 1;
    }
    assert(ids_of(list@).take(list@.len() as int) =~= ids_of(list@));
    out
}

/// A topic and the peers that take part in it.
pub struct Topic {
    pub name: Vec<u8>,
    pub subscribers: Vec<PeerId>,
}

/// The topics this node follows, each with its subscribers. No topic stands
/// twice, and no peer stands twice under one topic.
pub struct TopicRegistry {
    pub topics: Vec<Topic>,
}

impl TopicRegistry {
    pub open spec fn wf(&self) -> bool {
        &&& forall|i: int, j: int|
            0 <= i < j < self.topics@.len() ==> self.topics@[i].name@ != self.topics@[j].name@
        &&& forall|i: int|
            0 <= i < self.topics@.len() ==> distinct(
                ids_of(#[trigger] self.topics@[i].subscribers@),
            )
    }

    /// Whether the registry holds the topic `name`.
    pub open spec fn spec_subscribed(&self, name: Seq<u8>) -> bool {
        exists|i: int| 0 <= i < self.topics@.len() && #[trigger] self.topics@[i].name@ == name
    }

    /// The place of the topic `name` in the registry.
    pub open spec fn spec_index(&self, name: Seq<u8>) -> int {
        choose|i: int| 0 <= i < self.topics@.len() && #[trigger] self.topics@[i].name@ == name
    }

    /// The subscribers of the topic `name`, in the order in which they came;
    /// none for a topic that the registry does not hold.
    pub open spec fn spec_peers_for(&self, name: Seq<u8>) -> Seq<Seq<u8>> {
        if self.spec_subscribed(name) {
            ids_of(self.topics@[self.spec_index(name)].subscribers@)
        } else {
            Seq::empty()
        }
    }

    /// A registry without topics.
    pub fn new() -> (r: TopicRegistry)
        ensures
            r.wf(),
            forall|name: Seq<u8>| !r.spec_subscribed(name),
    {
        TopicRegistry { topics: Vec::new() }
    }

    /// The topic at place `i` is the one that its name finds.
    pub proof fn lemma_index(&self, name: Seq<u8>, i: int)
        requires
            self.wf(),
            0 <= i < self.topics@.len(),
            self.topics@[i].name@ == name,
        ensures
            self.spec_subscribed(name),
            self.spec_index(name) == i,
            self.spec_peers_for(name) == ids_of(self.topics@[i].subscribers@),
    {
        let k = self.spec_index(name);
        assert(0 <= k < self.topics@.len() && self.topics@[k].name@ == name);
        if k < i {
            assert(self.topics@[k].name@ != self.topics@[i].name@);
        }
        if i < k {
            assert(self.topics@[i].name@ != self.topics@[k].name@);
        }
    }

    /// The place of the topic `name`, if the registry holds it.
    fn find(&self, name: &Vec<u8>) -> (r: Option<usize>)
        requires
            self.wf(),
        ensures
            match r {
                Some(i) => i < self.topics@.len() && self.topics@[i as int].name@ == name@
                    && self.spec_subscribed(name@) && self.spec_index(name@) == i,
                None => !self.spec_subscribed(name@),
            },
    {
        let mut i: usize = 0;
        while i < self.topics.len()
            invariant
                self.wf(),
                0 <= i <= self.topics@.len(),
                forall|j: int| 0 <= j < i ==> self.topics@[j].name@ != name@,
            decreases self.topics@.len() - i,
        {
            if same_bytes(&self.topics[i].name, name) {
                proof {
                    self.lemma_index(name@, i as int);
                }
                return Some(i);
            }
            i += 1;
        }
        None
    }

    /// Whether the registry holds the topic `name`.
    pub fn is_subscribed(&self, name: &Vec<u8>) -> (r: bool)
        requires
            self.wf(),
        ensures
            r == self.spec_subscribed(name@),
    {
        self.find(name).is_some()
    }

    /// Puts a topic that the registry does not hold behind the others.
    fn add_topic(&mut self, name: &Vec<u8>, subscribers: Vec<PeerId>)
        requires
            old(self).wf(),
            !old(self).spec_subscribed(name@),
            distinct(ids_of(subscribers@)),
        ensures
            final(self).wf(),
            final(self).spec_subscribed(name@),
            final(self).spec_peers_for(name@) == ids_of(subscribers@),
            forall|other: Seq<u8>|
                other != name@ ==> final(self).spec_subscribed(other) == old(self).spec_subscribed(
                    other,
                ) && final(self).spec_peers_for(other) == old(self).spec_peers_for(other),
    {
        let t = Topic { name: copy_bytes(name), subscribers };
        self.topics.push(t);
        proof {
            let n = old(self).topics@.len() as int;
            assert(self.topics@[n].name@ == name@);
            assert forall|i: int| 0 <= i < n implies self.topics@[i] == old(self).topics@[i] by {}
            assert(self.wf());
            self.lemma_index(name@, n);
            assert forall|other: Seq<u8>| other != name@ implies self.spec_subscribed(other)
                == old(self).spec_subscribed(other) && self.spec_peers_for(other) == old(self).spec_peers_for(other) by {
                if old(self).spec_subscribed(other) {
                    let k = old(self).spec_index(other);
                    assert(self.topics@[k] == old(self).topics@[k]);
                    self.lemma_index(other, k);
                } else if self.spec_subscribed(other) {
                    let k = self.spec_index(other);
                    assert(old(self).topics@[k].name@ == other);
                }
            }
        }
    }

    /// Gives the topic at place `at` another list of subscribers.
    fn set_subscribers(&mut self, at: usize, subscribers: Vec<PeerId>)
        requires
            old(self).wf(),
            at < old(self).topics@.len(),
            distinct(ids_of(subscribers@)),
        ensures
            final(self).wf(),
            final(self).topics@.len() == old(self).topics@.len(),
            forall|i: int|
                0 <= i < final(self).topics@.len() ==> (#[trigger] final(self).topics@[i]).name@
                    == old(self).topics@[i].name@,
            forall|i: int|
                0 <= i < final(self).topics@.len() && i != at ==> final(self).topics@[i] == old(self).topics@[i],
            final(self).topics@[at as int].subscribers@ == subscribers@,
            forall|any: Seq<u8>| final(self).spec_subscribed(any) == old(self).spec_subscribed(any),
            forall|other: Seq<u8>|
                other != old(self).topics@[at as int].name@ ==> final(self).spec_peers_for(other)
                    == old(self).spec_peers_for(other),
            final(self).spec_peers_for(old(self).topics@[at as int].name@) == ids_of(subscribers@),
    {
        let name = copy_bytes(&self.topics[at].name);
        self.topics.set(at, Topic { name, subscribers });
        proof {
            let name = old(self).topics@[at as int].name@;
            assert forall|i: int| 0 <= i < self.topics@.len() implies (
            #[trigger] self.topics@[i]).name@ == old(self).topics@[i].name@ by {}
            assert(self.wf());
            self.lemma_index(name, at as int);
            assert forall|any: Seq<u8>| self.spec_subscribed(any) == old(self).spec_subscribed(
                any,
            ) by {
                if old(self).spec_subscribed(any) {
                    let k = old(self).spec_index(any);
                    assert(self.topics@[k].name@ == any);
                }
                if self.spec_subscribed(any) {
                    let k = self.spec_index(any);
                    assert(old(self).topics@[k].name@ == any);
                }
            }
            assert forall|other: Seq<u8>| other != name implies self.spec_peers_for(other) == old(self).spec_peers_for(other) by {
                if old(self).spec_subscribed(other) {
                    let k = old(self).spec_index(other);
                    assert(self.topics@[k] == old(self).topics@[k]);
                    self.lemma_index(other, k);
                }
            }
        }
    }

    /// Takes up the topic `name`. A topic that is there already stays as it
    /// is, with its subscribers.
    pub fn subscribe(&mut self, name: &Vec<u8>)
        requires
            old(self).wf(),
        ensures
            final(self).wf(),
            final(self).spec_subscribed(name@),
            forall|other: Seq<u8>|
                other != name@ ==> final(self).spec_subscribed(other) == old(self).spec_subscribed(
                    other,
                ),
            forall|any: Seq<u8>| final(self).spec_peers_for(any) == old(self).spec_peers_for(any),
            old(self).spec_subscribed(name@) ==> final(self).topics@ == old(self).topics@,
    {
        if self.find(name).is_some() {
            return ;
        }
        let none: Vec<PeerId> = Vec::new();
        assert(ids_of(none@) =~= Seq::<Seq<u8>>::empty());
        self.add_topic(name, none);
    }

    /// Adds `peer` to the subscribers of the topic `name`, taking the topic
    /// up if need be. A peer that is there already is not added again.
    pub fn add_peer(&mut self, name: &Vec<u8>, peer: &PeerId)
        requires
            old(self).wf(),
        ensures
            final(self).wf(),
            final(self).spec_subscribed(name@),
            forall|other: Seq<u8>|
                other != name@ ==> final(self).spec_subscribed(other) == old(self).spec_subscribed(
                    other,
                ) && final(self).spec_peers_for(other) == old(self).spec_peers_for(other),
            final(self).spec_peers_for(name@) == if old(self).spec_peers_for(name@).contains(
                peer@,
            ) {
                old(self).spec_peers_for(name@)
            } else {
                old(self).spec_peers_for(name@).push(peer@)
            },
    {
        match self.find(name) {
            None => {
                let mut one: Vec<PeerId> = Vec::new();
                one.push(peer.copy());
                assert(ids_of(one@) =~= Seq::<Seq<u8>>::empty().push(peer@));
                assert(!Seq::<Seq<u8>>::empty().contains(peer@));
                self.add_topic(name, one);
            },
            Some(at) => {
                if contains_peer(&self.topics[at].subscribers, peer) {
                    return ;
                }
                let mut list = copy_peers(&self.topics[at].subscribers);
                let ghost before = ids_of(list@);
                list.push(peer.copy());
                proof {
                    let after = ids_of(list@);
                    assert(after =~= before.push(peer@));
                    assert forall|a: int, b: int| 0 <= a < b < after.len() implies after[a]
                        != after[b] by {
                        if b < before.len() {
                            assert(before[a] != before[b]);
                        } else {
                            assert(before.contains(before[a]));
                        }
                    }
                }
                self.set_subscribers(at, list);
            },
        }
    }

    /// Takes `peer` out of the subscribers of every topic.
    pub fn remove_peer(&mut self, peer: &PeerId)
        requires
            old(self).wf(),
        ensures
            final(self).wf(),
            forall|any: Seq<u8>| final(self).spec_subscribed(any) == old(self).spec_subscribed(any),
            forall|any: Seq<u8>|
                final(self).spec_peers_for(any) == spec_without(
                    old(self).spec_peers_for(any),
                    peer@,
                ),
    {
        let mut at: usize = 0;
        while at < self.topics.len()
            invariant
                self.wf(),
                0 <= at <= self.topics@.len(),
                self.topics@.len() == old(self).topics@.len(),
                forall|i: int|
                    0 <= i < self.topics@.len() ==> (#[trigger] self.topics@[i]).name@ == old(self).topics@[i].name@,
                forall|i: int|
                    at <= i < self.topics@.len() ==> self.topics@[i] == old(self).topics@[i],
                forall|i: int|
                    0 <= i < at ==> ids_of((#[trigger] self.topics@[i]).subscribers@)
                        == spec_without(ids_of(old(self).topics@[i].subscribers@), peer@),
            decreases self.topics@.len() - at,
        {
            let list = without_peer(&self.topics[at].subscribers, peer);
            proof {
                lemma_without(ids_of(self.topics@[at as int].subscribers@), peer@);
            }
            let ghost prev = self.topics@;
            self.set_subscribers(at, list);
            proof {
                assert forall|i: int| 0 <= i < at + 1 implies ids_of(
                    (#[trigger] self.topics@[i]).subscribers@,
                ) == spec_without(ids_of(old(self).topics@[i].subscribers@), peer@) by {
                    if i < at {
                        assert(self.topics@[i] == prev[i]);
                    }
                }
            }
            at += 1;
        }
        proof {
            assert forall|any: Seq<u8>| self.spec_subscribed(any) == old(self).spec_subscribed(
                any,
            ) by {
                if old(self).spec_subscribed(any) {
                    let k = old(self).spec_index(any);
                    assert(self.topics@[k].name@ == any);
                }
                if self.spec_subscribed(any) {
                    let k = self.spec_index(any);
                    assert(old(self).topics@[k].name@ == any);
                }
            }
            assert forall|any: Seq<u8>| self.spec_peers_for(any) == spec_without(
                old(self).spec_peers_for(any),
                peer@,
            ) by {
                if old(self).spec_subscribed(any) {
                    let k = old(self).spec_index(any);
                    assert(self.topics@[k].name@ == any);
                    self.lemma_index(any, k);
                }
            }
        }
    }

    /// The subscribers of the topic `name`: the peers that a message on it
    /// may be handed to.
    pub fn peers_for(&self, name: &Vec<u8>) -> (r: Vec<PeerId>)
        requires
            self.wf(),
        ensures
            ids_of(r@) == self.spec_peers_for(name@),
            distinct(ids_of(r@)),
    {
        match self.find(name) {
            Some(at) => copy_peers(&self.topics[at].subscribers),
            None => {
                let out: Vec<PeerId> = Vec::new();
                assert(ids_of(out@) =~= Seq::<Seq<u8>>::empty());
                out
            },
        }
    }
}

} // verus!
