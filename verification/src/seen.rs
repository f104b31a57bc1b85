//! The bounded record of content ids that were already handled.

use vstd::prelude::*;

verus! {

/// One handled message: its content id and when it was first seen.
#[derive(Clone, Copy, Debug, PartialEq, Eq, Structural)]
pub struct SeenEntry {
    pub id: u64,
    pub first_seen: u64,
}

/// Whether `id` occurs among `entries`.
pub open spec fn spec_seen(entries: Seq<SeenEntry>, id: u64) -> bool {
    exists|i: int| 0 <= i < entries.len() && #[trigger] entries[i].id == id
}

/// `entries` with a new entry at the end; where that would be more than
/// `capacity` entries, the oldest one leaves.
pub open spec fn spec_remember(entries: Seq<SeenEntry>, capacity: int, e: SeenEntry) -> Seq<
    SeenEntry,
> {
    if entries.len() < capacity {
        entries.push(e)
    } else {
        entries.push(e).drop_first()
    }
}

/// The content ids that were handled lately, oldest first, at most
/// `capacity` of them and none twice.
pub struct SeenCache {
    pub entries: Vec<SeenEntry>,
    pub capacity: usize,
}

impl View for SeenCache {
    type V = Seq<SeenEntry>;

    open spec fn view(&self) -> Seq<SeenEntry> {
        self.entries@
    }
}

impl SeenCache {
    pub open spec fn wf(&self) -> bool {
        &&& 1 <= self.capacity
        &&& self.entries@.len() <= self.capacity
        &&& forall|i: int, j: int|
            0 <= i < j < self.entries@.len() ==> self.entries@[i].id != self.entries@[j].id
    }

    /// An empty cache that holds up to `capacity` ids.
    pub fn new(capacity: usize) -> (c: SeenCache)
        requires
            capacity >= 1,
        ensures
            c.wf(),
            c@ == Seq::<SeenEntry>::empty(),
            c.capacity == capacity,
    {
        SeenCache { entries: Vec::new(), capacity }
    }

    pub fn len(&self) -> (n: usize)
        ensures
            n == self@.len(),
    {
        self.entries.len()
    }

    /// Whether `id` is in the cache.
    pub fn contains(&self, id: u64) -> (r: bool)
        ensures
            r == spec_seen(self@, id),
    {
        let mut i: usize = 0;
        while i < self.entries.len()
            invariant
                0 <= i <= self.entries@.len(),
                forall|j: int| 0 <= j < i ==> self.entries@[j].id != id,
            decreases self.entries@.len() - i,
        {
            if self.entries[i].id == id {
                return true;
            }
            i += 1;
        }
        false
    }

    /// When `id` was first seen, if it is in the cache.
    pub fn first_seen(&self, id: u64) -> (r: Option<u64>)
        requires
            self.wf(),
        ensures
            match r {
                Some(t) => exists|i: int|
                    0 <= i < self@.len() && #[trigger] self@[i].id == id && self@[i].first_seen
                        == t,
                None => !spec_seen(self@, id),
            },
    {
        let mut i: usize = 0;
        while i < self.entries.len()
            invariant
                0 <= i <= self.entries@.len(),
                forall|j: int| 0 <= j < i ==> self.entries@[j].id != id,
            decreases self.entries@.len() - i,
        {
            if self.entries[i].id == id {
                assert(self@[i as int].id == id);
                return Some(self.entries[i].first_seen);
            }
            i += 1;
        }
        None
    }

    /// Records `id` as seen at `now` unless it is in the cache already, and
    /// says whether it was new. A new id on a full cache pushes the oldest out.
    pub fn insert(&mut self, id: u64, now: u64) -> (fresh: bool)
        requires
            old(self).wf(),
        ensures
            final(self).wf(),
            final(self).capacity == old(self).capacity,
            fresh == !spec_seen(old(self)@, id),
            !fresh ==> final(self)@ == old(self)@,
            fresh ==> final(self)@ == spec_remember(
                old(self)@,
                old(self).capacity as int,
                SeenEntry { id, first_seen: now },
            ),
            spec_seen(final(self)@, id),
    {
        if self.contains(id) {
            return false;
        }
        let e = SeenEntry { id, first_seen: now };
        if self.entries.len() >= self.capacity {
            self.entries.remove(0);
            assert(self.entries@ =~= old(self)@.drop_first());
        }
        self.entries.push(e);
        assert(self.entries@ =~= spec_remember(old(self)@, old(self).capacity as int, e));
        assert(self.entries@[self.entries@.len() - 1].id == id);
        true
    }
}

} // verus!
