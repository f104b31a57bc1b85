//! What passes between the engine and the application: commands one way,
//! events the other, each through a queue of bounded length.

use vstd::prelude::*;
use crate::codec::PeerId;

verus! {

/// What the application asks of the engine.
pub enum BridgeCommand {
    /// Publish `payload` on `topic`.
    Send { topic: Vec<u8>, payload: Vec<u8> },
    /// Dial the peer at `address`.
    AddPeer { address: String },
    /// Take up `topic`.
    Subscribe { topic: Vec<u8> },
}

/// What the engine tells the application.
pub enum BridgeEvent {
    MessageReceived { sender: PeerId, topic: Vec<u8>, payload: Vec<u8> },
    PeerDiscovered { id: PeerId },
    PeerExpired { id: PeerId },
    ListenReady { address: String },
}

/// An event as mathematical values.
pub ghost enum BridgeEventView {
    MessageReceived { sender: Seq<u8>, topic: Seq<u8>, payload: Seq<u8> },
    PeerDiscovered { id: Seq<u8> },
    PeerExpired { id: Seq<u8> },
    ListenReady { address: Seq<char> },
}

impl View for BridgeEvent {
    type V = BridgeEventView;

    open spec fn view(&self) -> BridgeEventView {
        match self {
            BridgeEvent::MessageReceived { sender, topic, payload } => {
                BridgeEventView::MessageReceived {
                    sender: sender@,
                    topic: topic@,
                    payload: payload@,
                }
            },
            BridgeEvent::PeerDiscovered { id } => BridgeEventView::PeerDiscovered { id: id@ },
            BridgeEvent::PeerExpired { id } => BridgeEventView::PeerExpired { id: id@ },
            BridgeEvent::ListenReady { address } => BridgeEventView::ListenReady {
                address: address@,
            },
        }
    }
}

/// The views of a list of events, in its order.
pub open spec fn events_view(events: Seq<BridgeEvent>) -> Seq<BridgeEventView> {
    Seq::new(events.len(), |i: int| events[i]@)
}

/// The view of an event that may be missing.
pub open spec fn event_view(event: Option<BridgeEvent>) -> Option<BridgeEventView> {
    match event {
        Some(e) => Some(e@),
        None => None,
    }
}

/// The default number of items that a queue of the bridge holds.
pub const BRIDGE_CAPACITY: usize = 128;

/// Why a queue did not take an item.
#[derive(Clone, Copy, Debug, PartialEq, Eq, Structural)]
pub enum QueueError {
    /// The queue holds as many items as it may. The same item can be
    /// offered again later.
    Full,
    /// The other side has gone: nothing will be taken any more.
    Closed,
}

/// An item that a queue did not take, handed back with the reason.
pub struct Refused<T> {
    pub reason: QueueError,
    pub item: T,
}

/// A queue of bounded length: first in, first out.
pub struct BoundedQueue<T> {
    pub items: Vec<T>,
    pub capacity: usize,
    pub closed: bool,
}

impl<T> View for BoundedQueue<T> {
    type V = Seq<T>;

    open spec fn view(&self) -> Seq<T> {
        self.items@
    }
}

impl<T> BoundedQueue<T> {
    pub open spec fn wf(&self) -> bool {
        self.items@.len() <= self.capacity
    }

    /// An empty open queue that holds up to `capacity` items.
    pub fn new(capacity: usize) -> (q: BoundedQueue<T>)
        ensures
            q.wf(),
            q@ == Seq::<T>::empty(),
            q.capacity == capacity,
            !q.closed,
    {
        BoundedQueue { items: Vec::new(), capacity, closed: false }
    }

    pub fn len(&self) -> (n: usize)
        ensures
            n == self@.len(),
    {
        self.items.len()
    }

    pub fn is_full(&self) -> (r: bool)
        ensures
            r == (self@.len() >= self.capacity),
    {
        self.items.len() >= self.capacity
    }

    /// Marks the queue as given up by one side. What it holds can still be
    /// taken out.
    pub fn close(&mut self)
        ensures
            final(self).closed,
            final(self)@ == old(self)@,
            final(self).capacity == old(self).capacity,
    {
        self.closed = true;
    }

    /// Puts `item` at the end, without waiting. A closed queue and a full one
    /// hand it back, and stay as they are.
    pub fn try_push(&mut self, item: T) -> (r: Result<(), Refused<T>>)
        requires
            old(self).wf(),
        ensures
            final(self).wf(),
            final(self).capacity == old(self).capacity,
            final(self).closed == old(self).closed,
            match r {
                Ok(_) => !old(self).closed && old(self)@.len() < old(self).capacity && final(self)@ == old(self)@.push(item),
                Err(refused) => refused.item == item && final(self)@ == old(self)@ && (if old(self).closed {
                    refused.reason == QueueError::Closed
                } else {
                    refused.reason == QueueError::Full && old(self)@.len() == old(self).capacity
                }),
            },
    {
        if self.closed {
            return Err(Refused { reason: QueueError::Closed, item });
        }
        if self.items.len() >= self.capacity {
            return Err(Refused { reason: QueueError::Full, item });
        }
        self.items.push(item);
        Ok(())
    }

    /// Puts as many of `items` at the end as the queue has room for, in
    /// their order, and hands the others back: none is lost. A closed queue
    /// takes none.
    pub fn push_all(&mut self, items: Vec<T>) -> (rest: Vec<T>)
        requires
            old(self).wf(),
        ensures
            final(self).wf(),
            final(self).capacity == old(self).capacity,
            final(self).closed == old(self).closed,
            final(self)@ + rest@ == old(self)@ + items@,
            rest@.len() <= items@.len(),
            final(self)@ == old(self)@ + items@.take(items@.len() - rest@.len()),
            rest@ == items@.skip(items@.len() - rest@.len()),
            old(self).closed ==> rest@ == items@,
            !old(self).closed ==> rest@.len() == 0 || final(self)@.len() == old(self).capacity,
    {
        let mut rest = items;
        let ghost mut taken: int = 0;
        proof {
            assert(items@.take(0) =~= Seq::<T>::empty());
            assert(items@.skip(0) =~= items@);
            assert(self@ =~= old(self)@ + items@.take(0));
        }
        while rest.len() > 0 && !self.closed && self.items.len() < self.capacity
            invariant
                self.wf(),
                self.capacity == old(self).capacity,
                self.closed == old(self).closed,
                0 <= taken <= items@.len(),
                rest@.len() == items@.len() - taken,
                self@ == old(self)@ + items@.take(taken),
                rest@ == items@.skip(taken),
                old(self).closed ==> taken == 0,
            decreases rest@.len(),
        {
            let item = rest.remove(0);
            self.items.push(item);
            proof {
                assert(self@ =~= old(self)@ + items@.take(taken + 1));
                assert(rest@ =~= items@.skip(taken + 1));
                taken = taken + 1;
            }
        }
        proof {
            assert(self@ + rest@ =~= old(self)@ + items@) by {
                assert(items@.take(taken) + items@.skip(taken) =~= items@);
                assert(self@ + rest@ =~= old(self)@ + (items@.take(taken) + items@.skip(taken)));
            }
        }
        rest
    }

    /// Takes the first item out, without waiting; none from an empty queue.
    pub fn try_pop(&mut self) -> (r: Option<T>)
        requires
            old(self).wf(),
        ensures
            final(self).wf(),
            final(self).capacity == old(self).capacity,
            final(self).closed == old(self).closed,
            match r {
                Some(item) => old(self)@.len() > 0 && item == old(self)@[0] && final(self)@ == old(self)@.drop_first(),
                None => old(self)@.len() == 0 && final(self)@ == old(self)@,
            },
    {
        if self.items.len() == 0 {
            return None;
        }
        let item = self.items.remove(0);
        assert(self.items@ =~= old(self)@.drop_first());
        Some(item)
    }
}

/// The two queues between the application and the engine.
pub struct Bridge {
    pub commands: BoundedQueue<BridgeCommand>,
    pub events: BoundedQueue<BridgeEvent>,
}

impl Bridge {
    pub open spec fn wf(&self) -> bool {
        self.commands.wf() && self.events.wf()
    }

    /// A bridge with two empty queues of `capacity` items each.
    pub fn new(capacity: usize) -> (b: Bridge)
        ensures
            b.wf(),
            b.commands@.len() == 0,
            b.events@.len() == 0,
            b.commands.capacity == capacity,
            b.events.capacity == capacity,
            !b.commands.closed,
            !b.events.closed,
    {
        Bridge { commands: BoundedQueue::new(capacity), events: BoundedQueue::new(capacity) }
    }
}

} // verus!
