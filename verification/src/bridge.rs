//! The hand-off between the capture side, which must never wait, and the
//! distribution side, which may.

use crate::message::{Message, StreamMessage};
use crate::queue::{BoundedQueue, QueueView};
use vstd::prelude::*;

verus! {

/// The number of items that the bridge holds unless told otherwise.
pub const BRIDGE_CAPACITY: usize = 16;

/// What a [`FrameBridge`] holds: its queue, and whether it has been closed.
pub struct BridgeView {
    pub queue: QueueView,
    pub closed: bool,
}

impl BridgeView {
    /// The bridge before anything has been handed over.
    pub open spec fn initial(capacity: nat) -> BridgeView {
        BridgeView { queue: QueueView::empty(capacity), closed: false }
    }

    /// The bridge after `m` has been handed over. A closed bridge takes
    /// nothing.
    pub open spec fn enqueue(self, m: Message) -> BridgeView {
        if self.closed {
            self
        } else {
            BridgeView { queue: self.queue.push(m), closed: false }
        }
    }

    /// The bridge after each of `ms` has been handed over in turn.
    pub open spec fn enqueue_all(self, ms: Seq<Message>) -> BridgeView
        decreases ms.len(),
    {
        if ms.len() == 0 {
            self
        } else {
            self.enqueue_all(ms.drop_last()).enqueue(ms.last())
        }
    }

    /// The bridge after its oldest item has been taken.
    pub open spec fn dequeue(self) -> BridgeView {
        BridgeView { queue: self.queue.pop(), closed: self.closed }
    }

    /// The bridge after everything that it held has been taken.
    pub open spec fn drained(self) -> BridgeView {
        BridgeView { queue: QueueView { items: Seq::empty(), ..self.queue }, closed: self.closed }
    }
}

/// A bounded hand-off queue. Handing over never waits: a full bridge gives
/// up its oldest item for the new one and counts the drop.
pub struct FrameBridge {
    queue: BoundedQueue,
    closed: bool,
}

impl View for FrameBridge {
    type V = BridgeView;

    closed spec fn view(&self) -> BridgeView {
        BridgeView { queue: self.queue@, closed: self.closed }
    }
}

impl FrameBridge {
    /// An open bridge that holds at most `capacity` items.
    pub fn new(capacity: usize) -> (bridge: Self)
        requires
            capacity > 0,
        ensures
            bridge@ == BridgeView::initial(capacity as nat),
    {
        FrameBridge { queue: BoundedQueue::new(capacity), closed: false }
    }

    /// Hands `item` over. Returns whether the bridge took it, which it
    /// does unless it has been closed.
    pub fn enqueue(&mut self, item: StreamMessage) -> (accepted: bool)
        ensures
            final(self)@ == old(self)@.enqueue(item@),
            accepted == !old(self)@.closed,
            final(self)@.queue.wf(),
    {
        if self.closed {
            proof {
                use_type_invariant(&self.queue);
            }
            false
        } else {
            self.queue.push(item);
            true
        }
    }

    /// Takes the oldest item, if there is one.
    pub fn dequeue(&mut self) -> (r: Option<StreamMessage>)
        ensures
            final(self)@ == old(self)@.dequeue(),
            match r {
                Some(m) => old(self)@.queue.front() == Some(m@),
                None => old(self)@.queue.front().is_none(),
            },
            final(self)@.queue.wf(),
    {
        self.queue.pop()
    }

    /// Closes the bridge: it takes nothing more. What it holds can still
    /// be taken.
    pub fn close(&mut self)
        ensures
            final(self)@ == (BridgeView { closed: true, ..old(self)@ }),
    {
        self.closed = true;
    }

    /// Whether the bridge has been closed.
    pub fn is_closed(&self) -> (r: bool)
        ensures
            r == self@.closed,
    {
        self.closed
    }

    /// The number of items waiting to be taken.
    pub fn len(&self) -> (n: usize)
        ensures
            n == self@.queue.items.len(),
            self@.queue.wf(),
    {
        self.queue.len()
    }

    /// Whether nothing is waiting to be taken.
    pub fn is_empty(&self) -> (r: bool)
        ensures
            r == (self@.queue.items.len() == 0),
    {
        self.queue.is_empty()
    }

    /// The largest number of items that wait at a time.
    pub fn capacity(&self) -> (n: usize)
        ensures
            n == self@.queue.capacity,
            n > 0,
    {
        self.queue.capacity()
    }

    /// The number of items given up for newer ones so far.
    pub fn dropped(&self) -> (n: u64)
        ensures
            n == self@.queue.dropped,
    {
        self.queue.dropped()
    }
}

/// A closed bridge stays as it is, whatever it is handed. An open bridge
/// takes everything into its queue and stays open.
pub proof fn lemma_enqueue_all(b: BridgeView, ms: Seq<Message>)
    ensures
        b.closed ==> b.enqueue_all(ms) == b,
        !b.closed ==> b.enqueue_all(ms) == (BridgeView {
            queue: b.queue.push_all(ms),
            closed: false,
        }),
    decreases ms.len(),
{
    if ms.len() > 0 {
        lemma_enqueue_all(b, ms.drop_last());
    }
}

} // verus!
