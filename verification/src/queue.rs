//! A bounded first-in first-out queue that evicts its oldest item when full.
//!
//! Both the hand-off from the capture side and each subscriber's delivery
//! queue are queues of this kind.

use crate::message::{Message, StreamMessage};
use crate::order::{
    above, lemma_ordered_cons, lemma_ordered_tail_above, number, ordered, unitless,
};
use std::collections::VecDeque;
use vstd::prelude::*;

verus! {

/// What a [`BoundedQueue`] holds: its items, oldest first, its bound, and
/// the number of items that it has evicted.
pub struct QueueView {
    pub items: Seq<Message>,
    pub capacity: nat,
    pub dropped: u64,
}

/// A drop counter after one more drop. It stays at its largest value.
pub open spec fn bumped(dropped: u64) -> u64 {
    if dropped < u64::MAX {
        (dropped + 1) as u64
    } else {
        dropped
    }
}

impl QueueView {
    /// The queue has room for at least one item and holds no more than its
    /// bound.
    pub open spec fn wf(self) -> bool {
        0 < self.capacity && self.items.len() <= self.capacity
    }

    /// The empty queue of the given bound.
    pub open spec fn empty(capacity: nat) -> QueueView {
        QueueView { items: Seq::empty(), capacity, dropped: 0 }
    }

    /// No further item fits without an eviction.
    pub open spec fn full(self) -> bool {
        self.items.len() >= self.capacity
    }

    /// The queue after `m` has been added: when it was full, its oldest item
    /// has made room and the drop counter has gone up.
    pub open spec fn push(self, m: Message) -> QueueView {
        if self.full() {
            QueueView {
                items: self.items.drop_first().push(m),
                capacity: self.capacity,
                dropped: bumped(self.dropped),
            }
        } else {
            QueueView { items: self.items.push(m), capacity: self.capacity, dropped: self.dropped }
        }
    }

    /// The queue after each of `ms` has been added in turn.
    pub open spec fn push_all(self, ms: Seq<Message>) -> QueueView
        decreases ms.len(),
    {
        if ms.len() == 0 {
            self
        } else {
            self.push_all(ms.drop_last()).push(ms.last())
        }
    }

    /// The queue after its oldest item has been taken, if it had one.
    pub open spec fn pop(self) -> QueueView {
        if self.items.len() > 0 {
            QueueView {
                items: self.items.drop_first(),
                capacity: self.capacity,
                dropped: self.dropped,
            }
        } else {
            self
        }
    }

    /// The oldest item, if there is one.
    pub open spec fn front(self) -> Option<Message> {
        if self.items.len() > 0 {
            Some(self.items[0])
        } else {
            None
        }
    }
}

/// A bounded queue of stream messages with a drop-oldest overflow policy.
pub struct BoundedQueue {
    items: VecDeque<StreamMessage>,
    capacity: usize,
    dropped: u64,
}

impl View for BoundedQueue {
    type V = QueueView;

    closed spec fn view(&self) -> QueueView {
        QueueView {
            items: self.items@.map_values(|m: StreamMessage| m@),
            capacity: self.capacity as nat,
            dropped: self.dropped,
        }
    }
}

impl BoundedQueue {
    #[verifier::type_invariant]
    pub(crate) open spec fn inv(self) -> bool {
        self@.wf()
    }

    /// An empty queue that holds at most `capacity` items.
    pub fn new(capacity: usize) -> (q: Self)
        requires
            capacity > 0,
        ensures
            q@ == QueueView::empty(capacity as nat),
    {
        let q = BoundedQueue { items: VecDeque::new(), capacity, dropped: 0 };
        assert(q@.items =~= Seq::empty());
        q
    }

    /// Adds `item` as the newest. A full queue first evicts its oldest item
    /// and counts the drop. Returns whether an item was evicted.
    pub fn push(&mut self, item: StreamMessage) -> (evicted: bool)
        ensures
            final(self)@ == old(self)@.push(item@),
            evicted == old(self)@.full(),
            final(self)@.wf(),
    {
        proof {
            use_type_invariant(&*self);
        }
        let mut items = VecDeque::new();
        std::mem::swap(&mut items, &mut self.items);
        let evicted = items.len() >= self.capacity;
        if evicted {
            let _ = items.pop_front();
            if self.dropped < u64::MAX {
                self.dropped = self.dropped + 1;
            }
        }
        items.push_back(item);
        self.items = items;
        assert(final(self)@.items =~= old(self)@.push(item@).items);
        evicted
    }

    /// Takes the oldest item, if there is one.
    pub fn pop(&mut self) -> (r: Option<StreamMessage>)
        ensures
            final(self)@ == old(self)@.pop(),
            match r {
                Some(m) => old(self)@.front() == Some(m@),
                None => old(self)@.front().is_none(),
            },
            final(self)@.wf(),
    {
        proof {
            use_type_invariant(&*self);
        }
        let mut items = VecDeque::new();
        std::mem::swap(&mut items, &mut self.items);
        let r = items.pop_front();
        self.items = items;
        assert(final(self)@.items =~= old(self)@.pop().items);
        r
    }

    /// The number of items held.
    pub fn len(&self) -> (n: usize)
        ensures
            n == self@.items.len(),
            self@.wf(),
    {
        proof {
            use_type_invariant(&*self);
        }
        self.items.len()
    }

    /// Whether the queue holds nothing.
    pub fn is_empty(&self) -> (r: bool)
        ensures
            r == (self@.items.len() == 0),
    {
        self.items.len() == 0
    }

    /// The largest number of items held at a time.
    pub fn capacity(&self) -> (n: usize)
        ensures
            n == self@.capacity,
            n > 0,
    {
        proof {
            use_type_invariant(&*self);
        }
        self.capacity
    }

    /// The number of items evicted so far.
    pub fn dropped(&self) -> (n: u64)
        ensures
            n == self@.dropped,
    {
        self.dropped
    }
}

/// One thing that happens to a queue.
pub enum QueueEvent {
    /// An item is added.
    Push(Message),
    /// The oldest item is taken, if there is one.
    Pop,
}

/// The items that `events` add, in their order.
pub open spec fn pushed(events: Seq<QueueEvent>) -> Seq<Message>
    decreases events.len(),
{
    if events.len() == 0 {
        Seq::empty()
    } else {
        match events[0] {
            QueueEvent::Push(m) => seq![m] + pushed(events.drop_first()),
            QueueEvent::Pop => pushed(events.drop_first()),
        }
    }
}

/// The items that are taken from `q` while `events` happen, in their order.
pub open spec fn popped(q: QueueView, events: Seq<QueueEvent>) -> Seq<Message>
    decreases events.len(),
{
    if events.len() == 0 {
        Seq::empty()
    } else {
        match events[0] {
            QueueEvent::Push(m) => popped(q.push(m), events.drop_first()),
            QueueEvent::Pop => match q.front() {
                Some(m) => seq![m] + popped(q.pop(), events.drop_first()),
                None => popped(q, events.drop_first()),
            },
        }
    }
}

/// Adding items keeps a queue within its bound.
pub proof fn lemma_push_all_wf(q: QueueView, ms: Seq<Message>)
    requires
        q.wf(),
    ensures
        q.push_all(ms).wf(),
        q.push_all(ms).capacity == q.capacity,
    decreases ms.len(),
{
    if ms.len() > 0 {
        lemma_push_all_wf(q, ms.drop_last());
    }
}

/// Items that fit are all kept, in their order, and nothing is dropped.
pub proof fn lemma_push_all_fits(q: QueueView, ms: Seq<Message>)
    requires
        q.items.len() + ms.len() <= q.capacity,
    ensures
        q.push_all(ms) == (QueueView { items: q.items + ms, ..q }),
    decreases ms.len(),
{
    if ms.len() > 0 {
        lemma_push_all_fits(q, ms.drop_last());
        assert((q.items + ms.drop_last()).push(ms.last()) =~= q.items + ms);
    } else {
        assert(q.items + ms =~= q.items);
    }
}

/// Adding control events to a queue of control events gives a queue of
/// control events.
pub proof fn lemma_push_all_unitless(q: QueueView, ms: Seq<Message>)
    requires
        q.wf(),
        unitless(q.items),
        unitless(ms),
    ensures
        unitless(q.push_all(ms).items),
    decreases ms.len(),
{
    if ms.len() > 0 {
        lemma_push_all_unitless(q, ms.drop_last());
        lemma_push_all_wf(q, ms.drop_last());
        let before = q.push_all(ms.drop_last());
        let after = before.push(ms.last());
        assert forall|i: int| 0 <= i < after.items.len()
            implies !((#[trigger] after.items[i]) is Frame) by {
            if i == after.items.len() - 1 {
                assert(after.items[i] == ms[ms.len() - 1]);
            } else if before.full() {
                assert(after.items[i] == before.items[i + 1]);
            } else {
                assert(after.items[i] == before.items[i]);
            }
        }
    }
}

/// The number of items that a queue gives up when `ms` are added to it.
pub open spec fn overflow(q: QueueView, ms: Seq<Message>) -> int {
    if q.items.len() + ms.len() > q.capacity {
        q.items.len() + ms.len() - q.capacity
    } else {
        0
    }
}

/// A queue that is added to holds the newest of what it held and what
/// was added, in their order: the oldest items are the ones given up.
pub proof fn lemma_push_all_keeps_newest(q: QueueView, ms: Seq<Message>)
    requires
        q.wf(),
    ensures
        0 <= overflow(q, ms) <= (q.items + ms).len(),
        q.push_all(ms).items == (q.items + ms).skip(overflow(q, ms)),
    decreases ms.len(),
{
    if ms.len() == 0 {
        assert((q.items + ms).skip(0) =~= q.items);
    } else {
        let front = ms.drop_last();
        lemma_push_all_keeps_newest(q, front);
        lemma_push_all_wf(q, front);
        let before = q.push_all(front);
        assert(q.items + ms =~= (q.items + front).push(ms.last()));
        assert(before.push(ms.last()).items =~= (q.items + ms).skip(overflow(q, ms)));
    }
}

/// What is taken from a queue lies above every number that all of what it
/// holds and all of what is added lie above.
pub proof fn lemma_popped_above(q: QueueView, events: Seq<QueueEvent>, n: int)
    requires
        q.wf(),
        above(q.items + pushed(events), n),
    ensures
        above(popped(q, events), n),
    decreases events.len(),
{
    if events.len() > 0 {
        let rest = events.drop_first();
        let all = q.items + pushed(events);
        match events[0] {
            QueueEvent::Push(m) => {
                let next = q.push(m);
                let after = next.items + pushed(rest);
                assert forall|i: int| 0 <= i < after.len() && (#[trigger] after[i]) is Frame
                    implies after[i]->count > n by {
                    if q.full() {
                        assert(after[i] == all[i + 1]);
                    } else {
                        assert(after[i] == all[i]);
                    }
                }
                lemma_popped_above(next, rest, n);
            },
            QueueEvent::Pop => {
                if q.items.len() > 0 {
                    let after = q.pop().items + pushed(rest);
                    assert forall|i: int| 0 <= i < after.len() && (#[trigger] after[i]) is Frame
                        implies after[i]->count > n by {
                        assert(after[i] == all[i + 1]);
                    }
                    lemma_popped_above(q.pop(), rest, n);
                    let out = popped(q, events);
                    assert forall|i: int| 0 <= i < out.len() && (#[trigger] out[i]) is Frame
                        implies out[i]->count > n by {
                        if i == 0 {
                            assert(out[0] == all[0]);
                        } else {
                            assert(out[i] == popped(q.pop(), rest)[i - 1]);
                        }
                    }
                } else {
                    lemma_popped_above(q, rest, n);
                }
            },
        }
    }
}

/// A queue hands out its items in the order in which they came: where the
/// units that it holds and that are added carry increasing numbers, so do
/// the units that are taken from it, whatever was evicted in between.
pub proof fn lemma_popped_ordered(q: QueueView, events: Seq<QueueEvent>)
    requires
        q.wf(),
        ordered(q.items + pushed(events)),
    ensures
        ordered(popped(q, events)),
    decreases events.len(),
{
    if events.len() > 0 {
        let rest = events.drop_first();
        let all = q.items + pushed(events);
        match events[0] {
            QueueEvent::Push(m) => {
                let next = q.push(m);
                if q.full() {
                    assert(seq![q.items[0]] + (next.items + pushed(rest)) =~= all);
                    lemma_ordered_tail_above(q.items[0], next.items + pushed(rest));
                } else {
                    assert(next.items + pushed(rest) =~= all);
                }
                lemma_popped_ordered(next, rest);
            },
            QueueEvent::Pop => {
                if q.items.len() > 0 {
                    let first = q.items[0];
                    let after = q.pop().items + pushed(rest);
                    assert(seq![first] + after =~= all);
                    lemma_ordered_tail_above(first, after);
                    lemma_popped_ordered(q.pop(), rest);
                    lemma_popped_above(q.pop(), rest, number(first));
                    lemma_ordered_cons(first, popped(q.pop(), rest));
                } else {
                    lemma_popped_ordered(q, rest);
                }
            },
        }
    }
}

} // verus!
