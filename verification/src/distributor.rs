//! The broadcast hub: one producer feed is republished to the delivery
//! queues of the current subscribers.

use crate::message::{Message, StreamMessage};
use crate::queue::{BoundedQueue, QueueView};
use vstd::prelude::*;

verus! {

/// The number of items that a subscriber's queue holds unless told otherwise.
pub const SUBSCRIBER_CAPACITY: usize = 32;

/// What the hub knows of one subscriber.
pub struct SubscriberView {
    pub id: u64,
    pub queue: QueueView,
}

impl SubscriberView {
    /// The subscriber after `m` has been delivered to its queue.
    pub open spec fn deliver(self, m: Message) -> SubscriberView {
        SubscriberView { id: self.id, queue: self.queue.push(m) }
    }
}

/// What a [`Distributor`] holds: the subscribers in the order in which they
/// joined, the cached control events, the bound of each delivery queue, the
/// identifier that the next subscriber gets, and whether the hub is closed.
pub struct DistributorView {
    pub subscribers: Seq<SubscriberView>,
    pub ready: bool,
    pub header: Option<Seq<u8>>,
    pub capacity: nat,
    pub next_id: u64,
    pub closed: bool,
}

/// What a call of [`Distributor::receive`] hands to a connection.
pub enum DeliveryView {
    Item(Message),
    Empty,
    Closed,
}

impl DistributorView {
    /// Every queue has the hub's bound and keeps to it, and no two
    /// subscribers share an identifier, each of which was given out before.
    pub open spec fn wf(self) -> bool {
        &&& 0 < self.capacity
        &&& forall|i: int|
            0 <= i < self.subscribers.len() ==> {
                &&& (#[trigger] self.subscribers[i]).queue.wf()
                &&& self.subscribers[i].queue.capacity == self.capacity
                &&& self.subscribers[i].id < self.next_id
            }
        &&& forall|i: int, j: int|
            0 <= i < j < self.subscribers.len() ==> (#[trigger] self.subscribers[i]).id != (
            #[trigger] self.subscribers[j]).id
    }

    /// The hub before anything has happened.
    pub open spec fn initial(capacity: nat) -> DistributorView {
        DistributorView {
            subscribers: Seq::empty(),
            ready: false,
            header: None,
            capacity,
            next_id: 0,
            closed: false,
        }
    }

    /// A subscriber with the identifier `id` is registered.
    pub open spec fn subscribed(self, id: u64) -> bool {
        exists|i: int| 0 <= i < self.subscribers.len() && (#[trigger] self.subscribers[i]).id == id
    }

    /// The place of the subscriber with the identifier `id`.
    pub open spec fn position(self, id: u64) -> int {
        choose|i: int| 0 <= i < self.subscribers.len() && (#[trigger] self.subscribers[i]).id == id
    }

    /// What is queued for the subscriber `id`; nothing when there is none.
    pub open spec fn pending(self, id: u64) -> Seq<Message> {
        if self.subscribed(id) {
            self.subscribers[self.position(id)].queue.items
        } else {
            Seq::empty()
        }
    }

    /// The cached control events, in the order in which a new subscriber
    /// gets them.
    pub open spec fn replay(self) -> Seq<Message> {
        let ready = if self.ready {
            seq![Message::Ready]
        } else {
            Seq::empty()
        };
        match self.header {
            Some(bytes) => ready.push(Message::StreamHeader(bytes)),
            None => ready,
        }
    }

    /// The hub with `m` taken into the cache: a `Ready` starts a new pair,
    /// a `StreamHeader` completes it, anything else leaves it as it is.
    pub open spec fn remember(self, m: Message) -> DistributorView {
        match m {
            Message::Ready => DistributorView { ready: true, header: None, ..self },
            Message::StreamHeader(bytes) => DistributorView { header: Some(bytes), ..self },
            Message::Frame { .. } => self,
        }
    }

    /// The hub after `m` has been published: cached if it is a control
    /// event, and added to the queue of every subscriber. A closed hub
    /// takes nothing.
    pub open spec fn publish(self, m: Message) -> DistributorView {
        if self.closed {
            self
        } else {
            DistributorView {
                subscribers: self.subscribers.map_values(|s: SubscriberView| s.deliver(m)),
                ..self.remember(m)
            }
        }
    }

    /// The hub after each of `ms` has been published in turn.
    pub open spec fn publish_all(self, ms: Seq<Message>) -> DistributorView
        decreases ms.len(),
    {
        if ms.len() == 0 {
            self
        } else {
            self.publish_all(ms.drop_last()).publish(ms.last())
        }
    }

    /// A new subscriber can be registered.
    pub open spec fn can_subscribe(self) -> bool {
        !self.closed && self.next_id < u64::MAX
    }

    /// The subscriber that joins next: it has the next identifier, and its
    /// queue starts with the cached control events.
    pub open spec fn newcomer(self) -> SubscriberView {
        SubscriberView {
            id: self.next_id,
            queue: QueueView::empty(self.capacity).push_all(self.replay()),
        }
    }

    /// The hub after a subscriber has joined, where one can.
    pub open spec fn subscribe(self) -> DistributorView {
        if self.can_subscribe() {
            DistributorView {
                subscribers: self.subscribers.push(self.newcomer()),
                next_id: (self.next_id + 1) as u64,
                ..self
            }
        } else {
            self
        }
    }

    /// The hub after the subscriber `id` has left, if there was one.
    pub open spec fn unsubscribe(self, id: u64) -> DistributorView {
        if self.subscribed(id) {
            DistributorView { subscribers: self.subscribers.remove(self.position(id)), ..self }
        } else {
            self
        }
    }

    /// What the subscriber `id` is handed next.
    pub open spec fn delivery(self, id: u64) -> DeliveryView {
        if self.pending(id).len() > 0 {
            DeliveryView::Item(self.pending(id)[0])
        } else if self.closed || !self.subscribed(id) {
            DeliveryView::Closed
        } else {
            DeliveryView::Empty
        }
    }

    /// The hub after the subscriber `id` has been handed its oldest item.
    pub open spec fn receive(self, id: u64) -> DistributorView {
        if self.subscribed(id) {
            let i = self.position(id);
            let s = self.subscribers[i];
            DistributorView {
                subscribers: self.subscribers.update(
                    i,
                    SubscriberView { id: s.id, queue: s.queue.pop() },
                ),
                ..self
            }
        } else {
            self
        }
    }

    /// The hub after it has been closed.
    pub open spec fn close(self) -> DistributorView {
        DistributorView { closed: true, ..self }
    }
}

/// The handle of one subscriber. It is given up to leave the hub.
#[derive(Debug)]
pub struct Subscription {
    id: u64,
}

impl View for Subscription {
    type V = u64;

    closed spec fn view(&self) -> u64 {
        self.id
    }
}

impl Subscription {
    /// The identifier that tells this subscriber from all others.
    pub fn id(&self) -> (id: u64)
        ensures
            id == self@,
    {
        self.id
    }
}

/// What a subscriber is handed when it asks for its next item.
#[derive(PartialEq, Eq)]
pub enum Delivery {
    /// The oldest item of its queue.
    Item(StreamMessage),
    /// Nothing is queued now; more may come.
    Empty,
    /// Nothing is queued and nothing will come: the hub is closed or the
    /// subscriber has left.
    Closed,
}

impl View for Delivery {
    type V = DeliveryView;

    open spec fn view(&self) -> DeliveryView {
        match self {
            Delivery::Item(m) => DeliveryView::Item(m@),
            Delivery::Empty => DeliveryView::Empty,
            Delivery::Closed => DeliveryView::Closed,
        }
    }
}

struct Subscriber {
    id: u64,
    queue: BoundedQueue,
}

impl View for Subscriber {
    type V = SubscriberView;

    closed spec fn view(&self) -> SubscriberView {
        SubscriberView { id: self.id, queue: self.queue@ }
    }
}

/// The broadcast hub.
pub struct Distributor {
    subscribers: Vec<Subscriber>,
    ready: bool,
    header: Option<Vec<u8>>,
    capacity: usize,
    next_id: u64,
    closed: bool,
}

impl View for Distributor {
    type V = DistributorView;

    closed spec fn view(&self) -> DistributorView {
        DistributorView {
            subscribers: self.subscribers@.map_values(|s: Subscriber| s@),
            ready: self.ready,
            header: match self.header {
                Some(bytes) => Some(bytes@),
                None => None,
            },
            capacity: self.capacity as nat,
            next_id: self.next_id,
            closed: self.closed,
        }
    }
}

impl Distributor {
    #[verifier::type_invariant]
    pub(crate) open spec fn inv(self) -> bool {
        self@.wf()
    }

    /// A hub without subscribers whose delivery queues will hold at most
    /// `capacity` items each. A queue takes the cached `Ready` and
    /// `StreamHeader` like any other items: with a bound of 1 a subscriber
    /// that joins gets the header alone, and with any bound a subscriber
    /// that lets its queue run over may lose the pair to newer items.
    pub fn new(capacity: usize) -> (hub: Self)
        requires
            capacity > 0,
        ensures
            hub@ == DistributorView::initial(capacity as nat),
    {
        let hub = Distributor {
            subscribers: Vec::new(),
            ready: false,
            header: None,
            capacity,
            next_id: 0,
            closed: false,
        };
        assert(hub@.subscribers =~= Seq::empty());
        hub
    }

    /// The number of subscribers.
    pub fn subscriber_count(&self) -> (n: usize)
        ensures
            n == self@.subscribers.len(),
    {
        self.subscribers.len()
    }

    /// Whether the hub has been closed.
    pub fn is_closed(&self) -> (r: bool)
        ensures
            r == self@.closed,
    {
        self.closed
    }

    /// Publishes `item`: a control event is cached, and every current
    /// subscriber gets the item in its queue, where a full queue gives up
    /// its oldest item. With no subscriber the item goes nowhere. Returns
    /// the number of queues that took the item.
    pub fn publish(&mut self, item: StreamMessage) -> (delivered: usize)
        ensures
            final(self)@ == old(self)@.publish(item@),
            final(self)@.wf(),
            delivered == if old(self)@.closed {
                0
            } else {
                old(self)@.subscribers.len()
            },
    {
        proof {
            use_type_invariant(&*self);
        }
        if self.closed {
            return 0;
        }
        match &item {
            StreamMessage::Ready => {
                self.ready = true;
                self.header = None;
            },
            StreamMessage::StreamHeader(bytes) => {
                self.header = Some(bytes.clone());
            },
            StreamMessage::Frame { .. } => {},
        }
        let mut subs: Vec<Subscriber> = Vec::new();
        std::mem::swap(&mut subs, &mut self.subscribers);
        let ghost before = old(self)@.subscribers;
        let mut i: usize = 0;
        while i < subs.len()
            invariant
                i <= subs.len(),
                subs.len() == before.len(),
                forall|j: int| 0 <= j < i ==> (#[trigger] subs@[j])@ == before[j].deliver(item@),
                forall|j: int| i <= j < subs.len() ==> (#[trigger] subs@[j])@ == before[j],
                forall|j: int| 0 <= j < before.len() ==> (#[trigger] before[j]).queue.wf(),
            decreases subs.len() - i,
        {
            subs[i].queue.push(item.clone());
            i += 1;
        }
        let delivered = subs.len();
        self.subscribers = subs;
        assert(final(self)@.subscribers =~= old(self)@.publish(item@).subscribers);
        delivered
    }

    /// Registers a new subscriber and returns its handle. Its queue starts
    /// with the cached control events, so that it can decode the stream
    /// from the first unit that it is handed. A closed hub takes no
    /// subscriber, nor does one that has run out of identifiers.
    pub fn subscribe(&mut self) -> (r: Option<Subscription>)
        ensures
            final(self)@ == old(self)@.subscribe(),
            final(self)@.wf(),
            match r {
                Some(sub) => old(self)@.can_subscribe() && sub@ == old(self)@.next_id,
                None => !old(self)@.can_subscribe(),
            },
    {
        proof {
            use_type_invariant(&*self);
        }
        if self.closed || self.next_id == u64::MAX {
            return None;
        }
        let mut queue = BoundedQueue::new(self.capacity);
        if self.ready {
            queue.push(StreamMessage::Ready);
        }
        match &self.header {
            Some(bytes) => {
                queue.push(StreamMessage::StreamHeader(bytes.clone()));
            },
            None => {},
        }
        proof {
            reveal_with_fuel(QueueView::push_all, 3);
        }
        let id = self.next_id;
        let mut subs: Vec<Subscriber> = Vec::new();
        std::mem::swap(&mut subs, &mut self.subscribers);
        subs.push(Subscriber { id, queue });
        assert(subs@.map_values(|s: Subscriber| s@) =~= old(self)@.subscribers.push(
            old(self)@.newcomer(),
        ));
        self.next_id = id + 1;
        self.subscribers = subs;
        Some(Subscription { id })
    }

    /// The place of the subscriber `id` among the subscribers.
    fn find(&self, id: u64) -> (r: Option<usize>)
        ensures
            match r {
                Some(i) => self@.subscribed(id) && i == self@.position(id),
                None => !self@.subscribed(id),
            },
    {
        proof {
            use_type_invariant(self);
        }
        let mut i: usize = 0;
        while i < self.subscribers.len()
            invariant
                i <= self.subscribers.len(),
                self@.wf(),
                forall|j: int| 0 <= j < i ==> (#[trigger] self@.subscribers[j]).id != id,
            decreases self.subscribers.len() - i,
        {
            if self.subscribers[i].id == id {
                assert(self@.subscribers[i as int].id == id);
                return Some(i);
            }
            i += 1;
        }
        None
    }

    /// Removes the subscriber that holds `sub`. Later publishes no longer
    /// reach it. Returns whether it was still registered.
    pub fn unsubscribe(&mut self, sub: Subscription) -> (removed: bool)
        ensures
            final(self)@ == old(self)@.unsubscribe(sub@),
            final(self)@.wf(),
            removed == old(self)@.subscribed(sub@),
    {
        proof {
            use_type_invariant(&*self);
        }
        match self.find(sub.id) {
            Some(i) => {
                let mut subs: Vec<Subscriber> = Vec::new();
                std::mem::swap(&mut subs, &mut self.subscribers);
                let _ = subs.remove(i);
                assert(subs@.map_values(|s: Subscriber| s@) =~= old(self)@.subscribers.remove(
                    i as int,
                ));
                self.subscribers = subs;
                true
            },
            None => false,
        }
    }

    /// Hands the subscriber that holds `sub` the oldest item of its queue.
    pub fn receive(&mut self, sub: &Subscription) -> (r: Delivery)
        ensures
            r@ == old(self)@.delivery(sub@),
            final(self)@ == old(self)@.receive(sub@),
            final(self)@.wf(),
    {
        proof {
            use_type_invariant(&*self);
        }
        match self.find(sub.id) {
            Some(i) => {
                let mut subs: Vec<Subscriber> = Vec::new();
                std::mem::swap(&mut subs, &mut self.subscribers);
                let taken = subs[i].queue.pop();
                assert(subs@.map_values(|s: Subscriber| s@) =~= old(self)@.subscribers.update(
                    i as int,
                    SubscriberView {
                        id: sub@,
                        queue: old(self)@.subscribers[i as int].queue.pop(),
                    },
                ));
                self.subscribers = subs;
                match taken {
                    Some(item) => Delivery::Item(item),
                    None => if self.closed {
                        Delivery::Closed
                    } else {
                        Delivery::Empty
                    },
                }
            },
            None => Delivery::Closed,
        }
    }

    /// Closes the hub: it takes no further publish and no new subscriber,
    /// and each subscriber is told so once its queue is drained.
    pub fn close(&mut self)
        ensures
            final(self)@ == old(self)@.close(),
            final(self)@.wf(),
    {
        proof {
            use_type_invariant(&*self);
        }
        self.closed = true;
    }

    /// The number of items queued for the subscriber `id`, or `None` if
    /// there is no such subscriber.
    pub fn queued(&self, id: u64) -> (r: Option<usize>)
        ensures
            match r {
                Some(n) => self@.subscribed(id) && n == self@.pending(id).len(),
                None => !self@.subscribed(id),
            },
    {
        match self.find(id) {
            Some(i) => Some(self.subscribers[i].queue.len()),
            None => None,
        }
    }

    /// The number of items that the queue of the subscriber `id` has
    /// evicted, or `None` if there is no such subscriber.
    pub fn dropped(&self, id: u64) -> (r: Option<u64>)
        ensures
            match r {
                Some(n) => self@.subscribed(id) && n == self@.subscribers[self@.position(
                    id,
                )].queue.dropped,
                None => !self@.subscribed(id),
            },
    {
        match self.find(id) {
            Some(i) => Some(self.subscribers[i].queue.dropped()),
            None => None,
        }
    }
}

} // verus!
