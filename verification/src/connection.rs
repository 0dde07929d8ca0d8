//! One client connection: it is greeted, subscribed to the hub, sent what
//! its subscription delivers, and cleaned up when either side of it ends.
//!
//! The connection decides; its caller does the socket's work and reports
//! how it went.

use crate::delivery::lemma_leaving_is_local;
use crate::distributor::{Delivery, DeliveryView, Distributor, DistributorView, Subscription};
use crate::message::{payload, TcpMessage};
use vstd::prelude::*;

verus! {

/// Where a connection stands.
pub enum ConnectionView {
    /// The greeting has not been sent yet.
    Greeting,
    /// The connection is subscribed under this identifier.
    Relaying { id: u64 },
    /// The connection has ended and holds no subscription.
    Closed,
}

/// What came of reading from the client.
#[derive(Clone, Copy, Debug, PartialEq, Eq, Structural)]
pub enum ReadOutcome {
    /// This many bytes were read.
    Bytes(usize),
    /// Reading failed.
    Failed,
}

/// What the writer side of a connection is to do next.
pub enum RelayView {
    Write(Seq<u8>),
    Skip,
    Wait,
    Stop,
}

/// The bytes of the greeting that every client is sent first.
pub open spec fn greeting_bytes() -> Seq<u8> {
    seq![119u8, 101u8, 108u8, 99u8, 111u8, 109u8, 101u8, 32u8, 58u8, 41u8, 10u8]
}

impl ConnectionView {
    /// The identifier that the connection is subscribed under, if it is.
    pub open spec fn id(self) -> Option<u64> {
        match self {
            ConnectionView::Relaying { id } => Some(id),
            _ => None,
        }
    }

    /// The connection after the greeting was sent, or could not be sent.
    pub open spec fn greeted(self, hub: DistributorView, sent: bool) -> ConnectionView {
        match self {
            ConnectionView::Greeting => if sent && hub.can_subscribe() {
                ConnectionView::Relaying { id: hub.next_id }
            } else {
                ConnectionView::Closed
            },
            _ => self,
        }
    }

    /// The hub after the greeting was sent, or could not be sent.
    pub open spec fn hub_greeted(self, hub: DistributorView, sent: bool) -> DistributorView {
        match self {
            ConnectionView::Greeting => if sent {
                hub.subscribe()
            } else {
                hub
            },
            _ => hub,
        }
    }

    /// What the writer side is to do next.
    pub open spec fn relay(self, hub: DistributorView) -> RelayView {
        match self {
            ConnectionView::Relaying { id } => match hub.delivery(id) {
                DeliveryView::Item(m) => match payload(m) {
                    Some(bytes) => RelayView::Write(bytes),
                    None => RelayView::Skip,
                },
                DeliveryView::Empty => RelayView::Wait,
                DeliveryView::Closed => RelayView::Stop,
            },
            _ => RelayView::Stop,
        }
    }

    /// The connection after the writer side has asked what to do next.
    pub open spec fn relayed(self, hub: DistributorView) -> ConnectionView {
        if self.relay(hub) is Stop {
            ConnectionView::Closed
        } else {
            self
        }
    }

    /// The hub after the writer side has asked what to do next.
    pub open spec fn hub_relayed(self, hub: DistributorView) -> DistributorView {
        match self {
            ConnectionView::Relaying { id } => if self.relay(hub) is Stop {
                hub.unsubscribe(id)
            } else {
                hub.receive(id)
            },
            _ => hub,
        }
    }

    /// The hub after the connection has ended.
    pub open spec fn hub_closed(self, hub: DistributorView) -> DistributorView {
        match self {
            ConnectionView::Relaying { id } => hub.unsubscribe(id),
            _ => hub,
        }
    }

    /// The read tells that the client is gone: nothing was read, or
    /// reading failed.
    pub open spec fn ends(outcome: ReadOutcome) -> bool {
        match outcome {
            ReadOutcome::Bytes(n) => n == 0,
            ReadOutcome::Failed => true,
        }
    }
}

/// What the writer side of a connection is to do next.
#[derive(Debug, PartialEq, Eq)]
pub enum Relay {
    /// Write these bytes to the client.
    Write(TcpMessage),
    /// An item was taken that puts nothing on the wire; ask again.
    Skip,
    /// Nothing is queued; ask again when something has been published.
    Wait,
    /// The connection has ended; stop writing.
    Stop,
}

impl View for Relay {
    type V = RelayView;

    open spec fn view(&self) -> RelayView {
        match self {
            Relay::Write(wire) => RelayView::Write(wire@),
            Relay::Skip => RelayView::Skip,
            Relay::Wait => RelayView::Wait,
            Relay::Stop => RelayView::Stop,
        }
    }
}

enum Link {
    Greeting,
    Relaying(Subscription),
    Closed,
}

/// The state of one client connection.
pub struct Connection {
    link: Link,
}

impl View for Connection {
    type V = ConnectionView;

    closed spec fn view(&self) -> ConnectionView {
        match self.link {
            Link::Greeting => ConnectionView::Greeting,
            Link::Relaying(sub) => ConnectionView::Relaying { id: sub@ },
            Link::Closed => ConnectionView::Closed,
        }
    }
}

/// The greeting that every client is sent first.
pub fn greeting() -> (bytes: Vec<u8>)
    ensures
        bytes@ == greeting_bytes(),
{
    let bytes: Vec<u8> = vec![
        119u8, 101u8, 108u8, 99u8, 111u8, 109u8, 101u8, 32u8, 58u8, 41u8, 10u8,
    ];
    bytes
}

impl Connection {
    /// A connection that was just accepted.
    pub fn new() -> (connection: Self)
        ensures
            connection@ == ConnectionView::Greeting,
    {
        Connection { link: Link::Greeting }
    }

    /// Whether the connection has ended.
    pub fn is_closed(&self) -> (r: bool)
        ensures
            r == (self@ is Closed),
    {
        match &self.link {
            Link::Closed => true,
            _ => false,
        }
    }

    /// The identifier that the connection is subscribed under, if it is.
    pub fn subscription_id(&self) -> (id: Option<u64>)
        ensures
            id == self@.id(),
    {
        match &self.link {
            Link::Relaying(sub) => Some(sub.id()),
            _ => None,
        }
    }

    /// Reports whether the greeting was sent. If it was, the connection
    /// subscribes to the hub; if it was not, or the hub takes no
    /// subscriber, the connection ends.
    pub fn greeted(&mut self, hub: &mut Distributor, sent: bool)
        ensures
            final(self)@ == old(self)@.greeted(old(hub)@, sent),
            final(hub)@ == old(self)@.hub_greeted(old(hub)@, sent),
    {
        let greeting = match &self.link {
            Link::Greeting => true,
            _ => false,
        };
        if greeting {
            if sent {
                match hub.subscribe() {
                    Some(sub) => {
                        self.link = Link::Relaying(sub);
                    },
                    None => {
                        self.link = Link::Closed;
                    },
                }
            } else {
                self.link = Link::Closed;
            }
        }
    }

    /// Tells the writer side what to do next, taking the oldest item of
    /// the connection's queue if there is one. When nothing more will
    /// come, the connection gives up its subscription and ends.
    pub fn relay(&mut self, hub: &mut Distributor) -> (r: Relay)
        ensures
            r@ == old(self)@.relay(old(hub)@),
            final(self)@ == old(self)@.relayed(old(hub)@),
            final(hub)@ == old(self)@.hub_relayed(old(hub)@),
    {
        let delivery = match &self.link {
            Link::Relaying(sub) => hub.receive(sub),
            _ => {
                self.link = Link::Closed;
                return Relay::Stop;
            },
        };
        match delivery {
            Delivery::Item(item) => match item.into_wire() {
                Some(wire) => Relay::Write(wire),
                None => Relay::Skip,
            },
            Delivery::Empty => Relay::Wait,
            Delivery::Closed => {
                assert(hub@.subscribers =~= old(hub)@.subscribers);
                self.close(hub);
                Relay::Stop
            },
        }
    }

    /// Ends the connection and gives up its subscription, if it holds one.
    /// Ending a connection that has ended changes nothing.
    pub fn close(&mut self, hub: &mut Distributor)
        ensures
            final(self)@ == ConnectionView::Closed,
            final(hub)@ == old(self)@.hub_closed(old(hub)@),
    {
        let mut link = Link::Closed;
        std::mem::swap(&mut link, &mut self.link);
        match link {
            Link::Relaying(sub) => {
                hub.unsubscribe(sub);
            },
            _ => {},
        }
    }

    /// Reports that a write to the client failed, which ends the
    /// connection.
    pub fn write_failed(&mut self, hub: &mut Distributor)
        ensures
            final(self)@ == ConnectionView::Closed,
            final(hub)@ == old(self)@.hub_closed(old(hub)@),
    {
        self.close(hub);
    }

    /// Reports what came of reading from the client. Bytes that were read
    /// are of no interest; a read of nothing, or a failed read, tells that
    /// the client is gone and ends the connection. Returns whether to go
    /// on reading.
    pub fn read(&mut self, hub: &mut Distributor, outcome: ReadOutcome) -> (go_on: bool)
        ensures
            ConnectionView::ends(outcome) ==> {
                &&& !go_on
                &&& final(self)@ == ConnectionView::Closed
                &&& final(hub)@ == old(self)@.hub_closed(old(hub)@)
            },
            !ConnectionView::ends(outcome) ==> {
                &&& go_on == !(old(self)@ is Closed)
                &&& final(self)@ == old(self)@
                &&& final(hub)@ == old(hub)@
            },
    {
        let gone = match outcome {
            ReadOutcome::Bytes(n) => n == 0,
            ReadOutcome::Failed => true,
        };
        if gone {
            self.close(hub);
            false
        } else {
            !self.is_closed()
        }
    }
}

/// Cleanup happens once. When a subscribed connection ends, by whichever
/// way, its subscription is gone from the hub and every other subscriber
/// is left as it was; ending it again changes nothing.
pub proof fn lemma_cleanup_once(c: ConnectionView, hub: DistributorView, other: u64)
    requires
        hub.wf(),
        c is Relaying,
        c->id != other,
    ensures
        !c.hub_closed(hub).subscribed(c->id),
        c.hub_closed(hub).subscribed(other) == hub.subscribed(other),
        c.hub_closed(hub).pending(other) == hub.pending(other),
        ConnectionView::Closed.hub_closed(c.hub_closed(hub)) == c.hub_closed(hub),
        ConnectionView::Closed.hub_relayed(c.hub_closed(hub)) == c.hub_closed(hub),
        ConnectionView::Closed.relay(c.hub_closed(hub)) is Stop,
{
    lemma_leaving_is_local(hub, c->id, other);
}

} // verus!
