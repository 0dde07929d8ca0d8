//! The pipeline as a whole: the session feeds the bridge, the bridge is
//! pumped into the hub, and the hub serves its subscribers. This module
//! states what a subscriber is handed when all three work together: within
//! the lifetime of one encoder, units with rising sequence numbers.

use crate::bridge::BridgeView;
use crate::bridge::lemma_enqueue_all;
use crate::delivery::{
    handed, lemma_newcomer_queue, lemma_publish_all_pending, lemma_publish_all_wf,
    lemma_step_pending, lemma_step_wf, step as hub_step, HubEvent,
};
use crate::distributor::DistributorView;
use crate::emission::{
    builds, emitted, emitted_all, lemma_first_lifetime, lemma_units_numbered_in_sequence,
    step as session_step, SessionEvent,
};
use crate::message::Message;
use crate::order::{
    above, below, lemma_ordered_after_unitless, lemma_ordered_concat, lemma_ordered_cons,
    lemma_ordered_tail_above, lemma_ordered_without, number, ordered, unitless,
};
use crate::queue::{lemma_push_all_keeps_newest, lemma_push_all_wf, overflow};
use crate::session::SessionView;
use vstd::prelude::*;

verus! {

/// What the pipeline holds: the capture session, the bridge behind it, and
/// the hub behind the bridge.
pub struct PipelineView {
    pub session: SessionView,
    pub bridge: BridgeView,
    pub hub: DistributorView,
}

/// One thing that happens to the pipeline.
pub enum PipelineEvent {
    /// Something is reported to the session; what the session emits is
    /// handed to the bridge.
    Capture(SessionEvent),
    /// What waits in the bridge is forwarded to the hub.
    Pump,
    /// A subscriber joins the hub.
    Subscribe,
    /// The subscriber with this identifier leaves the hub.
    Unsubscribe(u64),
    /// The subscriber with this identifier asks for its next item.
    Receive(u64),
    /// The pipeline is shut down: bridge and hub are closed.
    ShutDown,
}

impl PipelineView {
    /// The pipeline before anything has happened.
    pub open spec fn initial(bridge_capacity: nat, queue_capacity: nat) -> PipelineView {
        PipelineView {
            session: SessionView::initial(),
            bridge: BridgeView::initial(bridge_capacity),
            hub: DistributorView::initial(queue_capacity),
        }
    }

    /// The bridge and every delivery queue keep to their bounds, and no
    /// two subscribers share an identifier.
    pub open spec fn wf(self) -> bool {
        self.bridge.queue.wf() && self.hub.wf()
    }

    /// The pipeline after `e` has happened.
    pub open spec fn step(self, e: PipelineEvent) -> PipelineView {
        match e {
            PipelineEvent::Capture(report) => PipelineView {
                session: session_step(self.session, report),
                bridge: self.bridge.enqueue_all(emitted(self.session, report)),
                hub: self.hub,
            },
            PipelineEvent::Pump => PipelineView {
                session: self.session,
                bridge: self.bridge.drained(),
                hub: self.hub.publish_all(self.bridge.queue.items),
            },
            PipelineEvent::Subscribe => PipelineView { hub: self.hub.subscribe(), ..self },
            PipelineEvent::Unsubscribe(id) => PipelineView {
                hub: self.hub.unsubscribe(id),
                ..self
            },
            PipelineEvent::Receive(id) => PipelineView { hub: self.hub.receive(id), ..self },
            PipelineEvent::ShutDown => PipelineView {
                session: self.session,
                bridge: BridgeView { closed: true, ..self.bridge },
                hub: self.hub.close(),
            },
        }
    }
}

/// Everything that the session emits while `events` happen, in the order
/// in which it is emitted.
pub open spec fn upcoming(s: SessionView, events: Seq<PipelineEvent>) -> Seq<Message>
    decreases events.len(),
{
    if events.len() == 0 {
        Seq::empty()
    } else {
        match events[0] {
            PipelineEvent::Capture(report) => emitted(s, report) + upcoming(
                session_step(s, report),
                events.drop_first(),
            ),
            _ => upcoming(s, events.drop_first()),
        }
    }
}

/// What the subscriber `id` is handed when `e` happens to the pipeline.
pub open spec fn taken(p: PipelineView, e: PipelineEvent, id: u64) -> Seq<Message> {
    match e {
        PipelineEvent::Receive(to) => handed(p.hub, HubEvent::Receive(to), id),
        _ => Seq::empty(),
    }
}

/// Everything that the subscriber `id` is handed while `events` happen to
/// the pipeline `p`, in the order in which it is handed over.
pub open spec fn received(p: PipelineView, events: Seq<PipelineEvent>, id: u64) -> Seq<Message>
    decreases events.len(),
{
    if events.len() == 0 {
        Seq::empty()
    } else {
        taken(p, events[0], id) + received(p.step(events[0]), events.drop_first(), id)
    }
}

/// The hub of a pipeline keeps to its bounds whatever happens, and so does
/// the bridge.
pub proof fn lemma_step_keeps_bounds(p: PipelineView, e: PipelineEvent)
    requires
        p.wf(),
    ensures
        p.step(e).wf(),
{
    match e {
        PipelineEvent::Capture(report) => {
            lemma_enqueue_all(p.bridge, emitted(p.session, report));
            lemma_push_all_wf(p.bridge.queue, emitted(p.session, report));
        },
        PipelineEvent::Pump => {
            lemma_publish_all_wf(p.hub, p.bridge.queue.items);
        },
        PipelineEvent::Subscribe => {
            lemma_step_wf(p.hub, HubEvent::Subscribe);
        },
        PipelineEvent::Unsubscribe(id) => {
            lemma_step_wf(p.hub, HubEvent::Unsubscribe(id));
        },
        PipelineEvent::Receive(id) => {
            lemma_step_wf(p.hub, HubEvent::Receive(id));
        },
        PipelineEvent::ShutDown => {
            lemma_step_wf(p.hub, HubEvent::Close);
        },
    }
}

/// All that can still reach the subscriber `id`: what is queued for it,
/// then what waits in the bridge, then what the session is yet to emit.
pub open spec fn ahead(p: PipelineView, events: Seq<PipelineEvent>, id: u64) -> Seq<Message> {
    p.hub.pending(id) + p.bridge.queue.items + upcoming(p.session, events)
}

/// `after` is `before` with some of its items taken out, or with control
/// events put in: the units of `after` are in order if those of `before`
/// are, and lie above whatever those of `before` lie above.
pub open spec fn thinned(before: Seq<Message>, after: Seq<Message>) -> bool {
    &&& ordered(before) ==> ordered(after)
    &&& forall|n: int| #[trigger] above(before, n) ==> above(after, n)
}

/// Taking a stretch out of a sequence thins it.
proof fn lemma_removed(a: Seq<Message>, b: Seq<Message>, c: Seq<Message>)
    ensures
        thinned(a + b + c, a + c),
{
    if ordered(a + b + c) {
        lemma_ordered_without(a, b, c);
    }
    let whole = a + b + c;
    let rest = a + c;
    assert forall|n: int| #[trigger] above(whole, n) implies above(rest, n) by {
        assert forall|i: int| 0 <= i < rest.len() && (#[trigger] rest[i]) is Frame
            implies rest[i]->count > n by {
            if i < a.len() {
                assert(whole[i] == rest[i]);
            } else {
                assert(whole[i + b.len()] == rest[i]);
            }
        }
    }
}

/// Taking the oldest items out of the middle stretch of a sequence thins
/// it.
proof fn lemma_skipped(a: Seq<Message>, x: Seq<Message>, c: Seq<Message>, k: int)
    requires
        0 <= k <= x.len(),
    ensures
        thinned(a + x + c, a + x.skip(k) + c),
{
    assert(a + x + c =~= a + x.take(k) + (x.skip(k) + c));
    assert(a + x.skip(k) + c =~= a + (x.skip(k) + c));
    lemma_removed(a, x.take(k), x.skip(k) + c);
}

/// Putting control events in front of a sequence thins it.
proof fn lemma_unitless_in_front(a: Seq<Message>, c: Seq<Message>)
    requires
        unitless(a),
    ensures
        thinned(c, a + c),
{
    if ordered(c) {
        lemma_ordered_after_unitless(a, c);
    }
    let whole = a + c;
    assert forall|n: int| #[trigger] above(c, n) implies above(whole, n) by {
        assert forall|i: int| 0 <= i < whole.len() && (#[trigger] whole[i]) is Frame
            implies whole[i]->count > n by {
            if i < a.len() {
                assert(whole[i] == a[i]);
            } else {
                assert(whole[i] == c[i - a.len()]);
            }
        }
    }
}

/// Handing the bridge what the session emits thins what lies ahead.
proof fn lemma_ahead_capture(
    pending: Seq<Message>,
    bridge: BridgeView,
    fresh: Seq<Message>,
    later: Seq<Message>,
)
    requires
        bridge.queue.wf(),
    ensures
        thinned(
            pending + bridge.queue.items + (fresh + later),
            pending + bridge.enqueue_all(fresh).queue.items + later,
        ),
{
    let waiting = bridge.queue.items;
    lemma_enqueue_all(bridge, fresh);
    if bridge.closed {
        assert(pending + waiting + (fresh + later) =~= (pending + waiting) + fresh + later);
        lemma_removed(pending + waiting, fresh, later);
    } else {
        lemma_push_all_keeps_newest(bridge.queue, fresh);
        assert(pending + waiting + (fresh + later) =~= pending + (waiting + fresh) + later);
        lemma_skipped(pending, waiting + fresh, later, overflow(bridge.queue, fresh));
    }
}

/// Pumping the bridge into the hub thins what lies ahead.
proof fn lemma_ahead_pump(hub: DistributorView, waiting: Seq<Message>, later: Seq<Message>, id: u64)
    requires
        hub.wf(),
    ensures
        thinned(
            hub.pending(id) + waiting + later,
            hub.publish_all(waiting).pending(id) + Seq::<Message>::empty() + later,
        ),
{
    let pending = hub.pending(id);
    lemma_publish_all_pending(hub, waiting, id);
    if hub.subscribed(id) && !hub.closed {
        let q = hub.subscribers[hub.position(id)].queue;
        lemma_push_all_keeps_newest(q, waiting);
        let kept = (pending + waiting).skip(overflow(q, waiting));
        assert(pending + waiting + later =~= Seq::<Message>::empty() + (pending + waiting) + later);
        assert(kept + Seq::<Message>::empty() + later =~= Seq::<Message>::empty() + kept + later);
        lemma_skipped(Seq::empty(), pending + waiting, later, overflow(q, waiting));
    } else {
        assert(pending + Seq::<Message>::empty() + later =~= pending + later);
        lemma_removed(pending, waiting, later);
    }
}

/// What happens to the hub alone thins what lies ahead, and what a
/// subscriber is handed is the first of what lay ahead of it.
proof fn lemma_ahead_hub(hub: DistributorView, e: HubEvent, rest: Seq<Message>, id: u64)
    requires
        hub.wf(),
        !(e is Publish),
    ensures
        thinned(hub.pending(id) + rest, hub_step(hub, e).pending(id) + rest),
        handed(hub, e, id).len() > 0 ==> {
            &&& hub.pending(id).len() > 0
            &&& handed(hub, e, id) == seq![hub.pending(id)[0]]
            &&& seq![hub.pending(id)[0]] + (hub_step(hub, e).pending(id) + rest)
                == hub.pending(id) + rest
        },
{
    let pending = hub.pending(id);
    let after = hub_step(hub, e).pending(id);
    lemma_step_pending(hub, e, id);
    match e {
        HubEvent::Subscribe => {
            if hub.can_subscribe() && id == hub.next_id {
                lemma_newcomer_queue(hub);
                assert(pending + rest =~= rest);
                lemma_unitless_in_front(after, rest);
            }
        },
        HubEvent::Unsubscribe(gone) => {
            if gone == id {
                assert(pending + rest =~= Seq::<Message>::empty() + pending + rest);
                assert(after + rest =~= Seq::<Message>::empty() + rest);
                lemma_removed(Seq::empty(), pending, rest);
            }
        },
        HubEvent::Receive(to) => {
            if to == id && pending.len() > 0 {
                assert(pending + rest =~= Seq::<Message>::empty() + seq![pending[0]] + (after
                    + rest));
                assert(after + rest =~= Seq::<Message>::empty() + (after + rest));
                lemma_removed(Seq::empty(), seq![pending[0]], after + rest);
                assert(seq![pending[0]] + (after + rest) =~= pending + rest);
            }
        },
        _ => {},
    }
}

/// What lies ahead of a subscriber after one event is what lay ahead of
/// it before, thinned; and what it is handed is the first of what lay
/// ahead of it.
proof fn lemma_step_ahead(p: PipelineView, events: Seq<PipelineEvent>, id: u64)
    requires
        p.wf(),
        events.len() > 0,
    ensures
        thinned(ahead(p, events, id), ahead(p.step(events[0]), events.drop_first(), id)),
        taken(p, events[0], id).len() > 0 ==> {
            &&& p.hub.pending(id).len() > 0
            &&& taken(p, events[0], id) == seq![p.hub.pending(id)[0]]
            &&& seq![p.hub.pending(id)[0]] + ahead(p.step(events[0]), events.drop_first(), id)
                == ahead(p, events, id)
        },
{
    let e = events[0];
    let rest = events.drop_first();
    let next = p.step(e);
    let waiting = p.bridge.queue.items;
    let later = upcoming(next.session, rest);
    match e {
        PipelineEvent::Capture(report) => {
            lemma_ahead_capture(p.hub.pending(id), p.bridge, emitted(p.session, report), later);
        },
        PipelineEvent::Pump => {
            lemma_ahead_pump(p.hub, waiting, later, id);
        },
        PipelineEvent::Subscribe => {
            lemma_ahead_between(p.hub, HubEvent::Subscribe, waiting, later, id);
        },
        PipelineEvent::Unsubscribe(gone) => {
            lemma_ahead_between(p.hub, HubEvent::Unsubscribe(gone), waiting, later, id);
        },
        PipelineEvent::Receive(to) => {
            lemma_ahead_between(p.hub, HubEvent::Receive(to), waiting, later, id);
        },
        PipelineEvent::ShutDown => {
            lemma_ahead_between(p.hub, HubEvent::Close, waiting, later, id);
        },
    }
}

/// [`lemma_ahead_hub`] with what waits in the bridge told apart from what
/// the session is yet to emit.
proof fn lemma_ahead_between(
    hub: DistributorView,
    e: HubEvent,
    waiting: Seq<Message>,
    later: Seq<Message>,
    id: u64,
)
    requires
        hub.wf(),
        !(e is Publish),
    ensures
        thinned(
            hub.pending(id) + waiting + later,
            hub_step(hub, e).pending(id) + waiting + later,
        ),
        handed(hub, e, id).len() > 0 ==> {
            &&& hub.pending(id).len() > 0
            &&& handed(hub, e, id) == seq![hub.pending(id)[0]]
            &&& seq![hub.pending(id)[0]] + (hub_step(hub, e).pending(id) + waiting
                + later) == hub.pending(id) + waiting + later
        },
{
    let after = hub_step(hub, e).pending(id);
    lemma_ahead_hub(hub, e, waiting + later, id);
    assert(hub.pending(id) + waiting + later =~= hub.pending(id) + (waiting + later));
    assert(after + waiting + later =~= after + (waiting + later));
}

/// What a subscriber is handed lies above every number that all that can
/// still reach it lies above.
pub proof fn lemma_received_above(p: PipelineView, events: Seq<PipelineEvent>, id: u64, n: int)
    requires
        p.wf(),
        above(ahead(p, events, id), n),
    ensures
        above(received(p, events, id), n),
    decreases events.len(),
{
    if events.len() > 0 {
        let e = events[0];
        let rest = events.drop_first();
        let next = p.step(e);
        lemma_step_keeps_bounds(p, e);
        lemma_step_ahead(p, events, id);
        lemma_received_above(next, rest, id, n);
        let out = received(p, events, id);
        let first = taken(p, e, id);
        assert forall|i: int| 0 <= i < out.len() && (#[trigger] out[i]) is Frame
            implies out[i]->count > n by {
            if i < first.len() {
                assert(out[i] == first[i]);
                assert(ahead(p, events, id)[0] == p.hub.pending(id)[0]);
            } else {
                assert(out[i] == received(next, rest, id)[i - first.len()]);
            }
        }
    }
}

/// Where all that can still reach a subscriber is in increasing order of
/// sequence numbers, so is all that it is handed.
pub proof fn lemma_received_ordered(p: PipelineView, events: Seq<PipelineEvent>, id: u64)
    requires
        p.wf(),
        ordered(ahead(p, events, id)),
    ensures
        ordered(received(p, events, id)),
    decreases events.len(),
{
    if events.len() > 0 {
        let e = events[0];
        let rest = events.drop_first();
        let next = p.step(e);
        lemma_step_keeps_bounds(p, e);
        lemma_step_ahead(p, events, id);
        lemma_received_ordered(next, rest, id);
        let first = taken(p, e, id);
        if first.len() > 0 {
            let m = p.hub.pending(id)[0];
            lemma_ordered_tail_above(m, ahead(next, rest, id));
            lemma_received_above(next, rest, id, number(m));
            lemma_ordered_cons(m, received(next, rest, id));
        } else {
            assert(received(p, events, id) =~= received(next, rest, id));
        }
    }
}

/// What is reported to the session while `events` happen, in order.
pub open spec fn reports(events: Seq<PipelineEvent>) -> Seq<SessionEvent>
    decreases events.len(),
{
    if events.len() == 0 {
        Seq::empty()
    } else {
        match events[0] {
            PipelineEvent::Capture(report) => seq![report] + reports(events.drop_first()),
            _ => reports(events.drop_first()),
        }
    }
}

/// What the session is yet to emit is what it emits on what is reported
/// to it.
pub proof fn lemma_upcoming_is_emitted(s: SessionView, events: Seq<PipelineEvent>)
    ensures
        upcoming(s, events) == emitted_all(s, reports(events)),
    decreases events.len(),
{
    if events.len() > 0 {
        let rest = events.drop_first();
        match events[0] {
            PipelineEvent::Capture(report) => {
                let all = seq![report] + reports(rest);
                assert(all.drop_first() =~= reports(rest));
                lemma_upcoming_is_emitted(session_step(s, report), rest);
            },
            _ => {
                lemma_upcoming_is_emitted(s, rest);
            },
        }
    }
}

/// Within the lifetime of one encoder, the units that a session is yet to
/// emit carry increasing sequence numbers, from its next number on.
pub proof fn lemma_upcoming_ordered(s: SessionView, events: Seq<PipelineEvent>)
    requires
        builds(s, reports(events)) == 0,
    ensures
        ordered(upcoming(s, events)),
        above(upcoming(s, events), s.next_sequence - 1),
{
    lemma_upcoming_is_emitted(s, events);
    lemma_units_numbered_in_sequence(s, reports(events));
}

/// What is on its way to the subscriber `id`: what is queued for it, then
/// what waits in the bridge.
pub open spec fn in_flight(p: PipelineView, id: u64) -> Seq<Message> {
    p.hub.pending(id) + p.bridge.queue.items
}

/// Sequence monotonicity within the lifetime of one encoder. While no
/// encoder goes live, and where the units on their way to a subscriber
/// are in order and were numbered by the encoder that lives, of any two
/// units that the subscriber is handed the later one carries the greater
/// sequence number: whatever is reported to the session, whenever the
/// bridge is pumped, whatever the bridge and the delivery queues give up
/// on the way, and whoever joins or leaves.
pub proof fn lemma_lifetime_delivers_in_order(
    p: PipelineView,
    events: Seq<PipelineEvent>,
    id: u64,
)
    requires
        p.wf(),
        builds(p.session, reports(events)) == 0,
        ordered(in_flight(p, id)),
        below(in_flight(p, id), p.session.next_sequence as int),
    ensures
        ordered(received(p, events, id)),
{
    lemma_upcoming_ordered(p.session, events);
    lemma_ordered_concat(
        in_flight(p, id),
        upcoming(p.session, events),
        p.session.next_sequence as int,
    );
    lemma_received_ordered(p, events, id);
}

/// Sequence monotonicity of a new pipeline, up to its second encoder. From
/// the start and for as long as no second encoder goes live, of any two
/// units that a subscriber is handed the later one carries the greater
/// sequence number. With the next encoder numbering starts again at 0,
/// and units of the encoder before may still be on their way, so that
/// numbers rise within one encoder's lifetime only.
pub proof fn lemma_pipeline_delivers_in_order(
    bridge_capacity: nat,
    queue_capacity: nat,
    events: Seq<PipelineEvent>,
    id: u64,
)
    requires
        0 < bridge_capacity,
        0 < queue_capacity,
        builds(SessionView::initial(), reports(events)) <= 1,
    ensures
        ordered(received(PipelineView::initial(bridge_capacity, queue_capacity), events, id)),
{
    let p = PipelineView::initial(bridge_capacity, queue_capacity);
    lemma_upcoming_is_emitted(p.session, events);
    lemma_first_lifetime(p.session, reports(events));
    assert(ahead(p, events, id) =~= upcoming(p.session, events));
    lemma_received_ordered(p, events, id);
}

} // verus!
