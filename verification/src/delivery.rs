//! What the hub's subscribers are handed over time, and the laws that hold
//! of it.

use crate::distributor::{DeliveryView, DistributorView, SubscriberView};
use crate::message::Message;
use crate::order::{
    above, lemma_ordered_after_unitless, lemma_ordered_cons, lemma_ordered_tail_above,
    lemma_ordered_without, number, ordered, unitless,
};
use crate::queue::{
    bumped, lemma_push_all_fits, lemma_push_all_unitless, lemma_push_all_wf, QueueView,
};
use vstd::prelude::*;

verus! {

/// One thing that happens to the hub.
pub enum HubEvent {
    /// The producer publishes an item.
    Publish(Message),
    /// A subscriber joins.
    Subscribe,
    /// The subscriber with this identifier leaves.
    Unsubscribe(u64),
    /// The subscriber with this identifier asks for its next item.
    Receive(u64),
    /// The hub is closed.
    Close,
}

/// The hub after `e` has happened.
pub open spec fn step(d: DistributorView, e: HubEvent) -> DistributorView {
    match e {
        HubEvent::Publish(m) => d.publish(m),
        HubEvent::Subscribe => d.subscribe(),
        HubEvent::Unsubscribe(id) => d.unsubscribe(id),
        HubEvent::Receive(id) => d.receive(id),
        HubEvent::Close => d.close(),
    }
}

/// The items that `events` publish, in their order.
pub open spec fn published(events: Seq<HubEvent>) -> Seq<Message>
    decreases events.len(),
{
    if events.len() == 0 {
        Seq::empty()
    } else {
        match events[0] {
            HubEvent::Publish(m) => seq![m] + published(events.drop_first()),
            _ => published(events.drop_first()),
        }
    }
}

/// What the subscriber `id` is handed when `e` happens to the hub `d`.
pub open spec fn handed(d: DistributorView, e: HubEvent, id: u64) -> Seq<Message> {
    match e {
        HubEvent::Receive(to) => if to == id {
            match d.delivery(id) {
                DeliveryView::Item(m) => seq![m],
                _ => Seq::empty(),
            }
        } else {
            Seq::empty()
        },
        _ => Seq::empty(),
    }
}

/// Everything that the subscriber `id` is handed while `events` happen to
/// the hub `d`, in the order in which it is handed over.
pub open spec fn delivered(d: DistributorView, events: Seq<HubEvent>, id: u64) -> Seq<Message>
    decreases events.len(),
{
    if events.len() == 0 {
        Seq::empty()
    } else {
        handed(d, events[0], id) + delivered(step(d, events[0]), events.drop_first(), id)
    }
}

/// A subscriber is found at its place: identifiers are not shared.
pub proof fn lemma_position(d: DistributorView, id: u64, k: int)
    requires
        d.wf(),
        0 <= k < d.subscribers.len(),
        d.subscribers[k].id == id,
    ensures
        d.subscribed(id),
        d.position(id) == k,
{
    let p = d.position(id);
    assert(d.subscribers[p].id == id);
    if p < k {
        assert(d.subscribers[p].id != d.subscribers[k].id);
    } else if k < p {
        assert(d.subscribers[k].id != d.subscribers[p].id);
    }
}

/// Subscribers that are each one of `before`, in the same order, are
/// apart by their identifiers and were given them before `next_id`, as
/// those of `before` are. `from` tells for each which one it is.
proof fn lemma_kept_apart(
    before: Seq<SubscriberView>,
    after: Seq<SubscriberView>,
    from: spec_fn(int) -> int,
    next_id: u64,
)
    requires
        forall|i: int| 0 <= i < before.len() ==> (#[trigger] before[i]).id < next_id,
        forall|i: int, j: int|
            0 <= i < j < before.len() ==> (#[trigger] before[i]).id != (#[trigger] before[j]).id,
        forall|i: int|
            0 <= i < after.len() ==> 0 <= #[trigger] from(i) < before.len() && after[i].id
                == before[from(i)].id,
        forall|i: int, j: int| 0 <= i < j < after.len() ==> #[trigger] from(i) < #[trigger] from(j),
    ensures
        forall|i: int| 0 <= i < after.len() ==> (#[trigger] after[i]).id < next_id,
        forall|i: int, j: int|
            0 <= i < j < after.len() ==> (#[trigger] after[i]).id != (#[trigger] after[j]).id,
{
    assert forall|i: int| 0 <= i < after.len() implies (#[trigger] after[i]).id < next_id by {
        assert(after[i].id == before[from(i)].id);
    }
    assert forall|i: int, j: int| 0 <= i < j < after.len() implies (#[trigger] after[i]).id != (
    #[trigger] after[j]).id by {
        assert(from(i) < from(j));
        assert(before[from(i)].id != before[from(j)].id);
    }
}

/// Whatever happens to a hub, every queue keeps to the hub's bound and
/// no two subscribers share an identifier.
pub proof fn lemma_step_wf(d: DistributorView, e: HubEvent)
    requires
        d.wf(),
    ensures
        step(d, e).wf(),
        step(d, e).capacity == d.capacity,
{
    let after = step(d, e);
    match e {
        HubEvent::Publish(_) => {
            lemma_kept_apart(d.subscribers, after.subscribers, |i: int| i, d.next_id);
            assert forall|i: int| 0 <= i < after.subscribers.len() implies (
            #[trigger] after.subscribers[i]).queue.wf() && after.subscribers[i].queue.capacity
                == d.capacity by {
                assert(d.subscribers[i].queue.wf());
            }
        },
        HubEvent::Subscribe => {
            if d.can_subscribe() {
                lemma_replay_shape(d);
                lemma_push_all_wf(QueueView::empty(d.capacity), d.replay());
                assert forall|i: int| 0 <= i < after.subscribers.len() implies {
                    &&& (#[trigger] after.subscribers[i]).queue.wf()
                    &&& after.subscribers[i].queue.capacity == after.capacity
                    &&& after.subscribers[i].id < after.next_id
                } by {
                    if i < d.subscribers.len() {
                        assert(after.subscribers[i] == d.subscribers[i]);
                    }
                }
                assert forall|i: int, j: int| 0 <= i < j < after.subscribers.len() implies (
                #[trigger] after.subscribers[i]).id != (#[trigger] after.subscribers[j]).id by {
                    assert(after.subscribers[i] == d.subscribers[i]);
                    if j < d.subscribers.len() {
                        assert(after.subscribers[j] == d.subscribers[j]);
                    }
                }
            }
        },
        HubEvent::Unsubscribe(id) => {
            if d.subscribed(id) {
                let gone = d.position(id);
                let from = |i: int|
                    if i < gone {
                        i
                    } else {
                        i + 1
                    };
                lemma_kept_apart(d.subscribers, after.subscribers, from, d.next_id);
                assert forall|i: int| 0 <= i < after.subscribers.len() implies (
                #[trigger] after.subscribers[i]).queue.wf() && after.subscribers[i].queue.capacity
                    == d.capacity by {
                    assert(after.subscribers[i] == d.subscribers[from(i)]);
                }
            }
        },
        HubEvent::Receive(id) => {
            if d.subscribed(id) {
                lemma_kept_apart(d.subscribers, after.subscribers, |i: int| i, d.next_id);
                assert forall|i: int| 0 <= i < after.subscribers.len() implies (
                #[trigger] after.subscribers[i]).queue.wf() && after.subscribers[i].queue.capacity
                    == d.capacity by {
                    assert(d.subscribers[i].queue.wf());
                }
            }
        },
        HubEvent::Close => {},
    }
}

/// The cached control events are at most a `Ready` and a `StreamHeader`,
/// in this order, and no unit is among them.
pub proof fn lemma_replay_shape(d: DistributorView)
    ensures
        unitless(d.replay()),
        d.replay().len() <= 2,
        d.replay() == match (d.ready, d.header) {
            (true, Some(bytes)) => seq![Message::Ready, Message::StreamHeader(bytes)],
            (true, None) => seq![Message::Ready],
            (false, Some(bytes)) => seq![Message::StreamHeader(bytes)],
            (false, None) => Seq::empty(),
        },
{
    match (d.ready, d.header) {
        (true, Some(bytes)) => {
            assert(d.replay() =~= seq![Message::Ready, Message::StreamHeader(bytes)]);
        },
        (true, None) => {},
        (false, Some(bytes)) => {
            assert(d.replay() =~= seq![Message::StreamHeader(bytes)]);
        },
        (false, None) => {},
    }
}

/// What is queued for a subscriber after something has happened to the
/// hub, by what was queued for it before.
pub proof fn lemma_step_pending(d: DistributorView, e: HubEvent, id: u64)
    requires
        d.wf(),
    ensures
        match e {
            HubEvent::Publish(m) => {
                &&& step(d, e).subscribed(id) == d.subscribed(id)
                &&& step(d, e).pending(id) == if d.subscribed(id) && !d.closed {
                    d.subscribers[d.position(id)].queue.push(m).items
                } else {
                    d.pending(id)
                }
            },
            HubEvent::Subscribe => if d.can_subscribe() && id == d.next_id {
                &&& !d.subscribed(id)
                &&& step(d, e).subscribed(id)
                &&& step(d, e).pending(id) == d.newcomer().queue.items
            } else {
                &&& step(d, e).subscribed(id) == d.subscribed(id)
                &&& step(d, e).pending(id) == d.pending(id)
            },
            HubEvent::Unsubscribe(gone) => if gone == id {
                &&& !step(d, e).subscribed(id)
                &&& step(d, e).pending(id) == Seq::<Message>::empty()
            } else {
                &&& step(d, e).subscribed(id) == d.subscribed(id)
                &&& step(d, e).pending(id) == d.pending(id)
            },
            HubEvent::Receive(to) => if to == id {
                &&& step(d, e).subscribed(id) == d.subscribed(id)
                &&& step(d, e).pending(id) == if d.pending(id).len() > 0 {
                    d.pending(id).drop_first()
                } else {
                    d.pending(id)
                }
            } else {
                &&& step(d, e).subscribed(id) == d.subscribed(id)
                &&& step(d, e).pending(id) == d.pending(id)
            },
            HubEvent::Close => {
                &&& step(d, e).subscribed(id) == d.subscribed(id)
                &&& step(d, e).pending(id) == d.pending(id)
            },
        },
{
    let after = step(d, e);
    lemma_step_wf(d, e);
    match e {
        HubEvent::Publish(m) => {
            if !d.closed {
                if d.subscribed(id) {
                    let p = d.position(id);
                    assert(after.subscribers[p].id == id);
                    lemma_position(after, id, p);
                } else if after.subscribed(id) {
                    let p = after.position(id);
                    assert(d.subscribers[p].id == id);
                }
            }
        },
        HubEvent::Subscribe => {
            if d.can_subscribe() {
                let last = d.subscribers.len() as int;
                if id == d.next_id {
                    if d.subscribed(id) {
                        let p = d.position(id);
                        assert(d.subscribers[p].id < d.next_id);
                    }
                    assert(after.subscribers[last].id == id);
                    lemma_position(after, id, last);
                } else if d.subscribed(id) {
                    let p = d.position(id);
                    assert(after.subscribers[p] == d.subscribers[p]);
                    lemma_position(after, id, p);
                } else if after.subscribed(id) {
                    let p = after.position(id);
                    assert(p < last);
                    assert(d.subscribers[p].id == id);
                }
            }
        },
        HubEvent::Unsubscribe(gone) => {
            if d.subscribed(gone) {
                let g = d.position(gone);
                if after.subscribed(id) {
                    let p = after.position(id);
                    let moved = if p < g {
                        p
                    } else {
                        p + 1
                    };
                    assert(after.subscribers[p] == d.subscribers[moved]);
                    lemma_position(d, id, moved);
                }
                if d.subscribed(id) && id != gone {
                    let p = d.position(id);
                    let moved = if p < g {
                        p
                    } else {
                        p - 1
                    };
                    assert(after.subscribers[moved] == d.subscribers[p]);
                    lemma_position(after, id, moved);
                }
            }
        },
        HubEvent::Receive(to) => {
            if d.subscribed(to) {
                let t = d.position(to);
                if d.subscribed(id) {
                    let p = d.position(id);
                    assert(after.subscribers[p].id == id);
                    lemma_position(after, id, p);
                } else if after.subscribed(id) {
                    let p = after.position(id);
                    assert(d.subscribers[p].id == id);
                }
            }
        },
        HubEvent::Close => {
            if d.subscribed(id) {
                let p = d.position(id);
                assert(after.subscribers[p].id == id);
                lemma_position(after, id, p);
            } else if after.subscribed(id) {
                let p = after.position(id);
                assert(d.subscribers[p].id == id);
            }
        },
    }
}

/// Every unit in `s` has the property `p`.
pub open spec fn every_unit(s: Seq<Message>, p: spec_fn(Message) -> bool) -> bool {
    forall|i: int| 0 <= i < s.len() && (#[trigger] s[i]) is Frame ==> p(s[i])
}

/// A subscriber is handed no unit but of those that were queued for it or
/// were published: what holds of each of these holds of each unit that it
/// is handed.
pub proof fn lemma_delivered_units(
    d: DistributorView,
    events: Seq<HubEvent>,
    id: u64,
    p: spec_fn(Message) -> bool,
)
    requires
        d.wf(),
        every_unit(d.pending(id) + published(events), p),
    ensures
        every_unit(delivered(d, events, id), p),
    decreases events.len(),
{
    if events.len() > 0 {
        let e = events[0];
        let rest = events.drop_first();
        let after = step(d, e);
        let all = d.pending(id) + published(events);
        let next = after.pending(id) + published(rest);
        lemma_step_wf(d, e);
        lemma_step_pending(d, e, id);
        assert forall|i: int| 0 <= i < next.len() && (#[trigger] next[i]) is Frame
            implies p(next[i]) by {
            match e {
                HubEvent::Publish(m) => {
                    if d.subscribed(id) && !d.closed {
                        if d.subscribers[d.position(id)].queue.full() {
                            assert(next[i] == all[i + 1]);
                        } else {
                            assert(next[i] == all[i]);
                        }
                    } else if i < d.pending(id).len() {
                        assert(next[i] == all[i]);
                    } else {
                        assert(next[i] == all[i + 1]);
                    }
                },
                HubEvent::Subscribe => {
                    if d.can_subscribe() && id == d.next_id {
                        lemma_newcomer_queue(d);
                        if i >= after.pending(id).len() {
                            assert(next[i] == all[i - after.pending(id).len()]);
                        }
                    } else {
                        assert(next[i] == all[i]);
                    }
                },
                HubEvent::Unsubscribe(gone) => {
                    if gone == id {
                        assert(next[i] == all[i + d.pending(id).len()]);
                    } else {
                        assert(next[i] == all[i]);
                    }
                },
                HubEvent::Receive(to) => {
                    if to == id && d.pending(id).len() > 0 {
                        assert(next[i] == all[i + 1]);
                    } else {
                        assert(next[i] == all[i]);
                    }
                },
                HubEvent::Close => {
                    assert(next[i] == all[i]);
                },
            }
        }
        lemma_delivered_units(after, rest, id, p);
        let out = delivered(d, events, id);
        let first = handed(d, e, id);
        assert forall|i: int| 0 <= i < out.len() && (#[trigger] out[i]) is Frame
            implies p(out[i]) by {
            if i < first.len() {
                assert(out[i] == d.pending(id)[0]);
                assert(all[0] == d.pending(id)[0]);
            } else {
                assert(out[i] == delivered(after, rest, id)[i - first.len()]);
            }
        }
    }
}

/// What a subscriber is handed lies above every number that all of what
/// is queued for it and all of what is published lie above.
pub proof fn lemma_delivered_above(d: DistributorView, events: Seq<HubEvent>, id: u64, n: int)
    requires
        d.wf(),
        above(d.pending(id) + published(events), n),
    ensures
        above(delivered(d, events, id), n),
{
    lemma_delivered_units(d, events, id, |m: Message| number(m) > n);
}

/// No history, and nothing made up: every unit that a subscriber is handed
/// was queued for it at the start or was published since.
pub proof fn lemma_delivered_units_were_published(
    d: DistributorView,
    events: Seq<HubEvent>,
    id: u64,
)
    requires
        d.wf(),
    ensures
        forall|k: int|
            0 <= k < delivered(d, events, id).len() && (#[trigger] delivered(
                d,
                events,
                id,
            )[k]) is Frame ==> (d.pending(id) + published(events)).contains(
                delivered(d, events, id)[k],
            ),
{
    let source = d.pending(id) + published(events);
    lemma_delivered_units(d, events, id, |m: Message| source.contains(m));
}

/// A subscriber that joins gets no unit from before: every unit that it
/// is ever handed was published after it joined.
pub proof fn lemma_late_joiner_gets_no_history(d: DistributorView, events: Seq<HubEvent>)
    requires
        d.wf(),
        d.can_subscribe(),
    ensures
        forall|k: int|
            0 <= k < delivered(d.subscribe(), events, d.next_id).len() && (#[trigger] delivered(
                d.subscribe(),
                events,
                d.next_id,
            )[k]) is Frame ==> published(events).contains(
                delivered(d.subscribe(), events, d.next_id)[k],
            ),
{
    let joined = d.subscribe();
    lemma_step_wf(d, HubEvent::Subscribe);
    lemma_step_pending(d, HubEvent::Subscribe, d.next_id);
    lemma_newcomer_queue(d);
    lemma_delivered_units(joined, events, d.next_id, |m: Message| published(events).contains(m));
}

/// The queue that a new subscriber starts with holds control events only,
/// at most two of them, and all of the cached ones where they fit.
pub proof fn lemma_newcomer_queue(d: DistributorView)
    requires
        0 < d.capacity,
    ensures
        unitless(d.newcomer().queue.items),
        d.newcomer().queue.wf(),
        d.newcomer().queue.capacity == d.capacity,
        d.newcomer().queue.items.len() <= 2,
        d.replay().len() <= d.capacity ==> d.newcomer().queue.items == d.replay()
            && d.newcomer().queue.dropped == 0,
{
    let start = QueueView::empty(d.capacity);
    lemma_replay_shape(d);
    lemma_push_all_unitless(start, d.replay());
    lemma_push_all_wf(start, d.replay());
    if d.replay().len() <= d.capacity {
        lemma_push_all_fits(start, d.replay());
        assert(start.items + d.replay() =~= d.replay());
    } else {
        assert(d.capacity == 1);
    }
}

/// Sequence monotonicity. Where the units queued for a subscriber and the
/// units published after them carry increasing sequence numbers, every two
/// units that the subscriber is handed, one after the other, carry
/// increasing numbers too: whatever its queue evicted, whoever else joined
/// or left, and whenever it joined itself.
pub proof fn lemma_delivered_ordered(d: DistributorView, events: Seq<HubEvent>, id: u64)
    requires
        d.wf(),
        ordered(d.pending(id) + published(events)),
    ensures
        ordered(delivered(d, events, id)),
    decreases events.len(),
{
    if events.len() > 0 {
        let e = events[0];
        let rest = events.drop_first();
        let after = step(d, e);
        let all = d.pending(id) + published(events);
        let next = after.pending(id) + published(rest);
        lemma_step_wf(d, e);
        lemma_step_pending(d, e, id);
        match e {
            HubEvent::Publish(m) => {
                if d.subscribed(id) && !d.closed {
                    if d.subscribers[d.position(id)].queue.full() {
                        assert(seq![d.pending(id)[0]] + next =~= all);
                        lemma_ordered_tail_above(d.pending(id)[0], next);
                    } else {
                        assert(next =~= all);
                    }
                } else {
                    assert(d.pending(id) + seq![m] + published(rest) =~= all);
                    lemma_ordered_without(d.pending(id), seq![m], published(rest));
                }
            },
            HubEvent::Subscribe => {
                if d.can_subscribe() && id == d.next_id {
                    lemma_newcomer_queue(d);
                    assert(all =~= published(rest));
                    lemma_ordered_after_unitless(after.pending(id), published(rest));
                }
            },
            HubEvent::Unsubscribe(gone) => {
                if gone == id {
                    assert(Seq::<Message>::empty() + d.pending(id) + published(rest) =~= all);
                    lemma_ordered_without(Seq::empty(), d.pending(id), published(rest));
                    assert(next =~= published(rest));
                }
            },
            HubEvent::Receive(to) => {
                if to == id && d.pending(id).len() > 0 {
                    let first = d.pending(id)[0];
                    assert(seq![first] + next =~= all);
                    lemma_ordered_tail_above(first, next);
                    lemma_delivered_ordered(after, rest, id);
                    lemma_delivered_above(after, rest, id, number(first));
                    lemma_ordered_cons(first, delivered(after, rest, id));
                    assert(handed(d, e, id) == seq![first]);
                }
            },
            HubEvent::Close => {},
        }
        lemma_delivered_ordered(after, rest, id);
        if handed(d, e, id).len() == 0 {
            assert(delivered(d, events, id) =~= delivered(after, rest, id));
        }
    }
}

/// Sequence monotonicity from the start. Where the units that are ever
/// published to a hub carry increasing sequence numbers, so do the units
/// that any one subscriber is handed.
pub proof fn lemma_subscribers_see_increasing_numbers(
    capacity: nat,
    events: Seq<HubEvent>,
    id: u64,
)
    requires
        0 < capacity,
        ordered(published(events)),
    ensures
        ordered(delivered(DistributorView::initial(capacity), events, id)),
{
    let d = DistributorView::initial(capacity);
    assert(d.pending(id) + published(events) =~= published(events));
    lemma_delivered_ordered(d, events, id);
}

/// Each subscriber's queue goes its own way: after any number of
/// publishes, what one subscriber holds and what it has dropped follow
/// from its own queue and the published items alone.
pub proof fn lemma_publish_all_pointwise(d: DistributorView, ms: Seq<Message>, i: int)
    requires
        !d.closed,
        0 <= i < d.subscribers.len(),
    ensures
        !d.publish_all(ms).closed,
        d.publish_all(ms).capacity == d.capacity,
        d.publish_all(ms).next_id == d.next_id,
        d.publish_all(ms).subscribers.len() == d.subscribers.len(),
        d.publish_all(ms).subscribers[i] == (SubscriberView {
            id: d.subscribers[i].id,
            queue: d.subscribers[i].queue.push_all(ms),
        }),
    decreases ms.len(),
{
    if ms.len() > 0 {
        lemma_publish_all_pointwise(d, ms.drop_last(), i);
    }
}

/// Isolation. A subscriber whose queue is full loses its own oldest item
/// to a publish and counts the drop; a subscriber with room gets the item
/// and drops nothing, whatever the queues of the others hold.
pub proof fn lemma_isolation(d: DistributorView, m: Message, slow: int, healthy: int)
    requires
        d.wf(),
        !d.closed,
        0 <= slow < d.subscribers.len(),
        0 <= healthy < d.subscribers.len(),
        d.subscribers[slow].queue.full(),
        !d.subscribers[healthy].queue.full(),
    ensures
        d.publish(m).subscribers[slow].queue.items
            == d.subscribers[slow].queue.items.drop_first().push(m),
        d.publish(m).subscribers[slow].queue.dropped == bumped(d.subscribers[slow].queue.dropped),
        d.publish(m).subscribers[healthy].queue.items == d.subscribers[healthy].queue.items.push(
            m,
        ),
        d.publish(m).subscribers[healthy].queue.dropped == d.subscribers[healthy].queue.dropped,
{
}

/// Isolation over time. A subscriber whose queue has room for all that is
/// published gets every item, in order, and drops nothing, whatever the
/// queues of the others hold.
pub proof fn lemma_healthy_subscriber_drops_nothing(
    d: DistributorView,
    ms: Seq<Message>,
    healthy: int,
)
    requires
        !d.closed,
        0 <= healthy < d.subscribers.len(),
        d.subscribers[healthy].queue.items.len() + ms.len()
            <= d.subscribers[healthy].queue.capacity,
    ensures
        d.publish_all(ms).subscribers[healthy].queue.items == d.subscribers[healthy].queue.items
            + ms,
        d.publish_all(ms).subscribers[healthy].queue.dropped
            == d.subscribers[healthy].queue.dropped,
{
    lemma_publish_all_pointwise(d, ms, healthy);
    lemma_push_all_fits(d.subscribers[healthy].queue, ms);
}

/// The hub after each of `events` has happened in turn.
pub open spec fn run(d: DistributorView, events: Seq<HubEvent>) -> DistributorView
    decreases events.len(),
{
    if events.len() == 0 {
        d
    } else {
        run(step(d, events[0]), events.drop_first())
    }
}

/// The subscriber `id` keeps up with `events`: its queue has room whenever
/// something is published. It does not leave, and the hub is not closed.
pub open spec fn keeps_up(d: DistributorView, events: Seq<HubEvent>, id: u64) -> bool
    decreases events.len(),
{
    if events.len() == 0 {
        true
    } else {
        &&& match events[0] {
            HubEvent::Publish(_) => d.pending(id).len() < d.capacity,
            HubEvent::Unsubscribe(gone) => gone != id,
            HubEvent::Close => false,
            _ => true,
        }
        &&& keeps_up(step(d, events[0]), events.drop_first(), id)
    }
}

/// Isolation over any run of events. A subscriber that keeps up loses
/// nothing: what it is handed, followed by what is still queued for it, is
/// what was queued for it at the start followed by everything published
/// since, in order. This holds whatever the other subscribers do, and
/// however many items their queues give up.
pub proof fn lemma_subscriber_that_keeps_up_loses_nothing(
    d: DistributorView,
    events: Seq<HubEvent>,
    id: u64,
)
    requires
        d.wf(),
        d.subscribed(id),
        !d.closed,
        keeps_up(d, events, id),
    ensures
        delivered(d, events, id) + run(d, events).pending(id) == d.pending(id) + published(
            events,
        ),
    decreases events.len(),
{
    if events.len() == 0 {
        assert(delivered(d, events, id) + run(d, events).pending(id) =~= d.pending(id)
            + published(events));
    } else {
        let e = events[0];
        let rest = events.drop_first();
        let after = step(d, e);
        lemma_step_wf(d, e);
        lemma_step_pending(d, e, id);
        let pending = d.pending(id);
        let queue = d.subscribers[d.position(id)].queue;
        assert(queue.capacity == d.capacity && queue.items == pending);
        assert(d.subscribers[d.position(id)].id < d.next_id);
        lemma_subscriber_that_keeps_up_loses_nothing(after, rest, id);
        let later = delivered(after, rest, id) + run(after, rest).pending(id);
        assert(later == after.pending(id) + published(rest));
        match e {
            HubEvent::Publish(m) => {
                assert(after.pending(id) == pending.push(m));
                assert(pending.push(m) + published(rest) =~= pending + (seq![m] + published(
                    rest,
                )));
            },
            HubEvent::Receive(to) => {
                if to == id && pending.len() > 0 {
                    assert(handed(d, e, id) == seq![pending[0]]);
                    assert(seq![pending[0]] + (pending.drop_first() + published(rest))
                        =~= pending + published(rest));
                }
            },
            _ => {},
        }
        assert(delivered(d, events, id) + run(d, events).pending(id) =~= handed(d, e, id)
            + later);
    }
}

/// What is published while nobody is subscribed is kept nowhere but in
/// the cache of control events.
pub proof fn lemma_publish_all_unwatched(d: DistributorView, ms: Seq<Message>)
    requires
        d.subscribers.len() == 0,
    ensures
        d.publish_all(ms).subscribers.len() == 0,
        d.publish_all(ms).capacity == d.capacity,
        d.publish_all(ms).next_id == d.next_id,
        d.publish_all(ms).closed == d.closed,
    decreases ms.len(),
{
    if ms.len() > 0 {
        lemma_publish_all_unwatched(d, ms.drop_last());
    }
}

/// No-subscriber discard. Items published while nobody is subscribed reach
/// no queue, and a subscriber that joins afterwards starts with cached
/// control events only: with no unit, and with no more than the latest
/// `Ready` and `StreamHeader`.
pub proof fn lemma_no_subscriber_discard(d: DistributorView, ms: Seq<Message>)
    requires
        d.wf(),
        d.subscribers.len() == 0,
    ensures
        ({
            let after = d.publish_all(ms);
            let joined = after.subscribe();
            &&& after.subscribers.len() == 0
            &&& after.can_subscribe() == d.can_subscribe()
            &&& after.can_subscribe() ==> {
                &&& joined.subscribers.len() == 1
                &&& joined.pending(d.next_id) == after.newcomer().queue.items
                &&& unitless(joined.pending(d.next_id))
                &&& joined.pending(d.next_id).len() <= 2
                &&& after.replay().len() <= d.capacity ==> joined.pending(d.next_id)
                    == after.replay()
            }
        }),
{
    let after = d.publish_all(ms);
    lemma_publish_all_unwatched(d, ms);
    assert(after.wf());
    lemma_newcomer_queue(after);
    if after.can_subscribe() {
        lemma_step_pending(after, HubEvent::Subscribe, d.next_id);
    }
}

/// The cache after a `Ready`, a `StreamHeader` and any number of units
/// have been published holds that `Ready` and that `StreamHeader`.
pub proof fn lemma_units_keep_cache(d: DistributorView, units: Seq<Message>)
    requires
        forall|k: int| 0 <= k < units.len() ==> (#[trigger] units[k]) is Frame,
    ensures
        d.publish_all(units).ready == d.ready,
        d.publish_all(units).header == d.header,
        d.publish_all(units).closed == d.closed,
        d.publish_all(units).capacity == d.capacity,
        d.publish_all(units).next_id == d.next_id,
        d.publish_all(units).subscribers.len() == d.subscribers.len(),
    decreases units.len(),
{
    if units.len() > 0 {
        let front = units.drop_last();
        assert forall|k: int| 0 <= k < front.len() implies (#[trigger] front[k]) is Frame by {
            assert(front[k] == units[k]);
        }
        lemma_units_keep_cache(d, front);
        assert(units.last() == units[units.len() - 1]);
    }
}

/// Late-join header replay. A subscriber that joins after a `Ready` and a
/// `StreamHeader` have been published, and any number of units after them,
/// starts with exactly that `Ready` and that `StreamHeader`, in this order,
/// ahead of any unit. The queues hold at least two items.
pub proof fn lemma_late_join_replay(d: DistributorView, header: Seq<u8>, units: Seq<Message>)
    requires
        d.wf(),
        d.can_subscribe(),
        2 <= d.capacity,
        forall|k: int| 0 <= k < units.len() ==> (#[trigger] units[k]) is Frame,
    ensures
        ({
            let cached = d.publish(Message::Ready).publish(Message::StreamHeader(header));
            let after = cached.publish_all(units);
            let joined = after.subscribe();
            &&& after.can_subscribe()
            &&& joined.subscribers.len() == d.subscribers.len() + 1
            &&& joined.subscribed(d.next_id)
            &&& joined.pending(d.next_id) == seq![Message::Ready, Message::StreamHeader(header)]
        }),
{
    let cached = d.publish(Message::Ready).publish(Message::StreamHeader(header));
    let after = cached.publish_all(units);
    lemma_step_wf(d, HubEvent::Publish(Message::Ready));
    lemma_step_wf(d.publish(Message::Ready), HubEvent::Publish(Message::StreamHeader(header)));
    lemma_units_keep_cache(cached, units);
    lemma_publish_all_wf(cached, units);
    lemma_replay_shape(after);
    lemma_newcomer_queue(after);
    lemma_step_pending(after, HubEvent::Subscribe, d.next_id);
}

/// Header before data for a late joiner. A subscriber that joins after a
/// `Ready` and a `StreamHeader` have been published, and that takes two
/// items before anything else happens, is handed that `Ready` and then
/// that `StreamHeader`. The queues hold at least two items.
pub proof fn lemma_late_joiner_takes_header_first(
    d: DistributorView,
    header: Seq<u8>,
    units: Seq<Message>,
)
    requires
        d.wf(),
        d.can_subscribe(),
        2 <= d.capacity,
        forall|k: int| 0 <= k < units.len() ==> (#[trigger] units[k]) is Frame,
    ensures
        ({
            let cached = d.publish(Message::Ready).publish(Message::StreamHeader(header));
            let joined = cached.publish_all(units).subscribe();
            let take = HubEvent::Receive(d.next_id);
            delivered(joined, seq![take, take], d.next_id) == seq![
                Message::Ready,
                Message::StreamHeader(header),
            ]
        }),
{
    let cached = d.publish(Message::Ready).publish(Message::StreamHeader(header));
    let after = cached.publish_all(units);
    let joined = after.subscribe();
    let id = d.next_id;
    let take = HubEvent::Receive(id);
    lemma_late_join_replay(d, header, units);
    lemma_step_wf(d, HubEvent::Publish(Message::Ready));
    lemma_step_wf(d.publish(Message::Ready), HubEvent::Publish(Message::StreamHeader(header)));
    lemma_publish_all_wf(cached, units);
    lemma_step_wf(after, HubEvent::Subscribe);
    lemma_step_pending(joined, take, id);
    lemma_step_wf(joined, take);
    let once = step(joined, take);
    assert(once.pending(id) =~= seq![Message::StreamHeader(header)]);
    lemma_step_pending(once, take, id);
    let events = seq![take, take];
    assert(events.drop_first() =~= seq![take]);
    assert(seq![take].drop_first() =~= Seq::<HubEvent>::empty());
    reveal_with_fuel(delivered, 3);
    assert(delivered(joined, events, id) =~= seq![Message::Ready, Message::StreamHeader(header)]);
}

/// Publishing keeps every queue to the hub's bound and the identifiers
/// apart.
pub proof fn lemma_publish_all_wf(d: DistributorView, ms: Seq<Message>)
    requires
        d.wf(),
    ensures
        d.publish_all(ms).wf(),
    decreases ms.len(),
{
    if ms.len() > 0 {
        lemma_publish_all_wf(d, ms.drop_last());
        lemma_step_wf(d.publish_all(ms.drop_last()), HubEvent::Publish(ms.last()));
    }
}

/// A closed hub stays as it is, whatever is published.
pub proof fn lemma_closed_hub_takes_nothing(d: DistributorView, ms: Seq<Message>)
    requires
        d.closed,
    ensures
        d.publish_all(ms) == d,
    decreases ms.len(),
{
    if ms.len() > 0 {
        lemma_closed_hub_takes_nothing(d, ms.drop_last());
    }
}

/// What is queued for a subscriber after items have been published, by
/// what was queued for it before.
pub proof fn lemma_publish_all_pending(d: DistributorView, ms: Seq<Message>, id: u64)
    requires
        d.wf(),
    ensures
        d.publish_all(ms).wf(),
        d.publish_all(ms).subscribed(id) == d.subscribed(id),
        d.publish_all(ms).pending(id) == if d.subscribed(id) && !d.closed {
            d.subscribers[d.position(id)].queue.push_all(ms).items
        } else {
            d.pending(id)
        },
{
    let after = d.publish_all(ms);
    lemma_publish_all_wf(d, ms);
    if d.closed {
        lemma_closed_hub_takes_nothing(d, ms);
    } else {
        if d.subscribed(id) {
            let p = d.position(id);
            lemma_publish_all_pointwise(d, ms, p);
            lemma_position(after, id, p);
        } else if d.subscribers.len() > 0 {
            lemma_publish_all_pointwise(d, ms, 0);
            if after.subscribed(id) {
                let p = after.position(id);
                lemma_publish_all_pointwise(d, ms, p);
                assert(d.subscribers[p].id == id);
            }
        } else {
            lemma_publish_all_unwatched(d, ms);
        }
    }
}

/// A subscriber that leaves takes only its own queue with it: every other
/// subscriber stays registered with all that was queued for it.
pub proof fn lemma_leaving_is_local(d: DistributorView, gone: u64, other: u64)
    requires
        d.wf(),
        gone != other,
    ensures
        !d.unsubscribe(gone).subscribed(gone),
        d.unsubscribe(gone).subscribed(other) == d.subscribed(other),
        d.unsubscribe(gone).pending(other) == d.pending(other),
        d.subscribed(gone) ==> d.unsubscribe(gone).subscribers.len() == d.subscribers.len() - 1,
        d.unsubscribe(gone).unsubscribe(gone) == d.unsubscribe(gone),
{
    lemma_step_pending(d, HubEvent::Unsubscribe(gone), gone);
    lemma_step_pending(d, HubEvent::Unsubscribe(gone), other);
}

} // verus!
