//! The distribution side of the bridge: what was handed over on the
//! capture side is forwarded to the hub, in order, until the pipeline is
//! shut down.

use crate::bridge::{BridgeView, FrameBridge};
use crate::distributor::Distributor;
use vstd::prelude::*;

verus! {

/// Takes everything that waits in `bridge` and publishes it to `hub`,
/// oldest first. Returns the number of items forwarded.
pub fn pump(bridge: &mut FrameBridge, hub: &mut Distributor) -> (forwarded: usize)
    ensures
        final(bridge)@ == old(bridge)@.drained(),
        final(hub)@ == old(hub)@.publish_all(old(bridge)@.queue.items),
        final(hub)@.wf(),
        forwarded == old(bridge)@.queue.items.len(),
{
    proof {
        use_type_invariant(&*hub);
    }
    let ghost items = bridge@.queue.items;
    let ghost start = hub@;
    let waiting: usize = bridge.len();
    let mut forwarded: usize = 0;
    loop
        invariant
            waiting == items.len(),
            forwarded <= waiting,
            bridge@.queue.items == items.skip(forwarded as int),
            bridge@.queue.capacity == old(bridge)@.queue.capacity,
            bridge@.queue.dropped == old(bridge)@.queue.dropped,
            bridge@.closed == old(bridge)@.closed,
            hub@ == start.publish_all(items.take(forwarded as int)),
            hub@.wf(),
        ensures
            forwarded == waiting,
        decreases waiting - forwarded,
    {
        match bridge.dequeue() {
            None => {
                break ;
            },
            Some(item) => {
                proof {
                    let upto = items.take(forwarded as int + 1);
                    assert(upto.drop_last() =~= items.take(forwarded as int));
                    assert(items.skip(forwarded as int).drop_first() =~= items.skip(
                        forwarded as int + 1,
                    ));
                }
                hub.publish(item);
                forwarded += 1;
            },
        }
    }
    proof {
        assert(bridge@.queue.items =~= Seq::empty());
    }
    forwarded
}

/// Unwinds the pipeline after the capture side has ended: the bridge takes
/// nothing more, and the hub takes no further publish and no new
/// subscriber. What is queued for the subscribers stays for them to drain;
/// after that each of them is told that the hub is closed.
pub fn shut_down(bridge: &mut FrameBridge, hub: &mut Distributor)
    ensures
        final(bridge)@ == (BridgeView { closed: true, ..old(bridge)@ }),
        final(hub)@ == old(hub)@.close(),
{
    bridge.close();
    hub.close();
}

} // verus!
