use screen_stream::distributor::{Delivery, Distributor, SUBSCRIBER_CAPACITY};
use screen_stream::message::StreamMessage;

fn unit(count: u64) -> StreamMessage {
    StreamMessage::Frame { count, data: vec![count as u8, 0xAB] }
}

fn header() -> StreamMessage {
    StreamMessage::StreamHeader(vec![0, 0, 0, 1, 0x67])
}

#[test]
fn subscriber_capacity_is_thirty_two() {
    assert_eq!(SUBSCRIBER_CAPACITY, 32);
}

#[test]
fn new_hub_has_no_subscribers() {
    let hub = Distributor::new(SUBSCRIBER_CAPACITY);
    assert_eq!(hub.subscriber_count(), 0);
    assert!(!hub.is_closed());
}

#[test]
fn subscribe_and_unsubscribe_change_the_count() {
    let mut hub = Distributor::new(4);
    let a = hub.subscribe().unwrap();
    let b = hub.subscribe().unwrap();
    assert_eq!(hub.subscriber_count(), 2);
    assert!(a.id() != b.id());
    assert!(hub.unsubscribe(a));
    assert_eq!(hub.subscriber_count(), 1);
    assert_eq!(hub.queued(b.id()), Some(0));
    assert!(hub.unsubscribe(b));
    assert_eq!(hub.subscriber_count(), 0);
}

#[test]
fn identifiers_are_never_given_out_twice() {
    let mut hub = Distributor::new(4);
    let a = hub.subscribe().unwrap();
    let first = a.id();
    assert!(hub.unsubscribe(a));
    let b = hub.subscribe().unwrap();
    assert!(b.id() != first);
}

#[test]
fn publish_reaches_every_subscriber() {
    let mut hub = Distributor::new(4);
    let a = hub.subscribe().unwrap();
    let b = hub.subscribe().unwrap();
    assert_eq!(hub.publish(unit(0)), 2);
    assert_eq!(hub.publish(unit(1)), 2);
    for sub in [&a, &b] {
        assert!(hub.receive(sub) == Delivery::Item(unit(0)));
        assert!(hub.receive(sub) == Delivery::Item(unit(1)));
        assert!(hub.receive(sub) == Delivery::Empty);
    }
}

#[test]
fn publishing_without_subscribers_delivers_nothing() {
    let mut hub = Distributor::new(4);
    for n in 0..10u64 {
        assert_eq!(hub.publish(unit(n)), 0);
    }
    let late = hub.subscribe().unwrap();
    assert_eq!(hub.queued(late.id()), Some(0));
    assert!(hub.receive(&late) == Delivery::Empty);
    assert_eq!(hub.publish(unit(10)), 1);
    assert!(hub.receive(&late) == Delivery::Item(unit(10)));
}

#[test]
fn unwatched_control_events_are_cached_but_units_are_not() {
    let mut hub = Distributor::new(4);
    assert_eq!(hub.publish(StreamMessage::Ready), 0);
    assert_eq!(hub.publish(header()), 0);
    for n in 0..5u64 {
        assert_eq!(hub.publish(unit(n)), 0);
    }
    let late = hub.subscribe().unwrap();
    assert_eq!(hub.queued(late.id()), Some(2));
    assert!(hub.receive(&late) == Delivery::Item(StreamMessage::Ready));
    assert!(hub.receive(&late) == Delivery::Item(header()));
    assert!(hub.receive(&late) == Delivery::Empty);
}

#[test]
fn late_joiner_gets_ready_and_header_before_its_first_unit() {
    let mut hub = Distributor::new(8);
    let early = hub.subscribe().unwrap();
    hub.publish(StreamMessage::Ready);
    hub.publish(header());
    hub.publish(unit(0));
    hub.publish(unit(1));
    let late = hub.subscribe().unwrap();
    hub.publish(unit(2));
    assert!(hub.receive(&late) == Delivery::Item(StreamMessage::Ready));
    assert!(hub.receive(&late) == Delivery::Item(header()));
    assert!(hub.receive(&late) == Delivery::Item(unit(2)));
    assert!(hub.receive(&late) == Delivery::Empty);
    assert!(hub.receive(&early) == Delivery::Item(StreamMessage::Ready));
    assert!(hub.receive(&early) == Delivery::Item(header()));
    assert!(hub.receive(&early) == Delivery::Item(unit(0)));
    assert!(hub.receive(&early) == Delivery::Item(unit(1)));
    assert!(hub.receive(&early) == Delivery::Item(unit(2)));
    assert!(hub.receive(&early) == Delivery::Empty);
}

#[test]
fn replay_holds_only_the_latest_pair() {
    let mut hub = Distributor::new(8);
    hub.publish(StreamMessage::Ready);
    hub.publish(StreamMessage::StreamHeader(vec![1]));
    hub.publish(StreamMessage::StreamHeader(vec![2]));
    let a = hub.subscribe().unwrap();
    assert!(hub.receive(&a) == Delivery::Item(StreamMessage::Ready));
    assert!(hub.receive(&a) == Delivery::Item(StreamMessage::StreamHeader(vec![2])));
    assert!(hub.receive(&a) == Delivery::Empty);
    hub.publish(StreamMessage::Ready);
    let b = hub.subscribe().unwrap();
    assert!(hub.receive(&b) == Delivery::Item(StreamMessage::Ready));
    assert!(hub.receive(&b) == Delivery::Empty);
}

#[test]
fn header_without_ready_is_replayed_alone() {
    let mut hub = Distributor::new(8);
    hub.publish(header());
    let a = hub.subscribe().unwrap();
    assert!(hub.receive(&a) == Delivery::Item(header()));
    assert!(hub.receive(&a) == Delivery::Empty);
}

#[test]
fn replay_into_a_queue_of_one_keeps_the_header() {
    let mut hub = Distributor::new(1);
    hub.publish(StreamMessage::Ready);
    hub.publish(header());
    let a = hub.subscribe().unwrap();
    assert_eq!(hub.queued(a.id()), Some(1));
    assert_eq!(hub.dropped(a.id()), Some(1));
    assert!(hub.receive(&a) == Delivery::Item(header()));
}

#[test]
fn saturated_subscriber_drops_only_its_own_items() {
    let mut hub = Distributor::new(3);
    let slow = hub.subscribe().unwrap();
    let healthy = hub.subscribe().unwrap();
    let mut seen = Vec::new();
    for n in 0..20u64 {
        assert_eq!(hub.publish(unit(n)), 2);
        match hub.receive(&healthy) {
            Delivery::Item(StreamMessage::Frame { count, .. }) => seen.push(count),
            _ => panic!("the healthy subscriber missed a unit"),
        }
    }
    assert_eq!(seen, (0..20u64).collect::<Vec<u64>>());
    assert_eq!(hub.dropped(healthy.id()), Some(0));
    assert_eq!(hub.dropped(slow.id()), Some(17));
    assert_eq!(hub.queued(slow.id()), Some(3));
    assert!(hub.receive(&slow) == Delivery::Item(unit(17)));
    assert!(hub.receive(&slow) == Delivery::Item(unit(18)));
    assert!(hub.receive(&slow) == Delivery::Item(unit(19)));
    assert!(hub.receive(&slow) == Delivery::Empty);
}

#[test]
fn every_subscriber_sees_increasing_numbers() {
    let mut hub = Distributor::new(4);
    let mut subs = Vec::new();
    let mut last: Vec<Option<u64>> = Vec::new();
    let mut next = 0u64;
    for round in 0..60usize {
        if round % 10 == 0 {
            subs.push(hub.subscribe().unwrap());
            last.push(None);
        }
        for _ in 0..(round % 6) {
            hub.publish(unit(next));
            next += 1;
        }
        for (k, sub) in subs.iter().enumerate() {
            for _ in 0..((round + k) % 4) {
                if let Delivery::Item(StreamMessage::Frame { count, .. }) = hub.receive(sub) {
                    if let Some(before) = last[k] {
                        assert!(count > before);
                    }
                    last[k] = Some(count);
                }
            }
        }
    }
    assert!(last.iter().all(|seen| seen.is_some()));
}

#[test]
fn unsubscribed_handle_receives_nothing_more() {
    let mut hub = Distributor::new(4);
    let a = hub.subscribe().unwrap();
    let b = hub.subscribe().unwrap();
    hub.publish(unit(0));
    assert!(hub.unsubscribe(a));
    assert_eq!(hub.publish(unit(1)), 1);
    assert!(hub.receive(&b) == Delivery::Item(unit(0)));
    assert!(hub.receive(&b) == Delivery::Item(unit(1)));
}

#[test]
fn closed_hub_takes_no_publish_and_no_subscriber() {
    let mut hub = Distributor::new(4);
    let a = hub.subscribe().unwrap();
    hub.publish(StreamMessage::Ready);
    hub.publish(unit(0));
    hub.close();
    assert!(hub.is_closed());
    assert_eq!(hub.publish(unit(1)), 0);
    assert!(hub.subscribe().is_none());
    assert_eq!(hub.subscriber_count(), 1);
    assert!(hub.receive(&a) == Delivery::Item(StreamMessage::Ready));
    assert!(hub.receive(&a) == Delivery::Item(unit(0)));
    assert!(hub.receive(&a) == Delivery::Closed);
    assert!(hub.unsubscribe(a));
}

#[test]
fn queued_and_dropped_know_only_current_subscribers() {
    let mut hub = Distributor::new(2);
    let a = hub.subscribe().unwrap();
    let b = hub.subscribe().unwrap();
    hub.publish(unit(0));
    hub.publish(unit(1));
    hub.publish(unit(2));
    assert_eq!(hub.queued(a.id()), Some(2));
    assert_eq!(hub.dropped(a.id()), Some(1));
    assert!(hub.unsubscribe(a));
    assert_eq!(hub.queued(b.id()), Some(2));
    assert_eq!(hub.dropped(b.id()), Some(1));
}
