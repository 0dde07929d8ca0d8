use screen_stream::bridge::{FrameBridge, BRIDGE_CAPACITY};
use screen_stream::message::StreamMessage;
use screen_stream::queue::BoundedQueue;

fn unit(count: u64) -> StreamMessage {
    StreamMessage::Frame { count, data: vec![count as u8] }
}

#[test]
fn queue_hands_out_items_oldest_first() {
    let mut q = BoundedQueue::new(4);
    assert!(q.is_empty());
    assert_eq!(q.capacity(), 4);
    assert!(!q.push(unit(0)));
    assert!(!q.push(StreamMessage::Ready));
    assert!(!q.push(unit(1)));
    assert_eq!(q.len(), 3);
    assert!(q.pop() == Some(unit(0)));
    assert!(q.pop() == Some(StreamMessage::Ready));
    assert!(q.pop() == Some(unit(1)));
    assert!(q.pop() == None);
    assert_eq!(q.dropped(), 0);
}

#[test]
fn full_queue_evicts_its_oldest_item() {
    let mut q = BoundedQueue::new(2);
    assert!(!q.push(unit(0)));
    assert!(!q.push(unit(1)));
    assert!(q.push(unit(2)));
    assert_eq!(q.len(), 2);
    assert_eq!(q.dropped(), 1);
    assert!(q.push(unit(3)));
    assert_eq!(q.dropped(), 2);
    assert!(q.pop() == Some(unit(2)));
    assert!(q.pop() == Some(unit(3)));
    assert!(q.pop() == None);
}

#[test]
fn queue_of_one_keeps_the_newest() {
    let mut q = BoundedQueue::new(1);
    assert!(!q.push(unit(0)));
    assert!(q.push(unit(1)));
    assert!(q.push(unit(2)));
    assert_eq!(q.len(), 1);
    assert_eq!(q.dropped(), 2);
    assert!(q.pop() == Some(unit(2)));
}

#[test]
fn bridge_default_capacity_is_sixteen() {
    assert_eq!(BRIDGE_CAPACITY, 16);
    let b = FrameBridge::new(BRIDGE_CAPACITY);
    assert_eq!(b.capacity(), 16);
    assert_eq!(b.len(), 0);
    assert!(b.is_empty());
    assert!(!b.is_closed());
    assert_eq!(b.dropped(), 0);
}

#[test]
fn bridge_keeps_the_order_of_control_events_and_units() {
    let mut b = FrameBridge::new(8);
    assert!(b.enqueue(StreamMessage::Ready));
    assert!(b.enqueue(StreamMessage::StreamHeader(vec![1, 2, 3])));
    assert!(b.enqueue(unit(0)));
    assert!(b.enqueue(unit(1)));
    assert_eq!(b.len(), 4);
    assert!(b.dequeue() == Some(StreamMessage::Ready));
    assert!(b.dequeue() == Some(StreamMessage::StreamHeader(vec![1, 2, 3])));
    assert!(b.dequeue() == Some(unit(0)));
    assert!(b.dequeue() == Some(unit(1)));
    assert!(b.dequeue() == None);
}

#[test]
fn bridge_overflow_drops_the_oldest_and_counts() {
    let mut b = FrameBridge::new(3);
    for n in 0..10u64 {
        assert!(b.enqueue(unit(n)));
        assert!(b.len() <= 3);
    }
    assert_eq!(b.len(), 3);
    assert_eq!(b.dropped(), 7);
    assert!(b.dequeue() == Some(unit(7)));
    assert!(b.dequeue() == Some(unit(8)));
    assert!(b.dequeue() == Some(unit(9)));
    assert!(b.dequeue() == None);
}

#[test]
fn bridge_delivers_increasing_numbers_under_overflow() {
    let mut b = FrameBridge::new(4);
    let mut last: Option<u64> = None;
    let mut next = 0u64;
    for round in 0..50u64 {
        for _ in 0..(round % 7) {
            b.enqueue(unit(next));
            next += 1;
        }
        for _ in 0..(round % 3) {
            if let Some(StreamMessage::Frame { count, .. }) = b.dequeue() {
                if let Some(before) = last {
                    assert!(count > before);
                }
                last = Some(count);
            }
        }
    }
    assert!(b.dropped() > 0);
}

#[test]
fn closed_bridge_takes_nothing_but_can_be_drained() {
    let mut b = FrameBridge::new(4);
    assert!(b.enqueue(unit(0)));
    b.close();
    assert!(b.is_closed());
    assert!(!b.enqueue(unit(1)));
    assert_eq!(b.len(), 1);
    assert_eq!(b.dropped(), 0);
    assert!(b.dequeue() == Some(unit(0)));
    assert!(b.dequeue() == None);
}
