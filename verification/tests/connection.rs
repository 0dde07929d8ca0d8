use screen_stream::bridge::FrameBridge;
use screen_stream::connection::{greeting, Connection, ReadOutcome, Relay};
use screen_stream::distributor::Distributor;
use screen_stream::message::{StreamMessage, TcpMessage};
use screen_stream::server::pump;

fn unit(count: u64) -> StreamMessage {
    StreamMessage::Frame { count, data: vec![count as u8; 3] }
}

fn connected(hub: &mut Distributor) -> Connection {
    let mut c = Connection::new();
    c.greeted(hub, true);
    assert!(c.subscription_id().is_some());
    c
}

#[test]
fn greeting_is_the_fixed_welcome_line() {
    assert_eq!(greeting(), b"welcome :)\n".to_vec());
}

#[test]
fn new_connection_is_not_subscribed() {
    let c = Connection::new();
    assert!(!c.is_closed());
    assert_eq!(c.subscription_id(), None);
}

#[test]
fn greeted_connection_subscribes() {
    let mut hub = Distributor::new(4);
    let mut c = Connection::new();
    c.greeted(&mut hub, true);
    assert!(!c.is_closed());
    assert_eq!(hub.subscriber_count(), 1);
    c.greeted(&mut hub, true);
    assert_eq!(hub.subscriber_count(), 1);
}

#[test]
fn failed_greeting_ends_the_connection_unsubscribed() {
    let mut hub = Distributor::new(4);
    let mut c = Connection::new();
    c.greeted(&mut hub, false);
    assert!(c.is_closed());
    assert_eq!(hub.subscriber_count(), 0);
    assert_eq!(c.relay(&mut hub), Relay::Stop);
}

#[test]
fn connection_to_a_closed_hub_ends() {
    let mut hub = Distributor::new(4);
    hub.close();
    let mut c = Connection::new();
    c.greeted(&mut hub, true);
    assert!(c.is_closed());
    assert_eq!(hub.subscriber_count(), 0);
}

#[test]
fn relay_writes_payloads_in_order_without_framing() {
    let mut hub = Distributor::new(8);
    let mut c = connected(&mut hub);
    assert_eq!(c.relay(&mut hub), Relay::Wait);
    hub.publish(StreamMessage::Ready);
    hub.publish(StreamMessage::StreamHeader(vec![0, 0, 1]));
    hub.publish(unit(0));
    hub.publish(unit(1));
    assert_eq!(c.relay(&mut hub), Relay::Skip);
    assert_eq!(c.relay(&mut hub), Relay::Write(TcpMessage::Frame(vec![0, 0, 1])));
    assert_eq!(c.relay(&mut hub), Relay::Write(TcpMessage::Frame(vec![0, 0, 0])));
    assert_eq!(c.relay(&mut hub), Relay::Write(TcpMessage::Frame(vec![1, 1, 1])));
    assert_eq!(c.relay(&mut hub), Relay::Wait);
}

#[test]
fn read_of_bytes_keeps_the_connection() {
    let mut hub = Distributor::new(4);
    let mut c = connected(&mut hub);
    assert!(c.read(&mut hub, ReadOutcome::Bytes(1024)));
    assert!(c.read(&mut hub, ReadOutcome::Bytes(1)));
    assert!(!c.is_closed());
    assert_eq!(hub.subscriber_count(), 1);
}

#[test]
fn read_of_nothing_ends_the_connection() {
    let mut hub = Distributor::new(4);
    let mut c = connected(&mut hub);
    assert!(!c.read(&mut hub, ReadOutcome::Bytes(0)));
    assert!(c.is_closed());
    assert_eq!(hub.subscriber_count(), 0);
    assert_eq!(c.relay(&mut hub), Relay::Stop);
    assert!(!c.read(&mut hub, ReadOutcome::Bytes(5)));
}

#[test]
fn failed_read_ends_the_connection() {
    let mut hub = Distributor::new(4);
    let mut c = connected(&mut hub);
    assert!(!c.read(&mut hub, ReadOutcome::Failed));
    assert!(c.is_closed());
    assert_eq!(hub.subscriber_count(), 0);
}

#[test]
fn failed_write_ends_the_connection() {
    let mut hub = Distributor::new(4);
    let mut c = connected(&mut hub);
    hub.publish(unit(0));
    assert_eq!(c.relay(&mut hub), Relay::Write(TcpMessage::Frame(vec![0, 0, 0])));
    c.write_failed(&mut hub);
    assert!(c.is_closed());
    assert_eq!(hub.subscriber_count(), 0);
    assert_eq!(c.relay(&mut hub), Relay::Stop);
}

#[test]
fn cleanup_happens_once_whichever_side_ends_first() {
    let mut hub = Distributor::new(4);
    let mut a = connected(&mut hub);
    let b = connected(&mut hub);
    a.write_failed(&mut hub);
    assert_eq!(hub.subscriber_count(), 1);
    assert!(!a.read(&mut hub, ReadOutcome::Bytes(0)));
    a.close(&mut hub);
    a.write_failed(&mut hub);
    assert_eq!(hub.subscriber_count(), 1);
    assert_eq!(hub.queued(b.subscription_id().unwrap()), Some(0));
}

#[test]
fn relay_stops_once_a_closed_hub_is_drained() {
    let mut hub = Distributor::new(4);
    let mut c = connected(&mut hub);
    hub.publish(unit(0));
    hub.close();
    assert_eq!(c.relay(&mut hub), Relay::Write(TcpMessage::Frame(vec![0, 0, 0])));
    assert_eq!(c.relay(&mut hub), Relay::Stop);
    assert!(c.is_closed());
    assert_eq!(hub.subscriber_count(), 0);
}

#[test]
fn one_client_leaves_mid_stream_and_the_other_goes_on() {
    let mut hub = Distributor::new(8);
    let mut first = connected(&mut hub);
    let mut second = connected(&mut hub);
    let mut seen = Vec::new();
    for n in 0..3u64 {
        assert_eq!(hub.publish(unit(n)), 2);
    }
    assert_eq!(first.relay(&mut hub), Relay::Write(TcpMessage::Frame(vec![0, 0, 0])));
    assert!(!first.read(&mut hub, ReadOutcome::Failed));
    assert!(first.is_closed());
    assert_eq!(hub.subscriber_count(), 1);
    for n in 3..6u64 {
        assert_eq!(hub.publish(unit(n)), 1);
    }
    loop {
        match second.relay(&mut hub) {
            Relay::Write(TcpMessage::Frame(bytes)) => seen.push(bytes[0]),
            Relay::Wait => break,
            other => panic!("unexpected {:?}", other),
        }
    }
    assert_eq!(seen, vec![0, 1, 2, 3, 4, 5]);
    assert!(!second.is_closed());
    assert!(!hub.is_closed());
}

#[test]
fn hundred_frames_without_clients_are_delivered_nowhere() {
    let mut bridge = FrameBridge::new(16);
    let mut hub = Distributor::new(32);
    let mut forwarded = 0usize;
    for n in 0..100u64 {
        assert!(bridge.enqueue(unit(n)));
        assert!(bridge.len() <= 16);
        if n % 5 == 4 {
            let before = bridge.len();
            assert_eq!(pump(&mut bridge, &mut hub), before);
            forwarded += before;
            assert_eq!(bridge.len(), 0);
        }
    }
    assert_eq!(forwarded, 100);
    assert_eq!(bridge.dropped(), 0);
    assert_eq!(hub.subscriber_count(), 0);
    assert_eq!(hub.publish(unit(100)), 0);
    let mut late = connected(&mut hub);
    assert_eq!(late.relay(&mut hub), Relay::Wait);
}

#[test]
fn pump_forwards_in_order_and_empties_the_bridge() {
    let mut bridge = FrameBridge::new(4);
    let mut hub = Distributor::new(8);
    let mut c = connected(&mut hub);
    bridge.enqueue(StreamMessage::Ready);
    bridge.enqueue(StreamMessage::StreamHeader(vec![7]));
    bridge.enqueue(unit(0));
    bridge.enqueue(unit(1));
    bridge.enqueue(unit(2));
    assert_eq!(bridge.dropped(), 1);
    assert_eq!(pump(&mut bridge, &mut hub), 4);
    assert!(bridge.is_empty());
    assert_eq!(bridge.dropped(), 1);
    assert_eq!(pump(&mut bridge, &mut hub), 0);
    assert_eq!(c.relay(&mut hub), Relay::Write(TcpMessage::Frame(vec![7])));
    assert_eq!(c.relay(&mut hub), Relay::Write(TcpMessage::Frame(vec![0, 0, 0])));
    assert_eq!(c.relay(&mut hub), Relay::Write(TcpMessage::Frame(vec![1, 1, 1])));
    assert_eq!(c.relay(&mut hub), Relay::Write(TcpMessage::Frame(vec![2, 2, 2])));
    assert_eq!(c.relay(&mut hub), Relay::Wait);
    let late = connected(&mut hub);
    assert_eq!(hub.queued(late.subscription_id().unwrap()), Some(1));
}
