use screen_stream::message::{decimal, StreamMessage, TcpMessage, TCP_PORT};

#[test]
fn the_stream_is_served_on_port_8080() {
    assert_eq!(TCP_PORT, 8080);
}

#[test]
fn describe_names_a_ready_event() {
    assert_eq!(StreamMessage::Ready.describe(), "Ready");
}

#[test]
fn describe_gives_length_and_number_of_a_unit() {
    let m = StreamMessage::Frame { count: 7, data: vec![1, 2, 3] };
    assert_eq!(m.describe(), "Frame[3](7)");
    let m = StreamMessage::Frame { count: 1234567890123, data: vec![0; 1000] };
    assert_eq!(m.describe(), "Frame[1000](1234567890123)");
    let m = StreamMessage::Frame { count: 0, data: vec![] };
    assert_eq!(m.describe(), "Frame[0](0)");
    let m = StreamMessage::Frame { count: u64::MAX, data: vec![9] };
    assert_eq!(m.describe(), "Frame[1](18446744073709551615)");
}

#[test]
fn describe_gives_the_length_of_a_header() {
    assert_eq!(StreamMessage::StreamHeader(vec![0, 0, 0, 1, 103]).describe(), "StreamHeader[5]");
}

#[test]
fn decimal_writes_numbers_as_digits() {
    assert_eq!(decimal(0), "0");
    assert_eq!(decimal(9), "9");
    assert_eq!(decimal(10), "10");
    assert_eq!(decimal(1029384756), "1029384756");
    assert_eq!(decimal(u64::MAX), u64::MAX.to_string());
}

#[test]
fn into_wire_keeps_payloads_and_drops_ready() {
    assert_eq!(StreamMessage::Ready.into_wire(), None);
    assert_eq!(
        StreamMessage::StreamHeader(vec![1, 2]).into_wire(),
        Some(TcpMessage::Frame(vec![1, 2]))
    );
    assert_eq!(
        StreamMessage::Frame { count: 4, data: vec![5, 6, 7] }.into_wire(),
        Some(TcpMessage::Frame(vec![5, 6, 7]))
    );
    assert_eq!(
        StreamMessage::Frame { count: 4, data: vec![] }.into_wire(),
        Some(TcpMessage::Frame(vec![]))
    );
}

#[test]
fn clones_are_equal_to_what_they_were_made_from() {
    let m = StreamMessage::Frame { count: 3, data: vec![1, 2, 3] };
    assert!(m.clone() == m);
    let h = StreamMessage::StreamHeader(vec![8, 9]);
    assert!(h.clone() == h);
    assert!(StreamMessage::Ready.clone() == StreamMessage::Ready);
    let t = TcpMessage::Frame(vec![4, 5]);
    assert_eq!(t.clone(), t);
}
