use screen_stream::bridge::FrameBridge;
use screen_stream::connection::{Connection, ReadOutcome, Relay};
use screen_stream::distributor::{Delivery, Distributor};
use screen_stream::format::{negotiate, FormatOffer, Fraction, PixelLayout, Rectangle, VideoFormat};
use screen_stream::message::{StreamMessage, TcpMessage};
use screen_stream::server::{pump, shut_down};
use screen_stream::session::{
    BuildRequest, CaptureSession, FrameAction, MediaKind, MediaSubtype, MediaType, ParamInfo,
    ParamKind, Phase, RawFrame,
};

fn confirmed(f: VideoFormat) -> Option<ParamInfo> {
    Some(ParamInfo {
        kind: ParamKind::Format,
        media: Some(MediaKind { media_type: MediaType::Video, subtype: MediaSubtype::Raw }),
        format: Some(f),
    })
}

fn hd_offer() -> FormatOffer {
    FormatOffer {
        layouts: vec![PixelLayout::RGBx, PixelLayout::BGRx],
        min_size: Rectangle { width: 1, height: 1 },
        max_size: Rectangle { width: 1280, height: 720 },
        min_rate: Fraction { num: 0, denom: 1 },
        max_rate: Fraction { num: 60, denom: 1 },
    }
}

/// Builds a session that streams in `format`, handing what it emits to
/// the bridge.
fn start(format: VideoFormat, header: Option<Vec<u8>>, bridge: &mut FrameBridge) -> CaptureSession {
    let mut session = CaptureSession::new();
    session.connect();
    assert_eq!(
        session.param_changed(confirmed(format)),
        Ok(Some(BuildRequest { width: format.width, height: format.height, fps: 30 }))
    );
    for message in session.encoder_built(header) {
        assert!(bridge.enqueue(message));
    }
    assert_eq!(session.phase(), Phase::Streaming);
    session
}

/// Feeds one frame and hands the unit that comes of it to the bridge.
fn feed(
    session: &mut CaptureSession,
    format: &VideoFormat,
    bytes: &[u8],
    bridge: &mut FrameBridge,
) {
    let frame = RawFrame {
        width: format.width,
        height: format.height,
        pixel_layout: format.pixel_layout,
        bytes,
    };
    match session.process_frame(&frame) {
        FrameAction::Encode { pts } => {
            let unit = session.unit_encoded(vec![pts as u8; 4]).unwrap().unwrap();
            bridge.enqueue(unit);
        }
        FrameAction::Skip(reason) => panic!("frame dropped: {:?}", reason),
    }
}

#[test]
fn three_frames_reach_a_client_connected_before_the_first() {
    let format = negotiate(&[hd_offer()]).unwrap();
    assert_eq!(
        format,
        VideoFormat {
            pixel_layout: PixelLayout::BGRx,
            width: 1280,
            height: 720,
            frame_rate: Fraction { num: 30, denom: 1 },
        }
    );
    let mut bridge = FrameBridge::new(16);
    let mut hub = Distributor::new(32);
    let mut client = Connection::new();
    client.greeted(&mut hub, true);
    let watcher = hub.subscribe().unwrap();

    let header = vec![0, 0, 0, 1, 0x67];
    let mut session = start(format, Some(header.clone()), &mut bridge);
    let bytes = vec![0u8; 1280 * 720 * 4];
    for _ in 0..3 {
        feed(&mut session, &format, &bytes, &mut bridge);
    }
    assert_eq!(pump(&mut bridge, &mut hub), 5);

    assert_eq!(client.relay(&mut hub), Relay::Skip);
    assert_eq!(client.relay(&mut hub), Relay::Write(TcpMessage::Frame(header.clone())));
    assert_eq!(client.relay(&mut hub), Relay::Write(TcpMessage::Frame(vec![0; 4])));
    assert_eq!(client.relay(&mut hub), Relay::Write(TcpMessage::Frame(vec![1; 4])));
    assert_eq!(client.relay(&mut hub), Relay::Write(TcpMessage::Frame(vec![2; 4])));
    assert_eq!(client.relay(&mut hub), Relay::Wait);

    assert!(hub.receive(&watcher) == Delivery::Item(StreamMessage::Ready));
    assert!(hub.receive(&watcher) == Delivery::Item(StreamMessage::StreamHeader(header)));
    for n in 0..3u64 {
        assert!(
            hub.receive(&watcher)
                == Delivery::Item(StreamMessage::Frame { count: n, data: vec![n as u8; 4] })
        );
    }
    assert!(hub.receive(&watcher) == Delivery::Empty);
}

#[test]
fn every_client_sees_increasing_numbers_while_one_encoder_lives() {
    let format = VideoFormat {
        pixel_layout: PixelLayout::BGRx,
        width: 2,
        height: 2,
        frame_rate: Fraction { num: 30, denom: 1 },
    };
    let bytes = [0u8; 16];
    let mut bridge = FrameBridge::new(3);
    let mut hub = Distributor::new(4);
    let mut session = start(format, None, &mut bridge);
    let mut subs = Vec::new();
    let mut last: Vec<Option<u64>> = Vec::new();
    let mut handed = 0usize;
    for round in 0..200usize {
        if round % 25 == 0 {
            subs.push(hub.subscribe().unwrap());
            last.push(None);
        }
        for _ in 0..(round % 5) {
            feed(&mut session, &format, &bytes, &mut bridge);
        }
        if round % 3 == 0 {
            pump(&mut bridge, &mut hub);
        }
        for (k, sub) in subs.iter().enumerate() {
            let takes = if k == 0 { round % 11 / 10 } else { (round + 2 * k) % 4 };
            for _ in 0..takes {
                if let Delivery::Item(StreamMessage::Frame { count, .. }) = hub.receive(sub) {
                    if let Some(before) = last[k] {
                        assert!(count > before);
                    }
                    last[k] = Some(count);
                    handed += 1;
                }
            }
        }
    }
    assert!(bridge.dropped() > 0);
    assert!(hub.dropped(subs[0].id()).unwrap() > 0);
    assert!(last.iter().all(|seen| seen.is_some()));
    assert!(handed > 0);
    assert_eq!(session.next_sequence(), 400);
}

#[test]
fn numbers_start_again_for_clients_when_the_format_changes() {
    let format = VideoFormat {
        pixel_layout: PixelLayout::BGRx,
        width: 2,
        height: 2,
        frame_rate: Fraction { num: 30, denom: 1 },
    };
    let other = VideoFormat { width: 4, ..format };
    let mut bridge = FrameBridge::new(16);
    let mut hub = Distributor::new(16);
    let early = hub.subscribe().unwrap();
    let mut session = start(format, Some(vec![1]), &mut bridge);
    for _ in 0..3 {
        feed(&mut session, &format, &[0u8; 16], &mut bridge);
    }
    assert_eq!(
        session.param_changed(confirmed(other)),
        Ok(Some(BuildRequest { width: 4, height: 2, fps: 30 }))
    );
    for message in session.encoder_built(Some(vec![2])) {
        bridge.enqueue(message);
    }
    for _ in 0..2 {
        feed(&mut session, &other, &[0u8; 32], &mut bridge);
    }
    assert_eq!(pump(&mut bridge, &mut hub), 9);
    let late = hub.subscribe().unwrap();
    feed(&mut session, &other, &[0u8; 32], &mut bridge);
    assert_eq!(pump(&mut bridge, &mut hub), 1);

    let mut seen = Vec::new();
    while let Delivery::Item(item) = hub.receive(&early) {
        seen.push(match item {
            StreamMessage::Ready => -1,
            StreamMessage::StreamHeader(bytes) => -10 - bytes[0] as i64,
            StreamMessage::Frame { count, .. } => count as i64,
        });
    }
    assert_eq!(seen, vec![-1, -11, 0, 1, 2, -1, -12, 0, 1, 2]);

    assert!(hub.receive(&late) == Delivery::Item(StreamMessage::Ready));
    assert!(hub.receive(&late) == Delivery::Item(StreamMessage::StreamHeader(vec![2])));
    assert!(
        hub.receive(&late) == Delivery::Item(StreamMessage::Frame { count: 2, data: vec![2; 4] })
    );
    assert!(hub.receive(&late) == Delivery::Empty);
}

#[test]
fn shut_down_lets_clients_drain_and_then_stops_them() {
    let format = VideoFormat {
        pixel_layout: PixelLayout::BGRx,
        width: 2,
        height: 2,
        frame_rate: Fraction { num: 30, denom: 1 },
    };
    let mut bridge = FrameBridge::new(8);
    let mut hub = Distributor::new(8);
    let mut client = Connection::new();
    client.greeted(&mut hub, true);
    let mut session = start(format, None, &mut bridge);
    feed(&mut session, &format, &[0u8; 16], &mut bridge);
    pump(&mut bridge, &mut hub);
    feed(&mut session, &format, &[0u8; 16], &mut bridge);

    session.backend_failed();
    shut_down(&mut bridge, &mut hub);
    assert!(bridge.is_closed());
    assert!(hub.is_closed());
    assert!(!bridge.enqueue(StreamMessage::Ready));
    assert_eq!(pump(&mut bridge, &mut hub), 1);
    assert_eq!(hub.publish(StreamMessage::Ready), 0);

    assert_eq!(client.relay(&mut hub), Relay::Skip);
    assert_eq!(client.relay(&mut hub), Relay::Write(TcpMessage::Frame(vec![0; 4])));
    assert_eq!(client.relay(&mut hub), Relay::Stop);
    assert!(client.is_closed());
    assert_eq!(hub.subscriber_count(), 0);
    assert!(!client.read(&mut hub, ReadOutcome::Bytes(3)));
}
