use screen_stream::encoder::{
    codec_frame_rate, codec_options, frame_len, EncoderError, VideoEncoder, BYTES_PER_PIXEL,
};

#[test]
fn new_encoder_has_counted_no_frame() {
    let enc = VideoEncoder::new(1280, 720, 30).unwrap();
    assert_eq!(enc.get_frame(), 0);
    assert_eq!(enc.width(), 1280);
    assert_eq!(enc.height(), 720);
    assert_eq!(enc.fps(), 30);
    assert_eq!(enc.frame_len(), 3_686_400);
    assert_eq!(enc.time_base(), (1, 30));
}

#[test]
fn new_refuses_a_rate_that_does_not_fit_the_time_base() {
    assert_eq!(
        VideoEncoder::new(640, 480, 2_147_483_648).err(),
        Some(EncoderError::UnsupportedFormat)
    );
    assert_eq!(VideoEncoder::new(640, 480, u32::MAX).err(), Some(EncoderError::UnsupportedFormat));
    let enc = VideoEncoder::new(640, 480, 2_147_483_647).unwrap();
    assert_eq!(enc.time_base(), (1, i32::MAX));
}

#[test]
fn new_refuses_a_frame_too_large_to_hold() {
    assert_eq!(
        VideoEncoder::new(u32::MAX, u32::MAX, 30).err(),
        Some(EncoderError::UnsupportedFormat)
    );
    assert_eq!(frame_len(u32::MAX, u32::MAX), None);
}

#[test]
fn frame_len_is_four_bytes_for_each_pixel() {
    assert_eq!(BYTES_PER_PIXEL, 4);
    assert_eq!(frame_len(1280, 720), Some(3_686_400));
    assert_eq!(frame_len(1, 1), Some(4));
    assert_eq!(frame_len(0, 720), Some(0));
    assert_eq!(frame_len(4096, 4096), Some(67_108_864));
}

#[test]
fn encode_numbers_frames_from_zero() {
    let mut enc = VideoEncoder::new(2, 2, 30).unwrap();
    let frame = [0u8; 16];
    assert_eq!(enc.encode(&frame), Ok(0));
    assert_eq!(enc.get_frame(), 1);
    assert_eq!(enc.encode(&frame), Ok(1));
    assert_eq!(enc.encode(&frame), Ok(2));
    assert_eq!(enc.get_frame(), 3);
}

#[test]
fn encode_refuses_a_frame_of_the_wrong_size() {
    let mut enc = VideoEncoder::new(2, 2, 30).unwrap();
    assert_eq!(enc.encode(&[0u8; 15]), Err(EncoderError::FrameSizeMismatch));
    assert_eq!(enc.encode(&[0u8; 17]), Err(EncoderError::FrameSizeMismatch));
    assert_eq!(enc.encode(&[]), Err(EncoderError::FrameSizeMismatch));
    assert_eq!(enc.get_frame(), 0);
    assert_eq!(enc.encode(&[0u8; 16]), Ok(0));
}

#[test]
fn codec_options_are_those_of_a_low_latency_stream() {
    assert_eq!(
        codec_options(),
        vec![
            ("preset", "veryfast"),
            ("tune", "zerolatency"),
            ("bitrate", "1000"),
            ("keyint", "30"),
            ("x264-params", "nal-hrd=cbr:vbv-maxrate=1000:vbv-bufsize=1000"),
            ("annexb", "1"),
            ("bframes", "0"),
        ]
    );
}

#[test]
fn codec_is_told_thirty_frames_a_second() {
    assert_eq!(codec_frame_rate(), (30, 1));
}

#[test]
fn refused_gives_back_the_time_of_the_frame_taken_last_once() {
    let mut enc = VideoEncoder::new(2, 2, 30).unwrap();
    let frame = [0u8; 16];
    assert!(!enc.refused());
    assert_eq!(enc.get_frame(), 0);
    assert_eq!(enc.encode(&frame), Ok(0));
    assert!(enc.refused());
    assert_eq!(enc.get_frame(), 0);
    assert!(!enc.refused());
    assert_eq!(enc.encode(&frame), Ok(0));
    assert_eq!(enc.encode(&frame), Ok(1));
    assert_eq!(enc.get_frame(), 2);
    assert!(enc.refused());
    assert_eq!(enc.get_frame(), 1);
    assert!(!enc.refused());
    assert_eq!(enc.get_frame(), 1);
    assert_eq!(enc.encode(&frame), Ok(1));
}

#[test]
fn a_frame_that_was_turned_away_does_not_settle_the_one_before() {
    let mut enc = VideoEncoder::new(2, 2, 30).unwrap();
    assert_eq!(enc.encode(&[0u8; 16]), Ok(0));
    assert_eq!(enc.encode(&[0u8; 15]), Err(EncoderError::FrameSizeMismatch));
    assert!(enc.refused());
    assert_eq!(enc.encode(&[0u8; 16]), Ok(0));
}
