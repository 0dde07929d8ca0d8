//! The bookkeeping of one encoder instance: the frame size that it is bound
//! to, and the presentation time of each frame that it is given.
//!
//! The compressor itself is an outside capability. It is configured from
//! what this module holds, and it is handed each frame that this module
//! lets through.

use crate::format::TARGET_FRAME_RATE;
use vstd::prelude::*;

verus! {

/// The number of bytes of one pixel of a frame in the required layout.
pub const BYTES_PER_PIXEL: u32 = 4;

/// Why an encoder cannot be built or cannot take a frame.
#[derive(Clone, Copy, Debug, PartialEq, Eq, Structural)]
pub enum EncoderError {
    /// No encoder can be bound to this size and frame rate.
    UnsupportedFormat,
    /// The frame does not have the number of bytes of the size that the
    /// encoder is bound to.
    FrameSizeMismatch,
    /// The encoder has numbered as many frames as it can.
    FrameCounterExhausted,
}

/// The number of bytes of one frame of the given size.
pub open spec fn frame_bytes(width: u32, height: u32) -> int {
    width * height * BYTES_PER_PIXEL
}

/// An encoder can be bound to this size and frame rate: the rate fits the
/// codec's time base, and the number of bytes of a frame can be held.
pub open spec fn buildable(width: u32, height: u32, fps: u32) -> bool {
    fps <= i32::MAX && frame_bytes(width, height) <= usize::MAX
}

/// What a [`VideoEncoder`] holds.
pub struct EncoderView {
    pub width: u32,
    pub height: u32,
    pub fps: u32,
    /// The number of frames taken so far.
    pub frame: nat,
    /// The frame taken last has not been reported on yet: the codec may
    /// still refuse it, and its presentation time be given again.
    pub unsettled: bool,
}

impl EncoderView {
    /// The encoder can number one more frame.
    pub open spec fn can_count(self) -> bool {
        self.frame < usize::MAX && self.frame < i64::MAX
    }

    /// What [`VideoEncoder::encode`] returns for a frame of `len` bytes.
    pub open spec fn admission(self, len: nat) -> Result<i64, EncoderError> {
        if len != frame_bytes(self.width, self.height) {
            Err(EncoderError::FrameSizeMismatch)
        } else if !self.can_count() {
            Err(EncoderError::FrameCounterExhausted)
        } else {
            Ok(self.frame as i64)
        }
    }

    /// The encoder after it has been offered a frame of `len` bytes.
    pub open spec fn after_frame(self, len: nat) -> EncoderView {
        if self.admission(len).is_ok() {
            EncoderView { frame: self.frame + 1, unsettled: true, ..self }
        } else {
            self
        }
    }

    /// A presentation time can be given back: the frame taken last has not
    /// been reported on.
    pub open spec fn can_give_back(self) -> bool {
        self.unsettled && self.frame > 0
    }

    /// The encoder after the codec has refused the frame taken last: the
    /// frame does not count, and the next frame gets its presentation
    /// time. Only the frame taken last can be refused, and only once.
    pub open spec fn after_refusal(self) -> EncoderView {
        if self.can_give_back() {
            EncoderView { frame: (self.frame - 1) as nat, unsettled: false, ..self }
        } else {
            self
        }
    }
}

/// The state of one encoder instance.
#[derive(Debug)]
pub struct VideoEncoder {
    width: u32,
    height: u32,
    fps: u32,
    frame: usize,
    unsettled: bool,
}

impl View for VideoEncoder {
    type V = EncoderView;

    closed spec fn view(&self) -> EncoderView {
        EncoderView {
            width: self.width,
            height: self.height,
            fps: self.fps,
            frame: self.frame as nat,
            unsettled: self.unsettled,
        }
    }
}

impl VideoEncoder {
    #[verifier::type_invariant]
    spec fn inv(self) -> bool {
        buildable(self@.width, self@.height, self@.fps) && self@.frame <= i64::MAX
    }

    /// The state of an encoder for frames of `width` by `height` pixels at
    /// `fps` frames per second, before its first frame.
    pub fn new(width: u32, height: u32, fps: u32) -> (r: Result<Self, EncoderError>)
        ensures
            match r {
                Ok(encoder) => buildable(width, height, fps) && encoder@ == (EncoderView {
                    width,
                    height,
                    fps,
                    frame: 0,
                    unsettled: false,
                }),
                Err(e) => !buildable(width, height, fps) && e == EncoderError::UnsupportedFormat,
            },
    {
        if fps > i32::MAX as u32 {
            return Err(EncoderError::UnsupportedFormat);
        }
        match frame_len(width, height) {
            Some(_) => Ok(VideoEncoder { width, height, fps, frame: 0, unsettled: false }),
            None => Err(EncoderError::UnsupportedFormat),
        }
    }

    /// Takes one raw frame for encoding and returns its presentation time,
    /// which is the number of frames taken before it and not refused by the
    /// codec. A frame of the wrong size is turned away, and so is any frame
    /// once the counter cannot go on; the state is then left as it was.
    pub fn encode(&mut self, bgrx_data: &[u8]) -> (r: Result<i64, EncoderError>)
        ensures
            r == old(self)@.admission(bgrx_data@.len()),
            final(self)@ == old(self)@.after_frame(bgrx_data@.len()),
    {
        proof {
            use_type_invariant(&*self);
        }
        let expected = frame_len(self.width, self.height);
        if Some(bgrx_data.len()) != expected {
            return Err(EncoderError::FrameSizeMismatch);
        }
        if self.frame >= usize::MAX || self.frame as u64 >= i64::MAX as u64 {
            return Err(EncoderError::FrameCounterExhausted);
        }
        let pts = self.frame as i64;
        self.frame = self.frame + 1;
        self.unsettled = true;
        Ok(pts)
    }

    /// Reports that the codec has refused the frame taken last, before it
    /// compressed anything of it. The frame does not count: the next frame
    /// gets its presentation time. Returns whether a presentation time was
    /// given back, which it is once for the frame taken last and never
    /// otherwise.
    pub fn refused(&mut self) -> (given_back: bool)
        ensures
            given_back == old(self)@.can_give_back(),
            final(self)@ == old(self)@.after_refusal(),
    {
        proof {
            use_type_invariant(&*self);
        }
        if self.unsettled && self.frame > 0 {
            self.frame = self.frame - 1;
            self.unsettled = false;
            true
        } else {
            false
        }
    }

    /// The number of frames taken so far.
    pub fn get_frame(&self) -> (n: usize)
        ensures
            n == self@.frame,
    {
        self.frame
    }

    /// The width of the frames that the encoder is bound to, in pixels.
    pub fn width(&self) -> (w: u32)
        ensures
            w == self@.width,
    {
        self.width
    }

    /// The height of the frames that the encoder is bound to, in pixels.
    pub fn height(&self) -> (h: u32)
        ensures
            h == self@.height,
    {
        self.height
    }

    /// The frame rate that the encoder is bound to, in frames per second.
    pub fn fps(&self) -> (fps: u32)
        ensures
            fps == self@.fps,
    {
        self.fps
    }

    /// The time base that the codec is opened with, as numerator and
    /// denominator: one tick for each frame.
    pub fn time_base(&self) -> (r: (i32, i32))
        ensures
            r.0 == 1,
            r.1 == self@.fps,
    {
        proof {
            use_type_invariant(self);
        }
        (1, self.fps as i32)
    }

    /// The number of bytes of each frame that the encoder takes.
    pub fn frame_len(&self) -> (n: usize)
        ensures
            n == frame_bytes(self@.width, self@.height),
    {
        proof {
            use_type_invariant(self);
        }
        match frame_len(self.width, self.height) {
            Some(n) => n,
            None => 0,
        }
    }
}

/// The frame rate that the codec is told, as numerator and denominator.
pub fn codec_frame_rate() -> (r: (i32, i32))
    ensures
        r.0 == TARGET_FRAME_RATE,
        r.1 == 1,
{
    (TARGET_FRAME_RATE as i32, 1)
}

/// The options that the codec is opened with, as names and values, in the
/// order in which they are set: a fast preset tuned for no latency, a
/// constant bit rate, a key frame every thirty frames, start codes in the
/// bitstream, and no frames that refer to later ones.
pub fn codec_options() -> (options: Vec<(&'static str, &'static str)>)
    ensures
        options@.len() == 7,
        options@[0].0@ == "preset"@ && options@[0].1@ == "veryfast"@,
        options@[1].0@ == "tune"@ && options@[1].1@ == "zerolatency"@,
        options@[2].0@ == "bitrate"@ && options@[2].1@ == "1000"@,
        options@[3].0@ == "keyint"@ && options@[3].1@ == "30"@,
        options@[4].0@ == "x264-params"@ && options@[4].1@
            == "nal-hrd=cbr:vbv-maxrate=1000:vbv-bufsize=1000"@,
        options@[5].0@ == "annexb"@ && options@[5].1@ == "1"@,
        options@[6].0@ == "bframes"@ && options@[6].1@ == "0"@,
{
    let mut options: Vec<(&'static str, &'static str)> = Vec::new();
    options.push(("preset", "veryfast"));
    options.push(("tune", "zerolatency"));
    options.push(("bitrate", "1000"));
    options.push(("keyint", "30"));
    options.push(("x264-params", "nal-hrd=cbr:vbv-maxrate=1000:vbv-bufsize=1000"));
    options.push(("annexb", "1"));
    options.push(("bframes", "0"));
    options
}

/// The number of bytes of one frame of the given size, where it can be
/// held.
pub fn frame_len(width: u32, height: u32) -> (r: Option<usize>)
    ensures
        match r {
            Some(n) => n == frame_bytes(width, height),
            None => frame_bytes(width, height) > usize::MAX,
        },
{
    assert(width * height <= 0xffff_fffe_0000_0001) by (nonlinear_arith)
        requires
            width <= 0xffff_ffff,
            height <= 0xffff_ffff,
    ;
    let pixels: u64 = (width as u64) * (height as u64);
    let per_pixel: u128 = BYTES_PER_PIXEL as u128;
    assert(pixels * per_pixel <= u128::MAX) by (nonlinear_arith)
        requires
            pixels <= u64::MAX,
            per_pixel == 4,
    ;
    let bytes: u128 = (pixels as u128) * per_pixel;
    if bytes <= usize::MAX as u128 {
        Some(bytes as usize)
    } else {
        None
    }
}

} // verus!
