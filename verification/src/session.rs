//! The capture session: a strict state machine that follows the backend's
//! format negotiation, gates raw frames by the confirmed format, and
//! numbers the units that the encoder produces.
//!
//! The session decides; its caller acts. The caller reports what the
//! backend and the encoder did, performs what the session asks for, and
//! passes on what the session emits.

use crate::encoder::{buildable, EncoderError, EncoderView, VideoEncoder};
use crate::format::{PixelLayout, VideoFormat, TARGET_FRAME_RATE};
use crate::message::{bytes_view, views, Message, StreamMessage};
use vstd::prelude::*;

verus! {

/// Why a session has ended.
#[derive(Clone, Copy, Debug, PartialEq, Eq, Structural)]
pub enum SessionError {
    /// The backend confirmed no format that can be used.
    NegotiationFailure,
    /// The encoder could not be built for the confirmed format.
    EncoderBuildFailure,
    /// The backend reported an error or went away.
    BackendFailure,
    /// Every sequence number has been given out.
    SequenceExhausted,
}

/// Where a session stands.
#[derive(Clone, Copy, Debug, PartialEq, Eq, Structural)]
pub enum Phase {
    Unconnected,
    Negotiating,
    Streaming,
    Terminated,
}

/// Which parameter of the stream the backend reports as changed.
#[derive(Clone, Copy, Debug, PartialEq, Eq, Structural)]
pub enum ParamKind {
    Format,
    Other,
}

/// The kind of media that a format parameter describes.
#[derive(Clone, Copy, Debug, PartialEq, Eq, Structural)]
pub enum MediaType {
    Video,
    Other,
}

/// The encoding of the media that a format parameter describes.
#[derive(Clone, Copy, Debug, PartialEq, Eq, Structural)]
pub enum MediaSubtype {
    Raw,
    Other,
}

/// The media type and subtype that a format parameter names.
#[derive(Clone, Copy, Debug, PartialEq, Eq, Structural)]
pub struct MediaKind {
    pub media_type: MediaType,
    pub subtype: MediaSubtype,
}

/// What was read from a changed parameter.
#[derive(Clone, Copy, Debug, PartialEq, Eq, Structural)]
pub struct ParamInfo {
    pub kind: ParamKind,
    /// The media type and subtype, where they could be read.
    pub media: Option<MediaKind>,
    /// The video format, where it could be read.
    pub format: Option<VideoFormat>,
}

/// What the caller is asked to build an encoder for.
#[derive(Clone, Copy, Debug, PartialEq, Eq, Structural)]
pub struct BuildRequest {
    pub width: u32,
    pub height: u32,
    pub fps: u32,
}

/// What a raw frame says of itself, without its bytes.
pub struct FrameView {
    pub width: u32,
    pub height: u32,
    pub pixel_layout: PixelLayout,
    pub len: nat,
}

/// One raw frame, borrowed from the backend for the time of one callback.
#[derive(Clone, Copy, Debug)]
pub struct RawFrame<'a> {
    pub width: u32,
    pub height: u32,
    pub pixel_layout: PixelLayout,
    pub bytes: &'a [u8],
}

impl<'a> View for RawFrame<'a> {
    type V = FrameView;

    open spec fn view(&self) -> FrameView {
        FrameView {
            width: self.width,
            height: self.height,
            pixel_layout: self.pixel_layout,
            len: self.bytes@.len(),
        }
    }
}

/// Why a raw frame is not encoded.
#[derive(Clone, Copy, Debug, PartialEq, Eq, Structural)]
pub enum SkipReason {
    /// No encoder is live: none was built yet, one is being rebuilt, or
    /// the session has ended.
    NotStreaming,
    /// The frame's layout or size is not that of the confirmed format.
    UnexpectedLayout,
    /// The encoder refuses the frame.
    Refused(EncoderError),
}

/// What to do with a raw frame.
#[derive(Clone, Copy, Debug, PartialEq, Eq, Structural)]
pub enum FrameAction {
    /// Hand the frame to the encoder with this presentation time.
    Encode { pts: i64 },
    /// Drop the frame.
    Skip(SkipReason),
}

/// What a session's state holds.
pub enum StateView {
    Unconnected,
    /// Waiting for a confirmed format, or, with `pending`, for the encoder
    /// that is being built for one.
    Negotiating { pending: Option<(VideoFormat, EncoderView)> },
    /// Frames of `format` are encoded by `encoder`.
    Streaming { format: VideoFormat, encoder: EncoderView },
    Terminated { error: SessionError },
}

/// What a [`CaptureSession`] holds: its state, and the sequence number of
/// the next unit.
pub struct SessionView {
    pub state: StateView,
    pub next_sequence: u64,
}

/// The encoder state that is built for `format`.
pub open spec fn fresh_encoder(format: VideoFormat) -> EncoderView {
    EncoderView {
        width: format.width,
        height: format.height,
        fps: TARGET_FRAME_RATE,
        frame: 0,
        unsettled: false,
    }
}

/// The changed parameter is one that confirms a raw video format.
pub open spec fn confirms_format(param: Option<ParamInfo>) -> bool {
    match param {
        Some(p) => p.kind == ParamKind::Format && p.media == Some(
            MediaKind { media_type: MediaType::Video, subtype: MediaSubtype::Raw },
        ),
        None => false,
    }
}

/// The frame has the layout and the size of `format`.
pub open spec fn frame_matches(format: VideoFormat, frame: FrameView) -> bool {
    &&& frame.pixel_layout == format.pixel_layout
    &&& frame.width == format.width
    &&& frame.height == format.height
}

/// What [`CaptureSession::unit_encoded`] has returned, with the unit taken
/// as what it is.
pub open spec fn unit_view(r: Result<Option<StreamMessage>, SessionError>) -> Result<
    Option<Message>,
    SessionError,
> {
    match r {
        Ok(Some(m)) => Ok(Some(m@)),
        Ok(None) => Ok(None),
        Err(e) => Err(e),
    }
}

/// The control events that announce a newly built encoder.
pub open spec fn announcement(header: Option<Seq<u8>>) -> Seq<Message> {
    match header {
        Some(bytes) => seq![Message::Ready, Message::StreamHeader(bytes)],
        None => seq![Message::Ready],
    }
}

impl SessionView {
    /// The session before anything has happened.
    pub open spec fn initial() -> SessionView {
        SessionView { state: StateView::Unconnected, next_sequence: 0 }
    }

    /// An encoder, pending or live, is bound to the size of the format
    /// that it stands beside, and that format is one that can be used.
    pub open spec fn wf(self) -> bool {
        match self.state {
            StateView::Negotiating { pending: Some((format, encoder)) } => format.acceptable()
                && encoder == fresh_encoder(format),
            StateView::Streaming { format, encoder } => {
                &&& format.acceptable()
                &&& encoder.width == format.width
                &&& encoder.height == format.height
                &&& encoder.fps == TARGET_FRAME_RATE
            },
            _ => true,
        }
    }

    /// Where the session stands.
    pub open spec fn phase(self) -> Phase {
        match self.state {
            StateView::Unconnected => Phase::Unconnected,
            StateView::Negotiating { .. } => Phase::Negotiating,
            StateView::Streaming { .. } => Phase::Streaming,
            StateView::Terminated { .. } => Phase::Terminated,
        }
    }

    /// The session with this state and the same next sequence number.
    pub open spec fn with(self, state: StateView) -> SessionView {
        SessionView { state, next_sequence: self.next_sequence }
    }

    /// The session after the backend connection has been obtained.
    pub open spec fn connect(self) -> SessionView {
        match self.state {
            StateView::Unconnected => self.with(StateView::Negotiating { pending: None }),
            _ => self,
        }
    }

    /// The session already has `format`: it streams in it, or the encoder
    /// for it is being built.
    pub open spec fn holds(self, format: VideoFormat) -> bool {
        match self.state {
            StateView::Streaming { format: current, .. } => current == format,
            StateView::Negotiating { pending: Some((waiting, _)) } => waiting == format,
            _ => false,
        }
    }

    /// What [`CaptureSession::param_changed`] returns.
    pub open spec fn param_outcome(self, param: Option<ParamInfo>) -> Result<
        Option<BuildRequest>,
        SessionError,
    > {
        if !confirms_format(param) || !(self.phase() == Phase::Negotiating || self.phase()
            == Phase::Streaming) {
            Ok(None)
        } else {
            match param.unwrap().format {
                None => Err(SessionError::NegotiationFailure),
                Some(format) => if !format.acceptable() {
                    Err(SessionError::NegotiationFailure)
                } else if self.holds(format) {
                    Ok(None)
                } else {
                    Ok(
                        Some(
                            BuildRequest {
                                width: format.width,
                                height: format.height,
                                fps: TARGET_FRAME_RATE,
                            },
                        ),
                    )
                },
            }
        }
    }

    /// The session after the backend has reported a changed parameter.
    pub open spec fn param_changed(self, param: Option<ParamInfo>) -> SessionView {
        match self.param_outcome(param) {
            Ok(None) => self,
            Ok(Some(_)) => {
                let format = param.unwrap().format.unwrap();
                self.with(StateView::Negotiating { pending: Some((format, fresh_encoder(format))) })
            },
            Err(error) => self.with(StateView::Terminated { error }),
        }
    }

    /// What the session emits when the encoder that it asked for is built.
    pub open spec fn built_messages(self, header: Option<Seq<u8>>) -> Seq<Message> {
        match self.state {
            StateView::Negotiating { pending: Some(_) } => announcement(header),
            _ => Seq::empty(),
        }
    }

    /// The session after the encoder that it asked for has been built:
    /// it streams, and the units of the new encoder are numbered from 0.
    pub open spec fn encoder_built(self) -> SessionView {
        match self.state {
            StateView::Negotiating { pending: Some((format, encoder)) } => SessionView {
                state: StateView::Streaming { format, encoder },
                next_sequence: 0,
            },
            _ => self,
        }
    }

    /// The session after the encoder that it asked for could not be built.
    pub open spec fn encoder_failed(self) -> SessionView {
        match self.state {
            StateView::Negotiating { pending: Some(_) } => self.with(
                StateView::Terminated { error: SessionError::EncoderBuildFailure },
            ),
            _ => self,
        }
    }

    /// What is to be done with a raw frame.
    pub open spec fn frame_action(self, frame: FrameView) -> FrameAction {
        match self.state {
            StateView::Streaming { format, encoder } => if !frame_matches(format, frame) {
                FrameAction::Skip(SkipReason::UnexpectedLayout)
            } else {
                match encoder.admission(frame.len) {
                    Ok(pts) => FrameAction::Encode { pts },
                    Err(e) => FrameAction::Skip(SkipReason::Refused(e)),
                }
            },
            _ => FrameAction::Skip(SkipReason::NotStreaming),
        }
    }

    /// The session after a raw frame has arrived.
    pub open spec fn process_frame(self, frame: FrameView) -> SessionView {
        match self.state {
            StateView::Streaming { format, encoder } => if self.frame_action(frame) is Encode {
                self.with(StateView::Streaming { format, encoder: encoder.after_frame(frame.len) })
            } else {
                self
            },
            _ => self,
        }
    }

    /// The session after the codec has refused the frame that was let
    /// through last.
    pub open spec fn frame_refused(self) -> SessionView {
        match self.state {
            StateView::Streaming { format, encoder } => self.with(
                StateView::Streaming { format, encoder: encoder.after_refusal() },
            ),
            _ => self,
        }
    }

    /// What [`CaptureSession::unit_encoded`] returns.
    pub open spec fn unit_outcome(self, payload: Seq<u8>) -> Result<Option<Message>, SessionError> {
        match self.state {
            StateView::Streaming { .. } => if self.next_sequence < u64::MAX {
                Ok(Some(Message::Frame { count: self.next_sequence, data: payload }))
            } else {
                Err(SessionError::SequenceExhausted)
            },
            _ => Ok(None),
        }
    }

    /// The session after the encoder has produced a unit.
    pub open spec fn unit_encoded(self) -> SessionView {
        match self.state {
            StateView::Streaming { .. } => if self.next_sequence < u64::MAX {
                SessionView { state: self.state, next_sequence: (self.next_sequence + 1) as u64 }
            } else {
                self.with(StateView::Terminated { error: SessionError::SequenceExhausted })
            },
            _ => self,
        }
    }

    /// The session after the backend has failed.
    pub open spec fn backend_failed(self) -> SessionView {
        match self.state {
            StateView::Terminated { .. } => self,
            _ => self.with(StateView::Terminated { error: SessionError::BackendFailure }),
        }
    }
}

enum State {
    Unconnected,
    Negotiating(Option<(VideoFormat, VideoEncoder)>),
    Streaming(VideoFormat, VideoEncoder),
    Terminated(SessionError),
}

impl View for State {
    type V = StateView;

    closed spec fn view(&self) -> StateView {
        match self {
            State::Unconnected => StateView::Unconnected,
            State::Negotiating(None) => StateView::Negotiating { pending: None },
            State::Negotiating(Some((format, encoder))) => StateView::Negotiating {
                pending: Some((*format, encoder@)),
            },
            State::Streaming(format, encoder) => StateView::Streaming {
                format: *format,
                encoder: encoder@,
            },
            State::Terminated(error) => StateView::Terminated { error: *error },
        }
    }
}

/// The capture session.
pub struct CaptureSession {
    state: State,
    next_sequence: u64,
}

impl View for CaptureSession {
    type V = SessionView;

    closed spec fn view(&self) -> SessionView {
        SessionView { state: self.state@, next_sequence: self.next_sequence }
    }
}

impl CaptureSession {
    #[verifier::type_invariant]
    spec fn inv(self) -> bool {
        self@.wf()
    }

    /// A session that has no backend connection yet.
    pub fn new() -> (session: Self)
        ensures
            session@ == SessionView::initial(),
    {
        CaptureSession { state: State::Unconnected, next_sequence: 0 }
    }

    /// Where the session stands.
    pub fn phase(&self) -> (p: Phase)
        ensures
            p == self@.phase(),
    {
        match &self.state {
            State::Unconnected => Phase::Unconnected,
            State::Negotiating(_) => Phase::Negotiating,
            State::Streaming(_, _) => Phase::Streaming,
            State::Terminated(_) => Phase::Terminated,
        }
    }

    /// Why the session has ended, if it has.
    pub fn error(&self) -> (e: Option<SessionError>)
        ensures
            e == match self@.state {
                StateView::Terminated { error } => Some(error),
                _ => None,
            },
    {
        match &self.state {
            State::Terminated(error) => Some(*error),
            _ => None,
        }
    }

    /// The confirmed format that frames are encoded in, while streaming.
    pub fn format(&self) -> (f: Option<VideoFormat>)
        ensures
            f == match self@.state {
                StateView::Streaming { format, .. } => Some(format),
                _ => None,
            },
    {
        match &self.state {
            State::Streaming(format, _) => Some(*format),
            _ => None,
        }
    }

    /// The sequence number that the next unit gets.
    pub fn next_sequence(&self) -> (n: u64)
        ensures
            n == self@.next_sequence,
    {
        self.next_sequence
    }

    /// Reports that the backend connection has been obtained: a session
    /// that was unconnected now waits for a confirmed format.
    pub fn connect(&mut self)
        ensures
            final(self)@ == old(self)@.connect(),
    {
        let unconnected = match &self.state {
            State::Unconnected => true,
            _ => false,
        };
        if unconnected {
            self.state = State::Negotiating(None);
        }
    }

    /// Reports a changed parameter of the stream.
    ///
    /// Only a parameter that confirms a raw video format counts, and only
    /// while the session negotiates or streams. A format that cannot be
    /// read or cannot be used ends the session. The format that is already
    /// in effect changes nothing, nor does the format whose encoder is
    /// being built. Any other format discards the encoder, if there is
    /// one, and asks the caller to build one for the new format; until
    /// that is reported done, frames are dropped.
    pub fn param_changed(&mut self, param: Option<ParamInfo>) -> (r: Result<
        Option<BuildRequest>,
        SessionError,
    >)
        ensures
            r == old(self)@.param_outcome(param),
            final(self)@ == old(self)@.param_changed(param),
    {
        proof {
            use_type_invariant(&*self);
        }
        let info = match param {
            Some(info) => info,
            None => {
                return Ok(None);
            },
        };
        if info.kind != ParamKind::Format {
            return Ok(None);
        }
        match info.media {
            Some(MediaKind { media_type: MediaType::Video, subtype: MediaSubtype::Raw }) => {},
            _ => {
                return Ok(None);
            },
        }
        match &self.state {
            State::Negotiating(_) => {},
            State::Streaming(_, _) => {},
            _ => {
                return Ok(None);
            },
        }
        let format = match info.format {
            Some(format) => format,
            None => {
                self.state = State::Terminated(SessionError::NegotiationFailure);
                return Err(SessionError::NegotiationFailure);
            },
        };
        if format.validate().is_err() {
            self.state = State::Terminated(SessionError::NegotiationFailure);
            return Err(SessionError::NegotiationFailure);
        }
        match &self.state {
            State::Streaming(current, _) => {
                if *current == format {
                    return Ok(None);
                }
            },
            State::Negotiating(Some((waiting, _))) => {
                if *waiting == format {
                    return Ok(None);
                }
            },
            _ => {},
        }
        proof {
            lemma_acceptable_is_buildable(format);
        }
        let encoder = match VideoEncoder::new(format.width, format.height, TARGET_FRAME_RATE) {
            Ok(encoder) => encoder,
            // A format that can be used is one that an encoder can be bound to.
            Err(_) => unreached(),
        };
        self.state = State::Negotiating(Some((format, encoder)));
        let request = BuildRequest {
            width: format.width,
            height: format.height,
            fps: TARGET_FRAME_RATE,
        };
        Ok(Some(request))
    }

    /// Reports that the encoder that the session asked for has been built,
    /// with the bitstream header that it provides, if any. The session
    /// starts streaming and emits `Ready` and then the header, which go out
    /// ahead of the first unit, and the first unit of the new encoder gets
    /// the sequence number 0. Where no encoder was asked for, nothing
    /// changes and nothing is emitted.
    pub fn encoder_built(&mut self, header: Option<Vec<u8>>) -> (messages: Vec<StreamMessage>)
        ensures
            views(messages@) == old(self)@.built_messages(bytes_view(header)),
            final(self)@ == old(self)@.encoder_built(),
    {
        proof {
            use_type_invariant(&*self);
        }
        let mut messages: Vec<StreamMessage> = Vec::new();
        let mut state = State::Unconnected;
        std::mem::swap(&mut state, &mut self.state);
        match state {
            State::Negotiating(Some((format, encoder))) => {
                self.state = State::Streaming(format, encoder);
                self.next_sequence = 0;
                messages.push(StreamMessage::Ready);
                match header {
                    Some(bytes) => {
                        messages.push(StreamMessage::StreamHeader(bytes));
                    },
                    None => {},
                }
            },
            other => {
                self.state = other;
            },
        }
        messages
    }

    /// Reports that the encoder that the session asked for could not be
    /// built, which ends the session. Returns the error to pass on, or
    /// `None` where no encoder was asked for.
    pub fn encoder_failed(&mut self) -> (r: Option<SessionError>)
        ensures
            final(self)@ == old(self)@.encoder_failed(),
            r == if old(self)@.state matches StateView::Negotiating { pending: Some(_) } {
                Some(SessionError::EncoderBuildFailure)
            } else {
                None
            },
    {
        proof {
            use_type_invariant(&*self);
        }
        let pending = match &self.state {
            State::Negotiating(Some(_)) => true,
            _ => false,
        };
        if pending {
            self.state = State::Terminated(SessionError::EncoderBuildFailure);
            Some(SessionError::EncoderBuildFailure)
        } else {
            None
        }
    }

    /// Decides what to do with a raw frame. While streaming, a frame that
    /// has the confirmed format's layout and size, and that the encoder
    /// takes, is to be encoded with the presentation time returned. Every
    /// other frame is to be dropped, and the session goes on.
    pub fn process_frame(&mut self, frame: &RawFrame) -> (action: FrameAction)
        ensures
            action == old(self)@.frame_action(frame@),
            final(self)@ == old(self)@.process_frame(frame@),
    {
        proof {
            use_type_invariant(&*self);
        }
        let mut state = State::Unconnected;
        std::mem::swap(&mut state, &mut self.state);
        match state {
            State::Streaming(format, mut encoder) => {
                if frame.pixel_layout != format.pixel_layout || frame.width != format.width
                    || frame.height != format.height {
                    self.state = State::Streaming(format, encoder);
                    FrameAction::Skip(SkipReason::UnexpectedLayout)
                } else {
                    let admission = encoder.encode(frame.bytes);
                    self.state = State::Streaming(format, encoder);
                    match admission {
                        Ok(pts) => FrameAction::Encode { pts },
                        Err(e) => FrameAction::Skip(SkipReason::Refused(e)),
                    }
                }
            },
            other => {
                self.state = other;
                FrameAction::Skip(SkipReason::NotStreaming)
            },
        }
    }

    /// Reports that the codec has refused the frame that was let through
    /// last, before it compressed anything of it. The frame does not
    /// count: the next frame that is let through gets its presentation
    /// time. Returns whether a presentation time was given back, which it
    /// is once for the frame let through last, and never otherwise.
    pub fn frame_refused(&mut self) -> (given_back: bool)
        ensures
            given_back == (old(self)@.state matches StateView::Streaming { encoder, .. }
                && encoder.can_give_back()),
            final(self)@ == old(self)@.frame_refused(),
    {
        proof {
            use_type_invariant(&*self);
        }
        let mut state = State::Unconnected;
        std::mem::swap(&mut state, &mut self.state);
        match state {
            State::Streaming(format, mut encoder) => {
                let given_back = encoder.refused();
                self.state = State::Streaming(format, encoder);
                given_back
            },
            other => {
                self.state = other;
                false
            },
        }
    }

    /// Takes one unit from the encoder and gives it the next sequence
    /// number. The units of one encoder are numbered 0, 1, 2 and so on in
    /// the order in which they come; numbering starts again at 0 with
    /// every encoder that is built, so numbers rise only for as long as
    /// one encoder lives. A unit that arrives while the session is not
    /// streaming is discarded. Running out of sequence numbers ends the
    /// session.
    pub fn unit_encoded(&mut self, payload: Vec<u8>) -> (r: Result<
        Option<StreamMessage>,
        SessionError,
    >)
        ensures
            unit_view(r) == old(self)@.unit_outcome(payload@),
            final(self)@ == old(self)@.unit_encoded(),
    {
        proof {
            use_type_invariant(&*self);
        }
        let streaming = match &self.state {
            State::Streaming(_, _) => true,
            _ => false,
        };
        if !streaming {
            Ok(None)
        } else if self.next_sequence < u64::MAX {
            let count = self.next_sequence;
            self.next_sequence = count + 1;
            Ok(Some(StreamMessage::Frame { count, data: payload }))
        } else {
            self.state = State::Terminated(SessionError::SequenceExhausted);
            Err(SessionError::SequenceExhausted)
        }
    }

    /// Reports that the backend has failed or gone away, which ends the
    /// session. A session that has ended stays as it is.
    pub fn backend_failed(&mut self)
        ensures
            final(self)@ == old(self)@.backend_failed(),
    {
        proof {
            use_type_invariant(&*self);
        }
        let ended = match &self.state {
            State::Terminated(_) => true,
            _ => false,
        };
        if !ended {
            self.state = State::Terminated(SessionError::BackendFailure);
        }
    }
}

/// A format that can be used is one that an encoder can be bound to, at
/// the target frame rate.
pub proof fn lemma_acceptable_is_buildable(format: VideoFormat)
    requires
        format.acceptable(),
    ensures
        buildable(format.width, format.height, TARGET_FRAME_RATE),
{
    assert(format.width * format.height * 4 <= 4096 * 4096 * 4) by (nonlinear_arith)
        requires
            0 < format.width <= 4096,
            0 < format.height <= 4096,
    ;
}

} // verus!
