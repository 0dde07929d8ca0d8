//! What a capture session emits over time, and the laws that hold of it.

use crate::format::TARGET_FRAME_RATE;
use crate::message::Message;
use crate::order::{
    above, lemma_numbers_concat, lemma_numbers_unitless, lemma_ordered_after_unitless, numbers,
    ordered, unitless,
};
use crate::session::{
    confirms_format, frame_matches, fresh_encoder, BuildRequest, FrameAction,
    FrameView, ParamInfo, Phase, SessionError, SessionView, SkipReason, StateView,
};
use vstd::prelude::*;

verus! {

/// One thing that is reported to a session.
pub enum SessionEvent {
    /// The backend connection has been obtained.
    Connect,
    /// A parameter of the stream has changed.
    ParamChanged(Option<ParamInfo>),
    /// The encoder that was asked for has been built, with this header.
    EncoderBuilt(Option<Seq<u8>>),
    /// The encoder that was asked for could not be built.
    EncoderFailed,
    /// A raw frame has arrived.
    Frame(FrameView),
    /// The codec has refused the frame that was let through last.
    FrameRefused,
    /// The encoder has produced a unit with this payload.
    UnitEncoded(Seq<u8>),
    /// The backend has failed.
    BackendFailed,
}

/// The session after `e` has been reported.
pub open spec fn step(s: SessionView, e: SessionEvent) -> SessionView {
    match e {
        SessionEvent::Connect => s.connect(),
        SessionEvent::ParamChanged(param) => s.param_changed(param),
        SessionEvent::EncoderBuilt(_) => s.encoder_built(),
        SessionEvent::EncoderFailed => s.encoder_failed(),
        SessionEvent::Frame(frame) => s.process_frame(frame),
        SessionEvent::FrameRefused => s.frame_refused(),
        SessionEvent::UnitEncoded(_) => s.unit_encoded(),
        SessionEvent::BackendFailed => s.backend_failed(),
    }
}

/// What the session emits when `e` is reported.
pub open spec fn emitted(s: SessionView, e: SessionEvent) -> Seq<Message> {
    match e {
        SessionEvent::EncoderBuilt(header) => s.built_messages(header),
        SessionEvent::UnitEncoded(payload) => match s.unit_outcome(payload) {
            Ok(Some(m)) => seq![m],
            _ => Seq::empty(),
        },
        _ => Seq::empty(),
    }
}

/// The encoder that the session asks for when `e` is reported, if any.
pub open spec fn requested(s: SessionView, e: SessionEvent) -> Option<BuildRequest> {
    match e {
        SessionEvent::ParamChanged(param) => match s.param_outcome(param) {
            Ok(request) => request,
            Err(_) => None,
        },
        _ => None,
    }
}

/// The session after each of `events` has been reported in turn.
pub open spec fn run(s: SessionView, events: Seq<SessionEvent>) -> SessionView
    decreases events.len(),
{
    if events.len() == 0 {
        s
    } else {
        run(step(s, events[0]), events.drop_first())
    }
}

/// Everything that the session emits while `events` are reported, in the
/// order in which it is emitted.
pub open spec fn emitted_all(s: SessionView, events: Seq<SessionEvent>) -> Seq<Message>
    decreases events.len(),
{
    if events.len() == 0 {
        Seq::empty()
    } else {
        emitted(s, events[0]) + emitted_all(step(s, events[0]), events.drop_first())
    }
}

/// Whatever is reported, an encoder stays bound to the format that it
/// stands beside.
pub proof fn lemma_step_wf(s: SessionView, e: SessionEvent)
    requires
        s.wf(),
    ensures
        step(s, e).wf(),
{
}

/// The terminal state has no way out: a session that has ended stays as it
/// is, emits nothing and asks for nothing, whatever is reported.
pub proof fn lemma_terminated_is_final(s: SessionView, e: SessionEvent)
    requires
        s.phase() == Phase::Terminated,
    ensures
        step(s, e) == s,
        emitted(s, e) == Seq::<Message>::empty(),
        requested(s, e).is_none(),
        forall|frame: FrameView|
            s.frame_action(frame) == FrameAction::Skip(SkipReason::NotStreaming),
{
}

/// A session that has ended emits nothing more.
pub proof fn lemma_nothing_after_the_end(s: SessionView, events: Seq<SessionEvent>)
    requires
        s.phase() == Phase::Terminated,
    ensures
        run(s, events) == s,
        emitted_all(s, events) == Seq::<Message>::empty(),
    decreases events.len(),
{
    if events.len() > 0 {
        lemma_terminated_is_final(s, events[0]);
        lemma_nothing_after_the_end(s, events.drop_first());
    }
}

/// An encoder goes live when `e` is reported: with it, numbering starts
/// again at 0.
pub open spec fn goes_live(s: SessionView, e: SessionEvent) -> bool {
    e is EncoderBuilt && s.state matches StateView::Negotiating { pending: Some(_) }
}

/// The number of encoders that go live while `events` are reported. Where
/// it is 0, the events all fall into the lifetime of one encoder.
pub open spec fn builds(s: SessionView, events: Seq<SessionEvent>) -> nat
    decreases events.len(),
{
    if events.len() == 0 {
        0
    } else if goes_live(s, events[0]) {
        1 + builds(step(s, events[0]), events.drop_first())
    } else {
        builds(step(s, events[0]), events.drop_first())
    }
}

/// The numbers from `from` up to, but not including, `to`.
pub open spec fn counting(from: int, to: int) -> Seq<int> {
    Seq::new((to - from) as nat, |i: int| from + i)
}

/// Sequence numbers within the lifetime of one encoder. While no encoder
/// goes live, the units that a session emits are numbered from its next
/// sequence number on, each number one more than the one before, so that
/// their numbers are in increasing order.
pub proof fn lemma_units_numbered_in_sequence(s: SessionView, events: Seq<SessionEvent>)
    requires
        builds(s, events) == 0,
    ensures
        s.next_sequence <= run(s, events).next_sequence,
        numbers(emitted_all(s, events)) == counting(
            s.next_sequence as int,
            run(s, events).next_sequence as int,
        ),
        ordered(emitted_all(s, events)),
        above(emitted_all(s, events), s.next_sequence - 1),
    decreases events.len(),
{
    if events.len() == 0 {
        assert(numbers(emitted_all(s, events)) =~= counting(
            s.next_sequence as int,
            s.next_sequence as int,
        ));
    } else {
        let e = events[0];
        let rest = events.drop_first();
        let next = step(s, e);
        let first = emitted(s, e);
        let later = emitted_all(next, rest);
        let all = emitted_all(s, events);
        let end = run(s, events).next_sequence as int;
        lemma_units_numbered_in_sequence(next, rest);
        lemma_numbers_concat(first, later);
        assert(first.len() <= 2);
        if first.len() > 0 && first[0] is Frame {
            assert(first.len() == 1);
            assert(first[0]->count == s.next_sequence);
            assert(next.next_sequence == s.next_sequence + 1);
            assert(numbers(first) =~= seq![s.next_sequence as int]) by {
                assert(first.drop_last() =~= Seq::<Message>::empty());
                assert(numbers(first.drop_last()) =~= Seq::<int>::empty());
            }
            assert(seq![s.next_sequence as int] + counting(s.next_sequence + 1, end)
                =~= counting(s.next_sequence as int, end));
        } else {
            assert(unitless(first));
            lemma_numbers_unitless(first);
            assert(next.next_sequence == s.next_sequence);
            assert(Seq::<int>::empty() + numbers(later) =~= numbers(later));
        }
        assert forall|i: int, j: int|
            0 <= i < j < all.len() && (#[trigger] all[i]) is Frame && (#[trigger] all[j]) is Frame
                implies all[i]->count < all[j]->count by {
            if i < first.len() {
                assert(all[i] == first[i]);
                assert(all[j] == later[j - first.len()]);
            } else {
                assert(all[i] == later[i - first.len()]);
                assert(all[j] == later[j - first.len()]);
            }
        }
        assert forall|i: int| 0 <= i < all.len() && (#[trigger] all[i]) is Frame
            implies s.next_sequence <= all[i]->count by {
            if i < first.len() {
                assert(all[i] == first[i]);
            } else {
                assert(all[i] == later[i - first.len()]);
            }
        }
    }
}

/// The first unit after an encoder build has the number 0. From the
/// moment an encoder goes live until the next one does, the units that
/// the session emits carry the numbers 0, 1, 2 and so on, with none left
/// out, whatever number the encoder before had reached.
pub proof fn lemma_numbers_start_at_zero(
    s: SessionView,
    header: Option<Seq<u8>>,
    events: Seq<SessionEvent>,
)
    requires
        goes_live(s, SessionEvent::EncoderBuilt(header)),
        builds(s.encoder_built(), events) == 0,
    ensures
        s.encoder_built().next_sequence == 0,
        numbers(emitted_all(s.encoder_built(), events)) == counting(
            0,
            run(s.encoder_built(), events).next_sequence as int,
        ),
        ordered(emitted_all(s.encoder_built(), events)),
{
    lemma_units_numbered_in_sequence(s.encoder_built(), events);
}

/// The first lifetime. A session that is not streaming emits no unit
/// until an encoder goes live; where at most one does, the units that it
/// emits carry the numbers 0, 1, 2 and so on. This holds of a new
/// session, and of a session that waits for an encoder after a format
/// change.
pub proof fn lemma_first_lifetime(s: SessionView, events: Seq<SessionEvent>)
    requires
        s.phase() != Phase::Streaming,
        builds(s, events) <= 1,
    ensures
        ordered(emitted_all(s, events)),
        numbers(emitted_all(s, events)) == if builds(s, events) == 1 {
            counting(0, run(s, events).next_sequence as int)
        } else {
            Seq::<int>::empty()
        },
    decreases events.len(),
{
    if events.len() > 0 {
        let e = events[0];
        let rest = events.drop_first();
        let next = step(s, e);
        let first = emitted(s, e);
        let later = emitted_all(next, rest);
        lemma_numbers_concat(first, later);
        assert(unitless(first));
        lemma_numbers_unitless(first);
        assert(Seq::<int>::empty() + numbers(later) =~= numbers(later));
        if goes_live(s, e) {
            lemma_units_numbered_in_sequence(next, rest);
        } else {
            lemma_first_lifetime(next, rest);
        }
        lemma_ordered_after_unitless(first, later);
    }
}

/// Header before data. Whatever a session that is not streaming emits
/// first is a `Ready`: no unit goes out before the encoder has been
/// announced.
pub proof fn lemma_ready_comes_first(s: SessionView, events: Seq<SessionEvent>)
    requires
        s.phase() != Phase::Streaming,
    ensures
        emitted_all(s, events).len() > 0 ==> emitted_all(s, events)[0] == Message::Ready,
    decreases events.len(),
{
    if events.len() > 0 {
        let e = events[0];
        let next = step(s, e);
        if emitted(s, e).len() == 0 {
            assert(emitted_all(s, events) =~= emitted_all(next, events.drop_first()));
            if next.phase() != Phase::Streaming {
                lemma_ready_comes_first(next, events.drop_first());
            }
        }
    }
}

/// Format rebuild. While a session streams, the confirmation of another
/// usable format asks for exactly one encoder, for the new format. From
/// then until that encoder is reported built, confirming that format again
/// asks for nothing, every frame is dropped and every unit that still
/// arrives is discarded. Once it is built, the session streams in the new
/// format and numbers its units from 0, confirming that format again asks
/// for nothing, and a frame that does not have the new format's layout and
/// size is dropped.
pub proof fn lemma_format_change_rebuilds_once(s: SessionView, param: ParamInfo)
    requires
        s.wf(),
        s.phase() == Phase::Streaming,
        confirms_format(Some(param)),
        param.format.is_some(),
        param.format.unwrap().acceptable(),
        param.format.unwrap() != s.state->Streaming_format,
    ensures
        ({
            let format = param.format.unwrap();
            let rebuilding = s.param_changed(Some(param));
            let rebuilt = rebuilding.encoder_built();
            &&& s.param_outcome(Some(param)) == Ok::<Option<BuildRequest>, SessionError>(
                Some(
                    BuildRequest {
                        width: format.width,
                        height: format.height,
                        fps: TARGET_FRAME_RATE,
                    },
                ),
            )
            &&& rebuilding.phase() == Phase::Negotiating
            &&& rebuilding.param_outcome(Some(param)) == Ok::<
                Option<BuildRequest>,
                SessionError,
            >(None)
            &&& forall|frame: FrameView|
                {
                    &&& #[trigger] rebuilding.frame_action(frame) == FrameAction::Skip(
                        SkipReason::NotStreaming,
                    )
                    &&& rebuilding.process_frame(frame) == rebuilding
                }
            &&& forall|payload: Seq<u8>|
                {
                    &&& #[trigger] rebuilding.unit_outcome(payload) == Ok::<
                        Option<Message>,
                        SessionError,
                    >(None)
                    &&& rebuilding.unit_encoded() == rebuilding
                }
            &&& forall|frame: FrameView| #[trigger]
                requested(rebuilding, SessionEvent::Frame(frame)).is_none()
            &&& rebuilt.state == (StateView::Streaming { format, encoder: fresh_encoder(format) })
            &&& rebuilt.next_sequence == 0
            &&& rebuilt.param_outcome(Some(param)) == Ok::<Option<BuildRequest>, SessionError>(None)
            &&& forall|frame: FrameView|
                !frame_matches(format, frame) ==> #[trigger] rebuilt.frame_action(frame)
                    == FrameAction::Skip(SkipReason::UnexpectedLayout)
        }),
{
}

/// Only the confirmation of a format asks for an encoder.
pub proof fn lemma_only_formats_ask_for_encoders(s: SessionView, e: SessionEvent)
    requires
        requested(s, e).is_some(),
    ensures
        e is ParamChanged,
        confirms_format(e->ParamChanged_0),
        step(s, e).phase() == Phase::Negotiating,
{
}

} // verus!
