//! What holds of text-to-speech sessions, whatever the frames are.

use crate::codec::base64_bytes;
use crate::error::{ApiError, Error, ValidationError};
use crate::session::{text_events, Delivery, Event, SessionState};
use crate::tts::data::{sound_property_out_of_range, Response, Status, TtsRequest};
use crate::tts::session::{tts_next, tts_run, unless_empty, ActionView, TtsSessionView};
use vstd::prelude::*;

verus! {

/// A request that breaks a rule is rejected, and the rule that the rejection
/// names is one that the request breaks: the first, in the order in which
/// the rules are checked.
pub proof fn lemma_rejection_names_a_broken_rule(request: TtsRequest)
    ensures
        request.violation() is Some <==> (request.credentials_empty() || request.voice_empty()
            || sound_property_out_of_range(request.speed) || sound_property_out_of_range(
            request.volume,
        ) || sound_property_out_of_range(request.pitch) || request.text_too_long()),
        request.violation() == Some(ValidationError::EmptyCredentials)
            ==> request.credentials_empty(),
        request.violation() == Some(ValidationError::EmptyVoice) ==> request.voice_empty(),
        request.violation() == Some(ValidationError::SpeedOutOfRange)
            ==> sound_property_out_of_range(request.speed),
        request.violation() == Some(ValidationError::VolumeOutOfRange)
            ==> sound_property_out_of_range(request.volume),
        request.violation() == Some(ValidationError::PitchOutOfRange)
            ==> sound_property_out_of_range(request.pitch),
        request.violation() == Some(ValidationError::TextTooLong) ==> request.text_too_long(),
{
}

/// Whether a frame carries audio that can be decoded, under the status zero.
pub open spec fn carries_audio(frame: Response) -> bool {
    &&& frame.code == 0
    &&& frame.data matches Some(data) && base64_bytes(data.audio@) is Some
}

/// Whether a frame says that more audio follows.
pub open spec fn goes_on(frame: Response) -> bool {
    frame.data matches Some(data) && data.status == Status::Synthesis
}

/// Whether a frame ends the audio.
pub open spec fn ends(frame: Response) -> bool {
    frame.data matches Some(data) && data.status == Status::End
}

/// The audio of a frame that carries some.
pub open spec fn piece(frame: Response) -> Seq<u8> {
    base64_bytes(frame.data.unwrap().audio@).unwrap()
}

/// The audio of the frames, piece after piece.
pub open spec fn joined_audio(frames: Seq<Response>) -> Seq<u8>
    decreases frames.len(),
{
    if frames.len() == 0 {
        Seq::empty()
    } else {
        joined_audio(frames.drop_last()) + piece(frames.last())
    }
}

/// Whether the frames are a whole audio: each carries a piece, the last ends
/// the audio and no other does.
pub open spec fn whole_audio(frames: Seq<Response>) -> bool {
    &&& frames.len() > 0
    &&& forall|i: int| 0 <= i < frames.len() ==> carries_audio(#[trigger] frames[i])
    &&& forall|i: int| 0 <= i < frames.len() - 1 ==> goes_on(#[trigger] frames[i])
    &&& ends(frames.last())
}

/// A session that is over stays as it is, whatever comes in, and ignores it.
pub proof fn lemma_over_is_over(session: TtsSessionView, events: Seq<Event<Response>>)
    requires
        session.state.spec_is_terminal(),
    ensures
        tts_run(session, events).0 == session,
        tts_run(session, events).1 == Seq::new(events.len(), |i: int| ActionView::Ignore),
    decreases events.len(),
{
    if events.len() > 0 {
        lemma_over_is_over(session, events.drop_last());
    }
    assert(tts_run(session, events).1 =~= Seq::new(events.len(), |i: int| ActionView::Ignore));
}

/// A frame with a status other than zero fails an open session at once,
/// with that status and its message, and nothing that comes after it is
/// looked at.
pub proof fn lemma_api_error_ends_session(
    session: TtsSessionView,
    frame: Response,
    rest: Seq<Event<Response>>,
)
    requires
        session.state.spec_is_open(),
        frame.code != 0,
    ensures
        tts_next(session, Event::Text(frame)) == (
            session.at(SessionState::Failed),
            ActionView::Fail(Error::Api(ApiError { code: frame.code, message: frame.message })),
        ),
        tts_run(session.at(SessionState::Failed), rest) == (
            session.at(SessionState::Failed),
            Seq::new(rest.len(), |i: int| ActionView::Ignore),
        ),
{
    lemma_over_is_over(session.at(SessionState::Failed), rest);
}

/// Frames that carry audio and do not end it, taken by an open session.
proof fn lemma_pieces(session: TtsSessionView, frames: Seq<Response>)
    requires
        session.state.spec_is_open(),
        forall|i: int| 0 <= i < frames.len() ==> carries_audio(#[trigger] frames[i]),
        forall|i: int| 0 <= i < frames.len() ==> goes_on(#[trigger] frames[i]),
    ensures
        tts_run(session, text_events(frames)).0.state.spec_is_open(),
        tts_run(session, text_events(frames)).0.delivery == session.delivery,
        tts_run(session, text_events(frames)).1.len() == frames.len(),
        session.delivery == Delivery::Batched ==> {
            &&& tts_run(session, text_events(frames)).0.audio == session.audio + joined_audio(
                frames,
            )
            &&& forall|i: int|
                0 <= i < frames.len() ==> #[trigger] tts_run(session, text_events(frames)).1[i]
                    == ActionView::Receive
        },
        session.delivery == Delivery::Incremental ==> {
            &&& tts_run(session, text_events(frames)).0.audio == session.audio
            &&& forall|i: int|
                0 <= i < frames.len() ==> #[trigger] tts_run(session, text_events(frames)).1[i]
                    == ActionView::Deliver(piece(frames[i]))
        },
    decreases frames.len(),
{
    if frames.len() == 0 {
        assert(session.audio + joined_audio(frames) =~= session.audio);
    } else {
        let front = frames.drop_last();
        assert(text_events(frames).drop_last() =~= text_events(front));
        assert forall|i: int| 0 <= i < front.len() implies carries_audio(#[trigger] front[i])
            && goes_on(front[i]) by {
            assert(front[i] == frames[i]);
        }
        lemma_pieces(session, front);
        assert(carries_audio(frames[frames.len() - 1]) && goes_on(frames[frames.len() - 1]));
        let before = tts_run(session, text_events(front));
        let after = tts_run(session, text_events(frames));
        assert(after.1.drop_last() =~= before.1);
        if session.delivery == Delivery::Batched {
            assert(after.0.audio =~= session.audio + joined_audio(frames));
            assert forall|i: int| 0 <= i < frames.len() implies #[trigger] after.1[i]
                == ActionView::Receive by {
                if i < front.len() {
                    assert(after.1[i] == before.1[i]);
                }
            }
        } else {
            assert forall|i: int| 0 <= i < frames.len() implies #[trigger] after.1[i]
                == ActionView::Deliver(piece(frames[i])) by {
                if i < front.len() {
                    assert(after.1[i] == before.1[i]);
                    assert(front[i] == frames[i]);
                }
            }
        }
    }
}

/// In batched delivery a whole audio is handed over once, with its last
/// frame, as the pieces joined in the order of the frames; nothing is handed
/// over where the audio is empty.
pub proof fn lemma_batched_audio_is_delivered_once(session: TtsSessionView, frames: Seq<Response>)
    requires
        session.state.spec_is_open(),
        session.delivery == Delivery::Batched,
        session.audio.len() == 0,
        whole_audio(frames),
    ensures
        tts_run(session, text_events(frames)).0.state == SessionState::Done,
        tts_run(session, text_events(frames)).1 == Seq::new(
            frames.len(),
            |i: int|
                if i < frames.len() - 1 {
                    ActionView::Receive
                } else {
                    ActionView::Finish(unless_empty(joined_audio(frames)))
                },
        ),
{
    let front = frames.drop_last();
    assert(text_events(frames).drop_last() =~= text_events(front));
    assert forall|i: int| 0 <= i < front.len() implies carries_audio(#[trigger] front[i])
        && goes_on(front[i]) by {
        assert(front[i] == frames[i]);
    }
    lemma_pieces(session, front);
    assert(carries_audio(frames[frames.len() - 1]));
    let before = tts_run(session, text_events(front));
    let after = tts_run(session, text_events(frames));
    assert(after.1.drop_last() =~= before.1);
    assert(session.audio + joined_audio(front) + piece(frames.last()) =~= joined_audio(frames));
    assert forall|i: int| 0 <= i < frames.len() - 1 implies after.1[i] == ActionView::Receive by {
        assert(after.1[i] == before.1[i]);
    }
    assert(after.1 =~= Seq::new(
        frames.len(),
        |i: int|
            if i < frames.len() - 1 {
                ActionView::Receive
            } else {
                ActionView::Finish(unless_empty(joined_audio(frames)))
            },
    ));
}

/// In incremental delivery the pieces of a whole audio are handed over one
/// by one, each with its frame and in the order of the frames.
pub proof fn lemma_incremental_audio_is_delivered_in_order(
    session: TtsSessionView,
    frames: Seq<Response>,
)
    requires
        session.state.spec_is_open(),
        session.delivery == Delivery::Incremental,
        whole_audio(frames),
    ensures
        tts_run(session, text_events(frames)).0.state == SessionState::Done,
        tts_run(session, text_events(frames)).1 == Seq::new(
            frames.len(),
            |i: int|
                if i < frames.len() - 1 {
                    ActionView::Deliver(piece(frames[i]))
                } else {
                    ActionView::Finish(Some(piece(frames[i])))
                },
        ),
{
    let front = frames.drop_last();
    assert(text_events(frames).drop_last() =~= text_events(front));
    assert forall|i: int| 0 <= i < front.len() implies carries_audio(#[trigger] front[i])
        && goes_on(front[i]) by {
        assert(front[i] == frames[i]);
    }
    lemma_pieces(session, front);
    assert(carries_audio(frames[frames.len() - 1]));
    let before = tts_run(session, text_events(front));
    let after = tts_run(session, text_events(frames));
    assert(after.1.drop_last() =~= before.1);
    assert forall|i: int| 0 <= i < frames.len() - 1 implies after.1[i] == ActionView::Deliver(
        piece(frames[i]),
    ) by {
        assert(after.1[i] == before.1[i]);
        assert(front[i] == frames[i]);
    }
    assert(after.1 =~= Seq::new(
        frames.len(),
        |i: int|
            if i < frames.len() - 1 {
                ActionView::Deliver(piece(frames[i]))
            } else {
                ActionView::Finish(Some(piece(frames[i])))
            },
    ));
}

} // verus!
