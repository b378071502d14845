//! The session of one text-to-speech request.
//!
//! The session is told what the connection reports, one event at a time,
//! and answers with what its driver does next. Each frame carries a piece
//! of the audio as base64. In incremental delivery each piece is handed
//! over as its frame comes in. In batched delivery the pieces are joined,
//! and the whole audio is handed over with the frame that ends it.

use crate::codec::{base64_bytes, decode};
use crate::error::{AggregationError, ApiError, Error, ProtocolViolation};
use crate::session::{Delivery, Event, SessionState};
use crate::tts::data::{Response, Status, TtsRequest};
use vstd::prelude::*;

verus! {

/// What the driver of a text-to-speech session does next.
#[derive(Clone, Debug, PartialEq, Eq)]
pub enum Action {
    /// Read the next frame.
    Receive,
    /// Hand the audio to the caller, then read the next frame.
    Deliver(Vec<u8>),
    /// Close the connection: the audio is complete. What has not been handed
    /// over yet comes with it: in incremental delivery the audio of the last
    /// frame, in batched delivery the whole audio, unless it is empty.
    Finish(Option<Vec<u8>>),
    /// Close the connection: the session has failed.
    Fail(Error),
    /// Nothing: the event does not belong to the state of the session, which
    /// is unchanged.
    Ignore,
}

/// An [`Action`] as a value of specifications.
pub enum ActionView {
    Receive,
    Deliver(Seq<u8>),
    Finish(Option<Seq<u8>>),
    Fail(Error),
    Ignore,
}

impl View for Action {
    type V = ActionView;

    open spec fn view(&self) -> ActionView {
        match *self {
            Action::Receive => ActionView::Receive,
            Action::Deliver(audio) => ActionView::Deliver(audio@),
            Action::Finish(Some(audio)) => ActionView::Finish(Some(audio@)),
            Action::Finish(None) => ActionView::Finish(None),
            Action::Fail(error) => ActionView::Fail(error),
            Action::Ignore => ActionView::Ignore,
        }
    }
}

/// A text-to-speech session as a value of specifications.
pub struct TtsSessionView {
    pub state: SessionState,
    pub delivery: Delivery,
    /// The audio that is kept for batched delivery.
    pub audio: Seq<u8>,
}

impl TtsSessionView {
    /// The session in another state.
    pub open spec fn at(self, state: SessionState) -> TtsSessionView {
        TtsSessionView { state, ..self }
    }

    /// The session in another state, with more audio kept.
    pub open spec fn keeping(self, state: SessionState, audio: Seq<u8>) -> TtsSessionView {
        TtsSessionView { state, audio: self.audio + audio, ..self }
    }
}

/// The audio, unless it is empty.
pub open spec fn unless_empty(audio: Seq<u8>) -> Option<Seq<u8>> {
    if audio.len() == 0 {
        None
    } else {
        Some(audio)
    }
}

/// What a session that takes frames makes of the audio of a frame, decoded
/// or not, and of the status that came with it.
///
/// Audio that is no base64 fails the session. In incremental delivery other
/// audio is handed over. In batched delivery it is kept, and handed over as
/// a whole with the status that ends it.
pub open spec fn after_audio(session: TtsSessionView, decoded: Option<Seq<u8>>, status: Status) -> (
    TtsSessionView,
    ActionView,
) {
    match decoded {
        None => (
            session.at(SessionState::Failed),
            ActionView::Fail(Error::Aggregation(AggregationError::AudioDecode)),
        ),
        Some(audio) => match session.delivery {
            Delivery::Incremental => if status == Status::End {
                (session.at(SessionState::Done), ActionView::Finish(Some(audio)))
            } else {
                (session.at(SessionState::Streaming), ActionView::Deliver(audio))
            },
            Delivery::Batched => if status == Status::End {
                (
                    session.keeping(SessionState::Done, audio),
                    ActionView::Finish(unless_empty(session.audio + audio)),
                )
            } else {
                (session.keeping(SessionState::Streaming, audio), ActionView::Receive)
            },
        },
    }
}

/// What a session that takes frames makes of a frame: a status of the
/// service other than zero fails it, a frame without data is passed over,
/// and the audio of any other frame is decoded and taken.
pub open spec fn after_frame(session: TtsSessionView, frame: Response) -> (
    TtsSessionView,
    ActionView,
) {
    if frame.code != 0 {
        (
            session.at(SessionState::Failed),
            ActionView::Fail(Error::Api(ApiError { code: frame.code, message: frame.message })),
        )
    } else {
        match frame.data {
            None => (session.at(SessionState::Streaming), ActionView::Receive),
            Some(data) => after_audio(session, base64_bytes(data.audio@), data.status),
        }
    }
}

/// The session after an event, and what its driver does next.
pub open spec fn tts_next(session: TtsSessionView, event: Event<Response>) -> (
    TtsSessionView,
    ActionView,
) {
    match session.state {
        SessionState::Connecting => match event {
            Event::Sent => (session.at(SessionState::Sent), ActionView::Receive),
            Event::SerializationFailed => (
                session.at(SessionState::Failed),
                ActionView::Fail(Error::Serialization),
            ),
            Event::TransportFailed => (
                session.at(SessionState::Failed),
                ActionView::Fail(Error::Transport),
            ),
            _ => (session, ActionView::Ignore),
        },
        SessionState::Sent | SessionState::Streaming => match event {
            Event::Sent => (session, ActionView::Ignore),
            Event::Text(frame) => after_frame(session, frame),
            Event::Binary => (
                session.at(SessionState::Failed),
                ActionView::Fail(Error::Protocol(ProtocolViolation::BinaryFrame)),
            ),
            Event::Closed => (
                session.at(SessionState::Failed),
                ActionView::Fail(Error::Aggregation(AggregationError::MissingCompletion)),
            ),
            Event::Other => (session.at(SessionState::Streaming), ActionView::Receive),
            Event::SerializationFailed => (
                session.at(SessionState::Failed),
                ActionView::Fail(Error::Serialization),
            ),
            Event::TransportFailed => (
                session.at(SessionState::Failed),
                ActionView::Fail(Error::Transport),
            ),
        },
        SessionState::Done | SessionState::Failed => (session, ActionView::Ignore),
    }
}

/// The session after a run of events, with what its driver was told after
/// each.
pub open spec fn tts_run(session: TtsSessionView, events: Seq<Event<Response>>) -> (
    TtsSessionView,
    Seq<ActionView>,
)
    decreases events.len(),
{
    if events.len() == 0 {
        (session, Seq::empty())
    } else {
        let (before, actions) = tts_run(session, events.drop_last());
        let (after, action) = tts_next(before, events.last());
        (after, actions.push(action))
    }
}

impl TtsRequest {
    /// How the audio of the request is handed over.
    pub open spec fn spec_delivery(&self) -> Delivery {
        if self.get_all_once {
            Delivery::Batched
        } else {
            Delivery::Incremental
        }
    }

    /// How the audio of the request is handed over: once and whole where
    /// `get_all_once` is set, else piece by piece.
    pub fn delivery(&self) -> (delivery: Delivery)
        ensures
            delivery == self.spec_delivery(),
    {
        if self.get_all_once {
            Delivery::Batched
        } else {
            Delivery::Incremental
        }
    }
}

/// The session of one text-to-speech request.
#[derive(Clone, Debug, PartialEq, Eq)]
pub struct TtsSession {
    state: SessionState,
    delivery: Delivery,
    audio: Vec<u8>,
}

impl View for TtsSession {
    type V = TtsSessionView;

    closed spec fn view(&self) -> TtsSessionView {
        TtsSessionView { state: self.state, delivery: self.delivery, audio: self.audio@ }
    }
}

impl TtsSession {
    /// A session whose request has not been sent yet.
    pub fn new(delivery: Delivery) -> (session: TtsSession)
        ensures
            session@ == (TtsSessionView {
                state: SessionState::Connecting,
                delivery,
                audio: Seq::empty(),
            }),
    {
        TtsSession { state: SessionState::Connecting, delivery, audio: Vec::new() }
    }

    /// Where the session stands.
    pub fn state(&self) -> (state: SessionState)
        ensures
            state == self@.state,
    {
        self.state
    }

    /// How the session delivers.
    pub fn delivery(&self) -> (delivery: Delivery)
        ensures
            delivery == self@.delivery,
    {
        self.delivery
    }

    /// Takes the audio of a frame, decoded or not, with the status that came
    /// with it.
    pub fn take_audio(&mut self, decoded: Option<Vec<u8>>, status: Status) -> (action: Action)
        ensures
            (final(self)@, action@) == after_audio(
                old(self)@,
                match decoded {
                    Some(audio) => Some(audio@),
                    None => None,
                },
                status,
            ),
    {
        let mut audio = match decoded {
            Some(audio) => audio,
            None => {
                self.state = SessionState::Failed;
                return Action::Fail(Error::Aggregation(AggregationError::AudioDecode));
            },
        };
        let ends = status == Status::End;
        match self.delivery {
            Delivery::Incremental => if ends {
                self.state = SessionState::Done;
                Action::Finish(Some(audio))
            } else {
                self.state = SessionState::Streaming;
                Action::Deliver(audio)
            },
            Delivery::Batched => {
                self.audio.append(&mut audio);
                if ends {
                    self.state = SessionState::Done;
                    if self.audio.len() == 0 {
                        Action::Finish(None)
                    } else {
                        Action::Finish(Some(self.audio.clone()))
                    }
                } else {
                    self.state = SessionState::Streaming;
                    Action::Receive
                }
            },
        }
    }

    /// Takes a frame while the session is open.
    fn take_frame(&mut self, frame: Response) -> (action: Action)
        ensures
            (final(self)@, action@) == after_frame(old(self)@, frame),
    {
        if frame.code != 0 {
            self.state = SessionState::Failed;
            return Action::Fail(Error::Api(ApiError { code: frame.code, message: frame.message }));
        }
        match frame.data {
            None => {
                self.state = SessionState::Streaming;
                Action::Receive
            },
            Some(data) => {
                let decoded = match decode(data.audio.as_str()) {
                    Ok(audio) => Some(audio),
                    Err(_) => None,
                };
                self.take_audio(decoded, data.status)
            },
        }
    }

    /// Tells the session what the connection reported, and returns what its
    /// driver does next.
    ///
    /// Before the request is sent, the session waits for it to be sent.
    /// After that it takes frames until a frame ends the audio or the
    /// session fails. A session that is over ignores every event.
    pub fn step(&mut self, event: Event<Response>) -> (action: Action)
        ensures
            (final(self)@, action@) == tts_next(old(self)@, event),
    {
        match self.state {
            SessionState::Connecting => match event {
                Event::Sent => {
                    self.state = SessionState::Sent;
                    Action::Receive
                },
                Event::SerializationFailed => {
                    self.state = SessionState::Failed;
                    Action::Fail(Error::Serialization)
                },
                Event::TransportFailed => {
                    self.state = SessionState::Failed;
                    Action::Fail(Error::Transport)
                },
                _ => Action::Ignore,
            },
            SessionState::Sent | SessionState::Streaming => match event {
                Event::Sent => Action::Ignore,
                Event::Text(frame) => self.take_frame(frame),
                Event::Binary => {
                    self.state = SessionState::Failed;
                    Action::Fail(Error::Protocol(ProtocolViolation::BinaryFrame))
                },
                Event::Closed => {
                    self.state = SessionState::Failed;
                    Action::Fail(Error::Aggregation(AggregationError::MissingCompletion))
                },
                Event::Other => {
                    self.state = SessionState::Streaming;
                    Action::Receive
                },
                Event::SerializationFailed => {
                    self.state = SessionState::Failed;
                    Action::Fail(Error::Serialization)
                },
                Event::TransportFailed => {
                    self.state = SessionState::Failed;
                    Action::Fail(Error::Transport)
                },
            },
            SessionState::Done | SessionState::Failed => Action::Ignore,
        }
    }
}

} // verus!
