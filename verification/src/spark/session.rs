//! The session of one chat request.
//!
//! The session is told what the connection reports, one event at a time,
//! and answers with what its driver does next. In incremental delivery the
//! text of each frame is handed over as the frame comes in. In batched
//! delivery the frames are kept, and the whole answer is handed over with
//! the frame that ends it.

use crate::error::{AggregationError, Error, ProtocolViolation};
use crate::session::{Delivery, Event, SessionState};
use crate::spark::batch::{aggregate, aggregated, check_frame, frame_defect, frame_text};
use crate::spark::data::{Response, SparkResponse, TokenStatistics};
use vstd::prelude::*;

verus! {

/// What the driver of a chat session does next.
#[derive(Clone, Debug, PartialEq, Eq)]
pub enum Action {
    /// Read the next frame.
    Receive,
    /// Hand the text to the caller, then read the next frame.
    Deliver(String),
    /// Close the connection: the answer is complete. The content is the text
    /// that has not been handed over yet: in batched delivery the whole
    /// answer, in incremental delivery the text of the last frame.
    Finish(SparkResponse),
    /// Close the connection: the session has failed.
    Fail(Error),
    /// Nothing: the event does not belong to the state of the session, which
    /// is unchanged.
    Ignore,
}

/// An [`Action`] as a value of specifications.
pub enum ActionView {
    Receive,
    Deliver(Seq<char>),
    Finish(Seq<char>, TokenStatistics),
    Fail(Error),
    Ignore,
}

impl View for Action {
    type V = ActionView;

    open spec fn view(&self) -> ActionView {
        match *self {
            Action::Receive => ActionView::Receive,
            Action::Deliver(text) => ActionView::Deliver(text@),
            Action::Finish(answer) => ActionView::Finish(answer.content@, answer.tokens),
            Action::Fail(error) => ActionView::Fail(error),
            Action::Ignore => ActionView::Ignore,
        }
    }
}

/// A chat session as a value of specifications.
pub struct ChatSessionView {
    pub state: SessionState,
    pub delivery: Delivery,
    /// The frames that are kept for a batched answer, as they came in.
    pub frames: Seq<Response>,
}

impl ChatSessionView {
    /// The session in another state.
    pub open spec fn at(self, state: SessionState) -> ChatSessionView {
        ChatSessionView { state, ..self }
    }

    /// The session in another state, with one more frame kept.
    pub open spec fn keeping(self, state: SessionState, frame: Response) -> ChatSessionView {
        ChatSessionView { state, frames: self.frames.push(frame), ..self }
    }
}

/// What a session that takes frames makes of a frame.
///
/// A frame with a defect fails the session. In incremental delivery the text
/// of any other frame is handed over, together with the token usage where
/// the frame ends the answer. In batched delivery the frame is kept; the
/// frame that ends the answer has all the frames combined.
pub open spec fn after_frame(session: ChatSessionView, frame: Response) -> (
    ChatSessionView,
    ActionView,
) {
    match frame_defect(frame) {
        Some(error) => (session.at(SessionState::Failed), ActionView::Fail(error)),
        None => match session.delivery {
            Delivery::Incremental => if frame.spec_is_end() {
                (
                    session.at(SessionState::Done),
                    ActionView::Finish(frame_text(frame), frame.spec_token_statistics().unwrap()),
                )
            } else {
                (session.at(SessionState::Streaming), ActionView::Deliver(frame_text(frame)))
            },
            Delivery::Batched => if frame.spec_is_end() {
                match aggregated(session.frames.push(frame)) {
                    Ok((text, tokens)) => (
                        session.keeping(SessionState::Done, frame),
                        ActionView::Finish(text, tokens),
                    ),
                    Err(error) => (
                        session.keeping(SessionState::Failed, frame),
                        ActionView::Fail(error),
                    ),
                }
            } else {
                (session.keeping(SessionState::Streaming, frame), ActionView::Receive)
            },
        },
    }
}

/// The session after an event, and what its driver does next.
pub open spec fn chat_next(session: ChatSessionView, event: Event<Response>) -> (
    ChatSessionView,
    ActionView,
) {
    match session.state {
        SessionState::Connecting => match event {
            Event::Sent => (session.at(SessionState::Sent), ActionView::Receive),
            Event::SerializationFailed => (
                session.at(SessionState::Failed),
                ActionView::Fail(Error::Serialization),
            ),
            Event::TransportFailed => (
                session.at(SessionState::Failed),
                ActionView::Fail(Error::Transport),
            ),
            _ => (session, ActionView::Ignore),
        },
        SessionState::Sent | SessionState::Streaming => match event {
            Event::Sent => (session, ActionView::Ignore),
            Event::Text(frame) => after_frame(session, frame),
            Event::Binary => (
                session.at(SessionState::Failed),
                ActionView::Fail(Error::Protocol(ProtocolViolation::BinaryFrame)),
            ),
            Event::Closed => (
                session.at(SessionState::Failed),
                ActionView::Fail(Error::Aggregation(AggregationError::MissingCompletion)),
            ),
            Event::Other => (session.at(SessionState::Streaming), ActionView::Receive),
            Event::SerializationFailed => (
                session.at(SessionState::Failed),
                ActionView::Fail(Error::Serialization),
            ),
            Event::TransportFailed => (
                session.at(SessionState::Failed),
                ActionView::Fail(Error::Transport),
            ),
        },
        SessionState::Done | SessionState::Failed => (session, ActionView::Ignore),
    }
}

/// The session after a run of events, with what its driver was told after
/// each.
pub open spec fn chat_run(session: ChatSessionView, events: Seq<Event<Response>>) -> (
    ChatSessionView,
    Seq<ActionView>,
)
    decreases events.len(),
{
    if events.len() == 0 {
        (session, Seq::empty())
    } else {
        let (before, actions) = chat_run(session, events.drop_last());
        let (after, action) = chat_next(before, events.last());
        (after, actions.push(action))
    }
}

/// The text that an action hands over.
pub open spec fn action_text(action: ActionView) -> Seq<char> {
    match action {
        ActionView::Deliver(text) => text,
        ActionView::Finish(text, _) => text,
        _ => Seq::empty(),
    }
}

/// The text that a run of actions hands over, piece after piece.
pub open spec fn delivered(actions: Seq<ActionView>) -> Seq<char>
    decreases actions.len(),
{
    if actions.len() == 0 {
        Seq::empty()
    } else {
        delivered(actions.drop_last()) + action_text(actions.last())
    }
}

/// The session of one chat request.
#[derive(Clone, Debug, PartialEq, Eq)]
pub struct ChatSession {
    state: SessionState,
    delivery: Delivery,
    frames: Vec<Response>,
}

impl View for ChatSession {
    type V = ChatSessionView;

    closed spec fn view(&self) -> ChatSessionView {
        ChatSessionView { state: self.state, delivery: self.delivery, frames: self.frames@ }
    }
}

impl ChatSession {
    /// A session whose request has not been sent yet.
    pub fn new(delivery: Delivery) -> (session: ChatSession)
        ensures
            session@ == (ChatSessionView {
                state: SessionState::Connecting,
                delivery,
                frames: Seq::empty(),
            }),
    {
        ChatSession { state: SessionState::Connecting, delivery, frames: Vec::new() }
    }

    /// Where the session stands.
    pub fn state(&self) -> (state: SessionState)
        ensures
            state == self@.state,
    {
        self.state
    }

    /// How the session delivers.
    pub fn delivery(&self) -> (delivery: Delivery)
        ensures
            delivery == self@.delivery,
    {
        self.delivery
    }

    /// Takes a frame while the session is open.
    fn take_frame(&mut self, frame: Response) -> (action: Action)
        ensures
            (final(self)@, action@) == after_frame(old(self)@, frame),
    {
        if let Some(error) = check_frame(&frame) {
            self.state = SessionState::Failed;
            return Action::Fail(error);
        }
        let ends = frame.is_end();
        match self.delivery {
            Delivery::Incremental => {
                let content = match frame.content() {
                    Some(text) => text,
                    None => String::new(),
                };
                if ends {
                    match frame.token_statistics() {
                        Some(tokens) => {
                            self.state = SessionState::Done;
                            Action::Finish(SparkResponse { content, tokens })
                        },
                        None => {
                            self.state = SessionState::Failed;
                            Action::Fail(Error::Aggregation(AggregationError::MissingUsage))
                        },
                    }
                } else {
                    self.state = SessionState::Streaming;
                    Action::Deliver(content)
                }
            },
            Delivery::Batched => {
                self.frames.push(frame);
                if ends {
                    match aggregate(&self.frames) {
                        Ok(answer) => {
                            self.state = SessionState::Done;
                            Action::Finish(answer)
                        },
                        Err(error) => {
                            self.state = SessionState::Failed;
                            Action::Fail(error)
                        },
                    }
                } else {
                    self.state = SessionState::Streaming;
                    Action::Receive
                }
            },
        }
    }

    /// Tells the session what the connection reported, and returns what its
    /// driver does next.
    ///
    /// Before the request is sent, the session waits for it to be sent.
    /// After that it takes frames until a frame ends the answer or the
    /// session fails. A session that is over ignores every event.
    pub fn step(&mut self, event: Event<Response>) -> (action: Action)
        ensures
            (final(self)@, action@) == chat_next(old(self)@, event),
    {
        match self.state {
            SessionState::Connecting => match event {
                Event::Sent => {
                    self.state = SessionState::Sent;
                    Action::Receive
                },
                Event::SerializationFailed => {
                    self.state = SessionState::Failed;
                    Action::Fail(Error::Serialization)
                },
                Event::TransportFailed => {
                    self.state = SessionState::Failed;
                    Action::Fail(Error::Transport)
                },
                _ => Action::Ignore,
            },
            SessionState::Sent | SessionState::Streaming => match event {
                Event::Sent => Action::Ignore,
                Event::Text(frame) => self.take_frame(frame),
                Event::Binary => {
                    self.state = SessionState::Failed;
                    Action::Fail(Error::Protocol(ProtocolViolation::BinaryFrame))
                },
                Event::Closed => {
                    self.state = SessionState::Failed;
                    Action::Fail(Error::Aggregation(AggregationError::MissingCompletion))
                },
                Event::Other => {
                    self.state = SessionState::Streaming;
                    Action::Receive
                },
                Event::SerializationFailed => {
                    self.state = SessionState::Failed;
                    Action::Fail(Error::Serialization)
                },
                Event::TransportFailed => {
                    self.state = SessionState::Failed;
                    Action::Fail(Error::Transport)
                },
            },
            SessionState::Done | SessionState::Failed => Action::Ignore,
        }
    }
}

} // verus!
