//! What the sessions of both services share: the states of a session, how
//! its output is delivered, and what the connection reports to it.
//!
//! A session decides and does no I/O. Whoever drives it opens the
//! connection, sends the request, reads the frames and hands each to the
//! session as an [`Event`]; the session answers with what to do next.

use vstd::prelude::*;

verus! {

/// Where a session stands.
#[derive(Clone, Copy, Debug, PartialEq, Eq, Hash, Structural)]
pub enum SessionState {
    /// The request has not been sent yet.
    Connecting,
    /// The request has been sent, and no frame has come in yet.
    Sent,
    /// Frames are coming in.
    Streaming,
    /// The frame that ends the answer has come in.
    Done,
    /// The session has failed.
    Failed,
}

impl SessionState {
    /// Whether the session is over.
    pub open spec fn spec_is_terminal(self) -> bool {
        self == SessionState::Done || self == SessionState::Failed
    }

    /// Whether the session takes frames.
    pub open spec fn spec_is_open(self) -> bool {
        self == SessionState::Sent || self == SessionState::Streaming
    }

    /// Whether the session is over.
    pub fn is_terminal(&self) -> (over: bool)
        ensures
            over == self.spec_is_terminal(),
    {
        match self {
            SessionState::Done => true,
            SessionState::Failed => true,
            _ => false,
        }
    }

    /// Whether the session takes frames.
    pub fn is_open(&self) -> (open: bool)
        ensures
            open == self.spec_is_open(),
    {
        match self {
            SessionState::Sent => true,
            SessionState::Streaming => true,
            _ => false,
        }
    }
}

/// How the output of a session reaches the caller.
#[derive(Clone, Copy, Debug, PartialEq, Eq, Hash, Structural)]
pub enum Delivery {
    /// Piece by piece, as the frames come in.
    Incremental,
    /// Once, when the answer is complete.
    Batched,
}

/// What the connection reports to a session. `F` is a frame of the service,
/// decoded.
#[derive(Clone, Debug, PartialEq, Eq, Hash)]
pub enum Event<F> {
    /// The connection is open and the request has been sent.
    Sent,
    /// A text frame came in and was decoded.
    Text(F),
    /// A binary frame came in.
    Binary,
    /// A close frame came in, or the stream ended.
    Closed,
    /// A frame of another kind came in, such as a ping.
    Other,
    /// The request could not be written, or a text frame could not be read.
    SerializationFailed,
    /// The connection could not be opened, or broke.
    TransportFailed,
}

/// The frames as the events of their coming in.
pub open spec fn text_events<F>(frames: Seq<F>) -> Seq<Event<F>> {
    Seq::new(frames.len(), |i: int| Event::Text(frames[i]))
}

} // verus!
