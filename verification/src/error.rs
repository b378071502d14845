//! The failures of a request, by kind.

use crate::xunfei;
use vstd::prelude::*;

verus! {

/// A request parameter that is out of its bound.
#[derive(Clone, Copy, Debug, PartialEq, Eq, Hash, Structural)]
pub enum ValidationError {
    /// `app_id`, `api_secret` or `api_key` is empty.
    EmptyCredentials,
    /// `uid` is longer than 32 bytes.
    UidTooLong,
    /// `temperature` is not within 0 to 1.
    TemperatureOutOfRange,
    /// `max_tokens` is not within 1 to 8192.
    MaxTokensOutOfRange,
    /// `top_k` is not within 1 to 6.
    TopKOutOfRange,
    /// The history and the content together are longer than 10000
    /// characters.
    ContentTooLong,
    /// `vcn` is empty.
    EmptyVoice,
    /// `speed` is greater than 100.
    SpeedOutOfRange,
    /// `volume` is greater than 100.
    VolumeOutOfRange,
    /// `pitch` is greater than 100.
    PitchOutOfRange,
    /// `text` is longer than 8000 bytes.
    TextTooLong,
}

/// A frame that the protocol does not allow.
#[derive(Clone, Copy, Debug, PartialEq, Eq, Hash, Structural)]
pub enum ProtocolViolation {
    /// A binary frame where a text frame was expected.
    BinaryFrame,
    /// The header of a chat frame says that the answer has ended, its
    /// choices say that it has not.
    StatusMismatch,
    /// The frame that ends the answer does not carry the greatest sequence
    /// number.
    TerminalOutOfOrder,
}

/// Frames that cannot be combined into a result.
#[derive(Clone, Copy, Debug, PartialEq, Eq, Hash, Structural)]
pub enum AggregationError {
    /// The frame that ends the answer carries no token usage.
    MissingUsage,
    /// A chat frame carries no payload.
    MissingPayload,
    /// There is no frame at all.
    EmptyResponses,
    /// The audio of a frame is not base64.
    AudioDecode,
    /// The stream ended before the frame that ends the answer.
    MissingCompletion,
}

/// A status other than zero, as the service reported it.
#[derive(Clone, Debug, PartialEq, Eq, Hash)]
pub struct ApiError {
    pub code: i32,
    pub message: String,
}

/// Why a request failed.
#[derive(Clone, Debug, PartialEq, Eq, Hash)]
pub enum Error {
    /// The signing time has no RFC 2822 date.
    Format,
    /// The target is no absolute URL, or has no host.
    Url,
    /// A request parameter is out of its bound.
    Validation(ValidationError),
    /// The request could not be written, or a frame could not be read, as
    /// JSON.
    Serialization,
    /// The connection failed.
    Transport,
    /// The service sent a frame that the protocol does not allow.
    Protocol(ProtocolViolation),
    /// The service reported a status other than zero.
    Api(ApiError),
    /// The frames cannot be combined into a result.
    Aggregation(AggregationError),
}

impl ValidationError {
    /// The parameter and its bound, in words.
    pub open spec fn spec_message(self) -> Seq<char> {
        match self {
            ValidationError::EmptyCredentials => "app_id, api_secret or api_key is empty"@,
            ValidationError::UidTooLong => "the length of uid is greater than 32"@,
            ValidationError::TemperatureOutOfRange => "the temperature is less than 0 or greater than 1"@,
            ValidationError::MaxTokensOutOfRange => "the max tokens is less than 1 or greater than 8192"@,
            ValidationError::TopKOutOfRange => "the top_k is less than 1 or greater than 6"@,
            ValidationError::ContentTooLong => "the length of contents is greater than 10000"@,
            ValidationError::EmptyVoice => "vcn is empty"@,
            ValidationError::SpeedOutOfRange => "speed is less than 0 or greater than 100"@,
            ValidationError::VolumeOutOfRange => "volume is less than 0 or greater than 100"@,
            ValidationError::PitchOutOfRange => "pitch is less than 0 or greater than 100"@,
            ValidationError::TextTooLong => "the text's length (in bytes) is greater than 8000"@,
        }
    }

    /// The parameter and its bound, in words.
    pub fn message(&self) -> (text: &'static str)
        ensures
            text@ == self.spec_message(),
    {
        match self {
            ValidationError::EmptyCredentials => "app_id, api_secret or api_key is empty",
            ValidationError::UidTooLong => "the length of uid is greater than 32",
            ValidationError::TemperatureOutOfRange => "the temperature is less than 0 or greater than 1",
            ValidationError::MaxTokensOutOfRange => "the max tokens is less than 1 or greater than 8192",
            ValidationError::TopKOutOfRange => "the top_k is less than 1 or greater than 6",
            ValidationError::ContentTooLong => "the length of contents is greater than 10000",
            ValidationError::EmptyVoice => "vcn is empty",
            ValidationError::SpeedOutOfRange => "speed is less than 0 or greater than 100",
            ValidationError::VolumeOutOfRange => "volume is less than 0 or greater than 100",
            ValidationError::PitchOutOfRange => "pitch is less than 0 or greater than 100",
            ValidationError::TextTooLong => "the text's length (in bytes) is greater than 8000",
        }
    }
}

impl Error {
    /// The kind of a signing failure.
    pub open spec fn spec_from_signing(error: xunfei::Error) -> Error {
        match error {
            xunfei::Error::TimeFormatError(_) => Error::Format,
            xunfei::Error::UrlParseError(_) => Error::Url,
        }
    }

    /// The kind of a signing failure.
    pub fn from_signing(error: &xunfei::Error) -> (kind: Error)
        ensures
            kind == Error::spec_from_signing(*error),
    {
        match error {
            xunfei::Error::TimeFormatError(_) => Error::Format,
            xunfei::Error::UrlParseError(_) => Error::Url,
        }
    }
}

} // verus!
