//! The requests and responses of the text-to-speech service, and the rules
//! that a request must meet before it is sent.

use crate::codec::{base64_text, encode};
use crate::error::ValidationError;
use vstd::prelude::*;
use vstd::utf8::encode_utf8;

verus! {

/// The greatest `speed`, `volume` and `pitch`.
pub const MAX_SOUND_PROPERTY: u8 = 100;

/// The greatest length of `text`, in bytes.
pub const MAX_TEXT_BYTES: usize = 8000;

#[derive(Clone, Debug, PartialEq, Eq, Hash)]
pub struct RequestCommon {
    pub app_id: String,
}

/// The encoding of the audio.
#[derive(Clone, Copy, Debug, PartialEq, Eq, Hash, Structural)]
pub enum Aue {
    /// Uncompressed PCM.
    Raw,
    /// MP3.
    Lame,
}

/// Whether compressed audio comes as a stream.
#[derive(Clone, Copy, Debug, PartialEq, Eq, Hash, Structural)]
pub enum Sfl {
    Stream,
}

/// The sample rate of the audio.
#[derive(Clone, Copy, Debug, PartialEq, Eq, Hash, Structural)]
pub enum Auf {
    Audio8kRate,
    Audio16kRate,
}

/// Whether there is a background sound.
#[derive(Clone, Copy, Debug, PartialEq, Eq, Hash, Structural)]
pub enum Bgs {
    NoBackgroundSound,
    HasBackgroundSound,
}

/// The encoding of the text.
#[derive(Clone, Copy, Debug, PartialEq, Eq, Hash, Structural)]
pub enum Tte {
    Utf8,
}

/// How English words are read.
#[derive(Clone, Copy, Debug, PartialEq, Eq, Hash, Structural)]
pub enum Reg {
    AutoWord,
    Alphabet,
    AutoAlphabet,
}

/// How numbers are read.
#[derive(Clone, Copy, Debug, PartialEq, Eq, Hash, Structural)]
pub enum Rdn {
    Auto,
    Number,
    String,
    StringPriority,
}

#[derive(Clone, Debug, PartialEq, Eq, Hash)]
pub struct RequestBusiness {
    pub aue: Aue,
    pub sfl: Option<Sfl>,
    pub auf: Option<Auf>,
    pub vcn: String,
    pub speed: Option<u8>,
    pub volume: Option<u8>,
    pub pitch: Option<u8>,
    pub bgs: Option<Bgs>,
    pub tte: Tte,
    pub reg: Option<Reg>,
    pub rdn: Option<Rdn>,
}

/// How far a text, or its audio, has come.
#[derive(Clone, Copy, Debug, PartialEq, Eq, Hash, Structural)]
pub enum Status {
    Synthesis,
    End,
}

#[derive(Clone, Debug, PartialEq, Eq, Hash)]
pub struct RequestData {
    /// The text, as base64.
    pub text: String,
    pub status: Status,
}

/// The one request that a text-to-speech session sends.
#[derive(Clone, Debug, PartialEq, Eq, Hash)]
pub struct Request {
    pub common: RequestCommon,
    pub business: RequestBusiness,
    pub data: RequestData,
}

#[derive(Clone, Debug, PartialEq, Eq, Hash)]
pub struct ResponseData {
    /// A piece of the audio, as base64.
    pub audio: String,
    pub status: Status,
    pub ced: String,
}

/// One frame of the audio.
#[derive(Clone, Debug, PartialEq, Eq, Hash)]
pub struct Response {
    pub code: i32,
    pub message: String,
    pub data: Option<ResponseData>,
    pub sid: Option<String>,
}

/// What a caller asks of the text-to-speech service.
#[derive(Clone, Debug, PartialEq, Eq, Hash)]
pub struct TtsRequest {
    pub app_id: String,
    pub api_secret: String,
    pub api_key: String,
    pub aue: Aue,
    pub auf: Option<Auf>,
    pub vcn: String,
    pub speed: Option<u8>,
    pub volume: Option<u8>,
    pub pitch: Option<u8>,
    pub bgs: Option<Bgs>,
    pub reg: Option<Reg>,
    pub rdn: Option<Rdn>,
    pub text: String,
    /// Whether the audio is handed over once, when it is complete, and not
    /// piece by piece.
    pub get_all_once: bool,
}

/// Whether a sound property is out of its bound.
pub open spec fn sound_property_out_of_range(property: Option<u8>) -> bool {
    property matches Some(value) && value > MAX_SOUND_PROPERTY
}

impl TtsRequest {
    pub open spec fn credentials_empty(&self) -> bool {
        self.app_id@.len() == 0 || self.api_secret@.len() == 0 || self.api_key@.len() == 0
    }

    pub open spec fn voice_empty(&self) -> bool {
        self.vcn@.len() == 0
    }

    pub open spec fn text_too_long(&self) -> bool {
        encode_utf8(self.text@).len() > MAX_TEXT_BYTES
    }

    /// The first rule that the request breaks, in the order in which the
    /// rules are checked.
    pub open spec fn violation(&self) -> Option<ValidationError> {
        if self.credentials_empty() {
            Some(ValidationError::EmptyCredentials)
        } else if self.voice_empty() {
            Some(ValidationError::EmptyVoice)
        } else if sound_property_out_of_range(self.speed) {
            Some(ValidationError::SpeedOutOfRange)
        } else if sound_property_out_of_range(self.volume) {
            Some(ValidationError::VolumeOutOfRange)
        } else if sound_property_out_of_range(self.pitch) {
            Some(ValidationError::PitchOutOfRange)
        } else if self.text_too_long() {
            Some(ValidationError::TextTooLong)
        } else {
            None
        }
    }

    /// Whether `wire` is the request that is sent for `self`: the text goes
    /// as base64 and as the last piece, compressed audio is asked for as a
    /// stream, and every parameter is carried over.
    pub open spec fn sent_as(&self, wire: Request) -> bool {
        &&& wire.common.app_id == self.app_id
        &&& wire.business.aue == self.aue
        &&& wire.business.sfl == if self.aue == Aue::Lame {
            Some(Sfl::Stream)
        } else {
            None
        }
        &&& wire.business.auf == self.auf
        &&& wire.business.vcn == self.vcn
        &&& wire.business.speed == self.speed
        &&& wire.business.volume == self.volume
        &&& wire.business.pitch == self.pitch
        &&& wire.business.bgs == self.bgs
        &&& wire.business.tte == Tte::Utf8
        &&& wire.business.reg == self.reg
        &&& wire.business.rdn == self.rdn
        &&& wire.data.text@ == base64_text(encode_utf8(self.text@))
        &&& wire.data.status == Status::End
    }
}

/// Checks one sound property.
fn check_sound_property(error: ValidationError, property: Option<u8>) -> (result: Result<
    (),
    ValidationError,
>)
    ensures
        result == if sound_property_out_of_range(property) {
            Err::<(), ValidationError>(error)
        } else {
            Ok::<(), ValidationError>(())
        },
{
    match property {
        Some(value) => if value > MAX_SOUND_PROPERTY {
            Err(error)
        } else {
            Ok(())
        },
        None => Ok(()),
    }
}

impl TtsRequest {
    /// Checks the request against the bounds of the service, and changes
    /// nothing.
    ///
    /// The rules are checked in a fixed order, and the first that is broken
    /// is reported: the credentials are not empty; `vcn` is not empty;
    /// `speed`, `volume` and `pitch` are at most 100; `text` has at most 8000
    /// bytes.
    pub fn validate(&self) -> (result: Result<(), ValidationError>)
        ensures
            result == match self.violation() {
                Some(error) => Err::<(), ValidationError>(error),
                None => Ok::<(), ValidationError>(()),
            },
    {
        if self.app_id.as_str().is_empty() || self.api_secret.as_str().is_empty()
            || self.api_key.as_str().is_empty() {
            return Err(ValidationError::EmptyCredentials);
        }
        if self.vcn.as_str().is_empty() {
            return Err(ValidationError::EmptyVoice);
        }
        if let Err(error) = check_sound_property(ValidationError::SpeedOutOfRange, self.speed) {
            return Err(error);
        }
        if let Err(error) = check_sound_property(ValidationError::VolumeOutOfRange, self.volume) {
            return Err(error);
        }
        if let Err(error) = check_sound_property(ValidationError::PitchOutOfRange, self.pitch) {
            return Err(error);
        }
        if self.text.as_str().as_bytes().len() > MAX_TEXT_BYTES {
            return Err(ValidationError::TextTooLong);
        }
        Ok(())
    }
}

impl Request {
    /// Builds the request that is sent for a request that meets every rule:
    /// the text goes as base64 and as the last piece, and compressed audio
    /// is asked for as a stream.
    pub(crate) fn build(request: TtsRequest) -> (wire: Request)
        requires
            !request.text_too_long(),
        ensures
            request.sent_as(wire),
    {
        let text = encode(request.text.as_str().as_bytes());

        Request {
            common: RequestCommon { app_id: request.app_id },
            business: RequestBusiness {
                aue: request.aue,
                sfl: if request.aue == Aue::Lame {
                    Some(Sfl::Stream)
                } else {
                    None
                },
                auf: request.auf,
                vcn: request.vcn,
                speed: request.speed,
                volume: request.volume,
                pitch: request.pitch,
                bgs: request.bgs,
                tte: Tte::Utf8,
                reg: request.reg,
                rdn: request.rdn,
            },
            data: RequestData { text, status: Status::End },
        }
    }

    /// Checks a request as [`TtsRequest::validate`] does, and builds the
    /// request that is sent for it: the text goes as base64 and as the last
    /// piece, and compressed audio is asked for as a stream.
    pub fn try_from(request: TtsRequest) -> (result: Result<Request, ValidationError>)
        ensures
            match request.violation() {
                Some(error) => result == Err::<Request, ValidationError>(error),
                None => result matches Ok(wire) && request.sent_as(wire),
            },
    {
        match request.validate() {
            Ok(()) => Ok(Request::build(request)),
            Err(error) => Err(error),
        }
    }
}

} // verus!
