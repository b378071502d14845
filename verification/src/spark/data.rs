//! The requests and responses of the chat service, and the rules that a
//! request must meet before it is sent.

use crate::error::ValidationError;
use vstd::prelude::*;
use vstd::utf8::encode_utf8;

verus! {

/// The model that answers.
pub const GENERAL: &'static str = "generalv3";

/// The greatest length of `uid`, in bytes.
pub const MAX_UID_BYTES: usize = 32;

/// The greatest `max_tokens`.
pub const MAX_TOKENS: u32 = 8192;

/// The greatest `top_k`.
pub const MAX_TOP_K: u8 = 6;

/// The greatest length of the history and the content together, in
/// characters.
pub const MAX_CONTENT_CHARS: usize = 10_000;

/// The bits of the single-precision number 1.
pub const TEMPERATURE_ONE: u32 = 0x3f80_0000;

/// The bits of the single-precision number -0.
pub const TEMPERATURE_NEGATIVE_ZERO: u32 = 0x8000_0000;

#[derive(Clone, Debug, PartialEq, Eq, Hash)]
pub struct RequestHeader {
    pub app_id: String,
    pub uid: Option<String>,
}

#[derive(Clone, Debug, PartialEq, Eq, Hash)]
pub struct RequestChatConfig {
    pub domain: &'static str,
    /// The bits of a single-precision number.
    pub temperature: Option<u32>,
    pub max_tokens: Option<u32>,
    pub top_k: Option<u8>,
    pub chat_id: Option<String>,
}

#[derive(Clone, Debug, PartialEq, Eq, Hash)]
pub struct RequestParameter {
    pub chat: RequestChatConfig,
}

/// Who wrote a turn of the conversation.
#[derive(Clone, Copy, Debug, PartialEq, Eq, Hash, Structural)]
pub enum Role {
    User,
    Assistant,
}

/// One turn of the conversation.
#[derive(Clone, Debug, PartialEq, Eq, Hash)]
pub struct RequestText {
    pub role: Role,
    pub content: String,
}

#[derive(Clone, Debug, PartialEq, Eq, Hash)]
pub struct RequestMessage {
    pub text: Vec<RequestText>,
}

#[derive(Clone, Debug, PartialEq, Eq, Hash)]
pub struct RequestPayload {
    pub message: RequestMessage,
}

/// The one request that a chat session sends.
#[derive(Clone, Debug, PartialEq, Eq, Hash)]
pub struct Request {
    pub header: RequestHeader,
    pub parameter: RequestParameter,
    pub payload: RequestPayload,
}

/// How far an answer has come.
#[derive(Clone, Copy, Debug, PartialEq, Eq, Hash, Structural)]
pub enum ResponseStatus {
    Start,
    Middle,
    End,
}

#[derive(Clone, Debug, PartialEq, Eq, Hash)]
pub struct ResponseHeader {
    pub code: i32,
    pub message: String,
    pub sid: String,
    pub status: ResponseStatus,
}

#[derive(Clone, Debug, PartialEq, Eq, Hash)]
pub struct ResponseText {
    pub content: String,
    pub role: Role,
    pub index: i32,
}

#[derive(Clone, Debug, PartialEq, Eq, Hash)]
pub struct ResponseChoices {
    pub status: ResponseStatus,
    pub seq: u32,
    pub text: Vec<ResponseText>,
}

#[derive(Clone, Copy, Debug, PartialEq, Eq, Hash)]
pub struct ResponseTokenStatistics {
    pub question_tokens: i32,
    pub prompt_tokens: u32,
    pub completion_tokens: u32,
    pub total_tokens: u32,
}

#[derive(Clone, Copy, Debug, PartialEq, Eq, Hash)]
pub struct ResponseUsage {
    pub text: ResponseTokenStatistics,
}

#[derive(Clone, Debug, PartialEq, Eq, Hash)]
pub struct ResponsePayload {
    pub choices: ResponseChoices,
    pub usage: Option<ResponseUsage>,
}

/// One frame of an answer.
#[derive(Clone, Debug, PartialEq, Eq, Hash)]
pub struct Response {
    pub header: ResponseHeader,
    pub payload: Option<ResponsePayload>,
}

/// What a caller asks of the chat service.
#[derive(Clone, Debug, PartialEq, Eq, Hash)]
pub struct SparkRequest {
    pub app_id: String,
    pub api_secret: String,
    pub api_key: String,
    pub uid: Option<String>,
    /// The bits of a single-precision number, as `f32::to_bits` gives them.
    pub temperature: Option<u32>,
    pub max_tokens: Option<u32>,
    pub top_k: Option<u8>,
    pub chat_id: Option<String>,
    pub history: Option<Vec<RequestText>>,
    pub content: String,
}

/// The tokens that an answer was charged with.
#[derive(Clone, Copy, Debug, PartialEq, Eq, Hash, Structural)]
pub struct TokenStatistics {
    pub prompt_tokens: u32,
    pub completion_tokens: u32,
    pub total_tokens: u32,
}

/// A whole answer.
#[derive(Clone, Debug, PartialEq, Eq, Hash)]
pub struct SparkResponse {
    pub content: String,
    pub tokens: TokenStatistics,
}

/// The contents of `texts`, one after the other.
pub open spec fn joined(texts: Seq<ResponseText>) -> Seq<char>
    decreases texts.len(),
{
    if texts.len() == 0 {
        Seq::empty()
    } else {
        joined(texts.drop_last()) + texts.last().content@
    }
}

impl Response {
    /// Whether the frame ends the answer: its header and its choices both
    /// say so.
    pub open spec fn spec_is_end(&self) -> bool {
        &&& self.header.status == ResponseStatus::End
        &&& self.payload matches Some(payload) && payload.choices.status == ResponseStatus::End
    }

    /// The text of the frame, where it has a payload.
    pub open spec fn spec_content(&self) -> Option<Seq<char>> {
        match self.payload {
            Some(payload) => Some(joined(payload.choices.text@)),
            None => None,
        }
    }

    /// The token usage of the frame, where it carries one.
    pub open spec fn spec_token_statistics(&self) -> Option<TokenStatistics> {
        match self.payload {
            Some(payload) => match payload.usage {
                Some(usage) => Some(
                    TokenStatistics {
                        prompt_tokens: usage.text.prompt_tokens,
                        completion_tokens: usage.text.completion_tokens,
                        total_tokens: usage.text.total_tokens,
                    },
                ),
                None => None,
            },
            None => None,
        }
    }

    /// Whether the frame ends the answer.
    pub fn is_end(&self) -> (end: bool)
        ensures
            end == self.spec_is_end(),
    {
        self.header.status == ResponseStatus::End && match &self.payload {
            Some(payload) => payload.choices.status == ResponseStatus::End,
            None => false,
        }
    }

    /// The text of the frame: the contents of its choices, in their order.
    /// `None` where the frame has no payload.
    pub fn content(&self) -> (content: Option<String>)
        ensures
            match content {
                Some(text) => self.spec_content() == Some(text@),
                None => self.spec_content() is None,
            },
    {
        match &self.payload {
            Some(payload) => {
                let mut text = String::new();
                let mut i: usize = 0;
                assert(payload.choices.text@.take(0) =~= Seq::empty());
                while i < payload.choices.text.len()
                    invariant
                        i <= payload.choices.text.len(),
                        text@ == joined(payload.choices.text@.take(i as int)),
                    decreases payload.choices.text.len() - i,
                {
                    text.append(payload.choices.text[i].content.as_str());
                    proof {
                        let all = payload.choices.text@;
                        assert(all.take(i + 1).drop_last() =~= all.take(i as int));
                    }
                    i = i + 1;
                }
                assert(payload.choices.text@.take(i as int) =~= payload.choices.text@);
                Some(text)
            },
            None => None,
        }
    }

    /// The token usage of the frame. `None` where the frame has no payload
    /// or its payload no usage.
    pub fn token_statistics(&self) -> (tokens: Option<TokenStatistics>)
        ensures
            tokens == self.spec_token_statistics(),
    {
        match &self.payload {
            Some(payload) => match &payload.usage {
                Some(usage) => Some(
                    TokenStatistics {
                        prompt_tokens: usage.text.prompt_tokens,
                        completion_tokens: usage.text.completion_tokens,
                        total_tokens: usage.text.total_tokens,
                    },
                ),
                None => None,
            },
            None => None,
        }
    }
}

/// Whether the bits are those of a single-precision number from 0 to 1:
/// of a number that is not negative and not above 1, or of -0.
pub open spec fn temperature_in_range(bits: u32) -> bool {
    bits <= TEMPERATURE_ONE || bits == TEMPERATURE_NEGATIVE_ZERO
}

/// The length of the contents of `history`, in characters.
pub open spec fn history_chars(history: Seq<RequestText>) -> nat
    decreases history.len(),
{
    if history.len() == 0 {
        0
    } else {
        history_chars(history.drop_last()) + history.last().content@.len()
    }
}

impl SparkRequest {
    /// The turns that come before the new one.
    pub open spec fn turns(&self) -> Seq<RequestText> {
        match self.history {
            Some(history) => history@,
            None => Seq::empty(),
        }
    }

    /// The length of the history and the content together, in characters.
    pub open spec fn content_chars(&self) -> nat {
        history_chars(self.turns()) + self.content@.len()
    }

    pub open spec fn credentials_empty(&self) -> bool {
        self.app_id@.len() == 0 || self.api_secret@.len() == 0 || self.api_key@.len() == 0
    }

    pub open spec fn uid_too_long(&self) -> bool {
        self.uid matches Some(uid) && encode_utf8(uid@).len() > MAX_UID_BYTES
    }

    pub open spec fn temperature_out_of_range(&self) -> bool {
        self.temperature matches Some(bits) && !temperature_in_range(bits)
    }

    pub open spec fn max_tokens_out_of_range(&self) -> bool {
        self.max_tokens matches Some(max_tokens) && !(1 <= max_tokens <= MAX_TOKENS)
    }

    pub open spec fn top_k_out_of_range(&self) -> bool {
        self.top_k matches Some(top_k) && !(1 <= top_k <= MAX_TOP_K)
    }

    pub open spec fn content_too_long(&self) -> bool {
        self.content_chars() > MAX_CONTENT_CHARS
    }

    /// The first rule that the request breaks, in the order in which the
    /// rules are checked.
    pub open spec fn violation(&self) -> Option<ValidationError> {
        if self.credentials_empty() {
            Some(ValidationError::EmptyCredentials)
        } else if self.uid_too_long() {
            Some(ValidationError::UidTooLong)
        } else if self.temperature_out_of_range() {
            Some(ValidationError::TemperatureOutOfRange)
        } else if self.max_tokens_out_of_range() {
            Some(ValidationError::MaxTokensOutOfRange)
        } else if self.top_k_out_of_range() {
            Some(ValidationError::TopKOutOfRange)
        } else if self.content_too_long() {
            Some(ValidationError::ContentTooLong)
        } else {
            None
        }
    }

    /// Whether `wire` is the request that is sent for `self`: the new turn
    /// follows the history as a turn of the user, and every parameter is
    /// carried over.
    pub open spec fn sent_as(&self, wire: Request) -> bool {
        &&& wire.header.app_id == self.app_id
        &&& wire.header.uid == self.uid
        &&& wire.parameter.chat.domain == GENERAL
        &&& wire.parameter.chat.temperature == self.temperature
        &&& wire.parameter.chat.max_tokens == self.max_tokens
        &&& wire.parameter.chat.top_k == self.top_k
        &&& wire.parameter.chat.chat_id == self.chat_id
        &&& wire.payload.message.text@ == self.turns().push(
            RequestText { role: Role::User, content: self.content },
        )
    }
}

/// The length of a history is at least that of any of its prefixes.
proof fn lemma_history_chars_grows(history: Seq<RequestText>, n: int)
    requires
        0 <= n <= history.len(),
    ensures
        history_chars(history.take(n)) <= history_chars(history),
    decreases history.len(),
{
    if n == history.len() {
        assert(history.take(n) =~= history);
    } else {
        assert(history.drop_last().take(n) =~= history.take(n));
        lemma_history_chars_grows(history.drop_last(), n);
    }
}

/// The length of `history` in characters, where it is at most `limit`.
fn history_within(history: &Vec<RequestText>, limit: usize) -> (total: Option<usize>)
    ensures
        match total {
            Some(chars) => chars == history_chars(history@) && chars <= limit,
            None => history_chars(history@) > limit,
        },
{
    let mut total: usize = 0;
    let mut i: usize = 0;
    assert(history@.take(0) =~= Seq::empty());
    while i < history.len()
        invariant
            i <= history.len(),
            total == history_chars(history@.take(i as int)),
            total <= limit,
        decreases history.len() - i,
    {
        let chars = history[i].content.as_str().unicode_len();
        proof {
            assert(history@.take(i + 1).drop_last() =~= history@.take(i as int));
            lemma_history_chars_grows(history@, i + 1);
        }
        if chars > limit - total {
            return None;
        }
        total = total + chars;
        i = i + 1;
    }
    assert(history@.take(i as int) =~= history@);
    Some(total)
}

impl SparkRequest {
    /// Checks the request against the bounds of the service, and changes
    /// nothing.
    ///
    /// The rules are checked in a fixed order, and the first that is broken
    /// is reported: the credentials are not empty; `uid` has at most 32
    /// bytes; `temperature` lies within 0 to 1; `max_tokens` within 1 to
    /// 8192; `top_k` within 1 to 6; the history and the content together
    /// have at most 10000 characters.
    pub fn validate(&self) -> (result: Result<(), ValidationError>)
        ensures
            result == match self.violation() {
                Some(error) => Err::<(), ValidationError>(error),
                None => Ok::<(), ValidationError>(()),
            },
    {
        if self.app_id.as_str().is_empty() || self.api_secret.as_str().is_empty()
            || self.api_key.as_str().is_empty() {
            return Err(ValidationError::EmptyCredentials);
        }
        if let Some(uid) = &self.uid {
            if uid.as_str().as_bytes().len() > MAX_UID_BYTES {
                return Err(ValidationError::UidTooLong);
            }
        }
        if let Some(temperature) = self.temperature {
            if !(temperature <= TEMPERATURE_ONE || temperature == TEMPERATURE_NEGATIVE_ZERO) {
                return Err(ValidationError::TemperatureOutOfRange);
            }
        }
        if let Some(max_tokens) = self.max_tokens {
            if !(1 <= max_tokens && max_tokens <= MAX_TOKENS) {
                return Err(ValidationError::MaxTokensOutOfRange);
            }
        }
        if let Some(top_k) = self.top_k {
            if !(1 <= top_k && top_k <= MAX_TOP_K) {
                return Err(ValidationError::TopKOutOfRange);
            }
        }
        let before = match &self.history {
            Some(history) => history_within(history, MAX_CONTENT_CHARS),
            None => Some(0),
        };
        match before {
            Some(chars) => if self.content.as_str().unicode_len() > MAX_CONTENT_CHARS - chars {
                Err(ValidationError::ContentTooLong)
            } else {
                Ok(())
            },
            None => Err(ValidationError::ContentTooLong),
        }
    }
}

impl Request {
    /// Builds the request that is sent for a request that meets every rule:
    /// the new turn follows the history as a turn of the user, under the
    /// model `generalv3`.
    pub(crate) fn build(request: SparkRequest) -> (wire: Request)
        ensures
            request.sent_as(wire),
    {
        let ghost turns = request.turns();
        let mut text = match request.history {
            Some(history) => history,
            None => Vec::new(),
        };
        assert(text@ == turns);
        text.push(RequestText { role: Role::User, content: request.content });

        Request {
            header: RequestHeader { app_id: request.app_id, uid: request.uid },
            parameter: RequestParameter {
                chat: RequestChatConfig {
                    domain: GENERAL,
                    temperature: request.temperature,
                    max_tokens: request.max_tokens,
                    top_k: request.top_k,
                    chat_id: request.chat_id,
                },
            },
            payload: RequestPayload { message: RequestMessage { text } },
        }
    }

    /// Checks a request as [`SparkRequest::validate`] does, and builds the
    /// request that is sent for it: the new turn follows the history as a
    /// turn of the user, under the model `generalv3`.
    pub fn try_from(request: SparkRequest) -> (result: Result<Request, ValidationError>)
        ensures
            match request.violation() {
                Some(error) => result == Err::<Request, ValidationError>(error),
                None => result matches Ok(wire) && request.sent_as(wire),
            },
    {
        match request.validate() {
            Ok(()) => Ok(Request::build(request)),
            Err(error) => Err(error),
        }
    }
}

} // verus!
