//! The chat service: its requests, its frames and its sessions.

pub mod batch;
pub mod data;
pub mod laws;
pub mod session;

pub use data::{
    Request, RequestChatConfig, RequestHeader, RequestMessage, RequestParameter, RequestPayload,
    RequestText, Response, ResponseChoices, ResponseHeader, ResponsePayload, ResponseStatus,
    ResponseText, ResponseTokenStatistics, ResponseUsage, Role, SparkRequest, SparkResponse,
    TokenStatistics,
};

use crate::error::Error;
use crate::xunfei::{signable, signing, try_authorization, SignedUrl, Signing};
use vstd::prelude::*;

verus! {

/// The endpoint of the chat service.
pub const URL: &'static str = "wss://spark-api.xf-yun.com/v3.1/chat";

/// What is needed to open a chat session: where to connect, and what to
/// send.
#[derive(Clone, Debug, PartialEq, Eq)]
pub struct Prepared {
    pub url: SignedUrl,
    pub request: Request,
}

/// What preparing a request comes to. The request is checked first; only a
/// request that meets every rule is signed.
pub open spec fn prepared_as(
    request: SparkRequest,
    unix_seconds: int,
    result: Option<Result<Prepared, Error>>,
) -> bool {
    match request.violation() {
        Some(error) => result == Some(Err::<Prepared, Error>(Error::Validation(error))),
        None => if !signable(URL@, request.api_secret@, request.api_key@, unix_seconds) {
            result is None
        } else {
            match signing(URL@, request.api_secret@, request.api_key@, unix_seconds) {
                Signing::BadUrl => result == Some(Err::<Prepared, Error>(Error::Url)),
                Signing::BadTime => result == Some(Err::<Prepared, Error>(Error::Format)),
                Signing::Signed(signed) => result matches Some(Ok(prepared)) && prepared.url@
                    == signed && request.sent_as(prepared.request),
            }
        },
    }
}

/// Checks a request, builds what is sent for it and signs the endpoint for
/// the instant `unix_seconds` after the Unix epoch with the secret and the
/// key of the request.
///
/// A request that breaks a rule is rejected and nothing is signed. `None`
/// where the signed endpoint would pass the limits of a URL.
pub fn prepare(request: SparkRequest, unix_seconds: i64) -> (result: Option<Result<Prepared, Error>>)
    ensures
        prepared_as(request, unix_seconds as int, result),
{
    if let Err(error) = request.validate() {
        return Some(Err(Error::Validation(error)));
    }
    let signed = try_authorization(
        URL,
        request.api_secret.as_str(),
        request.api_key.as_str(),
        unix_seconds,
    );
    match signed {
        None => None,
        Some(Err(error)) => Some(Err(Error::from_signing(&error))),
        Some(Ok(url)) => Some(Ok(Prepared { url, request: Request::build(request) })),
    }
}

} // verus!
