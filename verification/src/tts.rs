//! The text-to-speech service: its requests, its frames and its sessions.

pub mod data;
pub mod laws;
pub mod session;

pub use data::{
    Aue, Auf, Bgs, Rdn, Reg, Request, RequestBusiness, RequestCommon, RequestData, Response,
    ResponseData, Sfl, Status, Tte, TtsRequest,
};

use crate::error::Error;
use crate::session::Delivery;
use crate::xunfei::{signable, signing, try_authorization, SignedUrl, Signing};
use vstd::prelude::*;

verus! {

/// The endpoint of the text-to-speech service.
pub const URL: &'static str = "wss://tts-api.xfyun.cn/v2/tts";

/// What is needed to open a text-to-speech session: where to connect, what
/// to send, and how the audio is handed over.
#[derive(Clone, Debug, PartialEq, Eq)]
pub struct Prepared {
    pub url: SignedUrl,
    pub request: Request,
    pub delivery: Delivery,
}

/// What preparing a request comes to. The request is checked first; only a
/// request that meets every rule is signed.
pub open spec fn prepared_as(
    request: TtsRequest,
    unix_seconds: int,
    result: Option<Result<Prepared, Error>>,
) -> bool {
    match request.violation() {
        Some(error) => result == Some(Err::<Prepared, Error>(Error::Validation(error))),
        None => if !signable(URL@, request.api_secret@, request.api_key@, unix_seconds) {
            result is None
        } else {
            match signing(URL@, request.api_secret@, request.api_key@, unix_seconds) {
                Signing::BadUrl => result == Some(Err::<Prepared, Error>(Error::Url)),
                Signing::BadTime => result == Some(Err::<Prepared, Error>(Error::Format)),
                Signing::Signed(signed) => result matches Some(Ok(prepared)) && prepared.url@
                    == signed && request.sent_as(prepared.request) && prepared.delivery
                    == request.spec_delivery(),
            }
        },
    }
}

/// Checks a request, builds what is sent for it and signs the endpoint for
/// the instant `unix_seconds` after the Unix epoch with the secret and the
/// key of the request.
///
/// A request that breaks a rule is rejected and nothing is signed. `None`
/// where the signed endpoint would pass the limits of a URL.
pub fn prepare(request: TtsRequest, unix_seconds: i64) -> (result: Option<Result<Prepared, Error>>)
    ensures
        prepared_as(request, unix_seconds as int, result),
{
    if let Err(error) = request.validate() {
        return Some(Err(Error::Validation(error)));
    }
    let delivery = request.delivery();
    let signed = try_authorization(
        URL,
        request.api_secret.as_str(),
        request.api_key.as_str(),
        unix_seconds,
    );
    match signed {
        None => None,
        Some(Err(error)) => Some(Err(Error::from_signing(&error))),
        Some(Ok(url)) => Some(Ok(Prepared { url, request: Request::build(request), delivery })),
    }
}

} // verus!
