//! Base64 and HMAC-SHA256, as computed by the `base64` and `hmac-sha256`
//! crates.
//!
//! Neither algorithm is restated here. Each result has a name, and the
//! functions of this module are believed to return what the name stands for.

use base64::engine::general_purpose::STANDARD;
use base64::engine::Engine;
use hmac_sha256::HMAC;
use vstd::prelude::*;

verus! {

/// The standard-alphabet, padded base64 text of `bytes`.
pub uninterp spec fn base64_text(bytes: Seq<u8>) -> Seq<char>;

/// The bytes that the standard-alphabet, padded base64 text `text` stands
/// for, or `None` where `text` is not canonical base64.
pub uninterp spec fn base64_bytes(text: Seq<char>) -> Option<Seq<u8>>;

/// The HMAC-SHA256 authentication code of `message` under `key`.
pub uninterp spec fn hmac_sha256(message: Seq<u8>, key: Seq<u8>) -> Seq<u8>;

/// The length of the padded base64 text of `len` bytes.
pub open spec fn base64_len(len: nat) -> nat {
    4 * ((len + 2) / 3)
}

#[verifier::external_type_specification]
#[verifier::external_body]
pub struct ExDecodeError(base64::DecodeError);

/// `Engine::encode` of the crate `base64`, on its `STANDARD` engine.
///
/// Believed: the text returned is `base64_text` of the input. The crate
/// panics where the length of the text does not fit `usize`, which the
/// precondition leaves out.
#[verifier::external_body]
pub(crate) fn encode(input: &[u8]) -> (text: String)
    requires
        base64_len(input@.len()) <= usize::MAX,
    ensures
        text@ == base64_text(input@),
{
    STANDARD.encode(input)
}

/// `Engine::decode` of the crate `base64`, on its `STANDARD` engine.
///
/// Believed: the call succeeds exactly where `base64_bytes` of the input is
/// defined, and then returns those bytes.
#[verifier::external_body]
pub(crate) fn decode(input: &str) -> (decoded: Result<Vec<u8>, base64::DecodeError>)
    ensures
        match decoded {
            Ok(bytes) => base64_bytes(input@) == Some(bytes@),
            Err(_) => base64_bytes(input@) is None,
        },
{
    STANDARD.decode(input)
}

/// `HMAC::mac` of the crate `hmac-sha256`.
///
/// Believed: the code returned is `hmac_sha256` of the message and the key,
/// and is 32 bytes long.
#[verifier::external_body]
pub(crate) fn mac(message: &[u8], key: &[u8]) -> (code: Vec<u8>)
    ensures
        code@ == hmac_sha256(message@, key@),
        code@.len() == 32,
{
    HMAC::mac(message, key).to_vec()
}

} // verus!
