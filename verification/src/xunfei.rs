//! Request signing for the iFlytek open platform.
//!
//! A request is authorised by three query parameters appended to the target
//! URL: `authorization`, `date` and `host`. The authorization is the base64
//! text of a credential string, which carries the API key and the base64
//! text of an HMAC-SHA256 code. The code is taken, under the API secret, over
//! a three-line header made of the host, the date and the request line.
//!
//! URL parsing and date formatting are done by the `url` and `time` crates.
//! Their results have names here, and the contracts of this module are
//! stated over those names.

use crate::codec::{base64_len, base64_text, encode, hmac_sha256, mac};
use time::format_description::well_known::Rfc2822;
use time::OffsetDateTime;
use url::Url;
use vstd::prelude::*;
use vstd::utf8::encode_utf8;

verus! {

#[verifier::external_type_specification]
#[verifier::external_body]
pub struct ExFormatError(time::error::Format);

#[verifier::external_type_specification]
#[verifier::external_body]
pub struct ExParseError(url::ParseError);

/// Why a target could not be signed.
#[derive(Debug)]
pub enum Error {
    /// The signing time cannot be written as an RFC 2822 date.
    TimeFormatError(time::error::Format),
    /// The target is not an absolute URL, or has no host.
    UrlParseError(url::ParseError),
}

/// The first second that has an RFC 2822 date: the start of the year 1900.
pub const RFC2822_FIRST: i64 = -2_208_988_800;

/// The last second that has an RFC 2822 date: the end of the year 9999.
pub const RFC2822_LAST: i64 = 253_402_300_799;

/// What signing reads of a parsed URL.
pub struct UrlParts {
    /// The URL as the parser writes it back.
    pub href: Seq<char>,
    /// The host as it stands in `href`, where the URL has one.
    pub host: Option<Seq<char>>,
    /// The path as it stands in `href`.
    pub path: Seq<char>,
}

/// The parts of `input` parsed as an absolute URL, or `None` where it is not
/// one.
pub uninterp spec fn parsed_url(input: Seq<char>) -> Option<UrlParts>;

/// The RFC 2822 date, in UTC, of the instant `unix_seconds` after the Unix
/// epoch, or `None` where that instant has no such date.
pub uninterp spec fn rfc2822_date(unix_seconds: int) -> Option<Seq<char>>;

/// `input` parsed as an absolute URL, `params` appended to its query as
/// form-urlencoded pairs, and the whole written back; `None` where `input`
/// is no absolute URL.
pub uninterp spec fn url_with_params(
    input: Seq<char>,
    params: Seq<(Seq<char>, Seq<char>)>,
) -> Option<Seq<char>>;

/// A parsed target URL.
struct Target {
    href: String,
    host: Option<String>,
    path: String,
}

impl View for Target {
    type V = UrlParts;

    closed spec fn view(&self) -> UrlParts {
        UrlParts {
            href: self.href@,
            host: match self.host {
                Some(host) => Some(host@),
                None => None,
            },
            path: self.path@,
        }
    }
}

/// The views of a list of query parameters.
pub open spec fn params_view(params: Seq<(String, String)>) -> Seq<(Seq<char>, Seq<char>)> {
    Seq::new(params.len(), |i: int| (params[i].0@, params[i].1@))
}

/// An upper bound on the bytes that `params` add to a query: each byte of a
/// key or a value is written as at most three, and each pair brings a
/// separator and an equals sign.
pub open spec fn query_bound(params: Seq<(Seq<char>, Seq<char>)>) -> nat
    decreases params.len(),
{
    if params.len() == 0 {
        0
    } else {
        query_bound(params.drop_last()) + 2 + 3 * encode_utf8(params.last().0).len() + 3
            * encode_utf8(params.last().1).len()
    }
}

/// Whether `params` can be appended to a URL that is written back as `href`:
/// a URL addresses its parts by 32-bit offsets.
pub open spec fn params_fit(href: Seq<char>, params: Seq<(Seq<char>, Seq<char>)>) -> bool {
    encode_utf8(href).len() + 1 + query_bound(params) <= u32::MAX
}

/// `Url::parse` of the crate `url`, with `Url::as_str`, `Url::host_str` and
/// `Url::path` of the URL it returns.
///
/// Believed: the call succeeds exactly where `parsed_url` of the input is
/// defined, and the three texts are then the parts that it names.
#[verifier::external_body]
fn parse_target(input: &str) -> (parsed: Result<Target, url::ParseError>)
    ensures
        match parsed {
            Ok(target) => parsed_url(input@) == Some(target@),
            Err(_) => parsed_url(input@) is None,
        },
{
    let url = Url::parse(input)?;
    Ok(
        Target {
            href: url.as_str().to_owned(),
            host: url.host_str().map(str::to_owned),
            path: url.path().to_owned(),
        },
    )
}

/// The variant `EmptyHost` of `url::ParseError`, which says that a URL has
/// no host.
#[verifier::external_body]
fn empty_host() -> url::ParseError {
    url::ParseError::EmptyHost
}

/// `OffsetDateTime::format` of the crate `time` with the format `Rfc2822`,
/// on the instant that `OffsetDateTime::from_unix_timestamp` makes of the
/// argument.
///
/// Believed: the call succeeds exactly where `rfc2822_date` of the argument
/// is defined, and then returns that text. The format takes the years 1900
/// to 9999, so the call succeeds exactly from `RFC2822_FIRST` to
/// `RFC2822_LAST`.
#[verifier::external_body]
fn format_date(unix_seconds: i64) -> (date: Result<String, time::error::Format>)
    ensures
        match date {
            Ok(text) => rfc2822_date(unix_seconds as int) == Some(text@),
            Err(_) => rfc2822_date(unix_seconds as int) is None,
        },
        date is Ok <==> RFC2822_FIRST <= unix_seconds <= RFC2822_LAST,
{
    OffsetDateTime::from_unix_timestamp(unix_seconds)?.format(&Rfc2822)
}

/// `Url::parse_with_params` of the crate `url`, with the URL it returns
/// converted to its text.
///
/// Believed: the call succeeds exactly where the input parses, and then
/// returns `url_with_params` of the input and the parameters. The crate
/// panics where an offset into the URL does not fit 32 bits, which the
/// precondition leaves out.
#[verifier::external_body]
fn append_params(input: &str, params: &Vec<(String, String)>) -> (appended: Result<
    String,
    url::ParseError,
>)
    requires
        parsed_url(input@) matches Some(parts) ==> params_fit(parts.href, params_view(params@)),
    ensures
        match appended {
            Ok(text) => url_with_params(input@, params_view(params@)) == Some(text@),
            Err(_) => url_with_params(input@, params_view(params@)) is None,
        },
        appended is Ok <==> parsed_url(input@) is Some,
{
    Url::parse_with_params(input, params).map(String::from)
}

/// The three lines that are signed.
pub open spec fn signing_header(host: Seq<char>, date: Seq<char>, path: Seq<char>) -> Seq<char> {
    "host: "@ + host + "\ndate: "@ + date + "\nGET "@ + path + " HTTP/1.1"@
}

/// The base64 text of the authentication code of the signing header under
/// `api_secret`.
pub open spec fn signature(
    host: Seq<char>,
    date: Seq<char>,
    path: Seq<char>,
    api_secret: Seq<char>,
) -> Seq<char> {
    base64_text(hmac_sha256(encode_utf8(signing_header(host, date, path)), encode_utf8(api_secret)))
}

/// The credential string that names the key, the algorithm, the signed
/// header fields and the signature.
pub open spec fn credential(api_key: Seq<char>, signature: Seq<char>) -> Seq<char> {
    "api_key=\""@ + api_key
        + "\", algorithm=\"hmac-sha256\", headers=\"host date request-line\", signature=\""@
        + signature + "\""@
}

/// The query parameters that signing appends, in their order.
pub open spec fn signed_params(authorization: Seq<char>, date: Seq<char>, host: Seq<char>) -> Seq<
    (Seq<char>, Seq<char>),
> {
    seq![("authorization"@, authorization), ("date"@, date), ("host"@, host)]
}

/// A signed URL as a value of specifications.
pub struct SignedUrlView {
    pub href: Seq<char>,
    pub authorization: Seq<char>,
    pub date: Seq<char>,
    pub host: Seq<char>,
}

/// A connection target with its three authorising query parameters.
#[derive(Clone, Debug, PartialEq, Eq)]
pub struct SignedUrl {
    href: String,
    authorization: String,
    date: String,
    host: String,
}

impl View for SignedUrl {
    type V = SignedUrlView;

    closed spec fn view(&self) -> SignedUrlView {
        SignedUrlView {
            href: self.href@,
            authorization: self.authorization@,
            date: self.date@,
            host: self.host@,
        }
    }
}

impl SignedUrl {
    /// The whole URL, with the three parameters in its query.
    pub fn as_str(&self) -> (text: &str)
        ensures
            text@ == self@.href,
    {
        self.href.as_str()
    }

    /// The value of the parameter `authorization`, before URL encoding.
    pub fn authorization(&self) -> (text: &str)
        ensures
            text@ == self@.authorization,
    {
        self.authorization.as_str()
    }

    /// The value of the parameter `date`, before URL encoding.
    pub fn date(&self) -> (text: &str)
        ensures
            text@ == self@.date,
    {
        self.date.as_str()
    }

    /// The value of the parameter `host`.
    pub fn host(&self) -> (text: &str)
        ensures
            text@ == self@.host,
    {
        self.host.as_str()
    }
}

/// What signing comes to, as a function of its four inputs.
pub enum Signing {
    /// The target is signed.
    Signed(SignedUrlView),
    /// The target is no absolute URL, or has no host.
    BadUrl,
    /// The instant has no RFC 2822 date.
    BadTime,
}

/// The signed URL for a host, a path and a date that are known.
pub open spec fn signed_view(
    url: Seq<char>,
    host: Seq<char>,
    path: Seq<char>,
    date: Seq<char>,
    api_secret: Seq<char>,
    api_key: Seq<char>,
) -> SignedUrlView {
    let authorization = base64_text(
        encode_utf8(credential(api_key, signature(host, date, path, api_secret))),
    );
    SignedUrlView {
        href: url_with_params(url, signed_params(authorization, date, host)).unwrap(),
        authorization,
        date,
        host,
    }
}

/// The outcome of signing `url` at `unix_seconds` with a secret and a key.
/// The URL is judged first, then the time.
pub open spec fn signing(
    url: Seq<char>,
    api_secret: Seq<char>,
    api_key: Seq<char>,
    unix_seconds: int,
) -> Signing {
    match parsed_url(url) {
        None => Signing::BadUrl,
        Some(parts) => match parts.host {
            None => Signing::BadUrl,
            Some(host) => match rfc2822_date(unix_seconds) {
                None => Signing::BadTime,
                Some(date) => Signing::Signed(
                    signed_view(url, host, parts.path, date, api_secret, api_key),
                ),
            },
        },
    }
}

/// Whether `result` is the outcome of signing the four inputs.
pub open spec fn signed_as(
    url: Seq<char>,
    api_secret: Seq<char>,
    api_key: Seq<char>,
    unix_seconds: int,
    result: Result<SignedUrl, Error>,
) -> bool {
    match signing(url, api_secret, api_key, unix_seconds) {
        Signing::Signed(signed) => result matches Ok(found) && found@ == signed,
        Signing::BadUrl => result matches Err(Error::UrlParseError(_)),
        Signing::BadTime => result matches Err(Error::TimeFormatError(_)),
    }
}

/// Whether the signed URL of the four inputs stays within what a URL can
/// address and what a base64 text can hold. Inputs that are not signed at
/// all are within the limits.
pub open spec fn signable(
    url: Seq<char>,
    api_secret: Seq<char>,
    api_key: Seq<char>,
    unix_seconds: int,
) -> bool {
    match (parsed_url(url), rfc2822_date(unix_seconds)) {
        (Some(parts), Some(date)) => parts.host matches Some(host) ==> {
            let plain = credential(api_key, signature(host, date, parts.path, api_secret));
            &&& base64_len(encode_utf8(plain).len()) <= usize::MAX
            &&& params_fit(
                parts.href,
                signed_params(base64_text(encode_utf8(plain)), date, host),
            )
        },
        _ => true,
    }
}

/// Builds the signing header and signs it.
fn sign_header(host: &str, date: &str, path: &str, api_secret: &str) -> (text: String)
    ensures
        text@ == signature(host@, date@, path@, api_secret@),
{
    let mut header = String::from_str("host: ");
    header.append(host);
    header.append("\ndate: ");
    header.append(date);
    header.append("\nGET ");
    header.append(path);
    header.append(" HTTP/1.1");
    assert(header@ == signing_header(host@, date@, path@));
    let code = mac(header.as_str().as_bytes(), api_secret.as_bytes());
    encode(code.as_slice())
}

/// Builds the credential string.
fn build_credential(api_key: &str, signature: &str) -> (text: String)
    ensures
        text@ == credential(api_key@, signature@),
{
    let mut text = String::from_str("api_key=\"");
    text.append(api_key);
    text.append("\", algorithm=\"hmac-sha256\", headers=\"host date request-line\", signature=\"");
    text.append(signature);
    text.append("\"");
    text
}

/// The three parameters as a list.
fn build_params(authorization: &str, date: &str, host: &str) -> (params: Vec<(String, String)>)
    ensures
        params_view(params@) == signed_params(authorization@, date@, host@),
{
    let mut params: Vec<(String, String)> = Vec::new();
    params.push((String::from_str("authorization"), String::from_str(authorization)));
    params.push((String::from_str("date"), String::from_str(date)));
    params.push((String::from_str("host"), String::from_str(host)));
    assert(params_view(params@) =~= signed_params(authorization@, date@, host@));
    params
}

/// Whether `len` bytes have a base64 text whose length fits `usize`.
fn encodable(len: usize) -> (fits: bool)
    ensures
        fits == (base64_len(len as nat) <= usize::MAX),
{
    let groups: usize = len / 3 + if len % 3 == 0 {
        0
    } else {
        1
    };
    assert(groups == (len + 2) / 3);
    groups <= usize::MAX / 4
}

/// Whether `params` can be appended to a URL of `href_len` bytes.
fn fits_url(href_len: usize, params: &Vec<(String, String)>) -> (fits: bool)
    ensures
        fits == (href_len + 1 + query_bound(params_view(params@)) <= u32::MAX),
{
    let limit: u128 = 0xffff_ffff;
    let mut total: u128 = href_len as u128 + 1;
    let mut i: usize = 0;
    assert(params_view(params@).take(0) =~= Seq::empty());
    while i < params.len() && total <= limit
        invariant
            i <= params.len(),
            limit == u32::MAX,
            total == href_len + 1 + query_bound(params_view(params@).take(i as int)),
        decreases params.len() - i,
    {
        let key_len: u128 = params[i].0.as_str().as_bytes().len() as u128;
        let value_len: u128 = params[i].1.as_str().as_bytes().len() as u128;
        proof {
            let all = params_view(params@);
            assert(all.take(i + 1).drop_last() =~= all.take(i as int));
            assert(all.take(i + 1).last() == all[i as int]);
        }
        total = total + 2 + 3 * key_len + 3 * value_len;
        i = i + 1;
    }
    proof {
        let all = params_view(params@);
        if i == params.len() {
            assert(all.take(i as int) =~= all);
        } else {
            lemma_query_bound_grows(all, i as int);
        }
    }
    total <= limit
}

/// The bound of a list is at least that of any of its prefixes.
proof fn lemma_query_bound_grows(params: Seq<(Seq<char>, Seq<char>)>, n: int)
    requires
        0 <= n <= params.len(),
    ensures
        query_bound(params.take(n)) <= query_bound(params),
    decreases params.len(),
{
    if n == params.len() {
        assert(params.take(n) =~= params);
    } else {
        assert(params.drop_last().take(n) =~= params.take(n));
        lemma_query_bound_grows(params.drop_last(), n);
    }
}

/// Whether the four inputs can be handed to [`authorization`].
pub fn is_signable(url: &str, api_secret: &str, api_key: &str, unix_seconds: i64) -> (fits: bool)
    ensures
        fits == signable(url@, api_secret@, api_key@, unix_seconds as int),
{
    let target = match parse_target(url) {
        Ok(target) => target,
        Err(_) => {
            return true;
        },
    };
    let date = match format_date(unix_seconds) {
        Ok(date) => date,
        Err(_) => {
            return true;
        },
    };
    let host = match &target.host {
        Some(host) => host,
        None => {
            return true;
        },
    };
    let signature = sign_header(host.as_str(), date.as_str(), target.path.as_str(), api_secret);
    let plain = build_credential(api_key, signature.as_str());
    if !encodable(plain.as_str().as_bytes().len()) {
        return false;
    }
    let authorization = encode(plain.as_str().as_bytes());
    let params = build_params(authorization.as_str(), date.as_str(), host.as_str());
    fits_url(target.href.as_str().as_bytes().len(), &params)
}

/// Signs `url` for the instant `unix_seconds` after the Unix epoch.
///
/// The result is the target with the parameters `authorization`, `date` and
/// `host` appended to its query, in that order; parameters that the target
/// has already are kept. The call fails with `UrlParseError` where the
/// target is no absolute URL or has no host, else with `TimeFormatError`
/// where the instant lies outside the years 1900 to 9999.
///
/// The inputs must be [`signable`]: [`try_authorization`] tests that first.
pub fn authorization(url: &str, api_secret: &str, api_key: &str, unix_seconds: i64) -> (result:
    Result<SignedUrl, Error>)
    requires
        signable(url@, api_secret@, api_key@, unix_seconds as int),
    ensures
        signed_as(url@, api_secret@, api_key@, unix_seconds as int, result),
        result is Ok ==> RFC2822_FIRST <= unix_seconds <= RFC2822_LAST,
        result matches Err(Error::TimeFormatError(_)) ==> !(RFC2822_FIRST <= unix_seconds
            <= RFC2822_LAST),
{
    let target = match parse_target(url) {
        Ok(target) => target,
        Err(e) => {
            return Err(Error::UrlParseError(e));
        },
    };
    let host = match target.host {
        Some(host) => host,
        None => {
            return Err(Error::UrlParseError(empty_host()));
        },
    };
    let date = match format_date(unix_seconds) {
        Ok(date) => date,
        Err(e) => {
            return Err(Error::TimeFormatError(e));
        },
    };
    let signature = sign_header(host.as_str(), date.as_str(), target.path.as_str(), api_secret);
    let plain = build_credential(api_key, signature.as_str());
    let authorization = encode(plain.as_str().as_bytes());
    let params = build_params(authorization.as_str(), date.as_str(), host.as_str());
    match append_params(url, &params) {
        Ok(href) => Ok(SignedUrl { href, authorization, date, host }),
        Err(e) => Err(Error::UrlParseError(e)),
    }
}

/// Signs `url` as [`authorization`] does, for any inputs: `None` where the
/// signed URL would pass the limits of [`signable`].
pub fn try_authorization(url: &str, api_secret: &str, api_key: &str, unix_seconds: i64) -> (result:
    Option<Result<SignedUrl, Error>>)
    ensures
        result is Some <==> signable(url@, api_secret@, api_key@, unix_seconds as int),
        result matches Some(signed) ==> {
            &&& signed_as(url@, api_secret@, api_key@, unix_seconds as int, signed)
            &&& signed is Ok ==> RFC2822_FIRST <= unix_seconds <= RFC2822_LAST
            &&& signed matches Err(Error::TimeFormatError(_)) ==> !(RFC2822_FIRST <= unix_seconds
                <= RFC2822_LAST)
        },
{
    if is_signable(url, api_secret, api_key, unix_seconds) {
        Some(authorization(url, api_secret, api_key, unix_seconds))
    } else {
        None
    }
}

/// Signing is a function of its inputs: any two results of signing the same
/// target with the same secret and the same key at the same instant are the
/// same signed URL, character for character, or failures of the same kind.
pub proof fn lemma_signing_is_deterministic(
    url: Seq<char>,
    api_secret: Seq<char>,
    api_key: Seq<char>,
    unix_seconds: int,
    first: Result<SignedUrl, Error>,
    second: Result<SignedUrl, Error>,
)
    requires
        signed_as(url, api_secret, api_key, unix_seconds, first),
        signed_as(url, api_secret, api_key, unix_seconds, second),
    ensures
        first matches Ok(one) ==> second matches Ok(other) && one@ == other@,
        first matches Err(Error::UrlParseError(_)) ==> second matches Err(Error::UrlParseError(_)),
        first matches Err(Error::TimeFormatError(_)) ==> second matches Err(
            Error::TimeFormatError(_),
        ),
{
}

/// A credential string shows the key and the signature that it was made of:
/// two credential strings with signatures of one length are equal only
/// where the keys are equal and the signatures are equal.
pub proof fn lemma_credential_shows_key_and_signature(
    first_key: Seq<char>,
    first_signature: Seq<char>,
    second_key: Seq<char>,
    second_signature: Seq<char>,
)
    requires
        credential(first_key, first_signature) == credential(second_key, second_signature),
        first_signature.len() == second_signature.len(),
    ensures
        first_key == second_key,
        first_signature == second_signature,
{
    let head = "api_key=\""@;
    let middle =
        "\", algorithm=\"hmac-sha256\", headers=\"host date request-line\", signature=\""@;
    let first = credential(first_key, first_signature);
    let second = credential(second_key, second_signature);
    let tail = "\""@;
    assert(first.len() == head.len() + first_key.len() + middle.len() + first_signature.len()
        + tail.len());
    assert(second.len() == head.len() + second_key.len() + middle.len() + second_signature.len()
        + tail.len());
    assert forall|i: int| 0 <= i < first_key.len() implies first_key[i] == second_key[i] by {
        assert(first[head.len() + i] == first_key[i]);
        assert(second[head.len() + i] == second_key[i]);
    }
    assert(first_key =~= second_key);
    let before = head.len() + first_key.len() + middle.len();
    assert forall|i: int| 0 <= i < first_signature.len() implies first_signature[i]
        == second_signature[i] by {
        assert(first[before + i] == first_signature[i]);
        assert(second[before + i] == second_signature[i]);
    }
    assert(first_signature =~= second_signature);
}

} // verus!
