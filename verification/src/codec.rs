//! Texts that outside crates and the standard library make or read: base64,
//! URLs, status lines and quoted strings.
use vstd::prelude::*;

verus! {

/// The base64 text of some bytes: the result of `STANDARD.encode`.
pub uninterp spec fn base64_text(bytes: Seq<u8>) -> Seq<char>;

/// The bytes of a base64 text, if it is one: the result of `STANDARD.decode`.
pub uninterp spec fn base64_bytes(text: Seq<char>) -> Option<Seq<u8>>;

/// A URL in its normal form, if the text is one: the result of `Url::parse`.
pub uninterp spec fn url_text(text: Seq<char>) -> Option<Seq<char>>;

/// The scheme of a URL: the result of `Url::scheme`.
pub uninterp spec fn url_scheme(text: Seq<char>) -> Option<Seq<char>>;

/// The host of a URL, if it has one: the result of `Url::host_str`.
pub uninterp spec fn url_host(text: Seq<char>) -> Option<Seq<char>>;

/// The port of a URL, or the one its scheme implies: the result of
/// `Url::port_or_known_default`.
pub uninterp spec fn url_port(text: Seq<char>) -> Option<u16>;

/// A reference resolved against a URL: the result of `Url::join`.
pub uninterp spec fn url_joined(base: Seq<char>, reference: Seq<char>) -> Option<Seq<char>>;

/// A status code with its reason: the result of `StatusCode::to_string`.
pub uninterp spec fn status_line(code: u16) -> Seq<char>;

/// A text in quotes, with escapes: the result of formatting a `str` with
/// `{:?}`.
pub uninterp spec fn quoted(text: Seq<char>) -> Seq<char>;

/// What an optional string holds.
pub open spec fn text_option(text: Option<String>) -> Option<Seq<char>> {
    match text {
        Some(text) => Some(text@),
        None => None,
    }
}

/// What optional bytes hold.
pub open spec fn bytes_option(bytes: Option<Vec<u8>>) -> Option<Seq<u8>> {
    match bytes {
        Some(bytes) => Some(bytes@),
        None => None,
    }
}

/// `encode` of the standard base64 engine: its result is a function of the
/// bytes alone, here under the name `base64_text`, and it decodes to them. A
/// text of more than `isize::MAX` bytes cannot be made.
#[verifier::external_body]
pub(crate) fn encode_base64(bytes: &[u8]) -> (r: String)
    requires
        bytes@.len() <= usize::MAX / 4,
    ensures
        r@ == base64_text(bytes@),
        base64_bytes(r@) == Some(bytes@),
{
    base64::Engine::encode(&base64::engine::general_purpose::STANDARD, bytes)
}

/// `decode` of the standard base64 engine: its result is a function of the
/// text alone, here under the name `base64_bytes`.
#[verifier::external_body]
pub(crate) fn decode_base64(text: &str) -> (r: Option<Vec<u8>>)
    ensures
        bytes_option(r) == base64_bytes(text@),
{
    base64::Engine::decode(&base64::engine::general_purpose::STANDARD, text).ok()
}

/// `reqwest::Url::parse`: its result is a function of the text alone, here
/// under the name `url_text`.
#[verifier::external_body]
pub(crate) fn parse_url(text: &str) -> (r: Option<String>)
    ensures
        text_option(r) == url_text(text@),
{
    reqwest::Url::parse(text).ok().map(String::from)
}

/// `reqwest::Url::scheme` of the URL that `text` is: a function of the text
/// alone, here under the name `url_scheme`.
#[verifier::external_body]
pub(crate) fn scheme_of_url(text: &str) -> (r: Option<String>)
    ensures
        text_option(r) == url_scheme(text@),
{
    reqwest::Url::parse(text).ok().map(|url| url.scheme().to_owned())
}

/// `reqwest::Url::host_str` of the URL that `text` is: a function of the text
/// alone, here under the name `url_host`.
#[verifier::external_body]
pub(crate) fn host_of_url(text: &str) -> (r: Option<String>)
    ensures
        text_option(r) == url_host(text@),
{
    reqwest::Url::parse(text).ok().and_then(|url| url.host_str().map(str::to_owned))
}

/// `reqwest::Url::port_or_known_default` of the URL that `text` is: a function
/// of the text alone, here under the name `url_port`.
#[verifier::external_body]
pub(crate) fn port_of_url(text: &str) -> (r: Option<u16>)
    ensures
        r == url_port(text@),
{
    reqwest::Url::parse(text).ok().and_then(|url| url.port_or_known_default())
}

/// `reqwest::Url::join` on the URL that `base` is: a function of both texts
/// alone, here under the name `url_joined`.
#[verifier::external_body]
pub(crate) fn join_url(base: &str, reference: &str) -> (r: Option<String>)
    ensures
        text_option(r) == url_joined(base@, reference@),
{
    reqwest::Url::parse(base).ok().and_then(|url| url.join(reference).ok()).map(String::from)
}

/// The `Display` form of `http::StatusCode`: a function of the code alone,
/// here under the name `status_line`. A status code has three digits.
#[verifier::external_body]
pub(crate) fn status_text(code: u16) -> (r: String)
    requires
        100 <= code <= 999,
    ensures
        r@ == status_line(code),
{
    http::StatusCode::from_u16(code).map(|status| status.to_string()).unwrap_or_default()
}

/// The `Debug` form of a `str`: a function of the text alone, here under the
/// name `quoted`.
#[verifier::external_body]
pub(crate) fn quote(text: &str) -> (r: String)
    ensures
        r@ == quoted(text@),
{
    format!("{:?}", text)
}

} // verus!
