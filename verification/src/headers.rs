//! Header fields of requests and responses, in the header map of `http`.
use crate::codec;
use crate::text;
use vstd::prelude::*;

verus! {

/// `http::HeaderValue`, of which nothing is known by itself.
#[verifier::external_type_specification]
#[verifier::external_body]
pub struct ExHeaderValue(http::HeaderValue);

/// `http::HeaderMap`, of which nothing is known but what `header_lines` names.
#[verifier::external_type_specification]
#[verifier::external_body]
#[verifier::reject_recursive_types(T)]
pub struct ExHeaderMap<T>(http::HeaderMap<T>);

/// The header fields of a message.
pub type Headers = http::HeaderMap<http::HeaderValue>;

/// What a header map holds: for each name that it has, in lower case, the
/// values in order.
pub uninterp spec fn header_lines(headers: Headers) -> Map<Seq<char>, Seq<Seq<u8>>>;

/// Whether each byte is a tab or a visible ASCII character.
pub open spec fn visible(bytes: Seq<u8>) -> bool {
    forall|i: int|
        0 <= i < bytes.len() ==> (#[trigger] bytes[i] == 9 || 32 <= bytes[i] < 127)
}

/// The text that ASCII bytes are.
pub open spec fn ascii_text(bytes: Seq<u8>) -> Seq<char> {
    bytes.map_values(|byte: u8| byte as char)
}

/// The first value of a name as a text, if there is one and it is a text.
pub open spec fn text_line(lines: Map<Seq<char>, Seq<Seq<u8>>>, name: Seq<char>) -> Option<
    Seq<char>,
> {
    if lines.contains_key(name) && visible(lines[name][0]) {
        Some(ascii_text(lines[name][0]))
    } else {
        None
    }
}

/// `http::HeaderMap::contains_key`: names are compared in lower case.
#[verifier::external_body]
pub(crate) fn has_header(headers: &Headers, name: &str) -> (r: bool)
    ensures
        r == header_lines(*headers).contains_key(text::lowered(name@)),
{
    headers.contains_key(name)
}

/// `http::HeaderMap::get` gives the first value of a name, compared in lower
/// case; `http::HeaderValue::to_str` gives its text where it is made of visible
/// ASCII characters and tabs.
#[verifier::external_body]
pub(crate) fn header_text(headers: &Headers, name: &str) -> (r: Option<String>)
    ensures
        codec::text_option(r) == text_line(header_lines(*headers), text::lowered(name@)),
{
    headers.get(name).and_then(|value| value.to_str().ok()).map(str::to_owned)
}

/// `http::HeaderMap::remove` takes out a name with all its values, compared in
/// lower case, and keeps the others.
#[verifier::external_body]
pub(crate) fn take_header(headers: &mut Headers, name: &str)
    ensures
        header_lines(*final(headers)) == header_lines(*old(headers)).remove(text::lowered(name@)),
{
    headers.remove(name);
}

/// `http::HeaderMap::clone` keeps what the map holds.
#[verifier::external_body]
pub(crate) fn copy_headers(headers: &Headers) -> (r: Headers)
    ensures
        header_lines(r) == header_lines(*headers),
{
    headers.clone()
}

} // verus!
