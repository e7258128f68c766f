//! Media of chat requests: where it stands, which of it is accepted, and how
//! a remote image is fetched step by step.
use crate::codec;
use crate::json::{self, JsonMap, JsonView};
use crate::preprocessing::{self, Complaint, PreprocessError};
use crate::text;
use crate::transform;
use vstd::prelude::*;

verus! {

/// How often a download follows a redirect.
pub const MAX_REDIRECTS: usize = 5;

/// Limits and permissions for media.
#[derive(Debug)]
pub struct MediaConfig {
    pub timeout_ms: u64,
    pub max_concurrent_downloads: usize,
    pub max_entries: usize,
    pub max_bytes: usize,
    pub allow_private_networks: bool,
    pub allowed_domains: Vec<String>,
}

/// An address that a host name stands for.
#[derive(Clone, Copy, Debug)]
pub enum HostAddress {
    V4([u8; 4]),
    V6([u16; 8]),
}

/// Whether an image of this content type is accepted.
pub open spec fn image_type(mime: Seq<char>) -> bool {
    mime == "image/jpeg"@ || mime == "image/png"@ || mime == "image/gif"@ || mime == "image/webp"@
}

/// The media type that a content type names.
pub open spec fn media_type(content_type: Seq<char>) -> Seq<char> {
    text::trimmed(text::before(content_type, ';'))
}

/// What is wrong with a content type, if anything.
pub open spec fn type_check(content_type: Seq<char>) -> Result<(), Complaint> {
    if image_type(media_type(content_type)) {
        Ok(())
    } else {
        Err(
            preprocessing::client_fault(
                "unsupported image content type "@ + codec::quoted(media_type(content_type)),
            ),
        )
    }
}

/// What a check says.
pub open spec fn check_result(r: Result<(), PreprocessError>) -> Result<(), Complaint> {
    match r {
        Ok(()) => Ok(()),
        Err(error) => Err(error@),
    }
}

/// Checks that a content type is that of an accepted image.
pub fn validate_content_type(value: &str) -> (r: Result<(), PreprocessError>)
    ensures
        check_result(r) == type_check(value@),
{
    let mime = text::trim(text::up_to(value, ';'));
    if text::same(mime, "image/jpeg") || text::same(mime, "image/png") || text::same(
        mime,
        "image/gif",
    ) || text::same(mime, "image/webp") {
        Ok(())
    } else {
        Err(
            PreprocessError::bad_request(
                text::join2("unsupported image content type ", codec::quote(mime).as_str()).as_str(),
            ),
        )
    }
}

/// What is wrong with an inline image, if anything: it is base64 of an
/// accepted type and of no more than `max_bytes` bytes.
pub open spec fn data_uri_check(value: Seq<char>, max_bytes: nat) -> Result<(), Complaint> {
    let rest = value.skip("data:"@.len() as int);
    let metadata = text::before(rest, ',');
    let encoded = rest.skip(metadata.len() as int + 1);
    let mime = metadata.take(metadata.len() - ";base64"@.len());
    if !text::begins(value, "data:"@) {
        Err(preprocessing::client_fault("media URL must be http, https, or data"@))
    } else if !rest.contains(',') {
        Err(preprocessing::client_fault("malformed data URI"@))
    } else if !text::ends(metadata, ";base64"@) {
        Err(preprocessing::client_fault("image data URI must use base64 encoding"@))
    } else if type_check(mime) is Err {
        type_check(mime)
    } else {
        match codec::base64_bytes(encoded) {
            None => Err(preprocessing::client_fault("image data URI has invalid base64"@)),
            Some(decoded) => if decoded.len() > max_bytes {
                Err(preprocessing::client_fault("image data exceeds max_download_bytes"@))
            } else {
                Ok(())
            },
        }
    }
}

/// Checks an inline image.
pub fn parse_data_uri(value: &str, max_bytes: usize) -> (r: Result<(), PreprocessError>)
    ensures
        check_result(r) == data_uri_check(value@, max_bytes as nat),
{
    let rest = match text::strip_prefix(value, "data:") {
        Some(rest) => rest,
        None => {
            return Err(PreprocessError::bad_request("media URL must be http, https, or data"));
        },
    };
    let (metadata, encoded) = match text::split_once(rest, ',') {
        Some(parts) => parts,
        None => {
            return Err(PreprocessError::bad_request("malformed data URI"));
        },
    };
    let mime = match text::strip_suffix(metadata, ";base64") {
        Some(mime) => mime,
        None => {
            return Err(PreprocessError::bad_request("image data URI must use base64 encoding"));
        },
    };
    match validate_content_type(mime) {
        Ok(()) => {},
        Err(error) => {
            return Err(error);
        },
    }
    match codec::decode_base64(encoded) {
        None => Err(PreprocessError::bad_request("image data URI has invalid base64")),
        Some(decoded) => if decoded.len() > max_bytes {
            Err(PreprocessError::bad_request("image data exceeds max_download_bytes"))
        } else {
            Ok(())
        },
    }
}

/// Whether an address is in a private network of RFC 1918.
pub open spec fn private_v4(o: [u8; 4]) -> bool {
    o[0] == 10 || (o[0] == 172 && 16 <= o[1] <= 31) || (o[0] == 192 && o[1] == 168)
}

/// Whether an address is in a block that documentation uses.
pub open spec fn documentation_v4(o: [u8; 4]) -> bool {
    ||| o[0] == 192 && o[1] == 0 && o[2] == 2
    ||| o[0] == 198 && o[1] == 51 && o[2] == 100
    ||| o[0] == 203 && o[1] == 0 && o[2] == 113
}

/// Whether an address is private, loopback, link-local, broadcast, for
/// documentation, multicast, of this network, shared between carriers, or for
/// benchmarks.
pub open spec fn reserved_v4(o: [u8; 4]) -> bool {
    ||| private_v4(o)
    ||| o[0] == 127
    ||| o[0] == 169 && o[1] == 254
    ||| o[0] == 255 && o[1] == 255 && o[2] == 255 && o[3] == 255
    ||| documentation_v4(o)
    ||| 224 <= o[0] <= 239
    ||| o[0] == 0
    ||| o[0] == 100 && 64 <= o[1] <= 127
    ||| o[0] == 198 && 18 <= o[1] <= 19
}

/// Whether the first segments of an address are zero.
pub open spec fn leading_zeros(s: [u16; 8]) -> bool {
    s[0] == 0 && s[1] == 0 && s[2] == 0 && s[3] == 0 && s[4] == 0
}

/// Whether an IPv6 address stands for an IPv4 address.
pub open spec fn is_mapped(s: [u16; 8]) -> bool {
    leading_zeros(s) && s[5] == 0xffff
}

/// The IPv4 address that a mapped address stands for.
pub open spec fn unmapped(s: [u16; 8]) -> [u8; 4] {
    [(s[6] / 256) as u8, (s[6] % 256) as u8, (s[7] / 256) as u8, (s[7] % 256) as u8]
}

/// Whether an IPv6 address is loopback, unspecified, multicast, unique-local,
/// link-local, or for documentation.
pub open spec fn reserved_v6(s: [u16; 8]) -> bool {
    ||| leading_zeros(s) && s[5] == 0 && s[6] == 0 && s[7] == 1
    ||| leading_zeros(s) && s[5] == 0 && s[6] == 0 && s[7] == 0
    ||| 0xff00 <= s[0]
    ||| 0xfc00 <= s[0] <= 0xfdff
    ||| 0xfe80 <= s[0] <= 0xfebf
    ||| s[0] == 0x2001 && s[1] == 0x0db8
}

/// Whether an address is public.
pub open spec fn is_public(address: HostAddress) -> bool {
    match address {
        HostAddress::V4(o) => !reserved_v4(o),
        HostAddress::V6(s) => if is_mapped(s) {
            !reserved_v4(unmapped(s))
        } else {
            !reserved_v6(s)
        },
    }
}

/// Whether an address is in a private network of RFC 1918, directly or
/// through an IPv6 address that stands for it.
pub open spec fn is_private(address: HostAddress) -> bool {
    match address {
        HostAddress::V4(o) => private_v4(o),
        HostAddress::V6(s) => is_mapped(s) && private_v4(unmapped(s)),
    }
}

/// Whether media may be fetched from an address: from a public one, and from
/// a private network where that is configured.
pub open spec fn reachable(address: HostAddress, allow_private_networks: bool) -> bool {
    is_public(address) || (allow_private_networks && is_private(address))
}

fn in_private_v4(o: [u8; 4]) -> (r: bool)
    ensures
        r == private_v4(o),
{
    o[0] == 10 || (o[0] == 172 && 16 <= o[1] && o[1] <= 31) || (o[0] == 192 && o[1] == 168)
}

fn in_reserved_v4(o: [u8; 4]) -> (r: bool)
    ensures
        r == reserved_v4(o),
{
    let documentation = (o[0] == 192 && o[1] == 0 && o[2] == 2) || (o[0] == 198 && o[1] == 51
        && o[2] == 100) || (o[0] == 203 && o[1] == 0 && o[2] == 113);
    in_private_v4(o) || o[0] == 127 || (o[0] == 169 && o[1] == 254) || (o[0] == 255 && o[1] == 255
        && o[2] == 255 && o[3] == 255) || documentation || (224 <= o[0] && o[0] <= 239) || o[0] == 0
        || (o[0] == 100 && 64 <= o[1] && o[1] <= 127) || (o[0] == 198 && 18 <= o[1] && o[1] <= 19)
}

/// The IPv4 address that an IPv6 address stands for, if it does.
fn to_mapped(s: [u16; 8]) -> (r: Option<[u8; 4]>)
    ensures
        r is Some <==> is_mapped(s),
        r matches Some(o) ==> o@ =~= unmapped(s)@,
{
    if s[0] == 0 && s[1] == 0 && s[2] == 0 && s[3] == 0 && s[4] == 0 && s[5] == 0xffff {
        Some([(s[6] / 256) as u8, (s[6] % 256) as u8, (s[7] / 256) as u8, (s[7] % 256) as u8])
    } else {
        None
    }
}

/// Whether an address is public.
pub fn permitted_ip(ip: HostAddress) -> (r: bool)
    ensures
        r == is_public(ip),
{
    match ip {
        HostAddress::V4(o) => !in_reserved_v4(o),
        HostAddress::V6(s) => match to_mapped(s) {
            Some(o) => !in_reserved_v4(o),
            None => {
                let zeros = s[0] == 0 && s[1] == 0 && s[2] == 0 && s[3] == 0 && s[4] == 0 && s[5]
                    == 0 && s[6] == 0;
                !((zeros && s[7] <= 1) || 0xff00 <= s[0] || (0xfc00 <= s[0] && s[0] <= 0xfdff) || (
                0xfe80 <= s[0] && s[0] <= 0xfebf) || (s[0] == 0x2001 && s[1] == 0x0db8))
            },
        },
    }
}

/// Whether an address is in a private network.
fn private_ip(ip: HostAddress) -> (r: bool)
    ensures
        r == is_private(ip),
{
    match ip {
        HostAddress::V4(o) => in_private_v4(o),
        HostAddress::V6(s) => match to_mapped(s) {
            Some(o) => in_private_v4(o),
            None => false,
        },
    }
}

/// What is wrong with the addresses of a host, if anything.
pub open spec fn address_check(
    addresses: Seq<HostAddress>,
    allow_private_networks: bool,
) -> Result<(), Complaint> {
    if addresses.len() > 0 && forall|i: int|
        0 <= i < addresses.len() ==> reachable(#[trigger] addresses[i], allow_private_networks) {
        Ok(())
    } else {
        Err(preprocessing::client_fault("media URL resolves to a prohibited address"@))
    }
}

/// Checks the addresses that the host of a media URL stands for.
pub fn check_addresses(addresses: &Vec<HostAddress>, config: &MediaConfig) -> (r: Result<
    (),
    PreprocessError,
>)
    ensures
        check_result(r) == address_check(addresses@, config.allow_private_networks),
{
    let mut i: usize = 0;
    while i < addresses.len()
        invariant
            i <= addresses.len(),
            forall|j: int|
                0 <= j < i ==> reachable(#[trigger] addresses@[j], config.allow_private_networks),
        decreases addresses.len() - i,
    {
        let address = addresses[i];
        if !permitted_ip(address) && !(config.allow_private_networks && private_ip(address)) {
            proof {
                assert(!reachable(addresses@[i as int], config.allow_private_networks));
            }
            return Err(PreprocessError::bad_request("media URL resolves to a prohibited address"));
        }
        i += 1;
    }
    if addresses.len() == 0 {
        return Err(PreprocessError::bad_request("media URL resolves to a prohibited address"));
    }
    Ok(())
}

/// Whether `host` is `domain` or below it, whatever the case of the letters.
pub open spec fn within(host: Seq<char>, domain: Seq<char>) -> bool {
    let bare = text::unprefixed(domain, '.');
    ||| text::lowered(host) == text::lowered(bare)
    ||| text::ends(text::lowered(host), text::lowered("."@ + bare))
}

/// Whether media may come from `host`: from any where no domain is listed.
pub open spec fn listed(host: Seq<char>, allowed: Seq<String>) -> bool {
    allowed.len() == 0 || exists|i: int|
        0 <= i < allowed.len() && within(host, #[trigger] allowed[i]@)
}

/// Whether a row of characters ends with another.
fn chars_end_with(t: &Vec<char>, suffix: &Vec<char>) -> (r: bool)
    ensures
        r == text::ends(t@, suffix@),
{
    if suffix.len() > t.len() {
        return false;
    }
    let from: usize = t.len() - suffix.len();
    let mut i: usize = 0;
    while i < suffix.len()
        invariant
            i <= suffix.len() <= t.len(),
            from == t.len() - suffix.len(),
            forall|j: int| 0 <= j < i ==> t@[from + j] == suffix@[j],
        decreases suffix.len() - i,
    {
        if t[from + i] != suffix[i] {
            proof {
                assert(t@.subrange(from as int, t@.len() as int)[i as int] == t@[from + i]);
            }
            return false;
        }
        i += 1;
    }
    proof {
        assert(t@.subrange(from as int, t@.len() as int) =~= suffix@);
    }
    true
}

/// Whether media may come from `host`.
pub fn domain_allowed(host: &str, allowed: &Vec<String>) -> (r: bool)
    ensures
        r == listed(host@, allowed@),
{
    if allowed.len() == 0 {
        return true;
    }
    let lower_host = text::lower_chars(host);
    let mut i: usize = 0;
    while i < allowed.len()
        invariant
            lower_host@ == text::lowered(host@),
            i <= allowed.len(),
            forall|j: int| 0 <= j < i ==> !within(host@, #[trigger] allowed@[j]@),
        decreases allowed.len() - i,
    {
        let domain = text::trim_leading(allowed[i].as_str(), '.');
        let below = text::join2(".", domain);
        if text::same_ignoring_case(host, domain) || chars_end_with(
            &lower_host,
            &text::lower_chars(below.as_str()),
        ) {
            proof {
                assert(within(host@, allowed@[i as int]@));
            }
            return true;
        }
        i += 1;
    }
    false
}

/// The URL of an image part, where it has one.
pub open spec fn url_slot(part: JsonView) -> Option<JsonView> {
    if transform::is_image_part(part) {
        match json::member(part, "image_url"@) {
            Some(JsonView::Object(image)) => json::field(image, "url"@),
            _ => None,
        }
    } else {
        None
    }
}

/// The URLs of the image parts, in order.
pub open spec fn urls_among(parts: Seq<JsonView>) -> Seq<JsonView>
    decreases parts.len(),
{
    if parts.len() == 0 {
        Seq::empty()
    } else {
        match url_slot(parts.last()) {
            Some(url) => urls_among(parts.drop_last()).push(url),
            None => urls_among(parts.drop_last()),
        }
    }
}

/// The URLs of the image parts of some messages, in order.
pub open spec fn urls_of(messages: Seq<JsonView>) -> Seq<JsonView>
    decreases messages.len(),
{
    if messages.len() == 0 {
        Seq::empty()
    } else {
        urls_of(messages.drop_last()) + urls_among(transform::content_parts(messages.last()))
    }
}

/// The URLs of the image parts of a request, in order.
pub open spec fn media_urls(body: Map<Seq<char>, JsonView>) -> Seq<JsonView> {
    urls_of(transform::messages_of(body))
}

/// The texts that some values are.
pub open spec fn texts_of(values: Seq<JsonView>) -> Seq<Seq<char>> {
    values.map_values(|value: JsonView| value->Text_0)
}

/// The media of a request, or what is wrong with it as a whole.
pub open spec fn jobs_read(body: Map<Seq<char>, JsonView>, max_entries: nat) -> Result<
    Seq<Seq<char>>,
    Complaint,
> {
    let urls = media_urls(body);
    if urls.len() > max_entries {
        Err(preprocessing::client_fault("too many multimodal entries"@))
    } else if exists|i: int| 0 <= i < urls.len() && !(#[trigger] urls[i] is Text) {
        Err(preprocessing::client_fault("image_url.url must be a string"@))
    } else {
        Ok(texts_of(urls))
    }
}

/// What a list of media holds.
pub open spec fn jobs_result(r: Result<Vec<String>, PreprocessError>) -> Result<
    Seq<Seq<char>>,
    Complaint,
> {
    match r {
        Ok(urls) => Ok(text::strings_view(urls@)),
        Err(error) => Err(error@),
    }
}

/// The URL of an image part, where it has one.
fn part_url<'a>(part: &'a serde_json::Value) -> (r: Option<&'a serde_json::Value>)
    ensures
        r is Some <==> url_slot(json::json_of(*part)) is Some,
        r matches Some(url) ==> url_slot(json::json_of(*part)) == Some(json::json_of(*url)),
{
    if transform::part_is_image(part) {
        if let Some(members) = json::as_object(part) {
            if let Some(image) = json::get_member(members, "image_url") {
                if let Some(image) = json::as_object(image) {
                    return json::get_member(image, "url");
                }
            }
        }
    }
    None
}

/// The URLs of the image parts, in order, behind those already listed.
fn list_part_urls(parts: &Vec<serde_json::Value>, urls: &mut Vec<serde_json::Value>)
    ensures
        json::items_of(final(urls)@) == json::items_of(old(urls)@) + urls_among(
            json::items_of(parts@),
        ),
{
    let ghost views = json::items_of(parts@);
    let ghost held = json::items_of(urls@);
    let mut i: usize = 0;
    proof {
        assert(views.take(0) =~= Seq::empty());
        assert(held + urls_among(views.take(0)) =~= held);
    }
    while i < parts.len()
        invariant
            views == json::items_of(parts@),
            i <= parts.len(),
            json::items_of(urls@) == held + urls_among(views.take(i as int)),
        decreases parts.len() - i,
    {
        proof {
            assert(views.take(i + 1).drop_last() =~= views.take(i as int));
            assert(views.take(i + 1).last() == json::json_of(parts@[i as int]));
        }
        if let Some(url) = part_url(&parts[i]) {
            let url = json::copy_json(url);
            let ghost listed = urls@;
            urls.push(url);
            proof {
                assert(json::items_of(urls@) =~= json::items_of(listed).push(json::json_of(url)));
                assert(json::items_of(urls@) =~= held + urls_among(views.take(i + 1)));
            }
        }
        i += 1;
    }
    proof {
        assert(views.take(i as int) =~= views);
    }
}

/// The messages of a request, if it has any.
fn request_messages<'a>(body: &'a JsonMap) -> (r: Option<&'a Vec<serde_json::Value>>)
    ensures
        r is Some <==> (json::field(json::members_of(*body), "messages"@) matches Some(
            JsonView::Array(_),
        )),
        r matches Some(messages) ==> transform::messages_of(json::members_of(*body))
            == json::items_of(messages@),
        r is None ==> transform::messages_of(json::members_of(*body)) == Seq::<JsonView>::empty(),
{
    match json::get_member(body, "messages") {
        Some(messages) => json::as_array(messages),
        None => None,
    }
}

/// The URLs of the image parts of a request, in order.
fn image_urls(body: &JsonMap) -> (r: Vec<serde_json::Value>)
    ensures
        json::items_of(r@) == media_urls(json::members_of(*body)),
{
    let mut urls: Vec<serde_json::Value> = Vec::new();
    proof {
        assert(json::items_of(urls@) =~= Seq::empty());
    }
    let messages = match request_messages(body) {
        Some(messages) => messages,
        None => {
            return urls;
        },
    };
    let ghost views = json::items_of(messages@);
    let mut i: usize = 0;
    proof {
        assert(views.take(0) =~= Seq::empty());
    }
    while i < messages.len()
        invariant
            views == json::items_of(messages@),
            i <= messages.len(),
            json::items_of(urls@) == urls_of(views.take(i as int)),
        decreases messages.len() - i,
    {
        proof {
            assert(views.take(i + 1).drop_last() =~= views.take(i as int));
            assert(views.take(i + 1).last() == json::json_of(messages@[i as int]));
        }
        match transform::parts_of(&messages[i]) {
            Some(parts) => {
                list_part_urls(parts, &mut urls);
            },
            None => {
                proof {
                    assert(urls_of(views.take(i + 1)) =~= urls_of(views.take(i as int)));
                }
            },
        }
        i += 1;
    }
    proof {
        assert(views.take(i as int) =~= views);
    }
    urls
}

/// How many image parts of a request have a URL.
pub fn originals_len(body: &JsonMap) -> (r: usize)
    ensures
        r == media_urls(json::members_of(*body)).len(),
{
    let urls = image_urls(body);
    proof {
        assert(json::items_of(urls@).len() == urls@.len());
    }
    urls.len()
}

/// Lists the media of a request.
pub fn media_jobs(body: &JsonMap, config: &MediaConfig) -> (r: Result<
    Vec<String>,
    PreprocessError,
>)
    ensures
        jobs_result(r) == jobs_read(json::members_of(*body), config.max_entries as nat),
{
    let urls = image_urls(body);
    let ghost views = json::items_of(urls@);
    if urls.len() > config.max_entries {
        return Err(PreprocessError::bad_request("too many multimodal entries"));
    }
    let mut jobs: Vec<String> = Vec::new();
    let mut i: usize = 0;
    while i < urls.len()
        invariant
            views == json::items_of(urls@),
            views == media_urls(json::members_of(*body)),
            views.len() <= config.max_entries,
            i <= urls.len(),
            jobs@.len() == i,
            forall|j: int|
                0 <= j < i ==> #[trigger] views[j] is Text && jobs@[j]@ == views[j]->Text_0,
        decreases urls.len() - i,
    {
        proof {
            assert(views[i as int] == json::json_of(urls@[i as int]));
        }
        match json::as_text(&urls[i]) {
            Some(url) => {
                jobs.push(url.to_owned());
            },
            None => {
                return Err(PreprocessError::bad_request("image_url.url must be a string"));
            },
        }
        i += 1;
    }
    proof {
        assert(text::strings_view(jobs@) =~= texts_of(views));
    }
    Ok(jobs)
}

/// A part with its URL, where it has one, replaced.
pub open spec fn installed_part(part: JsonView, url: Seq<char>) -> JsonView {
    match (part, json::member(part, "image_url"@)) {
        (JsonView::Object(members), Some(JsonView::Object(image))) if url_slot(part)
            is Some => JsonView::Object(
            members.insert(
                "image_url"@,
                JsonView::Object(image.insert("url"@, JsonView::Text(url))),
            ),
        ),
        _ => part,
    }
}

/// The parts with their URLs replaced, in order, by the values from `from` on.
pub open spec fn installed_among(
    parts: Seq<JsonView>,
    values: Seq<Seq<char>>,
    from: nat,
) -> Seq<JsonView> {
    Seq::new(
        parts.len(),
        |i: int| installed_part(parts[i], values[(from + urls_among(parts.take(i)).len()) as int]),
    )
}

/// A message with its URLs replaced by the values from `from` on.
pub open spec fn installed_message(
    message: JsonView,
    values: Seq<Seq<char>>,
    from: nat,
) -> JsonView {
    match (message, json::member(message, "content"@)) {
        (JsonView::Object(members), Some(JsonView::Array(parts))) => JsonView::Object(
            members.insert("content"@, JsonView::Array(installed_among(parts, values, from))),
        ),
        _ => message,
    }
}

/// The messages with their URLs replaced, in order, by the values.
pub open spec fn installed_messages(
    messages: Seq<JsonView>,
    values: Seq<Seq<char>>,
) -> Seq<JsonView> {
    Seq::new(
        messages.len(),
        |i: int| installed_message(messages[i], values, urls_of(messages.take(i)).len()),
    )
}

/// A request with the URLs of its image parts replaced, in order, by the
/// values.
pub open spec fn installed(
    body: Map<Seq<char>, JsonView>,
    values: Seq<Seq<char>>,
) -> Map<Seq<char>, JsonView> {
    match json::field(body, "messages"@) {
        Some(JsonView::Array(messages)) => body.insert(
            "messages"@,
            JsonView::Array(installed_messages(messages, values)),
        ),
        _ => body,
    }
}

/// Replaces the URL of a part, where it has one; says whether it has.
fn install_part(part: &serde_json::Value, url: &str) -> (r: Option<serde_json::Value>)
    ensures
        r is Some <==> url_slot(json::json_of(*part)) is Some,
        r matches Some(part_with) ==> json::json_of(part_with) == installed_part(
            json::json_of(*part),
            url@,
        ),
{
    if let Some(_) = part_url(part) {
        if let Some(members) = json::as_object(part) {
            if let Some(image) = json::get_member(members, "image_url") {
                if let Some(image) = json::as_object(image) {
                    let mut image = json::copy_members(image);
                    json::put_member(&mut image, "url", json::json_text(url.to_owned()));
                    let mut members = json::copy_members(members);
                    json::put_member(&mut members, "image_url", json::json_object(image));
                    return Some(json::json_object(members));
                }
            }
        }
    }
    None
}

proof fn urls_among_prefix(parts: Seq<JsonView>, at: int)
    requires
        0 <= at <= parts.len(),
    ensures
        urls_among(parts.take(at)).is_prefix_of(urls_among(parts)),
    decreases parts.len() - at,
{
    if at == parts.len() {
        assert(parts.take(at) =~= parts);
    } else {
        urls_among_prefix(parts, at + 1);
        assert(parts.take(at + 1).drop_last() =~= parts.take(at));
    }
}

proof fn urls_of_prefix(messages: Seq<JsonView>, at: int)
    requires
        0 <= at <= messages.len(),
    ensures
        urls_of(messages.take(at)).is_prefix_of(urls_of(messages)),
    decreases messages.len() - at,
{
    if at == messages.len() {
        assert(messages.take(at) =~= messages);
    } else {
        urls_of_prefix(messages, at + 1);
        assert(messages.take(at + 1).drop_last() =~= messages.take(at));
    }
}

/// Replaces the URLs of the parts; gives the parts and how many values are
/// used up.
fn install_parts(parts: &Vec<serde_json::Value>, values: &Vec<String>, from: usize) -> (r: (
    Vec<serde_json::Value>,
    usize,
))
    requires
        from + urls_among(json::items_of(parts@)).len() <= values@.len(),
    ensures
        json::items_of(r.0@) == installed_among(
            json::items_of(parts@),
            text::strings_view(values@),
            from as nat,
        ),
        r.1 == from + urls_among(json::items_of(parts@)).len(),
{
    let ghost views = json::items_of(parts@);
    let ghost texts = text::strings_view(values@);
    let mut done: Vec<serde_json::Value> = Vec::new();
    let mut used: usize = from;
    let mut i: usize = 0;
    proof {
        assert(views.take(0) =~= Seq::empty());
    }
    while i < parts.len()
        invariant
            views == json::items_of(parts@),
            texts == text::strings_view(values@),
            from + urls_among(views).len() <= values@.len(),
            i <= parts.len(),
            used == from + urls_among(views.take(i as int)).len(),
            done@.len() == i,
            forall|j: int|
                0 <= j < i ==> json::json_of(#[trigger] done@[j]) == installed_part(
                    views[j],
                    texts[(from + urls_among(views.take(j)).len()) as int],
                ),
        decreases parts.len() - i,
    {
        proof {
            assert(views.take(i + 1).drop_last() =~= views.take(i as int));
            assert(views.take(i + 1).last() == json::json_of(parts@[i as int]));
            urls_among_prefix(views, i + 1);
        }
        match part_url(&parts[i]) {
            Some(_) => {
                match install_part(&parts[i], values[used].as_str()) {
                    Some(part) => {
                        done.push(part);
                    },
                    None => {
                        done.push(json::copy_json(&parts[i]));
                    },
                }
                proof {
                    assert(used < values.len());
                }
                used += 1;
            },
            None => {
                done.push(json::copy_json(&parts[i]));
            },
        }
        i += 1;
    }
    proof {
        assert(views.take(i as int) =~= views);
        assert(json::items_of(done@) =~= installed_among(views, texts, from as nat));
    }
    (done, used)
}

/// Puts fetched media into a request, one value for each image part that has
/// a URL. Gives the request and how many image parts have one.
pub fn install_media(body: &JsonMap, values: &Vec<String>) -> (r: (JsonMap, usize))
    requires
        values@.len() == media_urls(json::members_of(*body)).len(),
    ensures
        json::members_of(r.0) == installed(json::members_of(*body), text::strings_view(values@)),
        r.1 == media_urls(json::members_of(r.0)).len(),
        r.1 == values@.len(),
{
    let ghost members = json::members_of(*body);
    let ghost texts = text::strings_view(values@);
    proof {
        installed_urls_read_back(members, texts);
    }
    let messages = match request_messages(body) {
        Some(messages) => messages,
        None => {
            return (json::copy_members(body), 0);
        },
    };
    let ghost views = json::items_of(messages@);
    let mut done: Vec<serde_json::Value> = Vec::new();
    let mut used: usize = 0;
    let mut i: usize = 0;
    proof {
        assert(views.take(0) =~= Seq::empty());
    }
    while i < messages.len()
        invariant
            views == json::items_of(messages@),
            texts == text::strings_view(values@),
            urls_of(views).len() == values@.len(),
            i <= messages.len(),
            used == urls_of(views.take(i as int)).len(),
            done@.len() == i,
            forall|j: int|
                0 <= j < i ==> json::json_of(#[trigger] done@[j]) == installed_message(
                    views[j],
                    texts,
                    urls_of(views.take(j)).len(),
                ),
        decreases messages.len() - i,
    {
        proof {
            assert(views.take(i + 1).drop_last() =~= views.take(i as int));
            assert(views.take(i + 1).last() == json::json_of(messages@[i as int]));
            urls_of_prefix(views, i + 1);
        }
        let mut message = json::copy_json(&messages[i]);
        if let Some(parts) = transform::parts_of(&messages[i]) {
            let (parts, more) = install_parts(parts, values, used);
            used = more;
            if let Some(members) = json::as_object(&messages[i]) {
                let mut members = json::copy_members(members);
                json::put_member(&mut members, "content", json::json_array(parts));
                message = json::json_object(members);
            }
        }
        done.push(message);
        i += 1;
    }
    proof {
        assert(views.take(i as int) =~= views);
        assert(json::items_of(done@) =~= installed_messages(views, texts));
    }
    let mut result = json::copy_members(body);
    json::put_member(&mut result, "messages", json::json_array(done));
    (result, used)
}

proof fn lemma_part_literals()
    ensures
        "type"@ != "image_url"@,
{
    reveal_strlit("type");
    reveal_strlit("image_url");
    assert("type"@.len() != "image_url"@.len());
}

proof fn installed_among_reads_back(parts: Seq<JsonView>, values: Seq<Seq<char>>, from: nat)
    requires
        from + urls_among(parts).len() <= values.len(),
    ensures
        urls_among(installed_among(parts, values, from)) == values.subrange(
            from as int,
            (from + urls_among(parts).len()) as int,
        ).map_values(|value: Seq<char>| JsonView::Text(value)),
    decreases parts.len(),
{
    let all = installed_among(parts, values, from);
    let count = urls_among(parts).len();
    let read = values.subrange(from as int, (from + count) as int).map_values(
        |value: Seq<char>| JsonView::Text(value),
    );
    if parts.len() == 0 {
        assert(read =~= Seq::empty());
    } else {
        lemma_part_literals();
        let before = parts.drop_last();
        installed_among_reads_back(before, values, from);
        assert(forall|i: int| 0 <= i <= before.len() ==> #[trigger] parts.take(i) =~= before.take(i));
        assert(all.drop_last() =~= installed_among(before, values, from));
        assert(parts.take(parts.len() - 1) =~= before);
        let at = (from + urls_among(before).len()) as int;
        assert(all.last() == installed_part(parts.last(), values[at]));
        if url_slot(parts.last()) is Some {
            assert(url_slot(all.last()) == Some(JsonView::Text(values[at])));
            assert(read =~= values.subrange(from as int, at).map_values(
                |value: Seq<char>| JsonView::Text(value),
            ).push(JsonView::Text(values[at])));
        }
    }
}

proof fn installed_messages_read_back(messages: Seq<JsonView>, values: Seq<Seq<char>>)
    requires
        urls_of(messages).len() <= values.len(),
    ensures
        urls_of(installed_messages(messages, values)) == values.take(
            urls_of(messages).len() as int,
        ).map_values(|value: Seq<char>| JsonView::Text(value)),
    decreases messages.len(),
{
    let all = installed_messages(messages, values);
    let read = values.take(urls_of(messages).len() as int).map_values(
        |value: Seq<char>| JsonView::Text(value),
    );
    if messages.len() == 0 {
        assert(read =~= Seq::empty());
    } else {
        let before = messages.drop_last();
        let from = urls_of(before).len();
        let parts = transform::content_parts(messages.last());
        installed_messages_read_back(before, values);
        installed_among_reads_back(parts, values, from);
        assert(forall|i: int|
            0 <= i <= before.len() ==> #[trigger] messages.take(i) =~= before.take(i));
        assert(all.drop_last() =~= installed_messages(before, values));
        assert(messages.take(messages.len() - 1) =~= before);
        assert(all.last() == installed_message(messages.last(), values, from));
        assert(transform::content_parts(all.last()) =~= installed_among(parts, values, from));
        assert(read =~= values.take(from as int).map_values(
            |value: Seq<char>| JsonView::Text(value),
        ) + values.subrange(from as int, (from + urls_among(parts).len()) as int).map_values(
            |value: Seq<char>| JsonView::Text(value),
        ));
    }
}

/// The media of a request are, after values were put in for them, those
/// values, in order.
pub proof fn installed_urls_read_back(body: Map<Seq<char>, JsonView>, values: Seq<Seq<char>>)
    requires
        values.len() == media_urls(body).len(),
    ensures
        media_urls(installed(body, values)) == values.map_values(
            |value: Seq<char>| JsonView::Text(value),
        ),
{
    let messages = transform::messages_of(body);
    installed_messages_read_back(messages, values);
    assert(values.take(values.len() as int) =~= values);
    if messages.len() == 0 {
        assert(installed_messages(messages, values) =~= messages);
    }
}

/// Putting in media changes nothing of a request but its messages.
pub proof fn installing_keeps_other_members(
    body: Map<Seq<char>, JsonView>,
    values: Seq<Seq<char>>,
    key: Seq<char>,
)
    requires
        key != "messages"@,
    ensures
        json::field(installed(body, values), key) == json::field(body, key),
{
}

proof fn installing_the_same_parts(parts: Seq<JsonView>, values: Seq<Seq<char>>, from: nat)
    requires
        forall|k: int|
            0 <= k < urls_among(parts).len() ==> #[trigger] urls_among(parts)[k] == JsonView::Text(
                values[from + k],
            ),
    ensures
        installed_among(parts, values, from) == parts,
{
    let all = installed_among(parts, values, from);
    assert forall|i: int| 0 <= i < parts.len() implies all[i] == parts[i] by {
        let part = parts[i];
        let at = urls_among(parts.take(i)).len() as int;
        if url_slot(part) is Some {
            urls_among_prefix(parts, i + 1);
            assert(parts.take(i + 1).drop_last() =~= parts.take(i));
            assert(urls_among(parts.take(i + 1))[at] == url_slot(part)->Some_0);
            assert(urls_among(parts)[at] == JsonView::Text(values[from + at]));
            let members = part->Object_0;
            let image = members["image_url"@]->Object_0;
            assert(image.insert("url"@, image["url"@]) =~= image);
            assert(members.insert("image_url"@, members["image_url"@]) =~= members);
        }
    }
    assert(all =~= parts);
}

proof fn installing_the_same_messages(messages: Seq<JsonView>, values: Seq<Seq<char>>)
    requires
        forall|k: int|
            0 <= k < urls_of(messages).len() ==> #[trigger] urls_of(messages)[k] == JsonView::Text(
                values[k],
            ),
    ensures
        installed_messages(messages, values) == messages,
{
    let all = installed_messages(messages, values);
    assert forall|i: int| 0 <= i < messages.len() implies all[i] == messages[i] by {
        let message = messages[i];
        let from = urls_of(messages.take(i)).len();
        if json::member(message, "content"@) matches Some(JsonView::Array(_)) {
            let parts = transform::content_parts(message);
            urls_of_prefix(messages, i + 1);
            assert(messages.take(i + 1).drop_last() =~= messages.take(i));
            assert forall|k: int| 0 <= k < urls_among(parts).len() implies #[trigger] urls_among(
                parts,
            )[k] == JsonView::Text(values[from + k]) by {
                assert(urls_of(messages.take(i + 1))[from + k] == urls_among(parts)[k]);
                assert(urls_of(messages)[from + k] == urls_among(parts)[k]);
            }
            installing_the_same_parts(parts, values, from);
            let members = message->Object_0;
            assert(members.insert("content"@, members["content"@]) =~= members);
        }
    }
    assert(all =~= messages);
}

/// Putting in the media that are there changes nothing: a request whose
/// images are all inline is kept as it is.
pub proof fn installing_the_same_media_changes_nothing(
    body: Map<Seq<char>, JsonView>,
    values: Seq<Seq<char>>,
)
    requires
        media_urls(body) == values.map_values(|value: Seq<char>| JsonView::Text(value)),
    ensures
        installed(body, values) == body,
{
    installing_the_same_messages(transform::messages_of(body), values);
    assert(installed(body, values) =~= body);
}

/// A download under way: where it goes next and how often it was redirected.
#[derive(Debug)]
pub struct MediaDownload {
    pub url: String,
    pub redirects: usize,
}

/// What a download under way is.
pub struct Fetch {
    pub url: Seq<char>,
    pub redirects: nat,
}

impl View for MediaDownload {
    type V = Fetch;

    open spec fn view(&self) -> Fetch {
        Fetch { url: self.url@, redirects: self.redirects as nat }
    }
}

/// How an image becomes inline: it is, or it has to be downloaded.
#[derive(Debug)]
pub enum MediaStart {
    Ready(String),
    Download(MediaDownload),
}

/// What a start is.
pub enum StartView {
    Ready(Seq<char>),
    Download(Fetch),
}

impl View for MediaStart {
    type V = StartView;

    open spec fn view(&self) -> StartView {
        match self {
            MediaStart::Ready(value) => StartView::Ready(value@),
            MediaStart::Download(download) => StartView::Download(download@),
        }
    }
}

/// What starting with an image says.
pub open spec fn start_result(r: Result<MediaStart, PreprocessError>) -> Result<
    StartView,
    Complaint,
> {
    match r {
        Ok(start) => Ok(start@),
        Err(error) => Err(error@),
    }
}

/// How an image becomes inline. An inline image is checked and kept; any other
/// has to have a URL, which is downloaded.
pub open spec fn media_start(value: Seq<char>, max_bytes: nat) -> Result<StartView, Complaint> {
    if text::begins(value, "data:"@) {
        match data_uri_check(value, max_bytes) {
            Ok(()) => Ok(StartView::Ready(value)),
            Err(complaint) => Err(complaint),
        }
    } else {
        match codec::url_text(value) {
            Some(url) => Ok(StartView::Download(Fetch { url, redirects: 0 })),
            None => Err(preprocessing::client_fault("invalid media URL"@)),
        }
    }
}

/// Starts to make an image inline.
pub fn start_media(value: &str, config: &MediaConfig) -> (r: Result<MediaStart, PreprocessError>)
    ensures
        start_result(r) == media_start(value@, config.max_bytes as nat),
{
    if text::starts_with(value, "data:") {
        return match parse_data_uri(value, config.max_bytes) {
            Ok(()) => Ok(MediaStart::Ready(value.to_owned())),
            Err(error) => Err(error),
        };
    }
    match codec::parse_url(value) {
        Some(url) => Ok(MediaStart::Download(MediaDownload { url, redirects: 0 })),
        None => Err(PreprocessError::bad_request("invalid media URL")),
    }
}

/// The host and port that a download connects to.
#[derive(Debug)]
pub struct MediaTarget {
    pub host: String,
    pub port: u16,
}

/// What the target of a download says.
pub open spec fn target_result(r: Result<MediaTarget, PreprocessError>) -> Result<
    (Seq<char>, u16),
    Complaint,
> {
    match r {
        Ok(target) => Ok((target.host@, target.port)),
        Err(error) => Err(error@),
    }
}

/// The host and port of a URL that media may come from.
pub open spec fn media_target(
    scheme: Option<Seq<char>>,
    host: Option<Seq<char>>,
    port: Option<u16>,
    allowed: Seq<String>,
) -> Result<(Seq<char>, u16), Complaint> {
    if scheme != Some("http"@) && scheme != Some("https"@) {
        Err(preprocessing::client_fault("media URL scheme must be http or https"@))
    } else {
        match host {
            None => Err(preprocessing::client_fault("media URL has no host"@)),
            Some(host) => if !listed(host, allowed) {
                Err(preprocessing::client_fault("media URL domain is not allowed"@))
            } else {
                match port {
                    None => Err(preprocessing::client_fault("media URL has no port"@)),
                    Some(port) => Ok((host, port)),
                }
            },
        }
    }
}

/// The host and port of the parts of a URL, where media may come from there.
pub fn check_target(
    scheme: Option<String>,
    host: Option<String>,
    port: Option<u16>,
    config: &MediaConfig,
) -> (r: Result<MediaTarget, PreprocessError>)
    ensures
        target_result(r) == media_target(
            codec::text_option(scheme),
            codec::text_option(host),
            port,
            config.allowed_domains@,
        ),
{
    let known = match scheme {
        Some(scheme) => text::same(scheme.as_str(), "http") || text::same(
            scheme.as_str(),
            "https",
        ),
        None => false,
    };
    if !known {
        return Err(PreprocessError::bad_request("media URL scheme must be http or https"));
    }
    let host = match host {
        Some(host) => host,
        None => {
            return Err(PreprocessError::bad_request("media URL has no host"));
        },
    };
    if !domain_allowed(host.as_str(), &config.allowed_domains) {
        return Err(PreprocessError::bad_request("media URL domain is not allowed"));
    }
    match port {
        Some(port) => Ok(MediaTarget { host, port }),
        None => Err(PreprocessError::bad_request("media URL has no port")),
    }
}

/// What an answer to a download leads to: another request, or a body.
#[derive(Debug)]
pub enum MediaReply {
    Redirect(MediaDownload),
    Body,
}

/// What a reply is.
pub enum ReplyView {
    Redirect(Fetch),
    Body,
}

/// What a reply says.
pub open spec fn reply_result(r: Result<MediaReply, PreprocessError>) -> Result<
    ReplyView,
    Complaint,
> {
    match r {
        Ok(MediaReply::Redirect(next)) => Ok(ReplyView::Redirect(next@)),
        Ok(MediaReply::Body) => Ok(ReplyView::Body),
        Err(error) => Err(error@),
    }
}

/// What an answer with this status and location leads to. A redirect is
/// followed a limited number of times.
pub open spec fn media_reply(
    fetch: Fetch,
    status: u16,
    location: Option<Seq<char>>,
) -> Result<ReplyView, Complaint> {
    if 300 <= status <= 399 {
        if fetch.redirects >= MAX_REDIRECTS {
            Err(preprocessing::client_fault("too many media redirects"@))
        } else {
            match location {
                None => Err(preprocessing::client_fault("media redirect has no valid location"@)),
                Some(location) => match codec::url_joined(fetch.url, location) {
                    None => Err(preprocessing::client_fault("invalid media redirect"@)),
                    Some(url) => Ok(
                        ReplyView::Redirect(Fetch { url, redirects: fetch.redirects + 1 }),
                    ),
                },
            }
        }
    } else if 200 <= status <= 299 {
        Ok(ReplyView::Body)
    } else {
        Err(
            preprocessing::service_fault(
                "media download returned "@ + codec::status_line(status),
            ),
        )
    }
}

impl MediaDownload {
    /// The host and port to connect to, where media may come from there.
    pub fn target(&self, config: &MediaConfig) -> (r: Result<MediaTarget, PreprocessError>)
        ensures
            target_result(r) == media_target(
                codec::url_scheme(self@.url),
                codec::url_host(self@.url),
                codec::url_port(self@.url),
                config.allowed_domains@,
            ),
    {
        check_target(
            codec::scheme_of_url(self.url.as_str()),
            codec::host_of_url(self.url.as_str()),
            codec::port_of_url(self.url.as_str()),
            config,
        )
    }

    /// Takes the status and the location of an answer.
    pub fn respond(&self, status: u16, location: Option<&str>) -> (r: Result<
        MediaReply,
        PreprocessError,
    >)
        requires
            100 <= status <= 999,
        ensures
            reply_result(r) == media_reply(
                self@,
                status,
                match location {
                    Some(location) => Some(location@),
                    None => None,
                },
            ),
    {
        if 300 <= status && status <= 399 {
            if self.redirects >= MAX_REDIRECTS {
                return Err(PreprocessError::bad_request("too many media redirects"));
            }
            let location = match location {
                Some(location) => location,
                None => {
                    return Err(
                        PreprocessError::bad_request("media redirect has no valid location"),
                    );
                },
            };
            return match codec::join_url(self.url.as_str(), location) {
                Some(url) => Ok(
                    MediaReply::Redirect(MediaDownload { url, redirects: self.redirects + 1 }),
                ),
                None => Err(PreprocessError::bad_request("invalid media redirect")),
            };
        }
        if !(200 <= status && status <= 299) {
            return Err(
                PreprocessError::upstream(
                    text::join2(
                        "media download returned ",
                        codec::status_text(status).as_str(),
                    ).as_str(),
                ),
            );
        }
        Ok(MediaReply::Body)
    }
}

/// The body of an answer, as far as it came.
#[derive(Debug)]
pub struct MediaBody {
    pub content_type: String,
    pub bytes: Vec<u8>,
}

/// What accepting the head of an answer says.
pub open spec fn head_result(r: Result<MediaBody, PreprocessError>) -> Result<
    (Seq<char>, Seq<u8>),
    Complaint,
> {
    match r {
        Ok(body) => Ok((body.content_type@, body.bytes@)),
        Err(error) => Err(error@),
    }
}

/// The content type that an answer has.
pub open spec fn answer_type(content_type: Option<Seq<char>>) -> Seq<char> {
    match content_type {
        Some(content_type) => content_type,
        None => "application/octet-stream"@,
    }
}

/// The empty body of an accepted answer, or what is wrong with its head.
pub open spec fn media_head(
    content_type: Option<Seq<char>>,
    content_length: Option<u64>,
    max_bytes: nat,
) -> Result<(Seq<char>, Seq<u8>), Complaint> {
    match type_check(answer_type(content_type)) {
        Err(complaint) => Err(complaint),
        Ok(()) => match content_length {
            Some(length) if length > max_bytes => Err(
                preprocessing::client_fault("image content length exceeds max_download_bytes"@),
            ),
            _ => Ok((answer_type(content_type), Seq::empty())),
        },
    }
}

/// A body with a piece added, where the limit leaves room for it.
pub open spec fn piece_added(bytes: Seq<u8>, piece: Seq<u8>, max_bytes: nat) -> Result<
    Seq<u8>,
    Complaint,
> {
    if bytes.len() + piece.len() > max_bytes {
        Err(preprocessing::client_fault("image data exceeds max_download_bytes"@))
    } else {
        Ok(bytes + piece)
    }
}

/// The body that pieces make, added one by one, or the complaint about the
/// first that the limit leaves no room for.
pub open spec fn received(pieces: Seq<Seq<u8>>, max_bytes: nat) -> Result<Seq<u8>, Complaint>
    decreases pieces.len(),
{
    if pieces.len() == 0 {
        Ok(Seq::empty())
    } else {
        match received(pieces.drop_last(), max_bytes) {
            Ok(bytes) => piece_added(bytes, pieces.last(), max_bytes),
            Err(complaint) => Err(complaint),
        }
    }
}

/// The bytes of some pieces, in order.
pub open spec fn joined(pieces: Seq<Seq<u8>>) -> Seq<u8>
    decreases pieces.len(),
{
    if pieces.len() == 0 {
        Seq::empty()
    } else {
        joined(pieces.drop_last()) + pieces.last()
    }
}

/// A body is received whole, in whatever pieces it comes, exactly where it is
/// within the limit.
pub proof fn pieces_make_the_whole(pieces: Seq<Seq<u8>>, max_bytes: nat)
    ensures
        received(pieces, max_bytes) == if joined(pieces).len() <= max_bytes {
            Ok::<Seq<u8>, Complaint>(joined(pieces))
        } else {
            Err::<Seq<u8>, Complaint>(
                preprocessing::client_fault("image data exceeds max_download_bytes"@),
            )
        },
    decreases pieces.len(),
{
    if pieces.len() > 0 {
        pieces_make_the_whole(pieces.drop_last(), max_bytes);
    }
}

/// The inline form of a downloaded image, given the head of the answer and the
/// pieces that its body came in.
pub open spec fn downloaded(
    content_type: Option<Seq<char>>,
    content_length: Option<u64>,
    pieces: Seq<Seq<u8>>,
    max_bytes: nat,
) -> Result<Seq<char>, Complaint> {
    match media_head(content_type, content_length, max_bytes) {
        Err(complaint) => Err(complaint),
        Ok((content_type, _)) => match received(pieces, max_bytes) {
            Err(complaint) => Err(complaint),
            Ok(bytes) => Ok(data_uri_of(content_type, codec::base64_text(bytes))),
        },
    }
}

/// A downloaded image becomes inline exactly where its type is accepted and
/// neither the stated nor the real length exceeds the limit, and then all its
/// bytes are in it, in order. Everything else is the client's fault. A length
/// that is not stated, or stated too small, lets nothing beyond the limit in.
pub proof fn downloads_are_inlined_whole(
    content_type: Option<Seq<char>>,
    content_length: Option<u64>,
    pieces: Seq<Seq<u8>>,
    max_bytes: nat,
)
    ensures
        downloaded(content_type, content_length, pieces, max_bytes) is Ok <==> type_check(
            answer_type(content_type),
        ) is Ok && (content_length matches Some(length) ==> length <= max_bytes) && joined(
            pieces,
        ).len() <= max_bytes,
        downloaded(content_type, content_length, pieces, max_bytes) matches Ok(value) ==> value
            == data_uri_of(answer_type(content_type), codec::base64_text(joined(pieces))),
        downloaded(content_type, content_length, pieces, max_bytes) matches Err(complaint)
            ==> complaint.client,
{
    pieces_make_the_whole(pieces, max_bytes);
}

/// What the pieces of a body hold.
pub open spec fn pieces_of(pieces: Seq<Vec<u8>>) -> Seq<Seq<u8>> {
    pieces.map_values(|piece: Vec<u8>| piece@)
}

/// What making an image inline says.
pub open spec fn inline_result(r: Result<String, PreprocessError>) -> Result<
    Seq<char>,
    Complaint,
> {
    match r {
        Ok(value) => Ok(value@),
        Err(error) => Err(error@),
    }
}

/// The inline form of an image.
pub open spec fn data_uri_of(content_type: Seq<char>, encoded: Seq<char>) -> Seq<char> {
    "data:"@ + text::before(content_type, ';') + (";base64,"@ + encoded)
}

impl MediaBody {
    /// Accepts the head of an answer.
    pub fn accept(
        content_type: Option<&str>,
        content_length: Option<u64>,
        config: &MediaConfig,
    ) -> (r: Result<MediaBody, PreprocessError>)
        ensures
            head_result(r) == media_head(
                match content_type {
                    Some(content_type) => Some(content_type@),
                    None => None,
                },
                content_length,
                config.max_bytes as nat,
            ),
    {
        let content_type = match content_type {
            Some(content_type) => content_type,
            None => "application/octet-stream",
        };
        match validate_content_type(content_type) {
            Ok(()) => {},
            Err(error) => {
                return Err(error);
            },
        }
        if let Some(length) = content_length {
            if length > config.max_bytes as u64 {
                return Err(
                    PreprocessError::bad_request("image content length exceeds max_download_bytes"),
                );
            }
        }
        Ok(MediaBody { content_type: content_type.to_owned(), bytes: Vec::new() })
    }

    /// Adds a piece of the body, where the limit leaves room for it.
    pub fn add_chunk(&mut self, chunk: &[u8], config: &MediaConfig) -> (r: Result<
        (),
        PreprocessError,
    >)
        ensures
            final(self).content_type@ == old(self).content_type@,
            match piece_added(old(self).bytes@, chunk@, config.max_bytes as nat) {
                Ok(bytes) => r is Ok && final(self).bytes@ == bytes,
                Err(complaint) => r is Err && r->Err_0@ == complaint && final(self).bytes@
                    == old(self).bytes@,
            },
    {
        if chunk.len() > config.max_bytes || self.bytes.len() > config.max_bytes - chunk.len() {
            return Err(PreprocessError::bad_request("image data exceeds max_download_bytes"));
        }
        self.bytes.extend_from_slice(chunk);
        Ok(())
    }

    /// The inline form of the image. An image of an accepted type and size is
    /// accepted in this form.
    pub fn data_uri(&self) -> (r: String)
        requires
            self.bytes@.len() <= usize::MAX / 4,
        ensures
            r@ == data_uri_of(self.content_type@, codec::base64_text(self.bytes@)),
            codec::base64_bytes(codec::base64_text(self.bytes@)) == Some(self.bytes@),
            forall|max_bytes: nat|
                type_check(self.content_type@) is Ok && self.bytes@.len() <= max_bytes ==> (
                #[trigger] data_uri_check(r@, max_bytes)) is Ok,
    {
        let mime = text::up_to(self.content_type.as_str(), ';');
        let encoded = codec::encode_base64(self.bytes.as_slice());
        let r = text::join2(
            text::join2("data:", mime).as_str(),
            text::join2(";base64,", encoded.as_str()).as_str(),
        );
        proof {
            assert forall|max_bytes: nat|
                type_check(self.content_type@) is Ok && self.bytes@.len() <= max_bytes implies (
            #[trigger] data_uri_check(r@, max_bytes)) is Ok by {
                inline_images_are_accepted(
                    self.content_type@,
                    self.bytes@,
                    codec::base64_text(self.bytes@),
                    max_bytes,
                );
            }
        }
        r
    }
}

/// Makes a downloaded image inline, given the head of the answer and the
/// pieces that its body came in. What comes out is accepted as an inline image,
/// and its payload decodes to the bytes of the body.
pub fn inline_pieces(
    content_type: Option<&str>,
    content_length: Option<u64>,
    pieces: &Vec<Vec<u8>>,
    config: &MediaConfig,
) -> (r: Result<String, PreprocessError>)
    requires
        joined(pieces_of(pieces@)).len() <= usize::MAX / 4,
    ensures
        inline_result(r) == downloaded(
            match content_type {
                Some(content_type) => Some(content_type@),
                None => None,
            },
            content_length,
            pieces_of(pieces@),
            config.max_bytes as nat,
        ),
        r matches Ok(value) ==> data_uri_check(value@, config.max_bytes as nat) is Ok
            && codec::base64_bytes(codec::base64_text(joined(pieces_of(pieces@)))) == Some(
            joined(pieces_of(pieces@)),
        ),
{
    let ghost all = pieces_of(pieces@);
    let ghost max = config.max_bytes as nat;
    let mut body = match MediaBody::accept(content_type, content_length, config) {
        Ok(body) => body,
        Err(error) => {
            return Err(error);
        },
    };
    let ghost head = body.content_type@;
    let mut i: usize = 0;
    proof {
        assert(all.take(0) =~= Seq::empty());
    }
    while i < pieces.len()
        invariant
            all == pieces_of(pieces@),
            max == config.max_bytes,
            i <= pieces.len(),
            body.content_type@ == head,
            media_head(
                match content_type {
                    Some(content_type) => Some(content_type@),
                    None => None,
                },
                content_length,
                max,
            ) matches Ok((kind, _)) && kind == head,
            received(all.take(i as int), max) == Ok::<Seq<u8>, Complaint>(body.bytes@),
        decreases pieces.len() - i,
    {
        proof {
            assert(all.take(i + 1).drop_last() =~= all.take(i as int));
            assert(all.take(i + 1).last() == pieces@[i as int]@);
        }
        match body.add_chunk(pieces[i].as_slice(), config) {
            Ok(()) => {},
            Err(error) => {
                proof {
                    received_stops(all, i + 1, max);
                }
                return Err(error);
            },
        }
        i += 1;
    }
    proof {
        assert(all.take(all.len() as int) =~= all);
        pieces_make_the_whole(all, max);
    }
    Ok(body.data_uri())
}

/// A complaint about a piece is the complaint about the body.
proof fn received_stops(pieces: Seq<Seq<u8>>, upto: int, max_bytes: nat)
    requires
        0 <= upto <= pieces.len(),
        received(pieces.take(upto), max_bytes) is Err,
    ensures
        received(pieces, max_bytes) == received(pieces.take(upto), max_bytes),
    decreases pieces.len() - upto,
{
    if upto == pieces.len() {
        assert(pieces.take(upto) =~= pieces);
    } else {
        assert(pieces.take(upto + 1).drop_last() =~= pieces.take(upto));
        received_stops(pieces, upto + 1, max_bytes);
    }
}

proof fn kept_by_trimming_start(t: Seq<char>, i: int)
    requires
        0 <= i < t.len(),
    ensures
        text::white(t[i]) || text::trimmed_start(t).contains(t[i]),
    decreases t.len(),
{
    if text::white(t[0]) {
        if i > 0 {
            assert(t.skip(1)[i - 1] == t[i]);
            kept_by_trimming_start(t.skip(1), i - 1);
        }
    }
}

proof fn kept_by_trimming_end(t: Seq<char>, i: int)
    requires
        0 <= i < t.len(),
    ensures
        text::white(t[i]) || text::trimmed_end(t).contains(t[i]),
    decreases t.len(),
{
    if text::white(t.last()) {
        if i < t.len() - 1 {
            assert(t.drop_last()[i] == t[i]);
            kept_by_trimming_end(t.drop_last(), i);
        }
    }
}

/// Trimming takes nothing away but white space.
proof fn kept_by_trimming(t: Seq<char>, i: int)
    requires
        0 <= i < t.len(),
    ensures
        text::white(t[i]) || text::trimmed(t).contains(t[i]),
{
    kept_by_trimming_start(t, i);
    if !text::white(t[i]) {
        let start = text::trimmed_start(t);
        let j = choose|j: int| 0 <= j < start.len() && start[j] == t[i];
        kept_by_trimming_end(start, j);
    }
}

proof fn image_types_have_no_comma(mime: Seq<char>)
    requires
        image_type(mime),
    ensures
        !mime.contains(','),
{
    reveal_strlit("image/jpeg");
    reveal_strlit("image/png");
    reveal_strlit("image/gif");
    reveal_strlit("image/webp");
}

/// An image of an accepted type and size, written inline in an encoding that
/// reads back, is accepted as an inline image.
pub proof fn inline_images_are_accepted(
    content_type: Seq<char>,
    bytes: Seq<u8>,
    encoded: Seq<char>,
    max_bytes: nat,
)
    requires
        type_check(content_type) is Ok,
        bytes.len() <= max_bytes,
        codec::base64_bytes(encoded) == Some(bytes),
    ensures
        data_uri_check(data_uri_of(content_type, encoded), max_bytes) is Ok,
{
    let value = data_uri_of(content_type, encoded);
    let mime = text::before(content_type, ';');
    let rest = mime + (";base64,"@ + encoded);
    reveal_strlit("data:");
    reveal_strlit(";base64,");
    reveal_strlit(";base64");
    assert(";base64,"@ =~= ";base64"@.push(','));
    assert(value.subrange(0, "data:"@.len() as int) =~= "data:"@);
    assert(value.skip("data:"@.len() as int) =~= rest);
    let at = (mime.len() + ";base64"@.len()) as int;
    assert(rest[at] == ',');
    assert(rest.contains(','));
    assert forall|j: int| 0 <= j < at implies rest[j] != ',' by {
        if j < mime.len() {
            kept_by_trimming(mime, j);
            image_types_have_no_comma(media_type(content_type));
            assert(rest[j] == mime[j]);
        } else {
            assert(rest[j] == ";base64,"@[j - mime.len()]);
        }
    }
    text::before_is_take(rest, ',', at);
    let metadata = rest.take(at);
    assert(metadata =~= mime + ";base64"@);
    assert(metadata.subrange(metadata.len() - ";base64"@.len(), metadata.len() as int)
        =~= ";base64"@);
    assert(metadata.take(metadata.len() - ";base64"@.len()) =~= mime);
    assert(rest.skip(at + 1) =~= encoded);
    before_is_settled(content_type, ';');
}

/// What stands before a mark holds no such mark.
proof fn before_is_settled(t: Seq<char>, mark: char)
    ensures
        text::before(text::before(t, mark), mark) == text::before(t, mark),
    decreases t.len(),
{
    if t.len() > 0 && t[0] != mark {
        before_is_settled(t.skip(1), mark);
        let all = text::before(t, mark);
        assert(all.skip(1) =~= text::before(t.skip(1), mark));
    }
}

/// A download is redirected a limited number of times: a redirect that is
/// followed counts up, and the count stays within the limit.
pub proof fn redirects_are_bounded(fetch: Fetch, status: u16, location: Option<Seq<char>>)
    requires
        fetch.redirects <= MAX_REDIRECTS,
    ensures
        media_reply(fetch, status, location) matches Ok(ReplyView::Redirect(next))
            ==> next.redirects == fetch.redirects + 1 && next.redirects <= MAX_REDIRECTS,
{
}

/// An IPv6 address that stands for an IPv4 address is treated as that one.
pub proof fn mapped_addresses_are_treated_alike(segments: [u16; 8], allow_private_networks: bool)
    requires
        is_mapped(segments),
    ensures
        reachable(HostAddress::V6(segments), allow_private_networks) == reachable(
            HostAddress::V4(unmapped(segments)),
            allow_private_networks,
        ),
{
}

/// Allowing private networks opens the networks of RFC 1918 and no other
/// address that is not public.
pub proof fn private_permission_is_narrow(address: HostAddress)
    ensures
        reachable(address, false) == is_public(address),
        reachable(address, true) && !is_public(address) ==> is_private(address),
{
}

/// A listed domain admits itself and what stands below it behind a dot, and no
/// host that merely ends alike.
pub proof fn suffixes_are_not_domains(host: Seq<char>, domain: Seq<char>)
    requires
        domain.len() > 0,
        domain[0] != '.',
        host.len() > domain.len(),
        within(host, domain),
    ensures
        host[host.len() - domain.len() - 1] == '.',
{
    let bare = text::unprefixed(domain, '.');
    let suffix = text::lowered("."@ + bare);
    reveal_strlit(".");
    assert(text::lowered(host).len() == host.len());
    assert(suffix[0] == '.');
    let n = host.len() - domain.len() - 1;
    assert(text::lowered(host).subrange(n, host.len() as int)[0] == text::lowered(host)[n]);
}

/// A request whose media were made inline is kept as it is when it is prepared
/// again: each of its media is ready, and putting them in changes nothing.
pub proof fn inline_requests_stay_as_they_are(
    body: Map<Seq<char>, JsonView>,
    values: Seq<Seq<char>>,
    max_bytes: nat,
)
    requires
        values.len() == media_urls(body).len(),
        forall|i: int|
            0 <= i < values.len() ==> data_uri_check(#[trigger] values[i], max_bytes) is Ok,
    ensures
        forall|i: int|
            0 <= i < values.len() ==> media_start(#[trigger] values[i], max_bytes) == Ok::<
                StartView,
                Complaint,
            >(StartView::Ready(values[i])),
        jobs_read(installed(body, values), values.len()) == Ok::<Seq<Seq<char>>, Complaint>(
            values,
        ),
        installed(installed(body, values), values) == installed(body, values),
{
    installed_urls_read_back(body, values);
    installing_the_same_media_changes_nothing(installed(body, values), values);
    let urls = media_urls(installed(body, values));
    assert(texts_of(urls) =~= values);
    assert(forall|i: int| 0 <= i < urls.len() ==> #[trigger] urls[i] is Text);
}

} // verus!
