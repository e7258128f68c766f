//! Which images a request may name, where they may come from, and how they become
//! part of it.
#[allow(unused_imports)]
use crate::codec;
#[allow(unused_imports)]
use crate::json::{self, JsonView};
#[allow(unused_imports)]
use crate::media::{self, Fetch, HostAddress, ReplyView, StartView};
#[allow(unused_imports)]
use crate::preprocessing::{self, Complaint};
#[allow(unused_imports)]
use crate::text;
#[allow(unused_imports)]
use crate::transform;
use vstd::prelude::*;

verus! {

/// Whether a type is one of the four that images can have.
pub open spec fn is_image_type(name: Seq<char>) -> bool {
    name == "image/jpeg"@ || name == "image/png"@ || name == "image/gif"@ || name == "image/webp"@
}

proof fn image_types_are_plain(name: Seq<char>)
    requires
        is_image_type(name),
    ensures
        name.len() > 0,
        forall|i: int|
            0 <= i < name.len() ==> #[trigger] name[i] != ';' && !text::white(name[i]),
{
    reveal_strlit("image/jpeg");
    reveal_strlit("image/png");
    reveal_strlit("image/gif");
    reveal_strlit("image/webp");
}

/// JPEG, PNG, GIF and WebP images are accepted, with or without parameters behind
/// their type, and a type of any other name is not; that is the client's fault.
pub proof fn four_image_types_are_accepted(name: Seq<char>, parameters: Seq<char>)
    ensures
        is_image_type(name) ==> media::type_check(name) is Ok && media::type_check(
            name + seq![';'] + parameters,
        ) is Ok,
        name.len() > 0 && !text::white(name[0]) && !text::white(name.last()) && (forall|i: int|
            0 <= i < name.len() ==> #[trigger] name[i] != ';') && !is_image_type(name) ==> (
        media::type_check(name) matches Err(complaint) && complaint.client),
{
    let whole = name + seq![';'] + parameters;
    if forall|i: int| 0 <= i < name.len() ==> #[trigger] name[i] != ';' {
        text::before_is_take(name, ';', name.len() as int);
        assert(name.take(name.len() as int) =~= name);
    }
    if is_image_type(name) {
        image_types_are_plain(name);
        text::before_is_take(name, ';', name.len() as int);
        assert(name.take(name.len() as int) =~= name);
        assert(whole[name.len() as int] == ';');
        assert forall|j: int| 0 <= j < name.len() implies whole[j] != ';' by {
            assert(whole[j] == name[j]);
        }
        text::before_is_take(whole, ';', name.len() as int);
        assert(whole.take(name.len() as int) =~= name);
    }
}

/// An inline image that is accepted is made of `data:`, an accepted type, the mark
/// of base64 and a payload that decodes to no more bytes than the limit.
pub proof fn inline_images_have_their_parts(value: Seq<char>, max_bytes: nat)
    requires
        media::data_uri_check(value, max_bytes) is Ok,
    ensures
        exists|mime: Seq<char>, payload: Seq<char>|
            value == #[trigger] media_value(mime, payload) && is_image_type(
                text::trimmed(text::before(mime, ';')),
            ) && (codec::base64_bytes(payload) matches Some(bytes) && bytes.len() <= max_bytes),
{
    reveal_strlit("data:");
    reveal_strlit(";base64,");
    reveal_strlit(";base64");
    let rest = value.skip(5);
    let metadata = text::before(rest, ',');
    let n = metadata.len() as int;
    let payload = rest.skip(n + 1);
    let mime = metadata.take(n - 7);
    crate::laws::texts::texts_are_cut_at_the_first_mark(rest, ',');
    assert(n < rest.len()) by {
        if n >= rest.len() {
            let i = choose|i: int| 0 <= i < rest.len() && rest[i] == ',';
            assert(metadata[i] == rest.take(n)[i]);
        }
    }
    assert(rest[n] == ',');
    assert(metadata.subrange(n - 7, n) == ";base64"@);
    assert(value =~= value.subrange(0, 5) + rest);
    assert(rest =~= metadata + seq![','] + payload);
    assert(metadata =~= mime + ";base64"@);
    assert(";base64,"@ =~= ";base64"@ + seq![',']);
    assert(value =~= media_value(mime, payload));
}

/// The value of an inline image of a type with a payload.
pub open spec fn media_value(mime: Seq<char>, payload: Seq<char>) -> Seq<char> {
    "data:"@ + mime + ";base64,"@ + payload
}

/// An image that was downloaded becomes a value of its type, without parameters,
/// with the base64 text of its bytes as the payload.
pub proof fn downloads_become_inline_values(content_type: Seq<char>, payload: Seq<char>)
    ensures
        media::data_uri_of(content_type, payload) == media_value(
            text::before(content_type, ';'),
            payload,
        ),
{
    let mime = text::before(content_type, ';');
    assert(media::data_uri_of(content_type, payload) =~= media_value(mime, payload));
}

/// Everything else is refused as the client's fault: what does not begin with
/// `data:`, has no comma, is not marked as base64, is of another type, does not
/// decode, or decodes to more bytes than the limit.
pub proof fn other_inline_images_are_refused(value: Seq<char>, max_bytes: nat)
    ensures
        !text::begins(value, "data:"@) ==> media::data_uri_check(value, max_bytes) is Err,
        media::data_uri_check(value, max_bytes) matches Err(complaint) ==> complaint.client,
        (forall|i: int| 0 <= i < value.len() ==> #[trigger] value[i] != ',')
            ==> media::data_uri_check(value, max_bytes) is Err,
{
    reveal_strlit("data:");
    if text::begins(value, "data:"@) {
        let rest = value.skip(5);
        if rest.contains(',') {
            let i = choose|i: int| 0 <= i < rest.len() && rest[i] == ',';
            assert(value[i + 5] == ',');
        }
    }
}

/// Whether an address is in one of the blocks that no media may come from.
pub open spec fn is_blocked(o: [u8; 4]) -> bool {
    ||| o[0] == 0
    ||| o[0] == 10
    ||| o[0] == 100 && 64 <= o[1] <= 127
    ||| o[0] == 127
    ||| o[0] == 169 && o[1] == 254
    ||| o[0] == 172 && 16 <= o[1] <= 31
    ||| o[0] == 192 && o[1] == 0 && o[2] == 2
    ||| o[0] == 192 && o[1] == 168
    ||| o[0] == 198 && 18 <= o[1] <= 19
    ||| o[0] == 198 && o[1] == 51 && o[2] == 100
    ||| o[0] == 203 && o[1] == 0 && o[2] == 113
    ||| 224 <= o[0] <= 239
    ||| o[0] == 255 && o[1] == 255 && o[2] == 255 && o[3] == 255
}

/// Media may come from every IPv4 address that is in none of the reserved blocks,
/// and where private networks are allowed also from the three blocks of RFC 1918,
/// but from no other reserved address.
pub proof fn reserved_addresses_are_blocked(o: [u8; 4])
    ensures
        media::reachable(HostAddress::V4(o), false) <==> !is_blocked(o),
        media::reachable(HostAddress::V4(o), true) <==> !is_blocked(o) || o[0] == 10 || (o[0] == 172
            && 16 <= o[1] <= 31) || (o[0] == 192 && o[1] == 168),
{
}

/// Media may come from every IPv6 address that is not unspecified, loopback,
/// multicast, unique-local, link-local or for documentation; one that stands for an
/// IPv4 address is treated as that one.
pub proof fn reserved_long_addresses_are_blocked(s: [u16; 8], allow_private_networks: bool)
    ensures
        ({
            let zeros = s[0] == 0 && s[1] == 0 && s[2] == 0 && s[3] == 0 && s[4] == 0;
            if zeros && s[5] == 0xffff {
                media::reachable(HostAddress::V6(s), allow_private_networks) == media::reachable(
                    HostAddress::V4(
                        [
                            (s[6] / 256) as u8,
                            (s[6] % 256) as u8,
                            (s[7] / 256) as u8,
                            (s[7] % 256) as u8,
                        ],
                    ),
                    allow_private_networks,
                )
            } else {
                media::reachable(HostAddress::V6(s), allow_private_networks) <==> !({
                    ||| zeros && s[5] == 0 && s[6] == 0 && s[7] <= 1
                    ||| s[0] >= 0xff00
                    ||| 0xfc00 <= s[0] <= 0xfdff
                    ||| 0xfe80 <= s[0] <= 0xfebf
                    ||| s[0] == 0x2001 && s[1] == 0x0db8
                })
            }
        }),
{
}

/// A host is reached only where it has addresses and media may come from each of
/// them; anything else is the client's fault.
pub proof fn every_address_has_to_be_reachable(
    addresses: Seq<HostAddress>,
    allow_private_networks: bool,
    at: int,
)
    ensures
        addresses.len() == 0 ==> media::address_check(addresses, allow_private_networks) is Err,
        0 <= at < addresses.len() && !media::reachable(addresses[at], allow_private_networks)
            ==> media::address_check(addresses, allow_private_networks) is Err,
        addresses.len() > 0 && (forall|i: int|
            0 <= i < addresses.len() ==> media::reachable(
                #[trigger] addresses[i],
                allow_private_networks,
            )) ==> media::address_check(addresses, allow_private_networks) is Ok,
        media::address_check(addresses, allow_private_networks) matches Err(complaint)
            ==> complaint.client,
{
}

/// A listed domain admits itself and every host below it, whatever the case of the
/// letters and with or without a dot in front of it; where none is listed every
/// host is admitted, and where some are, a host that is in none of them is not.
pub proof fn domains_admit_what_is_below_them(
    host: Seq<char>,
    domain: Seq<char>,
    label: Seq<char>,
    allowed: Seq<String>,
    at: int,
)
    requires
        domain.len() > 0,
        domain[0] != '.',
    ensures
        text::lowered(host) == text::lowered(domain) ==> media::within(host, domain)
            && media::within(host, seq!['.'] + domain),
        media::within(label + seq!['.'] + domain, domain),
        media::within(label + seq!['.'] + domain, seq!['.'] + domain),
        allowed.len() == 0 ==> media::listed(host, allowed),
        0 <= at < allowed.len() && media::within(host, allowed[at]@) ==> media::listed(
            host,
            allowed,
        ),
        allowed.len() > 0 && (forall|i: int|
            0 <= i < allowed.len() ==> !media::within(host, #[trigger] allowed[i]@))
            ==> !media::listed(host, allowed),
{
    reveal_strlit(".");
    let dotted = seq!['.'] + domain;
    assert(dotted.skip(1) =~= domain);
    assert(dotted[0] == '.');
    assert(text::unprefixed(domain, '.') == domain);
    assert(text::unprefixed(dotted, '.') == text::unprefixed(domain, '.'));
    let below = label + seq!['.'] + domain;
    let suffix = "."@ + domain;
    let n = below.len() - suffix.len();
    assert(text::lowered(below).subrange(n, below.len() as int) =~= text::lowered(suffix)) by {
        assert forall|i: int| 0 <= i < suffix.len() implies below[n + i] == suffix[i] by {}
    }
}

/// A download goes to the host and port of its URL where the scheme is `http` or
/// `https` and the host is admitted; every other URL is the client's fault.
pub proof fn downloads_go_to_admitted_hosts(
    scheme: Option<Seq<char>>,
    host: Option<Seq<char>>,
    port: Option<u16>,
    allowed: Seq<String>,
)
    ensures
        media::media_target(scheme, host, port, allowed) is Ok <==> (scheme == Some("http"@)
            || scheme == Some("https"@)) && (host matches Some(name) && media::listed(
            name,
            allowed,
        )) && port is Some,
        media::media_target(scheme, host, port, allowed) matches Ok(target) ==> host == Some(
            target.0,
        ) && port == Some(target.1),
        media::media_target(scheme, host, port, allowed) matches Err(complaint)
            ==> complaint.client,
{
}

/// An answer of success has a body; a redirect is followed up to five times, to
/// where its location leads; and any other answer is the service's fault.
pub proof fn answers_lead_on(
    fetch: Fetch,
    status: u16,
    location: Seq<char>,
)
    ensures
        200 <= status <= 299 ==> media::media_reply(fetch, status, Some(location)) == Ok::<
            ReplyView,
            Complaint,
        >(ReplyView::Body) && media::media_reply(fetch, status, None) == Ok::<ReplyView, Complaint>(
            ReplyView::Body,
        ),
        300 <= status <= 399 && fetch.redirects < 5 ==> match codec::url_joined(
            fetch.url,
            location,
        ) {
            Some(url) => media::media_reply(fetch, status, Some(location)) == Ok::<
                ReplyView,
                Complaint,
            >(ReplyView::Redirect(Fetch { url, redirects: fetch.redirects + 1 })),
            None => media::media_reply(fetch, status, Some(location)) matches Err(complaint)
                && complaint.client,
        },
        300 <= status <= 399 && fetch.redirects >= 5 ==> (media::media_reply(
            fetch,
            status,
            Some(location),
        ) matches Err(complaint) && complaint.client),
        300 <= status <= 399 ==> (media::media_reply(fetch, status, None) matches Err(complaint)
            && complaint.client),
        status < 200 || status > 399 ==> (media::media_reply(fetch, status, Some(location)) matches Err(
            complaint,
        ) && !complaint.client),
{
}

/// An inline image is ready as it is where it is accepted; any other value is
/// downloaded from the URL that it is, and refused as the client's fault where it
/// is none.
pub proof fn images_are_ready_or_downloaded(value: Seq<char>, max_bytes: nat)
    ensures
        text::begins(value, "data:"@) && media::data_uri_check(value, max_bytes) is Ok
            ==> media::media_start(value, max_bytes) == Ok::<StartView, Complaint>(
            StartView::Ready(value),
        ),
        text::begins(value, "data:"@) && media::data_uri_check(value, max_bytes) is Err
            ==> media::media_start(value, max_bytes) is Err,
        !text::begins(value, "data:"@) ==> match codec::url_text(value) {
            Some(url) => media::media_start(value, max_bytes) == Ok::<StartView, Complaint>(
                StartView::Download(Fetch { url, redirects: 0 }),
            ),
            None => media::media_start(value, max_bytes) matches Err(complaint) && complaint.client,
        },
{
}

/// The head of an answer is accepted where its type is that of an image, and none
/// is not, and the length that it states, if any, is within the limit.
pub proof fn heads_of_answers_are_checked(
    content_type: Option<Seq<char>>,
    content_length: Option<u64>,
    max_bytes: nat,
)
    ensures
        media::media_head(content_type, content_length, max_bytes) is Ok <==> (
        content_type matches Some(name) && media::type_check(name) is Ok) && (
        content_length matches Some(length) ==> length <= max_bytes),
        media::media_head(content_type, content_length, max_bytes) matches Ok(head) ==> content_type
            == Some(head.0) && head.1.len() == 0,
        media::media_head(content_type, content_length, max_bytes) matches Err(complaint)
            ==> complaint.client,
{
    let unknown = "application/octet-stream"@;
    reveal_strlit("application/octet-stream");
    reveal_strlit("image/jpeg");
    reveal_strlit("image/png");
    reveal_strlit("image/gif");
    reveal_strlit("image/webp");
    assert(unknown.len() == 24);
    assert forall|i: int| 0 <= i < unknown.len() implies #[trigger] unknown[i] != ';'
        && !text::white(unknown[i]) by {}
    four_image_types_are_accepted(unknown, Seq::empty());
}

/// The URLs of messages are those of the first messages and then those of the
/// others.
pub proof fn urls_come_in_order(messages: Seq<JsonView>, more: Seq<JsonView>)
    ensures
        media::urls_of(messages + more) == media::urls_of(messages) + media::urls_of(more),
    decreases more.len(),
{
    if more.len() == 0 {
        assert(messages + more =~= messages);
        assert(media::urls_of(messages) + media::urls_of(more) =~= media::urls_of(messages));
    } else {
        urls_come_in_order(messages, more.drop_last());
        assert((messages + more).drop_last() =~= messages + more.drop_last());
        assert((messages + more).last() == more.last());
        let a = media::urls_of(messages);
        let b = media::urls_of(more.drop_last());
        let c = media::urls_among(transform::content_parts(more.last()));
        assert(a + (b + c) =~= (a + b) + c);
    }
}

/// The URLs of parts are those of the first parts and then those of the others.
pub proof fn urls_of_parts_come_in_order(parts: Seq<JsonView>, more: Seq<JsonView>)
    ensures
        media::urls_among(parts + more) == media::urls_among(parts) + media::urls_among(more),
    decreases more.len(),
{
    if more.len() == 0 {
        assert(parts + more =~= parts);
        assert(media::urls_among(parts) + media::urls_among(more) =~= media::urls_among(parts));
    } else {
        urls_of_parts_come_in_order(parts, more.drop_last());
        assert((parts + more).drop_last() =~= parts + more.drop_last());
        assert((parts + more).last() == more.last());
        assert(media::urls_among(parts + more) =~= media::urls_among(parts) + media::urls_among(
            more,
        ));
    }
}

/// What stands under a key of an object, where there is an object that has it.
pub open spec fn inside(value: Option<JsonView>, key: Seq<char>) -> Option<JsonView> {
    match value {
        Some(JsonView::Object(members)) => json::field(members, key),
        _ => None,
    }
}

/// A part whose type is `image_url` has the URL that stands under `url` in its
/// `image_url`, and any other part has none. The URLs of a message are those of the
/// parts of its content.
pub proof fn urls_stand_in_image_parts(part: JsonView, message: JsonView)
    ensures
        json::member(part, "type"@) == Some(JsonView::Text("image_url"@)) ==> match inside(
            json::member(part, "image_url"@),
            "url"@,
        ) {
            Some(url) => media::urls_among(seq![part]) == seq![url],
            None => media::urls_among(seq![part]).len() == 0,
        },
        json::member(part, "type"@) != Some(JsonView::Text("image_url"@)) ==> media::urls_among(
            seq![part],
        ).len() == 0,
        json::member(message, "content"@) matches Some(JsonView::Array(parts)) ==> media::urls_of(
            seq![message],
        ) == media::urls_among(parts),
        !(json::member(message, "content"@) matches Some(JsonView::Array(_))) ==> media::urls_of(
            seq![message],
        ).len() == 0,
{
    let one = seq![part];
    assert(one.drop_last() =~= Seq::empty());
    assert(one.last() == part);
    assert(media::urls_among(one.drop_last()) =~= Seq::empty());
    let alone = seq![message];
    assert(alone.drop_last() =~= Seq::empty());
    assert(alone.last() == message);
    assert(media::urls_of(alone.drop_last()) =~= Seq::empty());
    let parts = transform::content_parts(message);
    assert(media::urls_of(alone) =~= media::urls_among(parts));
}

/// Putting in media changes nothing of a request but the URLs: there are as many
/// messages, each with every member but its content as it was and as many parts,
/// and of each part every member but its image, and of the image every member but
/// its URL, is as it was.
pub proof fn installing_changes_only_urls(
    body: Map<Seq<char>, JsonView>,
    values: Seq<Seq<char>>,
    messages: Seq<JsonView>,
    i: int,
    j: int,
    key: Seq<char>,
)
    requires
        json::field(body, "messages"@) == Some(JsonView::Array(messages)),
        0 <= i < messages.len(),
    ensures
        ({
            let after = json::field(media::installed(body, values), "messages"@);
            let message = after->0->Array_0[i];
            let before = json::member(messages[i], "content"@);
            let content = json::member(message, "content"@);
            &&& after matches Some(JsonView::Array(items)) && items.len() == messages.len()
            &&& key != "content"@ ==> json::member(message, key) == json::member(messages[i], key)
            &&& !(before matches Some(JsonView::Array(_))) ==> message == messages[i]
            &&& before matches Some(JsonView::Array(parts)) ==> {
                &&& content matches Some(JsonView::Array(items)) && items.len() == parts.len()
                &&& 0 <= j < parts.len() ==> ({
                    let part = content->0->Array_0[j];
                    &&& key != "image_url"@ ==> json::member(part, key) == json::member(
                        parts[j],
                        key,
                    )
                    &&& key != "url"@ ==> inside(json::member(part, "image_url"@), key) == inside(
                        json::member(parts[j], "image_url"@),
                        key,
                    )
                    &&& json::member(parts[j], "type"@) != Some(JsonView::Text("image_url"@))
                        ==> part == parts[j]
                })
            }
        }),
{
}

/// An inline value with a type and a payload is accepted exactly where the type is
/// that of an image and the payload decodes to no more bytes than the limit.
pub proof fn inline_images_are_accepted_up_to_the_limit(
    mime: Seq<char>,
    payload: Seq<char>,
    max_bytes: nat,
)
    requires
        forall|i: int| 0 <= i < mime.len() ==> #[trigger] mime[i] != ',',
    ensures
        media::data_uri_check(media_value(mime, payload), max_bytes) is Ok <==> {
            &&& is_image_type(text::trimmed(text::before(mime, ';')))
            &&& codec::base64_bytes(payload) matches Some(bytes) && bytes.len() <= max_bytes
        },
{
    reveal_strlit("data:");
    reveal_strlit(";base64,");
    reveal_strlit(";base64");
    let value = media_value(mime, payload);
    let rest = value.skip(5);
    let metadata = mime + ";base64"@;
    let n = metadata.len() as int;
    assert(value.subrange(0, 5) =~= "data:"@);
    assert(rest =~= metadata + seq![','] + payload);
    assert(rest[n] == ',');
    assert forall|j: int| 0 <= j < n implies rest[j] != ',' by {
        assert(rest[j] == metadata[j]);
        if j < mime.len() {
            assert(metadata[j] == mime[j]);
        } else {
            assert(metadata[j] == ";base64"@[j - mime.len()]);
        }
    }
    text::before_is_take(rest, ',', n);
    assert(rest.take(n) =~= metadata);
    assert(metadata.subrange(n - 7, n) =~= ";base64"@);
    assert(metadata.take(n - 7) =~= mime);
    assert(rest.skip(n + 1) =~= payload);
}

/// What is wrong with an inline image is said: that it is none, that it has no
/// payload, that it is not base64, that its type is none of an image, that its
/// payload does not decode or that it is too long.
pub proof fn refused_inline_images_are_explained(value: Seq<char>, max_bytes: nat)
    ensures
        ({
            let rest = value.skip(5);
            let head = text::before(rest, ',');
            let payload = rest.skip(head.len() as int + 1);
            let mime = head.take(head.len() - 7);
            let name = text::trimmed(text::before(mime, ';'));
            media::data_uri_check(value, max_bytes) matches Err(complaint) ==> complaint.client
                && complaint.message == if !text::begins(value, "data:"@) {
                "media URL must be http, https, or data"@
            } else if !rest.contains(',') {
                "malformed data URI"@
            } else if !text::ends(head, ";base64"@) {
                "image data URI must use base64 encoding"@
            } else if !is_image_type(name) {
                "unsupported image content type "@ + codec::quoted(name)
            } else if codec::base64_bytes(payload) is None {
                "image data URI has invalid base64"@
            } else {
                "image data exceeds max_download_bytes"@
            }
        }),
{
    reveal_strlit("data:");
    reveal_strlit(";base64");
}

/// What keeps a host from being asked for an image is said: its scheme, that
/// there is no host, that its domain is not listed or that there is no port.
pub proof fn refused_hosts_are_explained(
    scheme: Option<Seq<char>>,
    host: Option<Seq<char>>,
    port: Option<u16>,
    allowed: Seq<String>,
)
    ensures
        media::media_target(scheme, host, port, allowed) matches Err(complaint) ==> complaint.client
            && complaint.message == if scheme != Some("http"@) && scheme != Some("https"@) {
            "media URL scheme must be http or https"@
        } else if host is None {
            "media URL has no host"@
        } else if !media::listed(host->0, allowed) {
            "media URL domain is not allowed"@
        } else {
            "media URL has no port"@
        },
{
}

/// What is wrong with an answer to a download is said: that it leads on once too
/// often, or to nowhere, or that it is no success.
pub proof fn refused_answers_are_explained(
    fetch: Fetch,
    status: u16,
    location: Option<Seq<char>>,
)
    ensures
        media::media_reply(fetch, status, location) matches Err(complaint) ==> complaint.message
            == if !(300 <= status <= 399) {
            "media download returned "@ + codec::status_line(status)
        } else if fetch.redirects >= 5 {
            "too many media redirects"@
        } else if location is None {
            "media redirect has no valid location"@
        } else {
            "invalid media redirect"@
        },
{
}

/// What is wrong with the addresses of a host, with the images of a request, with
/// a URL or with the size of a download is the client's fault, and is said.
pub proof fn refused_media_are_explained(
    addresses: Seq<HostAddress>,
    private: bool,
    body: Map<Seq<char>, JsonView>,
    max_entries: nat,
    value: Seq<char>,
    bytes: Seq<u8>,
    piece: Seq<u8>,
    length: u64,
    max_bytes: nat,
)
    ensures
        media::address_check(addresses, private) matches Err(complaint) ==> complaint.client
            && complaint.message == "media URL resolves to a prohibited address"@,
        media::jobs_read(body, max_entries) matches Err(complaint) ==> complaint.client
            && complaint.message == if media::media_urls(body).len() > max_entries {
            "too many multimodal entries"@
        } else {
            "image_url.url must be a string"@
        },
        !text::begins(value, "data:"@) ==> (media::media_start(value, max_bytes) matches Err(
            complaint,
        ) ==> complaint.client && complaint.message == "invalid media URL"@),
        media::piece_added(bytes, piece, max_bytes) matches Err(complaint) ==> complaint.client
            && complaint.message == "image data exceeds max_download_bytes"@ && bytes.len()
            + piece.len() > max_bytes,
        media::type_check(value) is Ok ==> (media::media_head(
            Some(value),
            Some(length),
            max_bytes,
        ) matches Err(complaint) ==> complaint.client && complaint.message
            == "image content length exceeds max_download_bytes"@ && length > max_bytes),
{
}

} // verus!
