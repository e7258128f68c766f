//! Rendered requests: the tokens of a request and the placeholders of its
//! media, as a client or the render service states them.
use crate::codec;
use crate::json::{self, JsonMap, JsonView};
use crate::state::{MultimodalEntry, PlaceholderRange, PreprocessingLimits, WireFormat};
use crate::text;
#[allow(unused_imports)]
use crate::transform;
use vstd::prelude::*;

verus! {

/// Why a request cannot be prepared, and whether the client is at fault.
#[derive(Debug)]
pub struct PreprocessError {
    pub client: bool,
    pub message: String,
}

/// What a `PreprocessError` says.
#[verifier::ext_equal]
pub struct Complaint {
    pub client: bool,
    pub message: Seq<char>,
}

/// A complaint about the client's request.
pub open spec fn client_fault(message: Seq<char>) -> Complaint {
    Complaint { client: true, message }
}

/// A complaint about a service that the request depends on.
pub open spec fn service_fault(message: Seq<char>) -> Complaint {
    Complaint { client: false, message }
}

/// A complaint about what a request states. A request without an expected
/// number of media is the client's own; one with it came from the render
/// service.
pub open spec fn blamed(expected: Option<nat>, message: Seq<char>) -> Complaint {
    Complaint { client: expected is None, message }
}

impl View for PreprocessError {
    type V = Complaint;

    open spec fn view(&self) -> Complaint {
        Complaint { client: self.client, message: self.message@ }
    }
}

impl PreprocessError {
    pub fn bad_request(message: &str) -> (r: Self)
        ensures
            r@ == client_fault(message@),
    {
        PreprocessError { client: true, message: message.to_owned() }
    }

    pub fn upstream(message: &str) -> (r: Self)
        ensures
            r@ == service_fault(message@),
    {
        PreprocessError { client: false, message: message.to_owned() }
    }

    /// A complaint about what a request states.
    fn about(expected_media: Option<usize>, message: &str) -> (r: Self)
        ensures
            r@ == blamed(expected_count(expected_media), message@),
    {
        PreprocessError { client: expected_media.is_none(), message: message.to_owned() }
    }

    /// The status that a request with this error is answered with.
    pub open spec fn answer(complaint: Complaint) -> u16 {
        if complaint.client {
            400
        } else {
            502
        }
    }

    /// The status that a request with this error is answered with.
    pub fn status(&self) -> (r: u16)
        ensures
            r == PreprocessError::answer(self@),
    {
        if self.client {
            400
        } else {
            502
        }
    }
}

/// What a `MultimodalEntry` holds.
pub struct EntryView {
    pub index: nat,
    pub hash: Seq<char>,
    pub kwargs_data: Seq<char>,
    pub offset: nat,
    pub length: nat,
}

impl EntryView {
    /// The position after the last placeholder token.
    pub open spec fn end(self) -> nat {
        self.offset + self.length
    }
}

/// What an entry holds.
pub open spec fn entry_view(entry: MultimodalEntry) -> EntryView {
    EntryView {
        index: entry.index as nat,
        hash: entry.hash@,
        kwargs_data: entry.kwargs_data@,
        offset: entry.placeholder.offset as nat,
        length: entry.placeholder.length as nat,
    }
}

/// What a row of entries holds.
pub open spec fn entries_view(entries: Seq<MultimodalEntry>) -> Seq<EntryView> {
    entries.map_values(|entry: MultimodalEntry| entry_view(entry))
}

/// The tokens and media of a rendered request.
pub struct Rendered {
    pub token_ids: Seq<u64>,
    pub entries: Seq<EntryView>,
}

/// What the result of reading a rendered request holds.
pub open spec fn rendered_result(
    r: Result<(Vec<u64>, Vec<MultimodalEntry>), PreprocessError>,
) -> Result<Rendered, Complaint> {
    match r {
        Ok((token_ids, entries)) => Ok(
            Rendered { token_ids: token_ids@, entries: entries_view(entries@) },
        ),
        Err(error) => Err(error@),
    }
}

/// The number that a value is, if it is an integer between zero and `max`.
pub open spec fn whole_up_to(value: Option<JsonView>, max: int) -> Option<nat> {
    match value {
        Some(JsonView::Whole(n)) if 0 <= n <= max => Some(n as nat),
        _ => None,
    }
}

/// Whether each of the values is an integer that fits 64 bits and is not
/// negative.
pub open spec fn all_token_ids(values: Seq<JsonView>) -> bool {
    forall|i: int|
        0 <= i < values.len() ==> whole_up_to(Some(#[trigger] values[i]), u64::MAX as int) is Some
}

/// The token IDs that the values are.
pub open spec fn token_ids_of(values: Seq<JsonView>) -> Seq<u64> {
    values.map_values(|value: JsonView| value->Whole_0 as u64)
}

/// The token IDs of a rendered request. More of them than the limit are the
/// client's fault, whoever counted them.
pub open spec fn tokens_read(
    value: Map<Seq<char>, JsonView>,
    expected: Option<nat>,
    limits: PreprocessingLimits,
) -> Result<Seq<u64>, Complaint> {
    match json::field(value, "token_ids"@) {
        Some(JsonView::Array(tokens)) => if tokens.len() > limits.max_total_tokens {
            Err(client_fault("too many token_ids"@))
        } else if all_token_ids(tokens) {
            Ok(token_ids_of(tokens))
        } else {
            Err(blamed(expected, "token_ids must contain non-negative integers"@))
        },
        _ => Err(blamed(expected, "token_ids must be an array"@)),
    }
}

/// The values that a feature has for images, if it has any.
pub open spec fn images_read(
    features: Map<Seq<char>, JsonView>,
    name: Seq<char>,
    expected: Option<nat>,
) -> Result<Option<Seq<JsonView>>, Complaint> {
    match json::field(features, name) {
        None => Ok(None),
        Some(JsonView::Object(feature)) => match json::field(feature, "image"@) {
            None => Ok(None),
            Some(JsonView::Array(values)) => Ok(Some(values)),
            Some(_) => Err(blamed(expected, "features."@ + name + ".image must be an array"@)),
        },
        Some(_) => Err(blamed(expected, "features."@ + name + " must be an object"@)),
    }
}

/// The media read so far, where the last placeholder ends, and how many
/// placeholder tokens there are.
pub struct Scan {
    pub entries: Seq<EntryView>,
    pub end: nat,
    pub total: nat,
}

/// What the render service or client says of the media of a request.
pub struct Media {
    pub hashes: Seq<JsonView>,
    pub ranges: Seq<JsonView>,
    pub kwargs: Option<Seq<JsonView>>,
}

/// The tensor of the entry at `index`; empty where there is none.
pub open spec fn kwargs_at(kwargs: Option<Seq<JsonView>>, index: int) -> Seq<char> {
    match kwargs {
        Some(values) => match values[index] {
            JsonView::Text(data) => data,
            _ => Seq::empty(),
        },
        None => Seq::empty(),
    }
}

/// The scan with the entry at `index` added. The entry has a hash of its own
/// and a range of tokens behind all ranges before it. More placeholder tokens
/// than the limit are the client's fault, whoever counted them.
pub open spec fn extended(
    scan: Scan,
    media: Media,
    index: int,
    tokens: nat,
    expected: Option<nat>,
    limits: PreprocessingLimits,
) -> Result<Scan, Complaint> {
    match media.hashes[index] {
        JsonView::Text(hash) if hash.len() > 0 => if exists|j: int|
            0 <= j < scan.entries.len() && (#[trigger] scan.entries[j]).hash == hash {
            Err(blamed(expected, "render response contains duplicate mm_hash"@))
        } else {
            match media.ranges[index] {
                JsonView::Object(range) => {
                    let offset = whole_up_to(json::field(range, "offset"@), usize::MAX as int);
                    let length = whole_up_to(json::field(range, "length"@), usize::MAX as int);
                    match (offset, length) {
                        (None, _) => Err(
                            blamed(
                                expected,
                                "placeholder offset must be a non-negative integer"@,
                            ),
                        ),
                        (_, None) => Err(
                            blamed(
                                expected,
                                "placeholder length must be a non-negative integer"@,
                            ),
                        ),
                        (Some(offset), Some(length)) => if offset + length > usize::MAX {
                            Err(blamed(expected, "placeholder span overflows"@))
                        } else if offset < scan.end || offset >= tokens || offset + length
                            > tokens {
                            Err(
                                blamed(expected, "placeholder spans overlap or exceed token_ids"@),
                            )
                        } else if scan.total + length > limits.max_total_placeholder_tokens {
                            Err(client_fault("too many placeholder tokens"@))
                        } else {
                            Ok(
                                Scan {
                                    entries: scan.entries.push(
                                        EntryView {
                                            index: index as nat,
                                            hash,
                                            kwargs_data: kwargs_at(media.kwargs, index),
                                            offset,
                                            length,
                                        },
                                    ),
                                    end: offset + length,
                                    total: scan.total + length,
                                },
                            )
                        },
                    }
                },
                _ => Err(blamed(expected, "mm_placeholders must contain objects"@)),
            }
        },
        _ => Err(blamed(expected, "mm_hashes must contain non-empty strings"@)),
    }
}

/// The scan of the first entries.
pub open spec fn scanned(
    media: Media,
    upto: nat,
    tokens: nat,
    expected: Option<nat>,
    limits: PreprocessingLimits,
) -> Result<Scan, Complaint>
    decreases upto,
{
    if upto == 0 {
        Ok(Scan { entries: Seq::empty(), end: 0, total: 0 })
    } else {
        match scanned(media, (upto - 1) as nat, tokens, expected, limits) {
            Ok(scan) => extended(scan, media, upto - 1, tokens, expected, limits),
            Err(complaint) => Err(complaint),
        }
    }
}

/// Whether the features speak of the same number of media throughout, and of
/// as many as are expected.
pub open spec fn agree(media: Media, expected: Option<nat>) -> bool {
    &&& expected matches Some(n) ==> media.hashes.len() == n
    &&& media.ranges.len() == media.hashes.len()
    &&& media.kwargs matches Some(values) ==> values.len() == media.hashes.len()
}

/// The media that the features of a rendered request describe.
pub open spec fn media_read(features: Map<Seq<char>, JsonView>, expected: Option<nat>) -> Result<
    Media,
    Complaint,
> {
    match images_read(features, "mm_hashes"@, expected) {
        Err(complaint) => Err(complaint),
        Ok(hashes) => match images_read(features, "mm_placeholders"@, expected) {
            Err(complaint) => Err(complaint),
            Ok(ranges) => match images_read(features, "kwargs_data"@, expected) {
                Err(complaint) => Err(complaint),
                Ok(kwargs) => Ok(
                    Media {
                        hashes: match hashes {
                            Some(values) => values,
                            None => Seq::empty(),
                        },
                        ranges: match ranges {
                            Some(values) => values,
                            None => Seq::empty(),
                        },
                        kwargs,
                    },
                ),
            },
        },
    }
}

/// The tokens and media that a rendered request states, or the first thing
/// that is wrong with it.
pub open spec fn rendered(
    value: Map<Seq<char>, JsonView>,
    expected: Option<nat>,
    limits: PreprocessingLimits,
) -> Result<Rendered, Complaint> {
    match tokens_read(value, expected, limits) {
        Err(complaint) => Err(complaint),
        Ok(token_ids) => match json::field(value, "features"@) {
            None | Some(JsonView::Null) => if expected is None || expected == Some(0nat) {
                Ok(Rendered { token_ids, entries: Seq::empty() })
            } else {
                Err(blamed(expected, "render response has no multimodal features"@))
            },
            Some(JsonView::Object(features)) => match media_read(features, expected) {
                Err(complaint) => Err(complaint),
                Ok(media) => if !agree(media, expected) {
                    Err(blamed(expected, "render response multimodal cardinality mismatch"@))
                } else {
                    match scanned(media, media.hashes.len(), token_ids.len(), expected, limits) {
                        Err(complaint) => Err(complaint),
                        Ok(scan) => Ok(Rendered { token_ids, entries: scan.entries }),
                    }
                },
            },
            Some(_) => Err(blamed(expected, "features must be an object"@)),
        },
    }
}

/// `None` or the length of a row as a number.
pub open spec fn expected_count(expected: Option<usize>) -> Option<nat> {
    match expected {
        Some(n) => Some(n as nat),
        None => None,
    }
}

/// What the values of a feature hold.
pub open spec fn feature_result(
    r: Result<Option<&Vec<serde_json::Value>>, PreprocessError>,
) -> Result<Option<Seq<JsonView>>, Complaint> {
    match r {
        Ok(Some(values)) => Ok(Some(json::items_of(values@))),
        Ok(None) => Ok(None),
        Err(error) => Err(error@),
    }
}

/// The values that a feature has for images, if it has any.
fn image_array<'a>(features: &'a JsonMap, name: &str, expected_media: Option<usize>) -> (r: Result<
    Option<&'a Vec<serde_json::Value>>,
    PreprocessError,
>)
    ensures
        feature_result(r) == images_read(
            json::members_of(*features),
            name@,
            expected_count(expected_media),
        ),
{
    let value = match json::get_member(features, name) {
        Some(value) => value,
        None => {
            return Ok(None);
        },
    };
    let feature = match json::as_object(value) {
        Some(feature) => feature,
        None => {
            return Err(
                PreprocessError::about(
                    expected_media,
                    text::join3("features.", name, " must be an object").as_str(),
                ),
            );
        },
    };
    match json::get_member(feature, "image") {
        Some(values) => match json::as_array(values) {
            Some(values) => Ok(Some(values)),
            None => Err(
                PreprocessError::about(
                    expected_media,
                    text::join3("features.", name, ".image must be an array").as_str(),
                ),
            ),
        },
        None => Ok(None),
    }
}

/// The token IDs of a rendered request.
fn read_tokens(
    value: &JsonMap,
    expected_media: Option<usize>,
    limits: PreprocessingLimits,
) -> (r: Result<Vec<u64>, PreprocessError>)
    ensures
        tokens_read(json::members_of(*value), expected_count(expected_media), limits) == match r {
            Ok(token_ids) => Ok::<Seq<u64>, Complaint>(token_ids@),
            Err(error) => Err::<Seq<u64>, Complaint>(error@),
        },
{
    let tokens = match json::get_member(value, "token_ids") {
        Some(tokens) => json::as_array(tokens),
        None => None,
    };
    let tokens = match tokens {
        Some(tokens) => tokens,
        None => {
            return Err(PreprocessError::about(expected_media, "token_ids must be an array"));
        },
    };
    if tokens.len() > limits.max_total_tokens {
        return Err(PreprocessError::bad_request("too many token_ids"));
    }
    let ghost values = json::items_of(tokens@);
    let mut token_ids: Vec<u64> = Vec::new();
    let mut i: usize = 0;
    while i < tokens.len()
        invariant
            values == json::items_of(tokens@),
            json::field(json::members_of(*value), "token_ids"@) == Some(JsonView::Array(values)),
            values.len() <= limits.max_total_tokens,
            i <= tokens.len(),
            token_ids@.len() == i,
            forall|j: int|
                0 <= j < i ==> whole_up_to(Some(#[trigger] values[j]), u64::MAX as int) is Some
                    && token_ids@[j] == values[j]->Whole_0 as u64,
        decreases tokens.len() - i,
    {
        match json::as_whole(&tokens[i]) {
            Some(id) => {
                proof {
                    assert(values[i as int] == json::json_of(tokens@[i as int]));
                }
                token_ids.push(id);
            },
            None => {
                proof {
                    assert(values[i as int] == json::json_of(tokens@[i as int]));
                    assert(whole_up_to(Some(values[i as int]), u64::MAX as int) is None);
                }
                return Err(
                    PreprocessError::about(
                        expected_media,
                        "token_ids must contain non-negative integers",
                    ),
                );
            },
        }
        i += 1;
    }
    proof {
        assert(token_ids@ =~= token_ids_of(values));
    }
    Ok(token_ids)
}

/// The member `key` of a range as a number, if it is one.
fn range_number(range: &JsonMap, key: &str) -> (r: Option<usize>)
    ensures
        match r {
            Some(n) => whole_up_to(
                json::field(json::members_of(*range), key@),
                usize::MAX as int,
            ) == Some(n as nat),
            None => whole_up_to(
                json::field(json::members_of(*range), key@),
                usize::MAX as int,
            ) is None,
        },
{
    match json::get_member(range, key) {
        Some(value) => match json::as_whole(value) {
            Some(n) => if n <= usize::MAX as u64 {
                Some(n as usize)
            } else {
                None
            },
            None => None,
        },
        None => None,
    }
}

/// Whether an entry has this hash.
fn hash_taken(entries: &Vec<MultimodalEntry>, hash: &str) -> (r: bool)
    ensures
        r == exists|j: int|
            0 <= j < entries@.len() && (#[trigger] entries_view(entries@)[j]).hash == hash@,
{
    let mut i: usize = 0;
    while i < entries.len()
        invariant
            i <= entries.len(),
            forall|j: int| 0 <= j < i ==> (#[trigger] entries_view(entries@)[j]).hash != hash@,
        decreases entries.len() - i,
    {
        if text::same(entries[i].hash.as_str(), hash) {
            proof {
                assert(entries_view(entries@)[i as int].hash == hash@);
            }
            return true;
        }
        i += 1;
    }
    false
}

/// The text of a value, or nothing.
fn text_or_empty(value: &serde_json::Value) -> (r: String)
    ensures
        r@ == match json::json_of(*value) {
            JsonView::Text(data) => data,
            _ => Seq::empty(),
        },
{
    match json::as_text(value) {
        Some(data) => data.to_owned(),
        None => String::new(),
    }
}

/// Reads the entries of a rendered request.
#[verifier::rlimit(40)]
fn read_entries(
    hashes: &Vec<serde_json::Value>,
    ranges: &Vec<serde_json::Value>,
    kwargs: Option<&Vec<serde_json::Value>>,
    tokens: usize,
    expected_media: Option<usize>,
    limits: PreprocessingLimits,
    Ghost(media): Ghost<Media>,
) -> (r: Result<Vec<MultimodalEntry>, PreprocessError>)
    requires
        media.hashes == json::items_of(hashes@),
        media.ranges == json::items_of(ranges@),
        media.kwargs == match kwargs {
            Some(values) => Some(json::items_of(values@)),
            None => None,
        },
        ranges@.len() == hashes@.len(),
        kwargs matches Some(values) ==> values@.len() == hashes@.len(),
    ensures
        match r {
            Ok(entries) => scanned(
                media,
                hashes@.len(),
                tokens as nat,
                expected_count(expected_media),
                limits,
            ) matches Ok(scan) && scan.entries == entries_view(entries@),
            Err(error) => scanned(
                media,
                hashes@.len(),
                tokens as nat,
                expected_count(expected_media),
                limits,
            ) == Err::<Scan, Complaint>(error@),
        },
{
    let ghost expected = expected_count(expected_media);
    let mut entries: Vec<MultimodalEntry> = Vec::new();
    let mut end: usize = 0;
    let mut total: usize = 0;
    let mut index: usize = 0;
    proof {
        assert(entries_view(entries@) =~= Seq::empty());
    }
    while index < hashes.len()
        invariant
            expected == expected_count(expected_media),
            media.hashes == json::items_of(hashes@),
            media.ranges == json::items_of(ranges@),
            media.kwargs == match kwargs {
                Some(values) => Some(json::items_of(values@)),
                None => None,
            },
            ranges@.len() == hashes@.len(),
            kwargs matches Some(values) ==> values@.len() == hashes@.len(),
            index <= hashes.len(),
            total <= end,
            scanned(media, index as nat, tokens as nat, expected, limits) == Ok::<Scan, Complaint>(
                Scan { entries: entries_view(entries@), end: end as nat, total: total as nat },
            ),
        decreases hashes.len() - index,
    {
        let ghost scan = Scan {
            entries: entries_view(entries@),
            end: end as nat,
            total: total as nat,
        };
        let ghost step = extended(scan, media, index as int, tokens as nat, expected, limits);
        proof {
            assert(scanned(media, (index + 1) as nat, tokens as nat, expected, limits) == step);
            if step is Err {
                scan_stops(
                    media,
                    (index + 1) as nat,
                    hashes@.len(),
                    tokens as nat,
                    expected,
                    limits,
                );
            }
        }
        let hash = match json::as_text(&hashes[index]) {
            Some(hash) => hash,
            None => {
                return Err(
                    PreprocessError::about(
                        expected_media,
                        "mm_hashes must contain non-empty strings",
                    ),
                );
            },
        };
        if hash.is_empty() {
            return Err(
                PreprocessError::about(expected_media, "mm_hashes must contain non-empty strings"),
            );
        }
        if hash_taken(&entries, hash) {
            proof {
                let j = choose|j: int|
                    0 <= j < entries@.len() && (#[trigger] entries_view(entries@)[j]).hash == hash@;
                assert(scan.entries[j].hash == hash@);
            }
            return Err(
                PreprocessError::about(
                    expected_media,
                    "render response contains duplicate mm_hash",
                ),
            );
        }
        let range = match json::as_object(&ranges[index]) {
            Some(range) => range,
            None => {
                return Err(
                    PreprocessError::about(expected_media, "mm_placeholders must contain objects"),
                );
            },
        };
        let offset: usize = match range_number(range, "offset") {
            Some(offset) => offset,
            None => {
                return Err(
                    PreprocessError::about(
                        expected_media,
                        "placeholder offset must be a non-negative integer",
                    ),
                );
            },
        };
        let length: usize = match range_number(range, "length") {
            Some(length) => length,
            None => {
                return Err(
                    PreprocessError::about(
                        expected_media,
                        "placeholder length must be a non-negative integer",
                    ),
                );
            },
        };
        if length > usize::MAX - offset {
            return Err(PreprocessError::about(expected_media, "placeholder span overflows"));
        }
        if offset < end || offset >= tokens || offset + length > tokens {
            return Err(
                PreprocessError::about(
                    expected_media,
                    "placeholder spans overlap or exceed token_ids",
                ),
            );
        }
        end = offset + length;
        total = total + length;
        if total > limits.max_total_placeholder_tokens {
            return Err(PreprocessError::bad_request("too many placeholder tokens"));
        }
        let kwargs_data = match kwargs {
            Some(values) => text_or_empty(&values[index]),
            None => String::new(),
        };
        let entry = MultimodalEntry {
            index,
            hash: hash.to_owned(),
            kwargs_data,
            placeholder: PlaceholderRange { offset, length },
        };
        let ghost held = entries@;
        entries.push(entry);
        proof {
            assert(entries_view(entries@) =~= entries_view(held).push(entry_view(entry)));
        }
        index += 1;
    }
    Ok(entries)
}

/// A complaint about an entry is the complaint about the media.
proof fn scan_stops(
    media: Media,
    upto: nat,
    more: nat,
    tokens: nat,
    expected: Option<nat>,
    limits: PreprocessingLimits,
)
    requires
        upto <= more,
        scanned(media, upto, tokens, expected, limits) is Err,
    ensures
        scanned(media, more, tokens, expected, limits) == scanned(
            media,
            upto,
            tokens,
            expected,
            limits,
        ),
    decreases more - upto,
{
    if upto < more {
        scan_stops(media, upto, (more - 1) as nat, tokens, expected, limits);
    }
}

/// Reads a rendered request, which has to be an object.
pub fn parse_rendered(
    value: &serde_json::Value,
    expected_media: Option<usize>,
    limits: PreprocessingLimits,
) -> (r: Result<(Vec<u64>, Vec<MultimodalEntry>), PreprocessError>)
    ensures
        rendered_result(r) == match json::json_of(*value) {
            JsonView::Object(members) => rendered(members, expected_count(expected_media), limits),
            _ => Err(
                blamed(expected_count(expected_media), "rendered request must be an object"@),
            ),
        },
{
    match json::as_object(value) {
        Some(members) => parse_rendered_map(members, expected_media, limits),
        None => Err(PreprocessError::about(expected_media, "rendered request must be an object")),
    }
}

/// Reads the members of a rendered request.
pub fn parse_rendered_map(
    value: &JsonMap,
    expected_media: Option<usize>,
    limits: PreprocessingLimits,
) -> (r: Result<(Vec<u64>, Vec<MultimodalEntry>), PreprocessError>)
    ensures
        rendered_result(r) == rendered(
            json::members_of(*value),
            expected_count(expected_media),
            limits,
        ),
{
    let token_ids = match read_tokens(value, expected_media, limits) {
        Ok(token_ids) => token_ids,
        Err(error) => {
            return Err(error);
        },
    };
    let features = match json::get_member(value, "features") {
        Some(features) => if json::is_null(features) {
            None
        } else {
            Some(features)
        },
        None => None,
    };
    let features = match features {
        Some(features) => features,
        None => {
            let expected: usize = match expected_media {
                Some(expected) => expected,
                None => 0,
            };
            if expected == 0 {
                let entries: Vec<MultimodalEntry> = Vec::new();
                proof {
                    assert(entries_view(entries@) =~= Seq::empty());
                }
                return Ok((token_ids, entries));
            }
            return Err(
                PreprocessError::about(
                    expected_media,
                    "render response has no multimodal features",
                ),
            );
        },
    };
    let features = match json::as_object(features) {
        Some(features) => features,
        None => {
            return Err(PreprocessError::about(expected_media, "features must be an object"));
        },
    };
    let hashes = match image_array(features, "mm_hashes", expected_media) {
        Ok(hashes) => hashes,
        Err(error) => {
            return Err(error);
        },
    };
    let ranges = match image_array(features, "mm_placeholders", expected_media) {
        Ok(ranges) => ranges,
        Err(error) => {
            return Err(error);
        },
    };
    let kwargs = match image_array(features, "kwargs_data", expected_media) {
        Ok(kwargs) => kwargs,
        Err(error) => {
            return Err(error);
        },
    };
    let none: Vec<serde_json::Value> = Vec::new();
    proof {
        assert(json::items_of(none@) =~= Seq::<JsonView>::empty());
    }
    let hashes = match hashes {
        Some(hashes) => hashes,
        None => &none,
    };
    let ranges = match ranges {
        Some(ranges) => ranges,
        None => &none,
    };
    let expected_differs = match expected_media {
        Some(expected) => hashes.len() != expected,
        None => false,
    };
    let kwargs_differ = match kwargs {
        Some(values) => values.len() != hashes.len(),
        None => false,
    };
    if expected_differs || ranges.len() != hashes.len() || kwargs_differ {
        return Err(
            PreprocessError::about(
                expected_media,
                "render response multimodal cardinality mismatch",
            ),
        );
    }
    let ghost media = media_read(
        json::members_of(*features),
        expected_count(expected_media),
    )->Ok_0;
    match read_entries(
        hashes,
        ranges,
        kwargs,
        token_ids.len(),
        expected_media,
        limits,
        Ghost(media),
    ) {
        Ok(entries) => Ok((token_ids, entries)),
        Err(error) => Err(error),
    }
}

/// How many placeholder tokens the entries take.
pub open spec fn placeholder_total(entries: Seq<EntryView>) -> nat
    decreases entries.len(),
{
    if entries.len() == 0 {
        0
    } else {
        placeholder_total(entries.drop_last()) + entries.last().length
    }
}

/// Whether the entries stand in order, each with a hash of its own and a
/// range of tokens that no other has, and stay within the limits.
pub open spec fn well_placed(
    entries: Seq<EntryView>,
    tokens: nat,
    limits: PreprocessingLimits,
) -> bool {
    &&& forall|i: int|
        #![trigger entries[i]]
        0 <= i < entries.len() ==> {
            &&& entries[i].index == i
            &&& entries[i].hash.len() > 0
            &&& entries[i].offset < tokens
            &&& entries[i].end() <= tokens
        }
    &&& forall|i: int, j: int|
        #![trigger entries[i], entries[j]]
        0 <= i < j < entries.len() ==> entries[i].end() <= entries[j].offset && entries[i].hash
            != entries[j].hash
    &&& placeholder_total(entries) <= limits.max_total_placeholder_tokens
}

proof fn scan_is_well_placed(
    media: Media,
    upto: nat,
    tokens: nat,
    expected: Option<nat>,
    limits: PreprocessingLimits,
)
    ensures
        scanned(media, upto, tokens, expected, limits) matches Ok(scan) ==> {
            &&& scan.entries.len() == upto
            &&& well_placed(scan.entries, tokens, limits)
            &&& scan.total == placeholder_total(scan.entries)
            &&& forall|i: int|
                0 <= i < scan.entries.len() ==> (#[trigger] scan.entries[i]).end() <= scan.end
        },
    decreases upto,
{
    if upto > 0 {
        scan_is_well_placed(media, (upto - 1) as nat, tokens, expected, limits);
        if let Ok(scan) = scanned(media, upto, tokens, expected, limits) {
            let before = scanned(media, (upto - 1) as nat, tokens, expected, limits)->Ok_0;
            assert(scan.entries.drop_last() =~= before.entries);
            assert forall|i: int, j: int|
                #![trigger scan.entries[i], scan.entries[j]]
                0 <= i < j < scan.entries.len() implies scan.entries[i].end()
                <= scan.entries[j].offset && scan.entries[i].hash != scan.entries[j].hash by {
                assert(scan.entries[i] == before.entries[i]);
                if j < upto - 1 {
                    assert(scan.entries[j] == before.entries[j]);
                }
            }
        }
    }
}

/// What is read from a rendered request stays within the limits, has as many
/// media as expected, and places them in order, apart from each other, inside
/// the tokens.
pub proof fn rendered_requests_are_well_placed(
    value: Map<Seq<char>, JsonView>,
    expected: Option<nat>,
    limits: PreprocessingLimits,
)
    ensures
        rendered(value, expected, limits) matches Ok(read) ==> {
            &&& read.token_ids.len() <= limits.max_total_tokens
            &&& well_placed(read.entries, read.token_ids.len(), limits)
            &&& expected matches Some(n) ==> read.entries.len() == n
        },
{
    if let Ok(read) = rendered(value, expected, limits) {
        if let Some(JsonView::Object(features)) = json::field(value, "features"@) {
            let media = media_read(features, expected)->Ok_0;
            scan_is_well_placed(media, media.hashes.len(), read.token_ids.len(), expected, limits);
        }
    }
}

/// Whether a complaint is that a request has more tokens than the limits
/// allow.
pub open spec fn over_limits(complaint: Complaint) -> bool {
    ||| complaint == client_fault("too many token_ids"@)
    ||| complaint == client_fault("too many placeholder tokens"@)
}

proof fn scan_complaints_are_blamed(
    media: Media,
    upto: nat,
    tokens: nat,
    expected: Option<nat>,
    limits: PreprocessingLimits,
)
    ensures
        scanned(media, upto, tokens, expected, limits) matches Err(complaint) ==> over_limits(
            complaint,
        ) || complaint == blamed(expected, complaint.message),
    decreases upto,
{
    if upto > 0 {
        scan_complaints_are_blamed(media, (upto - 1) as nat, tokens, expected, limits);
    }
}

/// Whoever states a request is blamed for what is wrong with it: a client for
/// its own request, the render service for its answer. Only tokens beyond the
/// limits are the client's fault in either case.
pub proof fn complaints_blame_the_sender(
    value: Map<Seq<char>, JsonView>,
    expected: Option<nat>,
    limits: PreprocessingLimits,
)
    ensures
        rendered(value, expected, limits) matches Err(complaint) ==> {
            &&& expected is None ==> complaint.client
            &&& expected is Some && !over_limits(complaint) ==> !complaint.client
        },
{
    if let Some(JsonView::Object(features)) = json::field(value, "features"@) {
        if let Ok(media) = media_read(features, expected) {
            if let Ok(token_ids) = tokens_read(value, expected, limits) {
                scan_complaints_are_blamed(
                    media,
                    media.hashes.len(),
                    token_ids.len(),
                    expected,
                    limits,
                );
            }
        }
    }
}

proof fn placeholder_total_grows(entries: Seq<EntryView>, at: int)
    requires
        0 <= at <= entries.len(),
    ensures
        placeholder_total(entries.take(at)) <= placeholder_total(entries),
    decreases entries.len() - at,
{
    if at == entries.len() {
        assert(entries.take(at) =~= entries);
    } else {
        placeholder_total_grows(entries, at + 1);
        assert(entries.take(at + 1).drop_last() =~= entries.take(at));
    }
}

proof fn scan_reads_back(
    entries: Seq<MultimodalEntry>,
    upto: nat,
    tokens: nat,
    expected: Option<nat>,
    limits: PreprocessingLimits,
    media: Media,
)
    requires
        upto <= entries.len(),
        well_placed(entries_view(entries), tokens, limits),
        tokens <= usize::MAX,
        media.hashes == transform::hash_views(entries),
        media.ranges == transform::range_views(entries),
        media.kwargs == Some(transform::kwargs_views(entries)),
    ensures
        scanned(media, upto, tokens, expected, limits) matches Ok(scan) && scan.entries
            == entries_view(entries).take(upto as int) && scan.total == placeholder_total(
            entries_view(entries).take(upto as int),
        ) && scan.end == if upto == 0 {
            0
        } else {
            entries_view(entries)[upto - 1].end()
        },
    decreases upto,
{
    let views = entries_view(entries);
    if upto == 0 {
        assert(views.take(0) =~= Seq::empty());
    } else {
        let i = upto - 1;
        scan_reads_back(entries, i as nat, tokens, expected, limits, media);
        let scan = scanned(media, i as nat, tokens, expected, limits)->Ok_0;
        let entry = entries[i];
        assert(views[i] == entry_view(entry));
        assert(media.hashes[i] == JsonView::Text(entry.hash@));
        let range = json::no_fields().insert(
            "offset"@,
            JsonView::Whole(entry.placeholder.offset as int),
        ).insert("length"@, JsonView::Whole(entry.placeholder.length as int));
        assert(media.ranges[i] == JsonView::Object(range));
        reveal_strlit("offset");
        reveal_strlit("length");
        assert("offset"@[0] != "length"@[0]);
        assert(json::field(range, "offset"@) == Some(
            JsonView::Whole(entry.placeholder.offset as int),
        ));
        assert(forall|j: int|
            0 <= j < scan.entries.len() ==> (#[trigger] scan.entries[j]) == views[j]);
        if i > 0 {
            assert(views[i - 1].end() <= views[i].offset);
        }
        placeholder_total_grows(views, upto as int);
        assert(views.take(upto as int).drop_last() =~= views.take(i));
        assert(kwargs_at(media.kwargs, i) =~= entry.kwargs_data@);
        assert(views.take(i).push(views[i]) =~= views.take(upto as int));
    }
}

/// A request read back: what is written of tokens and well-placed media into
/// a worker request is what a reader of that request gets.
pub proof fn written_features_read_back(
    token_ids: Seq<u64>,
    entries: Seq<MultimodalEntry>,
    value: Map<Seq<char>, JsonView>,
    limits: PreprocessingLimits,
)
    requires
        token_ids.len() <= limits.max_total_tokens,
        well_placed(entries_view(entries), token_ids.len(), limits),
        json::field(value, "token_ids"@) == Some(transform::tokens_view(token_ids)),
        json::field(value, "features"@) == transform::features_view(entries, true),
    ensures
        rendered(value, Some(entries.len()), limits) == Ok::<Rendered, Complaint>(
            Rendered { token_ids, entries: entries_view(entries) },
        ),
{
    let expected = Some(entries.len());
    let tokens = token_ids.map_values(|id: u64| JsonView::Whole(id as int));
    assert(all_token_ids(tokens));
    assert(token_ids_of(tokens) =~= token_ids);
    let views = entries_view(entries);
    if entries.len() == 0 {
        assert(views =~= Seq::empty());
    } else {
        reveal_strlit("mm_hashes");
        reveal_strlit("mm_placeholders");
        reveal_strlit("kwargs_data");
        assert("mm_hashes"@.len() != "mm_placeholders"@.len());
        assert("mm_hashes"@.len() != "kwargs_data"@.len());
        assert("mm_placeholders"@.len() != "kwargs_data"@.len());
        let features = transform::features_view(entries, true)->Some_0->Object_0;
        assert(images_read(features, "mm_hashes"@, expected) == Ok::<Option<Seq<JsonView>>, Complaint>(
            Some(transform::hash_views(entries)),
        ));
        assert(images_read(features, "mm_placeholders"@, expected) == Ok::<Option<Seq<JsonView>>, Complaint>(
            Some(transform::range_views(entries)),
        ));
        assert(images_read(features, "kwargs_data"@, expected) == Ok::<Option<Seq<JsonView>>, Complaint>(
            Some(transform::kwargs_views(entries)),
        ));
        let media = media_read(features, expected)->Ok_0;
        scan_reads_back(entries, entries.len(), token_ids.len(), expected, limits, media);
        assert(views.take(views.len() as int) =~= views);
    }
}

/// The path of the render service for a format. A request in the tokens-in
/// format is not rendered.
pub open spec fn render_path(format: WireFormat) -> Option<Seq<char>> {
    match format {
        WireFormat::ChatCompletions => Some("/v1/chat/completions/render"@),
        WireFormat::Completions => Some("/v1/completions/render"@),
        WireFormat::Generate => None,
    }
}

/// The URL that a request in this format is rendered at.
pub fn render_url(base_url: &str, format: WireFormat) -> (r: Option<String>)
    ensures
        codec::text_option(r) == match render_path(format) {
            Some(path) => Some(text::unsuffixed(base_url@, '/') + path),
            None => None,
        },
{
    let path = match format {
        WireFormat::ChatCompletions => "/v1/chat/completions/render",
        WireFormat::Completions => "/v1/completions/render",
        WireFormat::Generate => {
            return None;
        },
    };
    Some(text::join2(text::trim_trailing(base_url, '/'), path))
}

/// What a render service's answer to a request says. A completions request is
/// answered with a list, of which the first counts.
pub open spec fn render_answer(
    format: WireFormat,
    value: JsonView,
    expected: Option<nat>,
    limits: PreprocessingLimits,
) -> Result<Rendered, Complaint> {
    let request = match (format, value) {
        (WireFormat::Completions, JsonView::Array(values)) if values.len() > 0 => Some(values[0]),
        (WireFormat::Completions, _) => None,
        _ => Some(value),
    };
    match request {
        Some(JsonView::Object(members)) => rendered(members, expected, limits),
        Some(_) => Err(blamed(expected, "rendered request must be an object"@)),
        None => Err(service_fault("render returned invalid completions response"@)),
    }
}

/// Reads a render service's answer to a request.
pub fn read_render_answer(
    format: WireFormat,
    value: &serde_json::Value,
    expected_media: usize,
    limits: PreprocessingLimits,
) -> (r: Result<(Vec<u64>, Vec<MultimodalEntry>), PreprocessError>)
    ensures
        rendered_result(r) == render_answer(
            format,
            json::json_of(*value),
            Some(expected_media as nat),
            limits,
        ),
{
    if format == WireFormat::Completions {
        if let Some(values) = json::as_array(value) {
            if values.len() > 0 {
                proof {
                    assert(json::items_of(values@)[0] == json::json_of(values@[0]));
                }
                return parse_rendered(&values[0], Some(expected_media), limits);
            }
        }
        return Err(PreprocessError::upstream("render returned invalid completions response"));
    }
    parse_rendered(value, Some(expected_media), limits)
}

/// What a render service's answer with this status and body says.
pub open spec fn render_response(
    format: WireFormat,
    status: u16,
    value: Result<JsonView, Seq<char>>,
    expected: Option<nat>,
    limits: PreprocessingLimits,
) -> Result<Rendered, Complaint> {
    if status != 200 {
        Err(service_fault("render returned "@ + codec::status_line(status)))
    } else {
        match value {
            Ok(value) => render_answer(format, value, expected, limits),
            Err(_) => Err(service_fault("render returned invalid JSON"@)),
        }
    }
}

/// Reads a render service's answer with this status and body.
pub fn accept_render(
    format: WireFormat,
    status: u16,
    body: &[u8],
    expected_media: usize,
    limits: PreprocessingLimits,
) -> (r: Result<(Vec<u64>, Vec<MultimodalEntry>), PreprocessError>)
    requires
        100 <= status <= 999,
    ensures
        rendered_result(r) == render_response(
            format,
            status,
            json::json_read(body@),
            Some(expected_media as nat),
            limits,
        ),
{
    if status != 200 {
        return Err(
            PreprocessError::upstream(
                text::join2("render returned ", codec::status_text(status).as_str()).as_str(),
            ),
        );
    }
    match json::read_json(body) {
        Ok(value) => read_render_answer(format, &value, expected_media, limits),
        Err(_) => Err(PreprocessError::upstream("render returned invalid JSON")),
    }
}

/// What is wrong with the answer of a render service is never the client's
/// fault, but for tokens beyond the limits.
pub proof fn render_answers_are_upstream_faults(
    format: WireFormat,
    status: u16,
    value: Result<JsonView, Seq<char>>,
    expected: nat,
    limits: PreprocessingLimits,
)
    ensures
        render_response(format, status, value, Some(expected), limits) matches Err(complaint)
            ==> over_limits(complaint) || !complaint.client,
{
    if let Ok(answer) = value {
        let request = match (format, answer) {
            (WireFormat::Completions, JsonView::Array(values)) if values.len() > 0 => values[0],
            _ => answer,
        };
        if let JsonView::Object(members) = request {
            complaints_blame_the_sender(members, Some(expected), limits);
        }
    }
}

} // verus!
