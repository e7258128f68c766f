//! What is read of rendered requests, and how the render service is asked.
#[allow(unused_imports)]
use crate::codec;
#[allow(unused_imports)]
use crate::filter::{self, StopView};
#[allow(unused_imports)]
use crate::json::{self, JsonView};
#[allow(unused_imports)]
use crate::preprocessing::{self, Complaint, EntryView, Media, PreprocessError, Rendered, Scan};
#[allow(unused_imports)]
use crate::prepare::{self, RenderingView};
#[allow(unused_imports)]
use crate::state::{PreprocessingLimits, WireFormat};
#[allow(unused_imports)]
use crate::text;
use vstd::prelude::*;

verus! {

/// What stands under a key of an object, where there is an object that has it.
pub open spec fn inside(value: Option<JsonView>, key: Seq<char>) -> Option<JsonView> {
    match value {
        Some(JsonView::Object(members)) => json::field(members, key),
        _ => None,
    }
}

/// The images that a feature of a request lists.
pub open spec fn images(request: Map<Seq<char>, JsonView>, name: Seq<char>) -> Option<JsonView> {
    inside(inside(json::field(request, "features"@), name), "image"@)
}

/// Whether a value is the array of these token IDs: it is as long and has the
/// same number at each place.
pub open spec fn lists_tokens(value: Option<JsonView>, token_ids: Seq<u64>) -> bool {
    value matches Some(JsonView::Array(items)) && items.len() == token_ids.len() && forall|i: int|
        0 <= i < items.len() ==> #[trigger] items[i] == JsonView::Whole(token_ids[i] as int)
}

/// The tokens that are read of a rendered request are those that it states, all
/// of them and in order.
pub proof fn stated_tokens_are_read(
    request: Map<Seq<char>, JsonView>,
    expected: Option<nat>,
    limits: PreprocessingLimits,
)
    ensures
        preprocessing::rendered(request, expected, limits) matches Ok(read) ==> lists_tokens(
            json::field(request, "token_ids"@),
            read.token_ids,
        ) && read.token_ids.len() <= limits.max_total_tokens,
{
    if let Some(JsonView::Array(tokens)) = json::field(request, "token_ids"@) {
        if preprocessing::all_token_ids(tokens) {
            let read = preprocessing::token_ids_of(tokens);
            assert forall|i: int| 0 <= i < tokens.len() implies #[trigger] tokens[i]
                == JsonView::Whole(read[i] as int) by {
                assert(preprocessing::whole_up_to(Some(tokens[i]), u64::MAX as int) is Some);
            }
        }
    }
}

/// A request that states tokens within the limit, and no features, is read as
/// those tokens and no media, where none are expected.
pub proof fn requests_without_media_are_read(
    request: Map<Seq<char>, JsonView>,
    expected: Option<nat>,
    limits: PreprocessingLimits,
    token_ids: Seq<u64>,
)
    requires
        lists_tokens(json::field(request, "token_ids"@), token_ids),
        token_ids.len() <= limits.max_total_tokens,
        json::field(request, "features"@) is None || json::field(request, "features"@) == Some(
            JsonView::Null,
        ),
    ensures
        expected is None || expected == Some(0nat) ==> preprocessing::rendered(
            request,
            expected,
            limits,
        ) == Ok::<Rendered, Complaint>(Rendered { token_ids, entries: Seq::empty() }),
        expected matches Some(n) && n > 0 ==> preprocessing::rendered(request, expected, limits)
            is Err,
{
    let tokens = json::field(request, "token_ids"@)->0->Array_0;
    assert(preprocessing::all_token_ids(tokens)) by {
        assert forall|i: int| 0 <= i < tokens.len() implies preprocessing::whole_up_to(
            Some(#[trigger] tokens[i]),
            u64::MAX as int,
        ) is Some by {
            assert(tokens[i] == JsonView::Whole(token_ids[i] as int));
        }
    }
    assert(preprocessing::token_ids_of(tokens) =~= token_ids);
}

/// A request that states more tokens than the limit is refused as the client's
/// fault, and so is one that states no array of tokens, or something among them
/// that is no token, unless the render service stated it.
pub proof fn tokens_are_checked(
    request: Map<Seq<char>, JsonView>,
    expected: Option<nat>,
    limits: PreprocessingLimits,
    at: int,
)
    ensures
        json::field(request, "token_ids"@) matches Some(JsonView::Array(tokens)) && tokens.len()
            > limits.max_total_tokens ==> preprocessing::rendered(request, expected, limits)
            == Err::<Rendered, Complaint>(
            Complaint { client: true, message: "too many token_ids"@ },
        ),
        !(json::field(request, "token_ids"@) matches Some(JsonView::Array(_)))
            ==> preprocessing::rendered(request, expected, limits) == Err::<Rendered, Complaint>(
            Complaint { client: expected is None, message: "token_ids must be an array"@ },
        ),
        json::field(request, "token_ids"@) matches Some(JsonView::Array(tokens)) && tokens.len()
            <= limits.max_total_tokens && 0 <= at < tokens.len() && !(
        tokens[at] matches JsonView::Whole(n) && 0 <= n <= u64::MAX) ==> preprocessing::rendered(
            request,
            expected,
            limits,
        ) == Err::<Rendered, Complaint>(
            Complaint {
                client: expected is None,
                message: "token_ids must contain non-negative integers"@,
            },
        ),
{
    if let Some(JsonView::Array(tokens)) = json::field(request, "token_ids"@) {
        if 0 <= at < tokens.len() && !(tokens[at] matches JsonView::Whole(n) && 0 <= n
            <= u64::MAX) {
            assert(preprocessing::whole_up_to(Some(tokens[at]), u64::MAX as int) is None);
            assert(!preprocessing::all_token_ids(tokens));
        }
    }
}

/// Whether an entry is what the lists of a request state at a place.
pub open spec fn is_stated(
    entry: EntryView,
    at: int,
    hashes: Seq<JsonView>,
    ranges: Seq<JsonView>,
    tensors: Option<Seq<JsonView>>,
) -> bool {
    &&& entry.index == at
    &&& hashes[at] == JsonView::Text(entry.hash)
    &&& json::member(ranges[at], "offset"@) == Some(JsonView::Whole(entry.offset as int))
    &&& json::member(ranges[at], "length"@) == Some(JsonView::Whole(entry.length as int))
    &&& entry.kwargs_data == match tensors {
        Some(values) => match values[at] {
            JsonView::Text(data) => data,
            _ => Seq::empty(),
        },
        None => Seq::empty(),
    }
}

proof fn scanned_entries_are_stated(
    media: Media,
    upto: nat,
    tokens: nat,
    expected: Option<nat>,
    limits: PreprocessingLimits,
)
    ensures
        preprocessing::scanned(media, upto, tokens, expected, limits) matches Ok(scan)
            ==> scan.entries.len() == upto && forall|i: int|
            0 <= i < upto ==> is_stated(
                #[trigger] scan.entries[i],
                i,
                media.hashes,
                media.ranges,
                media.kwargs,
            ),
    decreases upto,
{
    if upto > 0 {
        scanned_entries_are_stated(media, (upto - 1) as nat, tokens, expected, limits);
        if let Ok(scan) = preprocessing::scanned(media, upto, tokens, expected, limits) {
            let before = preprocessing::scanned(
                media,
                (upto - 1) as nat,
                tokens,
                expected,
                limits,
            )->Ok_0;
            assert forall|i: int| 0 <= i < upto implies is_stated(
                #[trigger] scan.entries[i],
                i,
                media.hashes,
                media.ranges,
                media.kwargs,
            ) by {
                if i < upto - 1 {
                    assert(scan.entries[i] == before.entries[i]);
                }
            }
        }
    }
}

/// The media that are read of a rendered request are those that it states, all of
/// them and in order: each with the hash and the placeholder range that the
/// request states at its place, and the tensor where there is one.
pub proof fn stated_media_are_read(
    request: Map<Seq<char>, JsonView>,
    expected: Option<nat>,
    limits: PreprocessingLimits,
)
    requires
        json::field(request, "features"@) matches Some(JsonView::Object(_)),
    ensures
        preprocessing::rendered(request, expected, limits) matches Ok(read) ==> {
            let hashes = match images(request, "mm_hashes"@) {
                Some(JsonView::Array(items)) => items,
                _ => Seq::empty(),
            };
            let ranges = match images(request, "mm_placeholders"@) {
                Some(JsonView::Array(items)) => items,
                _ => Seq::empty(),
            };
            let tensors = match images(request, "kwargs_data"@) {
                Some(JsonView::Array(items)) => Some(items),
                _ => None,
            };
            &&& read.entries.len() == hashes.len()
            &&& ranges.len() == hashes.len()
            &&& tensors matches Some(values) ==> values.len() == hashes.len()
            &&& expected matches Some(n) ==> hashes.len() == n
            &&& forall|i: int|
                0 <= i < read.entries.len() ==> is_stated(
                    #[trigger] read.entries[i],
                    i,
                    hashes,
                    ranges,
                    tensors,
                )
        },
{
    if let Ok(read) = preprocessing::rendered(request, expected, limits) {
        let features = json::field(request, "features"@)->0->Object_0;
        let media = preprocessing::media_read(features, expected)->Ok_0;
        scanned_entries_are_stated(
            media,
            media.hashes.len(),
            read.token_ids.len(),
            expected,
            limits,
        );
    }
}

/// A request in a format of an API is rendered under the path of that API, at the
/// address of the render service without the slashes at its end.
pub proof fn requests_are_rendered_at_their_path(
    body: Map<Seq<char>, JsonView>,
    bytes: Seq<u8>,
    base: Seq<char>,
    limits: PreprocessingLimits,
)
    ensures
        prepare::rendering_of(WireFormat::ChatCompletions, body, Ok(bytes), Some(base), limits) == (
        RenderingView::Ask {
            url: text::unsuffixed(base, '/') + "/v1/chat/completions/render"@,
            body: bytes,
        }),
        !(json::field(body, "prompt"@) matches Some(JsonView::Array(_))) ==> prepare::rendering_of(
            WireFormat::Completions,
            body,
            Ok(bytes),
            Some(base),
            limits,
        ) == (RenderingView::Ask {
            url: text::unsuffixed(base, '/') + "/v1/completions/render"@,
            body: bytes,
        }),
{
}

/// A request that needs rendering is refused, as the service's fault, where no
/// render service is configured.
pub proof fn rendering_needs_a_service(
    body: Map<Seq<char>, JsonView>,
    written: Result<Seq<u8>, Seq<char>>,
    limits: PreprocessingLimits,
)
    ensures
        prepare::rendering_of(WireFormat::ChatCompletions, body, written, None, limits)
            == RenderingView::Done(
            Err(
                Complaint {
                    client: false,
                    message: "render_url is required for OpenAI text inputs"@,
                },
            ),
        ),
{
}

/// A completions request whose prompt is an array of tokens, and a request in the
/// tokens-in format, are never rendered: they are read as they stand.
pub proof fn token_requests_are_read_as_they_stand(
    body: Map<Seq<char>, JsonView>,
    written: Result<Seq<u8>, Seq<char>>,
    render_url: Option<Seq<char>>,
    limits: PreprocessingLimits,
    token_ids: Seq<u64>,
)
    requires
        token_ids.len() <= limits.max_total_tokens,
    ensures
        lists_tokens(json::field(body, "prompt"@), token_ids) ==> prepare::rendering_of(
            WireFormat::Completions,
            body,
            written,
            render_url,
            limits,
        ) == RenderingView::Done(Ok(Rendered { token_ids, entries: Seq::empty() })),
        prepare::rendering_of(WireFormat::Generate, body, written, render_url, limits)
            == RenderingView::Done(preprocessing::rendered(body, None, limits)),
{
    if lists_tokens(json::field(body, "prompt"@), token_ids) {
        reveal_strlit("features");
        reveal_strlit("token_ids");
        assert("features"@.len() != "token_ids"@.len());
        let request = json::no_fields().insert("token_ids"@, json::field(body, "prompt"@)->0);
        requests_without_media_are_read(request, None, limits, token_ids);
    }
}

/// An answer of the render service is read only where its status is 200 and its
/// body is JSON; a chat answer is read as it stands, and of a completions answer
/// the first of its list.
pub proof fn render_answers_are_read(
    status: u16,
    value: JsonView,
    expected: nat,
    limits: PreprocessingLimits,
    error: Seq<char>,
)
    ensures
        status != 200 ==> preprocessing::render_response(
            WireFormat::ChatCompletions,
            status,
            Ok(value),
            Some(expected),
            limits,
        ) == Err::<Rendered, Complaint>(
            Complaint { client: false, message: "render returned "@ + codec::status_line(status) },
        ),
        preprocessing::render_response(
            WireFormat::ChatCompletions,
            200,
            Err(error),
            Some(expected),
            limits,
        ) == Err::<Rendered, Complaint>(
            Complaint { client: false, message: "render returned invalid JSON"@ },
        ),
        value matches JsonView::Object(members) ==> preprocessing::render_response(
            WireFormat::ChatCompletions,
            200,
            Ok(value),
            Some(expected),
            limits,
        ) == preprocessing::rendered(members, Some(expected), limits),
        value matches JsonView::Array(items) && items.len() > 0 && items[0] is Object
            ==> preprocessing::render_response(
            WireFormat::Completions,
            200,
            Ok(value),
            Some(expected),
            limits,
        ) == preprocessing::rendered(value->Array_0[0]->Object_0, Some(expected), limits),
        !(value is Array) ==> preprocessing::render_response(
            WireFormat::Completions,
            200,
            Ok(value),
            Some(expected),
            limits,
        ) == Err::<Rendered, Complaint>(
            Complaint {
                client: false,
                message: "render returned invalid completions response"@,
            },
        ),
{
}

/// A request is answered with 400 where the client is at fault and with 502 where
/// a service is, and with what the complaint says.
pub proof fn faults_have_their_status(complaint: Complaint)
    ensures
        complaint.client ==> filter::refusal(complaint) == (StopView::Reject {
            status: 400,
            body: Some(complaint.message),
        }),
        !complaint.client ==> filter::refusal(complaint) == (StopView::Reject {
            status: 502,
            body: Some(complaint.message),
        }),
{
}

/// The body limit of a filter is at least one byte and at most 64 mebibytes.
pub proof fn body_limits_are_bounded(max_body_bytes: nat)
    ensures
        filter::is_body_limit(max_body_bytes) <==> 1 <= max_body_bytes <= 67_108_864,
{
}

proof fn expectations_do_not_change_scans(
    media: Media,
    upto: nat,
    tokens: nat,
    a: Option<nat>,
    b: Option<nat>,
    limits: PreprocessingLimits,
)
    ensures
        preprocessing::scanned(media, upto, tokens, a, limits) matches Ok(scan)
            ==> preprocessing::scanned(media, upto, tokens, b, limits) == Ok::<Scan, Complaint>(
            scan,
        ),
    decreases upto,
{
    if upto > 0 {
        expectations_do_not_change_scans(media, (upto - 1) as nat, tokens, a, b, limits);
    }
}

/// It does not matter whether the number of media is expected, where it is right:
/// what is read without an expectation is read with the right one, and the other
/// way round.
pub proof fn right_expectations_change_nothing(
    request: Map<Seq<char>, JsonView>,
    expected: nat,
    limits: PreprocessingLimits,
)
    ensures
        preprocessing::rendered(request, None, limits) matches Ok(read) && read.entries.len()
            == expected ==> preprocessing::rendered(request, Some(expected), limits)
            == preprocessing::rendered(request, None, limits),
        preprocessing::rendered(request, Some(expected), limits) is Ok ==> preprocessing::rendered(
            request,
            None,
            limits,
        ) == preprocessing::rendered(request, Some(expected), limits),
{
    if let Some(JsonView::Object(features)) = json::field(request, "features"@) {
        if let Ok(token_ids) = preprocessing::tokens_read(request, None, limits) {
            if let Ok(media) = preprocessing::media_read(features, None) {
                assert(preprocessing::media_read(features, Some(expected)) == Ok::<
                    Media,
                    Complaint,
                >(media));
                let n = media.hashes.len();
                expectations_do_not_change_scans(
                    media,
                    n,
                    token_ids.len(),
                    None,
                    Some(expected),
                    limits,
                );
                expectations_do_not_change_scans(
                    media,
                    n,
                    token_ids.len(),
                    Some(expected),
                    None,
                    limits,
                );
                scanned_entries_are_stated(media, n, token_ids.len(), None, limits);
            }
        }
    }
}

} // verus!
