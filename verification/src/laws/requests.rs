//! What worker requests hold, member by member.
#[allow(unused_imports)]
use crate::connectors::{self, KvConnector};
#[allow(unused_imports)]
use crate::json::{self, JsonView};
#[allow(unused_imports)]
use crate::state::{CoordinatorState, MultimodalEntry, WireFormat};
#[allow(unused_imports)]
use crate::transform;
use vstd::prelude::*;

verus! {

proof fn request_keys_differ()
    ensures
        "model"@ != "token_ids"@,
        "model"@ != "sampling_params"@,
        "model"@ != "features"@,
        "model"@ != "tokens"@,
        "model"@ != "prompt"@,
        "model"@ != "kv_transfer_params"@,
        "model"@ != "ec_transfer_params"@,
        "model"@ != "max_tokens"@,
        "model"@ != "min_tokens"@,
        "model"@ != "max_completion_tokens"@,
        "model"@ != "stream"@,
        "model"@ != "stream_options"@,
        "model"@ != "messages"@,
        "token_ids"@ != "sampling_params"@,
        "token_ids"@ != "features"@,
        "token_ids"@ != "tokens"@,
        "token_ids"@ != "prompt"@,
        "token_ids"@ != "kv_transfer_params"@,
        "token_ids"@ != "ec_transfer_params"@,
        "token_ids"@ != "max_tokens"@,
        "token_ids"@ != "min_tokens"@,
        "token_ids"@ != "max_completion_tokens"@,
        "token_ids"@ != "stream"@,
        "token_ids"@ != "stream_options"@,
        "token_ids"@ != "messages"@,
        "sampling_params"@ != "features"@,
        "sampling_params"@ != "tokens"@,
        "sampling_params"@ != "prompt"@,
        "sampling_params"@ != "kv_transfer_params"@,
        "sampling_params"@ != "ec_transfer_params"@,
        "sampling_params"@ != "max_tokens"@,
        "sampling_params"@ != "min_tokens"@,
        "sampling_params"@ != "max_completion_tokens"@,
        "sampling_params"@ != "stream"@,
        "sampling_params"@ != "stream_options"@,
        "sampling_params"@ != "messages"@,
        "features"@ != "tokens"@,
        "features"@ != "prompt"@,
        "features"@ != "kv_transfer_params"@,
        "features"@ != "ec_transfer_params"@,
        "features"@ != "max_tokens"@,
        "features"@ != "min_tokens"@,
        "features"@ != "max_completion_tokens"@,
        "features"@ != "stream"@,
        "features"@ != "stream_options"@,
        "features"@ != "messages"@,
        "tokens"@ != "prompt"@,
        "tokens"@ != "kv_transfer_params"@,
        "tokens"@ != "ec_transfer_params"@,
        "tokens"@ != "max_tokens"@,
        "tokens"@ != "min_tokens"@,
        "tokens"@ != "max_completion_tokens"@,
        "tokens"@ != "stream"@,
        "tokens"@ != "stream_options"@,
        "tokens"@ != "messages"@,
        "prompt"@ != "kv_transfer_params"@,
        "prompt"@ != "ec_transfer_params"@,
        "prompt"@ != "max_tokens"@,
        "prompt"@ != "min_tokens"@,
        "prompt"@ != "max_completion_tokens"@,
        "prompt"@ != "stream"@,
        "prompt"@ != "stream_options"@,
        "prompt"@ != "messages"@,
        "kv_transfer_params"@ != "ec_transfer_params"@,
        "kv_transfer_params"@ != "max_tokens"@,
        "kv_transfer_params"@ != "min_tokens"@,
        "kv_transfer_params"@ != "max_completion_tokens"@,
        "kv_transfer_params"@ != "stream"@,
        "kv_transfer_params"@ != "stream_options"@,
        "kv_transfer_params"@ != "messages"@,
        "ec_transfer_params"@ != "max_tokens"@,
        "ec_transfer_params"@ != "min_tokens"@,
        "ec_transfer_params"@ != "max_completion_tokens"@,
        "ec_transfer_params"@ != "stream"@,
        "ec_transfer_params"@ != "stream_options"@,
        "ec_transfer_params"@ != "messages"@,
        "max_tokens"@ != "min_tokens"@,
        "max_tokens"@ != "max_completion_tokens"@,
        "max_tokens"@ != "stream"@,
        "max_tokens"@ != "stream_options"@,
        "max_tokens"@ != "messages"@,
        "min_tokens"@ != "max_completion_tokens"@,
        "min_tokens"@ != "stream"@,
        "min_tokens"@ != "stream_options"@,
        "min_tokens"@ != "messages"@,
        "max_completion_tokens"@ != "stream"@,
        "max_completion_tokens"@ != "stream_options"@,
        "max_completion_tokens"@ != "messages"@,
        "stream"@ != "stream_options"@,
        "stream"@ != "messages"@,
        "stream_options"@ != "messages"@,
{
    reveal_strlit("model");
    reveal_strlit("token_ids");
    reveal_strlit("sampling_params");
    reveal_strlit("features");
    reveal_strlit("tokens");
    reveal_strlit("prompt");
    reveal_strlit("kv_transfer_params");
    reveal_strlit("ec_transfer_params");
    reveal_strlit("max_tokens");
    reveal_strlit("min_tokens");
    reveal_strlit("max_completion_tokens");
    reveal_strlit("stream");
    reveal_strlit("stream_options");
    reveal_strlit("messages");
    assert("model"@.len() != "token_ids"@.len());
    assert("model"@.len() != "sampling_params"@.len());
    assert("model"@.len() != "features"@.len());
    assert("model"@.len() != "tokens"@.len());
    assert("model"@.len() != "prompt"@.len());
    assert("model"@.len() != "kv_transfer_params"@.len());
    assert("model"@.len() != "ec_transfer_params"@.len());
    assert("model"@.len() != "max_tokens"@.len());
    assert("model"@.len() != "min_tokens"@.len());
    assert("model"@.len() != "max_completion_tokens"@.len());
    assert("model"@.len() != "stream"@.len());
    assert("model"@.len() != "stream_options"@.len());
    assert("model"@.len() != "messages"@.len());
    assert("token_ids"@.len() != "sampling_params"@.len());
    assert("token_ids"@.len() != "features"@.len());
    assert("token_ids"@.len() != "tokens"@.len());
    assert("token_ids"@.len() != "prompt"@.len());
    assert("token_ids"@.len() != "kv_transfer_params"@.len());
    assert("token_ids"@.len() != "ec_transfer_params"@.len());
    assert("token_ids"@.len() != "max_tokens"@.len());
    assert("token_ids"@.len() != "min_tokens"@.len());
    assert("token_ids"@.len() != "max_completion_tokens"@.len());
    assert("token_ids"@.len() != "stream"@.len());
    assert("token_ids"@.len() != "stream_options"@.len());
    assert("token_ids"@.len() != "messages"@.len());
    assert("sampling_params"@.len() != "features"@.len());
    assert("sampling_params"@.len() != "tokens"@.len());
    assert("sampling_params"@.len() != "prompt"@.len());
    assert("sampling_params"@.len() != "kv_transfer_params"@.len());
    assert("sampling_params"@.len() != "ec_transfer_params"@.len());
    assert("sampling_params"@.len() != "max_tokens"@.len());
    assert("sampling_params"@.len() != "min_tokens"@.len());
    assert("sampling_params"@.len() != "max_completion_tokens"@.len());
    assert("sampling_params"@.len() != "stream"@.len());
    assert("sampling_params"@.len() != "stream_options"@.len());
    assert("sampling_params"@.len() != "messages"@.len());
    assert("features"@.len() != "tokens"@.len());
    assert("features"@.len() != "prompt"@.len());
    assert("features"@.len() != "kv_transfer_params"@.len());
    assert("features"@.len() != "ec_transfer_params"@.len());
    assert("features"@.len() != "max_tokens"@.len());
    assert("features"@.len() != "min_tokens"@.len());
    assert("features"@.len() != "max_completion_tokens"@.len());
    assert("features"@.len() != "stream"@.len());
    assert("features"@.len() != "stream_options"@.len());
    assert("features"@[0] != "messages"@[0]);
    assert("tokens"@[0] != "prompt"@[0]);
    assert("tokens"@.len() != "kv_transfer_params"@.len());
    assert("tokens"@.len() != "ec_transfer_params"@.len());
    assert("tokens"@.len() != "max_tokens"@.len());
    assert("tokens"@.len() != "min_tokens"@.len());
    assert("tokens"@.len() != "max_completion_tokens"@.len());
    assert("tokens"@[0] != "stream"@[0]);
    assert("tokens"@.len() != "stream_options"@.len());
    assert("tokens"@.len() != "messages"@.len());
    assert("prompt"@.len() != "kv_transfer_params"@.len());
    assert("prompt"@.len() != "ec_transfer_params"@.len());
    assert("prompt"@.len() != "max_tokens"@.len());
    assert("prompt"@.len() != "min_tokens"@.len());
    assert("prompt"@.len() != "max_completion_tokens"@.len());
    assert("prompt"@[0] != "stream"@[0]);
    assert("prompt"@.len() != "stream_options"@.len());
    assert("prompt"@.len() != "messages"@.len());
    assert("kv_transfer_params"@[0] != "ec_transfer_params"@[0]);
    assert("kv_transfer_params"@.len() != "max_tokens"@.len());
    assert("kv_transfer_params"@.len() != "min_tokens"@.len());
    assert("kv_transfer_params"@.len() != "max_completion_tokens"@.len());
    assert("kv_transfer_params"@.len() != "stream"@.len());
    assert("kv_transfer_params"@.len() != "stream_options"@.len());
    assert("kv_transfer_params"@.len() != "messages"@.len());
    assert("ec_transfer_params"@.len() != "max_tokens"@.len());
    assert("ec_transfer_params"@.len() != "min_tokens"@.len());
    assert("ec_transfer_params"@.len() != "max_completion_tokens"@.len());
    assert("ec_transfer_params"@.len() != "stream"@.len());
    assert("ec_transfer_params"@.len() != "stream_options"@.len());
    assert("ec_transfer_params"@.len() != "messages"@.len());
    assert("max_tokens"@[1] != "min_tokens"@[1]);
    assert("max_tokens"@.len() != "max_completion_tokens"@.len());
    assert("max_tokens"@.len() != "stream"@.len());
    assert("max_tokens"@.len() != "stream_options"@.len());
    assert("max_tokens"@.len() != "messages"@.len());
    assert("min_tokens"@.len() != "max_completion_tokens"@.len());
    assert("min_tokens"@.len() != "stream"@.len());
    assert("min_tokens"@.len() != "stream_options"@.len());
    assert("min_tokens"@.len() != "messages"@.len());
    assert("max_completion_tokens"@.len() != "stream"@.len());
    assert("max_completion_tokens"@.len() != "stream_options"@.len());
    assert("max_completion_tokens"@.len() != "messages"@.len());
    assert("stream"@.len() != "stream_options"@.len());
    assert("stream"@.len() != "messages"@.len());
    assert("stream_options"@.len() != "messages"@.len());
}

proof fn feature_keys_differ()
    ensures
        "mm_hashes"@ != "mm_placeholders"@,
        "mm_hashes"@ != "kwargs_data"@,
        "mm_placeholders"@ != "kwargs_data"@,
{
    reveal_strlit("mm_hashes");
    reveal_strlit("mm_placeholders");
    reveal_strlit("kwargs_data");
    assert("mm_hashes"@.len() != "mm_placeholders"@.len());
    assert("mm_hashes"@.len() != "kwargs_data"@.len());
    assert("mm_placeholders"@.len() != "kwargs_data"@.len());
}

proof fn inner_keys_differ()
    ensures
        "token_ids"@ != "features"@,
        "offset"@ != "length"@,
        "role"@ != "content"@,
        "max_tokens"@ != "min_tokens"@,
        "max_tokens"@ != "extra_args"@,
        "min_tokens"@ != "extra_args"@,
        "kv_transfer_params"@ != "ec_transfer_params"@,
{
    reveal_strlit("token_ids");
    reveal_strlit("features");
    reveal_strlit("offset");
    reveal_strlit("length");
    reveal_strlit("role");
    reveal_strlit("content");
    reveal_strlit("max_tokens");
    reveal_strlit("min_tokens");
    reveal_strlit("extra_args");
    reveal_strlit("kv_transfer_params");
    reveal_strlit("ec_transfer_params");
    assert("token_ids"@.len() != "features"@.len());
    assert("offset"@[0] != "length"@[0]);
    assert("role"@.len() != "content"@.len());
    assert("max_tokens"@[1] != "min_tokens"@[1]);
    assert("max_tokens"@[0] != "extra_args"@[0]);
    assert("min_tokens"@[0] != "extra_args"@[0]);
    assert("kv_transfer_params"@[0] != "ec_transfer_params"@[0]);
}

/// What stands under a key of an object, where there is an object that has it.
pub open spec fn inside(value: Option<JsonView>, key: Seq<char>) -> Option<JsonView> {
    match value {
        Some(JsonView::Object(members)) => json::field(members, key),
        _ => None,
    }
}

/// Whether a value is the array of these token IDs: it is as long and has the
/// same number at each place.
pub open spec fn lists_tokens(value: Option<JsonView>, token_ids: Seq<u64>) -> bool {
    value matches Some(JsonView::Array(items)) && items.len() == token_ids.len() && forall|i: int|
        0 <= i < items.len() ==> #[trigger] items[i] == JsonView::Whole(token_ids[i] as int)
}

/// Whether a value lists the hashes of the entries.
pub open spec fn lists_hashes(value: Option<JsonView>, entries: Seq<MultimodalEntry>) -> bool {
    value matches Some(JsonView::Array(items)) && items.len() == entries.len() && forall|i: int|
        0 <= i < items.len() ==> #[trigger] items[i] == JsonView::Text(entries[i].hash@)
}

/// Whether a value states a range of placeholder tokens, and nothing else.
pub open spec fn states_range(value: JsonView, offset: int, length: int) -> bool {
    &&& value matches JsonView::Object(members) && forall|key: Seq<char>| #[trigger]
        members.contains_key(key) ==> key == "offset"@ || key == "length"@
    &&& json::member(value, "offset"@) == Some(JsonView::Whole(offset))
    &&& json::member(value, "length"@) == Some(JsonView::Whole(length))
}

/// Whether a value lists the placeholder ranges of the entries.
pub open spec fn lists_ranges(value: Option<JsonView>, entries: Seq<MultimodalEntry>) -> bool {
    value matches Some(JsonView::Array(items)) && items.len() == entries.len() && forall|i: int|
        0 <= i < items.len() ==> states_range(
            #[trigger] items[i],
            entries[i].placeholder.offset as int,
            entries[i].placeholder.length as int,
        )
}

/// Whether a value lists the tensors of the entries, with null for an entry
/// that has none.
pub open spec fn lists_tensors(value: Option<JsonView>, entries: Seq<MultimodalEntry>) -> bool {
    value matches Some(JsonView::Array(items)) && items.len() == entries.len() && forall|i: int|
        0 <= i < items.len() ==> #[trigger] items[i] == if entries[i].kwargs_data@.len() == 0 {
            JsonView::Null
        } else {
            JsonView::Text(entries[i].kwargs_data@)
        }
}

/// Whether features describe the entries: the hash and the range of each, in
/// order, and with `tensors` the tensor of each; and nothing else.
pub open spec fn describes(
    features: Option<JsonView>,
    entries: Seq<MultimodalEntry>,
    tensors: bool,
) -> bool {
    &&& features matches Some(JsonView::Object(members)) && forall|key: Seq<char>| #[trigger]
        members.contains_key(key) ==> key == "mm_hashes"@ || key == "mm_placeholders"@ || (tensors
            && key == "kwargs_data"@)
    &&& lists_hashes(inside(inside(features, "mm_hashes"@), "image"@), entries)
    &&& lists_ranges(inside(inside(features, "mm_placeholders"@), "image"@), entries)
    &&& tensors ==> lists_tensors(inside(inside(features, "kwargs_data"@), "image"@), entries)
}

/// Whether the rendered form of a chat request states these tokens, and the
/// features of the entries where there are any; and nothing else.
pub open spec fn states_rendering(
    rendering: Option<JsonView>,
    token_ids: Seq<u64>,
    entries: Seq<MultimodalEntry>,
    tensors: bool,
) -> bool {
    &&& rendering matches Some(JsonView::Object(members)) && forall|key: Seq<char>| #[trigger]
        members.contains_key(key) ==> key == "token_ids"@ || (entries.len() > 0 && key
            == "features"@)
    &&& lists_tokens(inside(rendering, "token_ids"@), token_ids)
    &&& entries.len() > 0 ==> describes(inside(rendering, "features"@), entries, tensors)
}

/// Whether a tokens-in request states the model of the client's request, these
/// tokens, and the features of the entries where there are any.
pub open spec fn states_native(
    request: Map<Seq<char>, JsonView>,
    body: Map<Seq<char>, JsonView>,
    token_ids: Seq<u64>,
    entries: Seq<MultimodalEntry>,
    tensors: bool,
) -> bool {
    &&& json::field(request, "model"@) == Some(
        if body.contains_key("model"@) {
            body["model"@]
        } else {
            JsonView::Null
        },
    )
    &&& lists_tokens(json::field(request, "token_ids"@), token_ids)
    &&& entries.len() > 0 ==> describes(json::field(request, "features"@), entries, tensors)
}

proof fn features_describe(entries: Seq<MultimodalEntry>, tensors: bool)
    ensures
        entries.len() > 0 ==> describes(
            transform::features_view(entries, tensors),
            entries,
            tensors,
        ),
        entries.len() == 0 ==> transform::features_view(entries, tensors) is None,
{
    feature_keys_differ();
    inner_keys_differ();
    if entries.len() > 0 {
        let features = transform::features_view(entries, tensors);
        assert(inside(inside(features, "mm_hashes"@), "image"@) == Some(
            JsonView::Array(transform::hash_views(entries)),
        ));
        assert(inside(inside(features, "mm_placeholders"@), "image"@) == Some(
            JsonView::Array(transform::range_views(entries)),
        ));
        assert forall|i: int| 0 <= i < entries.len() implies states_range(
            #[trigger] transform::range_views(entries)[i],
            entries[i].placeholder.offset as int,
            entries[i].placeholder.length as int,
        ) by {
            assert(transform::range_views(entries)[i] == transform::range_view(
                entries[i].placeholder.offset as nat,
                entries[i].placeholder.length as nat,
            ));
        }
    }
}

proof fn renderings_state(token_ids: Seq<u64>, entries: Seq<MultimodalEntry>, tensors: bool)
    ensures
        lists_tokens(Some(transform::tokens_view(token_ids)), token_ids),
        states_rendering(
            Some(
                transform::rendered_view(token_ids, transform::features_view(entries, tensors)),
            ),
            token_ids,
            entries,
            tensors,
        ),
{
    inner_keys_differ();
    features_describe(entries, tensors);
}

/// In an API format prefill gets, under every key that neither the rendered
/// tokens, the transfer parameters nor the limit to one token need, exactly
/// what the client's request has there, with and without media.
pub proof fn prefill_keeps_the_request(
    state: CoordinatorState,
    format: WireFormat,
    connector: KvConnector,
    key: Seq<char>,
)
    requires
        format is ChatCompletions || format is Completions,
        key != "kv_transfer_params"@,
        key != "ec_transfer_params"@,
        key != "tokens"@,
        key != "prompt"@,
        key != "max_tokens"@,
        key != "min_tokens"@,
        key != "max_completion_tokens"@,
        key != "stream"@,
        key != "stream_options"@,
    ensures
        json::field(transform::prefill_view(state, format, connector), key) == json::field(
            json::members_of(state.body),
            key,
        ),
{
}

/// Prefill is told the tokens of the request, and the hash, the placeholder
/// range and the tensor of each of its media: in a chat request, where there
/// are media, under `tokens`; in a completions request as its prompt; and in
/// the tokens-in format beside the model. What a format does not use for them
/// is as the client sent it.
pub proof fn prefill_is_told_the_tokens(
    state: CoordinatorState,
    format: WireFormat,
    connector: KvConnector,
)
    ensures
        ({
            let request = transform::prefill_view(state, format, connector);
            let body = json::members_of(state.body);
            let entries = state.multimodal@;
            match format {
                WireFormat::ChatCompletions => {
                    &&& entries.len() > 0 ==> states_rendering(
                        json::field(request, "tokens"@),
                        state.token_ids@,
                        entries,
                        true,
                    )
                    &&& entries.len() == 0 ==> json::field(request, "tokens"@) == json::field(
                        body,
                        "tokens"@,
                    )
                    &&& json::field(request, "prompt"@) == json::field(body, "prompt"@)
                },
                WireFormat::Completions => {
                    &&& lists_tokens(json::field(request, "prompt"@), state.token_ids@)
                    &&& json::field(request, "tokens"@) == json::field(body, "tokens"@)
                },
                WireFormat::Generate => {
                    &&& states_native(request, body, state.token_ids@, entries, true)
                    &&& forall|key: Seq<char>| #[trigger]
                        request.contains_key(key) ==> key == "model"@ || key == "token_ids"@ || key
                            == "sampling_params"@ || (entries.len() > 0 && key == "features"@)
                            || key == "stream"@
                },
            }
        }),
{
    request_keys_differ();
    renderings_state(state.token_ids@, state.multimodal@, true);
    features_describe(state.multimodal@, true);
}

/// Prefill gets the descriptors of the encoders: a chat request with media
/// always, any other where there are some; else it has under that key what the
/// client sent, or nothing in the tokens-in format.
pub proof fn prefill_gets_the_encoder_descriptors(
    state: CoordinatorState,
    format: WireFormat,
    connector: KvConnector,
)
    ensures
        ({
            let request = transform::prefill_view(state, format, connector);
            let merged = json::members_of(state.ec_transfer_params);
            let kept = json::field(json::members_of(state.body), "ec_transfer_params"@);
            match format {
                WireFormat::ChatCompletions => json::field(request, "ec_transfer_params"@)
                    == if state.multimodal@.len() > 0 {
                    Some(JsonView::Object(merged))
                } else {
                    kept
                },
                WireFormat::Completions => json::field(request, "ec_transfer_params"@)
                    == if exists|hash: Seq<char>| #[trigger] merged.contains_key(hash) {
                    Some(JsonView::Object(merged))
                } else {
                    kept
                },
                WireFormat::Generate => inside(
                    inside(json::field(request, "sampling_params"@), "extra_args"@),
                    "ec_transfer_params"@,
                ) == if exists|hash: Seq<char>| #[trigger] merged.contains_key(hash) {
                    Some(JsonView::Object(merged))
                } else {
                    None
                },
            }
        }),
{
    request_keys_differ();
    inner_keys_differ();
    let merged = json::members_of(state.ec_transfer_params);
    if !(exists|hash: Seq<char>| #[trigger] merged.contains_key(hash)) {
        assert(merged =~= json::no_fields());
    }
}

/// A tokens-in prefill request samples one token and nothing else is asked of
/// it: no sampling parameter of the client is in it.
pub proof fn native_prefill_samples_one_token(state: CoordinatorState, connector: KvConnector)
    ensures
        ({
            let request = transform::prefill_view(state, WireFormat::Generate, connector);
            &&& json::field(request, "sampling_params"@) matches Some(JsonView::Object(sampling))
                && forall|key: Seq<char>| #[trigger]
                sampling.contains_key(key) ==> key == "max_tokens"@ || key == "extra_args"@
            &&& inside(json::field(request, "sampling_params"@), "max_tokens"@) == Some(
                JsonView::Whole(1),
            )
            &&& inside(json::field(request, "sampling_params"@), "extra_args"@) matches Some(
                JsonView::Object(extra),
            ) && forall|key: Seq<char>| #[trigger]
                extra.contains_key(key) ==> key == "kv_transfer_params"@ || key
                    == "ec_transfer_params"@
        }),
{
    request_keys_differ();
    inner_keys_differ();
}

/// Decode is told the tokens of the request, whatever prefill did, and of its
/// media the hashes and the placeholder ranges: in a chat request under
/// `tokens`, in a completions request as its prompt, where it has tokens, and in
/// the tokens-in format beside the model. A worker that does everything itself is
/// told the same.
pub proof fn decode_is_told_the_tokens(
    state: CoordinatorState,
    format: WireFormat,
    connector: KvConnector,
)
    ensures
        ({
            let body = json::members_of(state.body);
            let entries = state.multimodal@;
            let request = transform::decode_view(state, format, connector);
            let whole = transform::combined_view(state, format);
            match format {
                WireFormat::ChatCompletions => {
                    &&& states_rendering(
                        json::field(request, "tokens"@),
                        state.token_ids@,
                        entries,
                        false,
                    )
                    &&& states_rendering(
                        json::field(whole, "tokens"@),
                        state.token_ids@,
                        entries,
                        false,
                    )
                    &&& json::field(request, "prompt"@) == json::field(body, "prompt"@)
                    &&& json::field(whole, "prompt"@) == json::field(body, "prompt"@)
                },
                WireFormat::Completions => {
                    &&& state.token_ids@.len() > 0 ==> lists_tokens(
                        json::field(request, "prompt"@),
                        state.token_ids@,
                    ) && lists_tokens(json::field(whole, "prompt"@), state.token_ids@)
                    &&& state.token_ids@.len() == 0 ==> json::field(request, "prompt"@)
                        == json::field(body, "prompt"@) && json::field(whole, "prompt"@)
                        == json::field(body, "prompt"@)
                    &&& json::field(request, "tokens"@) == json::field(body, "tokens"@)
                    &&& json::field(whole, "tokens"@) == json::field(body, "tokens"@)
                },
                WireFormat::Generate => {
                    &&& states_native(request, body, state.token_ids@, entries, false)
                    &&& states_native(whole, body, state.token_ids@, entries, false)
                },
            }
        }),
{
    request_keys_differ();
    renderings_state(state.token_ids@, state.multimodal@, false);
    features_describe(state.multimodal@, false);
}

/// In an API format a worker that does everything itself gets, under every key
/// but that of the rendered tokens, exactly what the client's request has there.
pub proof fn combined_decode_keeps_the_request(
    state: CoordinatorState,
    format: WireFormat,
    key: Seq<char>,
)
    requires
        format is ChatCompletions ==> key != "tokens"@,
        format is Completions ==> key != "prompt"@,
        !(format is Generate),
    ensures
        json::field(transform::combined_view(state, format), key) == json::field(
            json::members_of(state.body),
            key,
        ),
{
}

/// The conditional stage is told the tokens of the request, where it has some,
/// and of its media the hashes and the placeholder ranges. Without tokens, and
/// under the keys that the format does not use for them, it gets what the client
/// sent.
pub proof fn conditional_decode_is_told_the_tokens(state: CoordinatorState, format: WireFormat)
    ensures
        ({
            let body = json::members_of(state.body);
            let request = transform::conditional_view(state, format);
            let some = state.token_ids@.len() > 0;
            &&& some && format is ChatCompletions ==> states_rendering(
                json::field(request, "tokens"@),
                state.token_ids@,
                state.multimodal@,
                false,
            )
            &&& some && format is Completions ==> lists_tokens(
                json::field(request, "prompt"@),
                state.token_ids@,
            )
            &&& !(some && format is ChatCompletions) ==> json::field(request, "tokens"@)
                == json::field(body, "tokens"@)
            &&& !(some && format is Completions) ==> json::field(request, "prompt"@)
                == json::field(body, "prompt"@)
        }),
{
    request_keys_differ();
    renderings_state(state.token_ids@, state.multimodal@, false);
}

/// The sampling parameters of a request lose transfer parameters, which stand
/// among their extra arguments, and nothing else; where they are no object, or
/// have no extra arguments that are one, they are kept as they are.
pub proof fn discarding_keeps_sampling_parameters(body: Map<Seq<char>, JsonView>, key: Seq<char>)
    ensures
        ({
            let before = json::field(body, "sampling_params"@);
            let after = json::field(transform::discarded(body), "sampling_params"@);
            &&& before is Some <==> after is Some
            &&& key != "extra_args"@ ==> inside(after, key) == inside(before, key)
            &&& key != "kv_transfer_params"@ && key != "ec_transfer_params"@ ==> inside(
                inside(after, "extra_args"@),
                key,
            ) == inside(inside(before, "extra_args"@), key)
            &&& !(inside(before, "extra_args"@) matches Some(JsonView::Object(_))) ==> after
                == before
        }),
{
    request_keys_differ();
}

/// A tokens-in decode request has each of the seven sampling controls that the
/// client set in its API, under the same name.
pub proof fn native_decode_has_each_control(
    state: CoordinatorState,
    connector: KvConnector,
    key: Seq<char>,
)
    requires
        key == "max_tokens"@ || key == "min_tokens"@ || key == "temperature"@ || key == "top_p"@
            || key == "top_k"@ || key == "stop"@ || key == "seed"@,
        json::members_of(state.body).contains_key(key),
    ensures
        inside(
            json::field(
                transform::decode_view(state, WireFormat::Generate, connector),
                "sampling_params"@,
            ),
            key,
        ) == json::field(json::members_of(state.body), key),
        inside(
            json::field(transform::combined_view(state, WireFormat::Generate), "sampling_params"@),
            key,
        ) == json::field(json::members_of(state.body), key),
{
    request_keys_differ();
    let body = json::members_of(state.body);
    let keys = transform::sampling_keys();
    assert(keys[0] == "max_tokens"@ && keys[1] == "min_tokens"@ && keys[2] == "temperature"@
        && keys[3] == "top_p"@ && keys[4] == "top_k"@ && keys[5] == "stop"@ && keys[6] == "seed"@);
    assert(keys.contains(key));
    controls_are_no_extra_arguments();
    transform::picked_members(transform::own_sampling(body), body, keys, key);
}

/// A tokens-in decode request has no sampling control beside those seven of what
/// the client set in its API: any other sampling parameter is one that the client
/// stated in the tokens-in format.
pub proof fn native_decode_has_no_other_control(
    state: CoordinatorState,
    connector: KvConnector,
    key: Seq<char>,
)
    requires
        key != "max_tokens"@ && key != "min_tokens"@ && key != "temperature"@ && key != "top_p"@
            && key != "top_k"@ && key != "stop"@ && key != "seed"@ && key != "extra_args"@,
    ensures
        inside(
            json::field(
                transform::decode_view(state, WireFormat::Generate, connector),
                "sampling_params"@,
            ),
            key,
        ) == inside(json::field(json::members_of(state.body), "sampling_params"@), key),
        inside(
            json::field(transform::combined_view(state, WireFormat::Generate), "sampling_params"@),
            key,
        ) == inside(json::field(json::members_of(state.body), "sampling_params"@), key),
{
    request_keys_differ();
    let body = json::members_of(state.body);
    let keys = transform::sampling_keys();
    if keys.contains(key) {
        let i = choose|i: int| 0 <= i < keys.len() && keys[i] == key;
        assert(i == 0 || i == 1 || i == 2 || i == 3 || i == 4 || i == 5 || i == 6);
    }
    transform::picked_members(transform::own_sampling(body), body, keys, key);
    assert(json::field(transform::own_sampling(body), key) == inside(
        json::field(body, "sampling_params"@),
        key,
    ));
}

proof fn controls_are_no_extra_arguments()
    ensures
        "max_tokens"@ != "extra_args"@,
        "min_tokens"@ != "extra_args"@,
        "temperature"@ != "extra_args"@,
        "top_p"@ != "extra_args"@,
        "top_k"@ != "extra_args"@,
        "stop"@ != "extra_args"@,
        "seed"@ != "extra_args"@,
{
    reveal_strlit("max_tokens");
    reveal_strlit("min_tokens");
    reveal_strlit("temperature");
    reveal_strlit("top_p");
    reveal_strlit("top_k");
    reveal_strlit("stop");
    reveal_strlit("seed");
    reveal_strlit("extra_args");
    assert("max_tokens"@[0] != "extra_args"@[0]);
    assert("min_tokens"@[0] != "extra_args"@[0]);
    assert("temperature"@.len() != "extra_args"@.len());
    assert("top_p"@.len() != "extra_args"@.len());
    assert("top_k"@.len() != "extra_args"@.len());
    assert("stop"@.len() != "extra_args"@.len());
    assert("seed"@.len() != "extra_args"@.len());
}

/// In the tokens-in format a client's request keeps every member but the model,
/// the tokens, the sampling parameters, the features and transfer parameters, on
/// its way to decode; a request of another API hands none of its members over
/// but the model and its sampling controls.
pub proof fn native_decode_keeps_native_requests(
    state: CoordinatorState,
    connector: KvConnector,
    key: Seq<char>,
)
    requires
        key != "model"@ && key != "token_ids"@ && key != "sampling_params"@,
        key != "features"@ || (state.multimodal@.len() == 0 && state.original_path@
            != "/inference/v1/generate"@),
    ensures
        ({
            let body = json::members_of(state.body);
            let transfers = key == "kv_transfer_params"@ || key == "ec_transfer_params"@;
            let expected = if state.original_path@ == "/inference/v1/generate"@ && !transfers {
                json::field(body, key)
            } else {
                None
            };
            &&& json::field(transform::decode_view(state, WireFormat::Generate, connector), key)
                == expected
            &&& json::field(transform::combined_view(state, WireFormat::Generate), key) == expected
        }),
{
    request_keys_differ();
}

/// The tokens of an encode request are one more than the placeholder of its
/// entry is long. The first is the first token of the request, and every other
/// is the token at the placeholder's offset.
pub proof fn encode_repeats_the_placeholder(token_ids: Seq<u64>, entry: MultimodalEntry)
    requires
        entry.placeholder.length < usize::MAX,
    ensures
        ({
            let tokens = transform::encoder_tokens(token_ids, entry);
            &&& tokens.len() == entry.placeholder.length + 1
            &&& token_ids.len() > 0 ==> tokens[0] == token_ids[0]
            &&& token_ids.len() == 0 ==> tokens[0] == 1
            &&& forall|i: int|
                0 < i < tokens.len() ==> #[trigger] tokens[i] == if entry.placeholder.offset
                    < token_ids.len() {
                    token_ids[entry.placeholder.offset as int]
                } else {
                    0
                }
        }),
{
}

/// The features of an encode request describe its one entry: its hash, its
/// tensor, and a range behind the first token that is as long as its placeholder.
pub open spec fn describes_one(features: Option<JsonView>, entry: MultimodalEntry) -> bool {
    &&& features matches Some(JsonView::Object(members)) && forall|key: Seq<char>| #[trigger]
        members.contains_key(key) ==> key == "mm_hashes"@ || key == "mm_placeholders"@ || key
            == "kwargs_data"@
    &&& inside(inside(features, "mm_hashes"@), "image"@) matches Some(JsonView::Array(items))
        && items.len() == 1 && items[0] == JsonView::Text(entry.hash@)
    &&& inside(inside(features, "mm_placeholders"@), "image"@) matches Some(JsonView::Array(items))
        && items.len() == 1 && states_range(items[0], 1, entry.placeholder.length as int)
    &&& inside(inside(features, "kwargs_data"@), "image"@) matches Some(JsonView::Array(items))
        && items.len() == 1 && items[0] == JsonView::Text(entry.kwargs_data@)
}

/// An encode request states the model of the client's request, the tokens for
/// its entry and the features of that entry, and nothing else of what the client
/// sent but the image; the range that its features state lies within its tokens.
pub proof fn encode_states_its_entry(state: CoordinatorState, entry: MultimodalEntry)
    requires
        entry.placeholder.length < usize::MAX,
    ensures
        ({
            let request = transform::encode_view(state, entry);
            let body = json::members_of(state.body);
            let tokens = transform::encoder_tokens(state.token_ids@, entry);
            let rendering = json::field(request, "tokens"@);
            let (stated, features) = if state.format is Generate {
                (json::field(request, "token_ids"@), json::field(request, "features"@))
            } else {
                (inside(rendering, "token_ids"@), inside(rendering, "features"@))
            };
            &&& json::field(request, "model"@) == Some(
                if body.contains_key("model"@) {
                    body["model"@]
                } else {
                    JsonView::Null
                },
            )
            &&& lists_tokens(stated, tokens)
            &&& stated->0->Array_0.len() == entry.placeholder.length + 1
            &&& describes_one(features, entry)
            &&& forall|key: Seq<char>| #[trigger]
                request.contains_key(key) ==> key == "model"@ || key == "stream"@ || if state.format is Generate {
                    key == "token_ids"@ || key == "features"@ || key == "sampling_params"@
                } else {
                    key == "messages"@ || key == "tokens"@ || key == "max_tokens"@
                }
        }),
{
    request_keys_differ();
    inner_keys_differ();
    feature_keys_differ();
    let tokens = transform::encoder_tokens(state.token_ids@, entry);
    renderings_state(tokens, Seq::empty(), true);
    let features = Some(transform::encoder_features(entry));
    assert(describes_one(features, entry));
}

/// In an API format an encode request has one message of the user, whose only
/// content is the image of its entry: the image part of the client's request at
/// the entry's place.
pub proof fn encode_carries_the_image(state: CoordinatorState, entry: MultimodalEntry)
    requires
        !(state.format is Generate),
    ensures
        ({
            let images = transform::images_of(
                transform::messages_of(json::members_of(state.body)),
            );
            let messages = json::field(transform::encode_view(state, entry), "messages"@);
            &&& messages matches Some(JsonView::Array(items)) && items.len() == 1
            &&& inside(Some(messages->0->Array_0[0]), "role"@) == Some(JsonView::Text("user"@))
            &&& entry.index < images.len() ==> inside(
                Some(messages->0->Array_0[0]),
                "content"@,
            ) == Some(JsonView::Array(seq![images[entry.index as int]]))
            &&& entry.index >= images.len() ==> inside(
                Some(messages->0->Array_0[0]),
                "content"@,
            ) == Some(JsonView::Array(Seq::empty()))
        }),
{
    request_keys_differ();
    inner_keys_differ();
}

/// The image parts of messages are those of the first messages and then those
/// of the others.
pub proof fn images_come_in_order(messages: Seq<JsonView>, more: Seq<JsonView>)
    ensures
        transform::images_of(messages + more) == transform::images_of(messages)
            + transform::images_of(more),
    decreases more.len(),
{
    if more.len() == 0 {
        assert(messages + more =~= messages);
        assert(transform::images_of(messages) + transform::images_of(more)
            =~= transform::images_of(messages));
    } else {
        images_come_in_order(messages, more.drop_last());
        assert((messages + more).drop_last() =~= messages + more.drop_last());
        assert((messages + more).last() == more.last());
        let a = transform::images_of(messages);
        let b = transform::images_of(more.drop_last());
        let c = transform::images_among(transform::content_parts(more.last()));
        assert(a + (b + c) =~= (a + b) + c);
    }
}

/// The image parts of one message are the parts of its content whose type is
/// `image_url`, in order; a message whose content is no array has none.
pub proof fn images_of_a_message(message: JsonView)
    ensures
        json::member(message, "content"@) matches Some(JsonView::Array(parts))
            ==> transform::images_of(seq![message]) == parts.filter(
            |part: JsonView| json::member(part, "type"@) == Some(JsonView::Text("image_url"@)),
        ),
        !(json::member(message, "content"@) matches Some(JsonView::Array(_)))
            ==> transform::images_of(seq![message]).len() == 0,
{
    let one = seq![message];
    assert(one.drop_last() =~= Seq::empty());
    assert(one.last() == message);
    assert(transform::images_of(one.drop_last()) =~= Seq::empty());
    let parts = transform::content_parts(message);
    images_are_filtered(parts);
    assert(transform::images_of(one) =~= transform::images_among(parts));
}

proof fn images_are_filtered(parts: Seq<JsonView>)
    ensures
        transform::images_among(parts) == parts.filter(
            |part: JsonView| json::member(part, "type"@) == Some(JsonView::Text("image_url"@)),
        ),
    decreases parts.len(),
{
    let pred = |part: JsonView|
        json::member(part, "type"@) == Some(JsonView::Text("image_url"@));
    reveal(Seq::filter);
    if parts.len() > 0 {
        images_are_filtered(parts.drop_last());
    }
    assert(transform::images_among(parts) =~= parts.filter(pred));
}

/// The messages of a request are what stands under `messages`, where that is an
/// array.
pub proof fn messages_stand_under_their_key(body: Map<Seq<char>, JsonView>)
    ensures
        json::field(body, "messages"@) matches Some(JsonView::Array(items))
            ==> transform::messages_of(body) == items,
        !(json::field(body, "messages"@) matches Some(JsonView::Array(_)))
            ==> transform::messages_of(body).len() == 0,
{
}

/// What a prefill worker is told of the KV transfer: with NIXL that the peer is
/// not known yet, in four members that are null, and with shared storage nothing
/// beside the two marks that say which stage is remote.
pub proof fn prefill_parameters_name_no_peer(key: Seq<char>)
    ensures
        ({
            let peer = key == "remote_engine_id"@ || key == "remote_block_ids"@ || key
                == "remote_host"@ || key == "remote_port"@;
            let mark = key == "do_remote_decode"@ || key == "do_remote_prefill"@;
            &&& peer ==> json::field(KvConnector::KvNixl.prefill_fields(), key) == Some(
                JsonView::Null,
            )
            &&& KvConnector::KvNixl.prefill_fields().contains_key(key) <==> peer || mark
            &&& KvConnector::KvSharedStorage.prefill_fields().contains_key(key) <==> mark
        }),
{
    reveal_strlit("do_remote_decode");
    reveal_strlit("do_remote_prefill");
    reveal_strlit("remote_engine_id");
    reveal_strlit("remote_block_ids");
    reveal_strlit("remote_host");
    reveal_strlit("remote_port");
    assert("do_remote_decode"@[0] != "remote_engine_id"@[0]);
    assert("do_remote_decode"@[0] != "remote_block_ids"@[0]);
}

/// Whatever the client asked for, prefill and encode ask for one token, in one
/// piece: an API request in its own limits, of which the one on completion tokens
/// is there exactly where the client's is, and a tokens-in request in its sampling
/// parameters.
pub proof fn one_token_is_asked_for(
    state: CoordinatorState,
    format: WireFormat,
    connector: KvConnector,
    entry: MultimodalEntry,
)
    ensures
        ({
            let prefill = transform::prefill_view(state, format, connector);
            let encode = transform::encode_view(state, entry);
            let body = json::members_of(state.body);
            &&& json::field(prefill, "stream"@) == Some(JsonView::Bool(false))
            &&& json::field(encode, "stream"@) == Some(JsonView::Bool(false))
            &&& !prefill.contains_key("stream_options"@) && !encode.contains_key("stream_options"@)
            &&& !(format is Generate) ==> {
                &&& json::field(prefill, "max_tokens"@) == Some(JsonView::Whole(1))
                &&& !prefill.contains_key("min_tokens"@)
                &&& prefill.contains_key("max_completion_tokens"@) <==> body.contains_key(
                    "max_completion_tokens"@,
                )
                &&& prefill.contains_key("max_completion_tokens"@)
                    ==> prefill["max_completion_tokens"@] == JsonView::Whole(1)
            }
            &&& state.format is Generate ==> {
                &&& inside(json::field(encode, "sampling_params"@), "max_tokens"@) == Some(
                    JsonView::Whole(1),
                )
                &&& inside(json::field(encode, "sampling_params"@), "min_tokens"@) is None
            }
            &&& !(state.format is Generate) ==> {
                &&& json::field(encode, "max_tokens"@) == Some(JsonView::Whole(1))
                &&& !encode.contains_key("min_tokens"@)
                &&& !encode.contains_key("max_completion_tokens"@)
            }
        }),
{
    request_keys_differ();
    inner_keys_differ();
}

/// The sampling parameters of a request to the conditional stage are those of the
/// client without transfer parameters.
pub proof fn conditional_decode_keeps_sampling_parameters(
    state: CoordinatorState,
    format: WireFormat,
    key: Seq<char>,
)
    ensures
        ({
            let before = json::field(json::members_of(state.body), "sampling_params"@);
            let after = json::field(transform::conditional_view(state, format), "sampling_params"@);
            &&& before is Some <==> after is Some
            &&& key != "extra_args"@ ==> inside(after, key) == inside(before, key)
            &&& key != "kv_transfer_params"@ && key != "ec_transfer_params"@ ==> inside(
                inside(after, "extra_args"@),
                key,
            ) == inside(inside(before, "extra_args"@), key)
        }),
{
    request_keys_differ();
    discarding_keeps_sampling_parameters(json::members_of(state.body), key);
}

/// On its way to decode a request keeps the extra arguments among the sampling
/// parameters that the client stated, but for transfer parameters.
pub proof fn native_decode_keeps_the_extra_arguments(
    state: CoordinatorState,
    connector: KvConnector,
    key: Seq<char>,
)
    requires
        key != "kv_transfer_params"@,
        key != "ec_transfer_params"@,
    ensures
        ({
            let stated = inside(
                inside(json::field(json::members_of(state.body), "sampling_params"@), "extra_args"@),
                key,
            );
            let decode = transform::decode_view(state, WireFormat::Generate, connector);
            let whole = transform::combined_view(state, WireFormat::Generate);
            &&& inside(inside(json::field(decode, "sampling_params"@), "extra_args"@), key)
                == stated
            &&& inside(inside(json::field(whole, "sampling_params"@), "extra_args"@), key) == stated
        }),
{
    request_keys_differ();
    controls_are_no_extra_arguments();
    let body = json::members_of(state.body);
    let keys = transform::sampling_keys();
    if keys.contains("extra_args"@) {
        let i = choose|i: int| 0 <= i < keys.len() && keys[i] == "extra_args"@;
        assert(i == 0 || i == 1 || i == 2 || i == 3 || i == 4 || i == 5 || i == 6);
    }
    transform::picked_members(transform::own_sampling(body), body, keys, "extra_args"@);
}

/// Whatever its format, prefill finds the connector's parameters where its format
/// has them, and decode finds there what prefill handed over, with the marks of
/// which stage is remote turned round.
pub proof fn transfer_parameters_have_their_place(
    state: CoordinatorState,
    format: WireFormat,
    connector: KvConnector,
    key: Seq<char>,
)
    ensures
        ({
            let prefill = transform::prefill_view(state, format, connector);
            let decode = transform::decode_view(state, format, connector);
            let (told, got) = if format is Generate {
                (
                    inside(
                        inside(json::field(prefill, "sampling_params"@), "extra_args"@),
                        "kv_transfer_params"@,
                    ),
                    inside(
                        inside(json::field(decode, "sampling_params"@), "extra_args"@),
                        "kv_transfer_params"@,
                    ),
                )
            } else {
                (
                    json::field(prefill, "kv_transfer_params"@),
                    json::field(decode, "kv_transfer_params"@),
                )
            };
            &&& inside(told, "do_remote_decode"@) == Some(JsonView::Bool(true))
            &&& inside(told, "do_remote_prefill"@) == Some(JsonView::Bool(false))
            &&& inside(got, "do_remote_decode"@) == Some(JsonView::Bool(false))
            &&& inside(got, "do_remote_prefill"@) == Some(JsonView::Bool(true))
            &&& key != "do_remote_decode"@ && key != "do_remote_prefill"@ ==> inside(got, key)
                == json::field(json::members_of(state.kv_transfer_params), key)
        }),
{
    request_keys_differ();
    inner_keys_differ();
    transform::workers_find_their_transfer_parameters(state, format, connector);
    let returned = json::members_of(state.kv_transfer_params);
    connectors::remote_marks_alternate(connector, returned);
    if key != "do_remote_decode"@ && key != "do_remote_prefill"@ {
        connectors::decode_keeps_the_descriptor(returned, key);
    }
}

} // verus!
