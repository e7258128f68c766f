//! Worker request bodies of the inference stages.
use crate::connectors::KvConnector;
use crate::json::{self, JsonMap, JsonView};
use crate::state::{CoordinatorState, MultimodalEntry, WireFormat};
use crate::text;
use vstd::prelude::*;

verus! {

/// An object with the one member `image`, an array.
pub open spec fn image_view(items: Seq<JsonView>) -> JsonView {
    JsonView::Object(json::no_fields().insert("image"@, JsonView::Array(items)))
}

/// An array of token IDs.
pub open spec fn tokens_view(token_ids: Seq<u64>) -> JsonView {
    JsonView::Array(token_ids.map_values(|id: u64| JsonView::Whole(id as int)))
}

/// Where a placeholder stands.
pub open spec fn range_view(offset: nat, length: nat) -> JsonView {
    JsonView::Object(
        json::no_fields().insert("offset"@, JsonView::Whole(offset as int)).insert(
            "length"@,
            JsonView::Whole(length as int),
        ),
    )
}

/// The hashes of the entries.
pub open spec fn hash_views(entries: Seq<MultimodalEntry>) -> Seq<JsonView> {
    entries.map_values(|entry: MultimodalEntry| JsonView::Text(entry.hash@))
}

/// The placeholder ranges of the entries.
pub open spec fn range_views(entries: Seq<MultimodalEntry>) -> Seq<JsonView> {
    entries.map_values(
        |entry: MultimodalEntry|
            range_view(entry.placeholder.offset as nat, entry.placeholder.length as nat),
    )
}

/// The tensors of the entries; an entry without one has null.
pub open spec fn kwargs_views(entries: Seq<MultimodalEntry>) -> Seq<JsonView> {
    entries.map_values(
        |entry: MultimodalEntry|
            if entry.kwargs_data@.len() == 0 {
                JsonView::Null
            } else {
                JsonView::Text(entry.kwargs_data@)
            },
    )
}

/// The multimodal features of a request; without entries there are none.
pub open spec fn features_view(entries: Seq<MultimodalEntry>, include_kwargs: bool) -> Option<
    JsonView,
> {
    if entries.len() == 0 {
        None
    } else {
        let shared = json::no_fields().insert("mm_hashes"@, image_view(hash_views(entries))).insert(
            "mm_placeholders"@,
            image_view(range_views(entries)),
        );
        if include_kwargs {
            Some(
                JsonView::Object(
                    shared.insert("kwargs_data"@, image_view(kwargs_views(entries))),
                ),
            )
        } else {
            Some(JsonView::Object(shared))
        }
    }
}

/// `members` with `key` set to `value`, where there is a value.
pub open spec fn with_optional(
    members: Map<Seq<char>, JsonView>,
    key: Seq<char>,
    value: Option<JsonView>,
) -> Map<Seq<char>, JsonView> {
    match value {
        Some(value) => members.insert(key, value),
        None => members,
    }
}

/// The members of the object under `key`; none where there is no such object.
pub open spec fn nested(members: Map<Seq<char>, JsonView>, key: Seq<char>) -> Map<
    Seq<char>,
    JsonView,
> {
    match json::field(members, key) {
        Some(JsonView::Object(inner)) => inner,
        _ => json::no_fields(),
    }
}

/// Whether `key` is absent or an object.
pub open spec fn nestable(members: Map<Seq<char>, JsonView>, key: Seq<char>) -> bool {
    !members.contains_key(key) || members[key] is Object
}

/// The transfer parameters taken out of an object.
pub open spec fn without_transfer(members: Map<Seq<char>, JsonView>) -> Map<Seq<char>, JsonView> {
    members.remove("kv_transfer_params"@).remove("ec_transfer_params"@)
}

/// The request of a client without transfer parameters, wherever a worker
/// would look for them.
pub open spec fn discarded(body: Map<Seq<char>, JsonView>) -> Map<Seq<char>, JsonView> {
    let open = without_transfer(body);
    match json::field(open, "sampling_params"@) {
        Some(JsonView::Object(sampling)) => match json::field(sampling, "extra_args"@) {
            Some(JsonView::Object(extra)) => open.insert(
                "sampling_params"@,
                JsonView::Object(
                    sampling.insert("extra_args"@, JsonView::Object(without_transfer(extra))),
                ),
            ),
            _ => open,
        },
        _ => open,
    }
}

/// A request limited to one token.
pub open spec fn one_token(members: Map<Seq<char>, JsonView>) -> Map<Seq<char>, JsonView> {
    members.insert("max_tokens"@, JsonView::Whole(1)).remove("min_tokens"@)
}

/// A request limited to one token and not streamed.
pub open spec fn capped(members: Map<Seq<char>, JsonView>, format: WireFormat) -> Map<
    Seq<char>,
    JsonView,
> {
    let limited = if format is Generate {
        members.insert(
            "sampling_params"@,
            JsonView::Object(one_token(nested(members, "sampling_params"@))),
        )
    } else {
        one_token(members)
    };
    let bounded = if limited.contains_key("max_completion_tokens"@) {
        limited.insert("max_completion_tokens"@, JsonView::Whole(1))
    } else {
        limited
    };
    bounded.insert("stream"@, JsonView::Bool(false)).remove("stream_options"@)
}

/// A tokens-in request with its transfer parameters under
/// `sampling_params.extra_args`; empty encoder-cache parameters are left out.
pub open spec fn transferring(
    members: Map<Seq<char>, JsonView>,
    kv: JsonView,
    ec: Option<JsonView>,
) -> Map<Seq<char>, JsonView> {
    let sampling = nested(members, "sampling_params"@);
    let extra = nested(sampling, "extra_args"@).insert("kv_transfer_params"@, kv);
    let extra = match ec {
        Some(JsonView::Object(params)) if params != json::no_fields() => extra.insert(
            "ec_transfer_params"@,
            JsonView::Object(params),
        ),
        _ => extra,
    };
    members.insert(
        "sampling_params"@,
        JsonView::Object(sampling.insert("extra_args"@, JsonView::Object(extra))),
    )
}

/// The model that a request names, or null.
pub open spec fn model_view(body: Map<Seq<char>, JsonView>) -> JsonView {
    match json::field(body, "model"@) {
        Some(model) => model,
        None => JsonView::Null,
    }
}

/// What a tokens-in request keeps of the client's request: all of it but
/// transfer parameters, where the client sent it in the tokens-in format, and
/// else nothing.
pub open spec fn native_base(state: CoordinatorState) -> Map<Seq<char>, JsonView> {
    if state.original_path@ == WireFormat::Generate.route() {
        without_transfer(json::members_of(state.body))
    } else {
        json::no_fields()
    }
}

/// `base` made a tokens-in request for the model of `body`.
pub open spec fn native_view(
    base: Map<Seq<char>, JsonView>,
    body: Map<Seq<char>, JsonView>,
    token_ids: Seq<u64>,
    sampling: Map<Seq<char>, JsonView>,
) -> Map<Seq<char>, JsonView> {
    base.insert("model"@, model_view(body)).insert("token_ids"@, tokens_view(token_ids)).insert(
        "sampling_params"@,
        JsonView::Object(sampling),
    )
}

/// The rendered tokens of a chat request, with its features.
pub open spec fn rendered_view(token_ids: Seq<u64>, features: Option<JsonView>) -> JsonView {
    JsonView::Object(
        with_optional(
            json::no_fields().insert("token_ids"@, tokens_view(token_ids)),
            "features"@,
            features,
        ),
    )
}

/// The prefill request, before it is limited to one token.
pub open spec fn prefill_open(
    state: CoordinatorState,
    format: WireFormat,
    connector: KvConnector,
) -> Map<Seq<char>, JsonView> {
    let body = json::members_of(state.body);
    let kv = JsonView::Object(connector.prefill_fields());
    let ec = JsonView::Object(json::members_of(state.ec_transfer_params));
    let features = features_view(state.multimodal@, true);
    match format {
        WireFormat::ChatCompletions => {
            let with_kv = body.insert("kv_transfer_params"@, kv);
            if features is Some {
                with_kv.insert("ec_transfer_params"@, ec).insert(
                    "tokens"@,
                    rendered_view(state.token_ids@, features),
                )
            } else {
                with_kv
            }
        },
        WireFormat::Completions => {
            let with_kv = body.insert("prompt"@, tokens_view(state.token_ids@)).insert(
                "kv_transfer_params"@,
                kv,
            );
            if json::members_of(state.ec_transfer_params) == json::no_fields() {
                with_kv
            } else {
                with_kv.insert("ec_transfer_params"@, ec)
            }
        },
        WireFormat::Generate => transferring(
            with_optional(
                native_view(
                    json::no_fields(),
                    body,
                    state.token_ids@,
                    json::no_fields().insert("max_tokens"@, JsonView::Whole(1)),
                ),
                "features"@,
                features,
            ),
            kv,
            Some(ec),
        ),
    }
}

/// The prefill request.
pub open spec fn prefill_view(
    state: CoordinatorState,
    format: WireFormat,
    connector: KvConnector,
) -> Map<Seq<char>, JsonView> {
    capped(prefill_open(state, format, connector), format)
}

/// The speculative decode request: what the client sent, without transfer
/// parameters.
pub open spec fn conditional_view(state: CoordinatorState, format: WireFormat) -> Map<
    Seq<char>,
    JsonView,
> {
    let body = discarded(json::members_of(state.body));
    if state.token_ids@.len() == 0 {
        body
    } else {
        match format {
            WireFormat::ChatCompletions => body.insert(
                "tokens"@,
                rendered_view(state.token_ids@, features_view(state.multimodal@, false)),
            ),
            WireFormat::Completions => body.insert("prompt"@, tokens_view(state.token_ids@)),
            WireFormat::Generate => body,
        }
    }
}

/// The sampling controls that a tokens-in decode request keeps.
pub open spec fn sampling_keys() -> Seq<Seq<char>> {
    seq![
        "max_tokens"@,
        "min_tokens"@,
        "temperature"@,
        "top_p"@,
        "top_k"@,
        "stop"@,
        "seed"@,
    ]
}

/// `base` with the members of `body` under the given keys set.
pub open spec fn picked(
    base: Map<Seq<char>, JsonView>,
    body: Map<Seq<char>, JsonView>,
    keys: Seq<Seq<char>>,
) -> Map<Seq<char>, JsonView>
    decreases keys.len(),
{
    if keys.len() == 0 {
        base
    } else {
        with_optional(
            picked(base, body, keys.drop_last()),
            keys.last(),
            json::field(body, keys.last()),
        )
    }
}

/// The sampling parameters that a tokens-in request of a client states, without
/// transfer parameters. Extra arguments that are no object are left out.
pub open spec fn own_sampling(body: Map<Seq<char>, JsonView>) -> Map<Seq<char>, JsonView> {
    let own = nested(body, "sampling_params"@);
    match json::field(own, "extra_args"@) {
        Some(JsonView::Object(extra)) => own.insert(
            "extra_args"@,
            JsonView::Object(without_transfer(extra)),
        ),
        _ => own.remove("extra_args"@),
    }
}

/// The sampling parameters of a tokens-in decode request: those that the client
/// states for themselves, and the controls of its API.
pub open spec fn sampling_view(body: Map<Seq<char>, JsonView>) -> Map<Seq<char>, JsonView> {
    picked(own_sampling(body), body, sampling_keys())
}

/// The terminal decode request.
pub open spec fn decode_view(
    state: CoordinatorState,
    format: WireFormat,
    connector: KvConnector,
) -> Map<Seq<char>, JsonView> {
    let body = json::members_of(state.body);
    let kv = JsonView::Object(
        KvConnector::decode_fields(json::members_of(state.kv_transfer_params)),
    );
    let features = features_view(state.multimodal@, false);
    match format {
        WireFormat::ChatCompletions => body.insert("kv_transfer_params"@, kv).insert(
            "tokens"@,
            rendered_view(state.token_ids@, features),
        ),
        WireFormat::Completions => {
            let with_kv = body.insert("kv_transfer_params"@, kv);
            if state.token_ids@.len() == 0 {
                with_kv
            } else {
                with_kv.insert("prompt"@, tokens_view(state.token_ids@))
            }
        },
        WireFormat::Generate => transferring(
            with_optional(
                native_view(native_base(state), body, state.token_ids@, sampling_view(body)),
                "features"@,
                features,
            ),
            kv,
            None,
        ),
    }
}

/// The terminal decode request of a worker that does everything itself: the
/// rendered tokens, and no transfer parameters.
pub open spec fn combined_view(state: CoordinatorState, format: WireFormat) -> Map<
    Seq<char>,
    JsonView,
> {
    let body = json::members_of(state.body);
    let features = features_view(state.multimodal@, false);
    match format {
        WireFormat::ChatCompletions => body.insert(
            "tokens"@,
            rendered_view(state.token_ids@, features),
        ),
        WireFormat::Completions => if state.token_ids@.len() == 0 {
            body
        } else {
            body.insert("prompt"@, tokens_view(state.token_ids@))
        },
        WireFormat::Generate => with_optional(
            native_view(native_base(state), body, state.token_ids@, sampling_view(body)),
            "features"@,
            features,
        ),
    }
}

/// Whether a content part is an image.
pub open spec fn is_image_part(part: JsonView) -> bool {
    json::member(part, "type"@) == Some(JsonView::Text("image_url"@))
}

/// The content parts of a message.
pub open spec fn content_parts(message: JsonView) -> Seq<JsonView> {
    match json::member(message, "content"@) {
        Some(JsonView::Array(parts)) => parts,
        _ => Seq::empty(),
    }
}

/// The image parts among `parts`.
pub open spec fn images_among(parts: Seq<JsonView>) -> Seq<JsonView>
    decreases parts.len(),
{
    if parts.len() == 0 {
        Seq::empty()
    } else if is_image_part(parts.last()) {
        images_among(parts.drop_last()).push(parts.last())
    } else {
        images_among(parts.drop_last())
    }
}

/// The image parts of the messages, in order.
pub open spec fn images_of(messages: Seq<JsonView>) -> Seq<JsonView>
    decreases messages.len(),
{
    if messages.len() == 0 {
        Seq::empty()
    } else {
        images_of(messages.drop_last()) + images_among(content_parts(messages.last()))
    }
}

/// The messages of a request.
pub open spec fn messages_of(body: Map<Seq<char>, JsonView>) -> Seq<JsonView> {
    match json::field(body, "messages"@) {
        Some(JsonView::Array(messages)) => messages,
        _ => Seq::empty(),
    }
}

/// The tokens that an encoder gets for an entry: the first token of the
/// request, then as many copies of the placeholder token as the entry takes.
pub open spec fn encoder_tokens(token_ids: Seq<u64>, entry: MultimodalEntry) -> Seq<u64> {
    let bos = if token_ids.len() > 0 {
        token_ids[0]
    } else {
        1
    };
    let placeholder = if entry.placeholder.offset < token_ids.len() {
        token_ids[entry.placeholder.offset as int]
    } else {
        0
    };
    let copies = if entry.placeholder.length == usize::MAX {
        usize::MAX - 1
    } else {
        entry.placeholder.length as int
    };
    seq![bos] + Seq::new(copies as nat, |i: int| placeholder)
}

/// The features that an encoder gets for an entry.
pub open spec fn encoder_features(entry: MultimodalEntry) -> JsonView {
    JsonView::Object(
        json::no_fields().insert("mm_hashes"@, image_view(seq![JsonView::Text(entry.hash@)])).insert(
            "mm_placeholders"@,
            image_view(seq![range_view(1, entry.placeholder.length as nat)]),
        ).insert("kwargs_data"@, image_view(seq![JsonView::Text(entry.kwargs_data@)])),
    )
}

/// The message that carries the image of an entry.
pub open spec fn encoder_message(images: Seq<JsonView>, index: nat) -> JsonView {
    let content = if index < images.len() {
        seq![images[index as int]]
    } else {
        Seq::empty()
    };
    JsonView::Object(
        json::no_fields().insert("role"@, JsonView::Text("user"@)).insert(
            "content"@,
            JsonView::Array(content),
        ),
    )
}

/// The encoder request of an entry, before it is limited to one token.
pub open spec fn encode_open(state: CoordinatorState, entry: MultimodalEntry) -> Map<
    Seq<char>,
    JsonView,
> {
    let body = json::members_of(state.body);
    let named = json::no_fields().insert("model"@, model_view(body));
    let token_ids = encoder_tokens(state.token_ids@, entry);
    match state.format {
        WireFormat::Generate => named.insert("token_ids"@, tokens_view(token_ids)).insert(
            "features"@,
            encoder_features(entry),
        ),
        _ => named.insert(
            "messages"@,
            JsonView::Array(
                seq![encoder_message(images_of(messages_of(body)), entry.index as nat)],
            ),
        ).insert("tokens"@, rendered_view(token_ids, Some(encoder_features(entry)))),
    }
}

/// The encoder request of an entry.
pub open spec fn encode_view(state: CoordinatorState, entry: MultimodalEntry) -> Map<
    Seq<char>,
    JsonView,
> {
    capped(encode_open(state, entry), state.format)
}

/// An object with the one member `image`, an array.
fn image_json(items: Vec<serde_json::Value>) -> (r: serde_json::Value)
    ensures
        json::json_of(r) == image_view(json::items_of(items@)),
{
    let mut members = json::new_members();
    json::put_member(&mut members, "image", json::json_array(items));
    json::json_object(members)
}

/// An array of token IDs.
fn tokens_json(token_ids: &Vec<u64>) -> (r: serde_json::Value)
    ensures
        json::json_of(r) == tokens_view(token_ids@),
{
    let mut items: Vec<serde_json::Value> = Vec::new();
    let mut i: usize = 0;
    while i < token_ids.len()
        invariant
            i <= token_ids.len(),
            items@.len() == i,
            forall|j: int|
                0 <= j < i ==> json::json_of(#[trigger] items@[j]) == JsonView::Whole(
                    token_ids@[j] as int,
                ),
        decreases token_ids.len() - i,
    {
        items.push(json::json_whole(token_ids[i]));
        i += 1;
    }
    proof {
        assert(json::items_of(items@) =~= token_ids@.map_values(
            |id: u64| JsonView::Whole(id as int),
        ));
    }
    json::json_array(items)
}

/// Where a placeholder stands.
fn range_json(offset: usize, length: usize) -> (r: serde_json::Value)
    ensures
        json::json_of(r) == range_view(offset as nat, length as nat),
{
    let mut members = json::new_members();
    json::put_member(&mut members, "offset", json::json_whole(offset as u64));
    json::put_member(&mut members, "length", json::json_whole(length as u64));
    json::json_object(members)
}

/// The multimodal features of a request.
fn features(entries: &Vec<MultimodalEntry>, include_kwargs: bool) -> (r: Option<serde_json::Value>)
    ensures
        r is Some <==> features_view(entries@, include_kwargs) is Some,
        r matches Some(value) ==> features_view(entries@, include_kwargs) == Some(
            json::json_of(value),
        ),
{
    if entries.len() == 0 {
        return None;
    }
    let mut hashes: Vec<serde_json::Value> = Vec::new();
    let mut placeholders: Vec<serde_json::Value> = Vec::new();
    let mut kwargs: Vec<serde_json::Value> = Vec::new();
    let mut i: usize = 0;
    while i < entries.len()
        invariant
            i <= entries.len(),
            json::items_of(hashes@) == hash_views(entries@.take(i as int)),
            json::items_of(placeholders@) == range_views(entries@.take(i as int)),
            json::items_of(kwargs@) == kwargs_views(entries@.take(i as int)),
        decreases entries.len() - i,
    {
        let entry = &entries[i];
        let ghost done = entries@.take(i as int);
        let ghost (old_hashes, old_placeholders, old_kwargs) = (hashes@, placeholders@, kwargs@);
        hashes.push(json::json_text(entry.hash.clone()));
        placeholders.push(range_json(entry.placeholder.offset, entry.placeholder.length));
        if entry.kwargs_data.as_str().is_empty() {
            kwargs.push(json::json_null());
        } else {
            kwargs.push(json::json_text(entry.kwargs_data.clone()));
        }
        i += 1;
        proof {
            let next = entries@.take(i as int);
            assert(next =~= done.push(*entry));
            assert(json::items_of(hashes@) =~= json::items_of(old_hashes).push(
                json::json_of(hashes@.last()),
            ));
            assert(hash_views(next) =~= hash_views(done).push(JsonView::Text(entry.hash@)));
            assert(json::items_of(placeholders@) =~= json::items_of(old_placeholders).push(
                json::json_of(placeholders@.last()),
            ));
            assert(range_views(next) =~= range_views(done).push(
                range_view(entry.placeholder.offset as nat, entry.placeholder.length as nat),
            ));
            assert(json::items_of(kwargs@) =~= json::items_of(old_kwargs).push(
                json::json_of(kwargs@.last()),
            ));
            assert(kwargs_views(next) =~= kwargs_views(done).push(
                json::json_of(kwargs@.last()),
            ));
        }
    }
    proof {
        assert(entries@.take(entries@.len() as int) =~= entries@);
    }
    let mut members = json::new_members();
    json::put_member(&mut members, "mm_hashes", image_json(hashes));
    json::put_member(&mut members, "mm_placeholders", image_json(placeholders));
    if include_kwargs {
        json::put_member(&mut members, "kwargs_data", image_json(kwargs));
    }
    Some(json::json_object(members))
}

/// Limits a request to one token and no streaming.
fn cap_single_token(body: &mut JsonMap, format: WireFormat)
    requires
        format is Generate ==> nestable(json::members_of(*old(body)), "sampling_params"@),
    ensures
        json::members_of(*final(body)) == capped(json::members_of(*old(body)), format),
{
    if format == WireFormat::Generate {
        let mut target = nested_copy(body, "sampling_params");
        json::put_member(&mut target, "max_tokens", json::json_whole(1));
        json::take_member(&mut target, "min_tokens");
        json::put_member(body, "sampling_params", json::json_object(target));
    } else {
        json::put_member(body, "max_tokens", json::json_whole(1));
        json::take_member(body, "min_tokens");
    }
    if json::get_member(body, "max_completion_tokens").is_some() {
        json::put_member(body, "max_completion_tokens", json::json_whole(1));
    }
    json::put_member(body, "stream", json::json_bool(false));
    json::take_member(body, "stream_options");
}

/// The members of the object under `key`; none where there is no such object.
fn nested_copy(members: &JsonMap, key: &str) -> (r: JsonMap)
    ensures
        json::members_of(r) == nested(json::members_of(*members), key@),
{
    if let Some(value) = json::get_member(members, key) {
        if let Some(inner) = json::as_object(value) {
            return json::copy_members(inner);
        }
    }
    json::new_members()
}

/// Whether `key` is absent or an object.
fn is_nestable(members: &JsonMap, key: &str) -> (r: bool)
    ensures
        r == nestable(json::members_of(*members), key@),
{
    match json::get_member(members, key) {
        Some(value) => json::as_object(value).is_some(),
        None => true,
    }
}

/// Takes the transfer parameters out of an object.
fn drop_transfer(members: &mut JsonMap)
    ensures
        json::members_of(*final(members)) == without_transfer(json::members_of(*old(members))),
{
    let _ = json::take_member(members, "kv_transfer_params");
    let _ = json::take_member(members, "ec_transfer_params");
}

/// Discards the transfer parameters of a client.
pub fn discard_transfer(body: &JsonMap) -> (r: JsonMap)
    ensures
        json::members_of(r) == discarded(json::members_of(*body)),
{
    let mut open = json::copy_members(body);
    drop_transfer(&mut open);
    let inner = match json::get_member(&open, "sampling_params") {
        Some(sampling) => match json::as_object(sampling) {
            Some(sampling) => match json::get_member(sampling, "extra_args") {
                Some(extra) => match json::as_object(extra) {
                    Some(extra) => Some((json::copy_members(sampling), json::copy_members(extra))),
                    None => None,
                },
                None => None,
            },
            None => None,
        },
        None => None,
    };
    if let Some((mut sampling, mut extra)) = inner {
        drop_transfer(&mut extra);
        json::put_member(&mut sampling, "extra_args", json::json_object(extra));
        json::put_member(&mut open, "sampling_params", json::json_object(sampling));
    }
    open
}

/// Puts transfer parameters into a tokens-in request. Fails, and changes
/// nothing, where `sampling_params` or its `extra_args` is no object.
fn set_generate_transfer(
    body: &mut JsonMap,
    kv: serde_json::Value,
    ec: Option<serde_json::Value>,
) -> (r: Result<(), String>)
    ensures
        r is Ok <==> nestable(json::members_of(*old(body)), "sampling_params"@) && nestable(
            nested(json::members_of(*old(body)), "sampling_params"@),
            "extra_args"@,
        ),
        r is Ok ==> json::members_of(*final(body)) == transferring(
            json::members_of(*old(body)),
            json::json_of(kv),
            match ec {
                Some(ec) => Some(json::json_of(ec)),
                None => None,
            },
        ),
        r is Err ==> json::members_of(*final(body)) == json::members_of(*old(body)),
        r matches Err(error) ==> error@ == if nestable(
            json::members_of(*old(body)),
            "sampling_params"@,
        ) {
            "sampling_params.extra_args must be an object"@
        } else {
            "sampling_params must be an object"@
        },
{
    if !is_nestable(body, "sampling_params") {
        return Err("sampling_params must be an object".to_owned());
    }
    let mut sampling = nested_copy(body, "sampling_params");
    if !is_nestable(&sampling, "extra_args") {
        return Err("sampling_params.extra_args must be an object".to_owned());
    }
    let mut extra = nested_copy(&sampling, "extra_args");
    json::put_member(&mut extra, "kv_transfer_params", kv);
    if let Some(ec) = ec {
        let sent = match json::as_object(&ec) {
            Some(params) => !json::no_members(params),
            None => false,
        };
        if sent {
            json::put_member(&mut extra, "ec_transfer_params", ec);
        }
    }
    json::put_member(&mut sampling, "extra_args", json::json_object(extra));
    json::put_member(body, "sampling_params", json::json_object(sampling));
    Ok(())
}

/// The model that a request names, or null.
fn model_json(body: &JsonMap) -> (r: serde_json::Value)
    ensures
        json::json_of(r) == model_view(json::members_of(*body)),
{
    match json::get_member(body, "model") {
        Some(model) => json::copy_json(model),
        None => json::json_null(),
    }
}

/// What a tokens-in request keeps of the client's request.
fn native_base_json(state: &CoordinatorState) -> (r: JsonMap)
    ensures
        json::members_of(r) == native_base(*state),
{
    if text::same(state.original_path.as_str(), WireFormat::Generate.path()) {
        let mut base = json::copy_members(&state.body);
        drop_transfer(&mut base);
        base
    } else {
        json::new_members()
    }
}

/// `base` made a tokens-in request for the model of `body`.
fn native_json(
    base: JsonMap,
    body: &JsonMap,
    token_ids: &Vec<u64>,
    sampling: JsonMap,
) -> (r: JsonMap)
    ensures
        json::members_of(r) == native_view(
            json::members_of(base),
            json::members_of(*body),
            token_ids@,
            json::members_of(sampling),
        ),
{
    let mut members = base;
    json::put_member(&mut members, "model", model_json(body));
    json::put_member(&mut members, "token_ids", tokens_json(token_ids));
    json::put_member(&mut members, "sampling_params", json::json_object(sampling));
    members
}

/// The rendered tokens of a chat request, with its features.
fn rendered_json(token_ids: &Vec<u64>, features: Option<serde_json::Value>) -> (r:
    serde_json::Value)
    ensures
        json::json_of(r) == rendered_view(
            token_ids@,
            match features {
                Some(value) => Some(json::json_of(value)),
                None => None,
            },
        ),
{
    let mut members = json::new_members();
    json::put_member(&mut members, "token_ids", tokens_json(token_ids));
    if let Some(features) = features {
        json::put_member(&mut members, "features", features);
    }
    json::json_object(members)
}

/// Build the bounded single-token prefill request.
pub fn prefill_body(state: &CoordinatorState) -> (r: Result<serde_json::Value, String>)
    ensures
        r matches Ok(value) && json::json_of(value) == JsonView::Object(
            prefill_view(*state, state.format, state.kv_connector),
        ),
{
    prefill_body_with(state, state.format, state.kv_connector)
}

/// Build prefill body with step-level wire and connector overrides.
pub fn prefill_body_with(
    state: &CoordinatorState,
    format: WireFormat,
    connector: KvConnector,
) -> (r: Result<serde_json::Value, String>)
    ensures
        r matches Ok(value) && json::json_of(value) == JsonView::Object(
            prefill_view(*state, format, connector),
        ),
{
    let kv = connector.prefill_params();
    let ec = json::json_object(json::copy_members(&state.ec_transfer_params));
    let features = features(&state.multimodal, true);
    let mut body: JsonMap;
    match format {
        WireFormat::ChatCompletions => {
            body = json::copy_members(&state.body);
            json::put_member(&mut body, "kv_transfer_params", kv);
            if features.is_some() {
                json::put_member(&mut body, "ec_transfer_params", ec);
                json::put_member(&mut body, "tokens", rendered_json(&state.token_ids, features));
            }
        },
        WireFormat::Completions => {
            body = json::copy_members(&state.body);
            json::put_member(&mut body, "prompt", tokens_json(&state.token_ids));
            json::put_member(&mut body, "kv_transfer_params", kv);
            if !json::no_members(&state.ec_transfer_params) {
                json::put_member(&mut body, "ec_transfer_params", ec);
            }
        },
        WireFormat::Generate => {
            let mut sampling = json::new_members();
            json::put_member(&mut sampling, "max_tokens", json::json_whole(1));
            body = native_json(json::new_members(), &state.body, &state.token_ids, sampling);
            if let Some(features) = features {
                json::put_member(&mut body, "features", features);
            }
            proof {
                lemma_sampling_literals();
            }
            match set_generate_transfer(&mut body, kv, Some(ec)) {
                Ok(()) => {},
                Err(error) => {
                    return Err(error);
                },
            }
        },
    }
    cap_single_token(&mut body, format);
    Ok(json::json_object(body))
}

/// The keys of a tokens-in request differ from each other.
proof fn lemma_sampling_literals()
    ensures
        "features"@ != "sampling_params"@,
        "max_tokens"@ != "extra_args"@,
        "min_tokens"@ != "extra_args"@,
        "temperature"@ != "extra_args"@,
        "top_p"@ != "extra_args"@,
        "top_k"@ != "extra_args"@,
        "stop"@ != "extra_args"@,
        "seed"@ != "extra_args"@,
{
    reveal_strlit("features");
    reveal_strlit("sampling_params");
    reveal_strlit("max_tokens");
    reveal_strlit("min_tokens");
    reveal_strlit("temperature");
    reveal_strlit("top_p");
    reveal_strlit("top_k");
    reveal_strlit("stop");
    reveal_strlit("seed");
    reveal_strlit("extra_args");
    assert("features"@.len() != "sampling_params"@.len());
    assert("max_tokens"@[0] != "extra_args"@[0]);
    assert("min_tokens"@[0] != "extra_args"@[0]);
    assert("temperature"@.len() != "extra_args"@.len());
    assert("top_p"@.len() != "extra_args"@.len());
    assert("top_k"@.len() != "extra_args"@.len());
    assert("stop"@.len() != "extra_args"@.len());
    assert("seed"@.len() != "extra_args"@.len());
}

/// Build the terminal decode request.
pub fn decode_body(state: &CoordinatorState) -> (r: Result<serde_json::Value, String>)
    ensures
        r matches Ok(value) && json::json_of(value) == JsonView::Object(
            decode_view(*state, state.format, state.kv_connector),
        ),
{
    decode_body_with(state, state.format, state.kv_connector)
}

/// Build the speculative decode request without remote-transfer parameters.
pub fn conditional_decode_body(state: &CoordinatorState, format: WireFormat) -> (r:
    serde_json::Value)
    ensures
        json::json_of(r) == JsonView::Object(conditional_view(*state, format)),
{
    let mut body = discard_transfer(&state.body);
    if state.token_ids.len() != 0 {
        match format {
            WireFormat::ChatCompletions => {
                let rendered = rendered_json(
                    &state.token_ids,
                    features(&state.multimodal, false),
                );
                json::put_member(&mut body, "tokens", rendered);
            },
            WireFormat::Completions => {
                json::put_member(&mut body, "prompt", tokens_json(&state.token_ids));
            },
            WireFormat::Generate => {},
        }
    }
    json::json_object(body)
}

/// Copies the member `key` of `body`, if there is one.
fn copy_field(body: &JsonMap, target: &mut JsonMap, key: &str)
    ensures
        json::members_of(*final(target)) == with_optional(
            json::members_of(*old(target)),
            key@,
            json::field(json::members_of(*body), key@),
        ),
{
    if let Some(value) = json::get_member(body, key) {
        json::put_member(target, key, json::copy_json(value));
    }
}

/// The sampling parameters that a tokens-in request of a client states.
fn own_sampling_json(body: &JsonMap) -> (r: JsonMap)
    ensures
        json::members_of(r) == own_sampling(json::members_of(*body)),
{
    let mut own = nested_copy(body, "sampling_params");
    let extra = match json::get_member(&own, "extra_args") {
        Some(extra) => match json::as_object(extra) {
            Some(extra) => Some(json::copy_members(extra)),
            None => None,
        },
        None => None,
    };
    match extra {
        Some(mut extra) => {
            drop_transfer(&mut extra);
            json::put_member(&mut own, "extra_args", json::json_object(extra));
        },
        None => {
            json::take_member(&mut own, "extra_args");
        },
    }
    own
}

/// The sampling parameters of a tokens-in decode request.
fn sampling_json(body: &JsonMap) -> (r: JsonMap)
    ensures
        json::members_of(r) == sampling_view(json::members_of(*body)),
{
    let mut sampling = own_sampling_json(body);
    copy_field(body, &mut sampling, "max_tokens");
    copy_field(body, &mut sampling, "min_tokens");
    copy_field(body, &mut sampling, "temperature");
    copy_field(body, &mut sampling, "top_p");
    copy_field(body, &mut sampling, "top_k");
    copy_field(body, &mut sampling, "stop");
    copy_field(body, &mut sampling, "seed");
    proof {
        let source = json::members_of(*body);
        let base = own_sampling(source);
        let keys = sampling_keys();
        assert(keys.take(7) =~= keys);
        picked_step(base, source, keys, 0);
        picked_step(base, source, keys, 1);
        picked_step(base, source, keys, 2);
        picked_step(base, source, keys, 3);
        picked_step(base, source, keys, 4);
        picked_step(base, source, keys, 5);
        picked_step(base, source, keys, 6);
        assert(keys.take(0) =~= Seq::empty());
    }
    sampling
}

proof fn picked_step(
    base: Map<Seq<char>, JsonView>,
    body: Map<Seq<char>, JsonView>,
    keys: Seq<Seq<char>>,
    at: int,
)
    requires
        0 <= at < keys.len(),
    ensures
        picked(base, body, keys.take(at + 1)) == with_optional(
            picked(base, body, keys.take(at)),
            keys[at],
            json::field(body, keys[at]),
        ),
{
    assert(keys.take(at + 1).drop_last() =~= keys.take(at));
}

/// What is picked is what stands under one of the keys; everything else is as
/// it was.
pub proof fn picked_members(
    base: Map<Seq<char>, JsonView>,
    body: Map<Seq<char>, JsonView>,
    keys: Seq<Seq<char>>,
    key: Seq<char>,
)
    ensures
        json::field(picked(base, body, keys), key) == if keys.contains(key) && body.contains_key(
            key,
        ) {
            json::field(body, key)
        } else {
            json::field(base, key)
        },
    decreases keys.len(),
{
    if keys.len() > 0 {
        picked_members(base, body, keys.drop_last(), key);
        if keys.contains(key) && key != keys.last() {
            let i = choose|i: int| 0 <= i < keys.len() && keys[i] == key;
            assert(keys.drop_last()[i] == key);
        }
        if key == keys.last() {
            assert(keys[keys.len() - 1] == key);
        }
        if keys.drop_last().contains(key) {
            let i = choose|i: int| 0 <= i < keys.drop_last().len() && keys.drop_last()[i] == key;
            assert(keys[i] == key);
        }
    }
}

/// The extra arguments of a tokens-in decode request are those that the client
/// states for themselves.
proof fn extra_args_are_own(body: Map<Seq<char>, JsonView>)
    ensures
        json::field(sampling_view(body), "extra_args"@) == json::field(
            own_sampling(body),
            "extra_args"@,
        ),
        nestable(sampling_view(body), "extra_args"@),
{
    lemma_sampling_literals();
    let keys = sampling_keys();
    picked_members(own_sampling(body), body, keys, "extra_args"@);
    if keys.contains("extra_args"@) {
        let i = choose|i: int| 0 <= i < keys.len() && keys[i] == "extra_args"@;
        assert(i == 0 || i == 1 || i == 2 || i == 3 || i == 4 || i == 5 || i == 6);
    }
    assert(sampling_view(body).contains_key("extra_args"@) <==> json::field(
        sampling_view(body),
        "extra_args"@,
    ) is Some);
}

/// Build decode body with step-level wire and connector overrides.
pub fn decode_body_with(
    state: &CoordinatorState,
    format: WireFormat,
    connector: KvConnector,
) -> (r: Result<serde_json::Value, String>)
    ensures
        r matches Ok(value) && json::json_of(value) == JsonView::Object(
            decode_view(*state, format, connector),
        ),
{
    let kv = connector.decode_params(&state.kv_transfer_params);
    let features = features(&state.multimodal, false);
    let mut body: JsonMap;
    match format {
        WireFormat::ChatCompletions => {
            body = json::copy_members(&state.body);
            json::put_member(&mut body, "kv_transfer_params", kv);
            json::put_member(&mut body, "tokens", rendered_json(&state.token_ids, features));
        },
        WireFormat::Completions => {
            body = json::copy_members(&state.body);
            json::put_member(&mut body, "kv_transfer_params", kv);
            if state.token_ids.len() != 0 {
                json::put_member(&mut body, "prompt", tokens_json(&state.token_ids));
            }
        },
        WireFormat::Generate => {
            body = native_json(
                native_base_json(state),
                &state.body,
                &state.token_ids,
                sampling_json(&state.body),
            );
            if let Some(features) = features {
                json::put_member(&mut body, "features", features);
            }
            proof {
                lemma_sampling_literals();
                extra_args_are_own(json::members_of(state.body));
            }
            match set_generate_transfer(&mut body, kv, None) {
                Ok(()) => {},
                Err(error) => {
                    return Err(error);
                },
            }
        },
    }
    Ok(json::json_object(body))
}

/// Build the decode request of a worker that does everything itself.
pub fn combined_decode_body(state: &CoordinatorState, format: WireFormat) -> (r: serde_json::Value)
    ensures
        json::json_of(r) == JsonView::Object(combined_view(*state, format)),
{
    let features = features(&state.multimodal, false);
    let mut body: JsonMap;
    match format {
        WireFormat::ChatCompletions => {
            body = json::copy_members(&state.body);
            json::put_member(&mut body, "tokens", rendered_json(&state.token_ids, features));
        },
        WireFormat::Completions => {
            body = json::copy_members(&state.body);
            if state.token_ids.len() != 0 {
                json::put_member(&mut body, "prompt", tokens_json(&state.token_ids));
            }
        },
        WireFormat::Generate => {
            body = native_json(
                native_base_json(state),
                &state.body,
                &state.token_ids,
                sampling_json(&state.body),
            );
            if let Some(features) = features {
                json::put_member(&mut body, "features", features);
            }
        },
    }
    json::json_object(body)
}

/// The tokens that an encoder gets for an entry.
fn encoder_token_ids(token_ids: &Vec<u64>, entry: &MultimodalEntry) -> (r: Vec<u64>)
    ensures
        r@ == encoder_tokens(token_ids@, *entry),
{
    let bos: u64 = if token_ids.len() > 0 {
        token_ids[0]
    } else {
        1
    };
    let placeholder: u64 = if entry.placeholder.offset < token_ids.len() {
        token_ids[entry.placeholder.offset]
    } else {
        0
    };
    let copies: usize = if entry.placeholder.length == usize::MAX {
        usize::MAX - 1
    } else {
        entry.placeholder.length
    };
    let mut r: Vec<u64> = Vec::new();
    r.push(bos);
    let mut i: usize = 0;
    while i < copies
        invariant
            i <= copies,
            r@ == seq![bos] + Seq::new(i as nat, |k: int| placeholder),
        decreases copies - i,
    {
        r.push(placeholder);
        i += 1;
        proof {
            assert(r@ =~= seq![bos] + Seq::new(i as nat, |k: int| placeholder));
        }
    }
    r
}

/// The features that an encoder gets for an entry.
fn encoder_feature_json(entry: &MultimodalEntry) -> (r: serde_json::Value)
    ensures
        json::json_of(r) == encoder_features(*entry),
{
    let hashes = vec![json::json_text(entry.hash.clone())];
    let placeholders = vec![range_json(1, entry.placeholder.length)];
    let kwargs = vec![json::json_text(entry.kwargs_data.clone())];
    proof {
        assert(json::items_of(hashes@) =~= seq![JsonView::Text(entry.hash@)]);
        assert(json::items_of(placeholders@) =~= seq![
            range_view(1, entry.placeholder.length as nat),
        ]);
        assert(json::items_of(kwargs@) =~= seq![JsonView::Text(entry.kwargs_data@)]);
    }
    let mut members = json::new_members();
    json::put_member(&mut members, "mm_hashes", image_json(hashes));
    json::put_member(&mut members, "mm_placeholders", image_json(placeholders));
    json::put_member(&mut members, "kwargs_data", image_json(kwargs));
    json::json_object(members)
}

/// Whether a content part is an image.
pub(crate) fn part_is_image(part: &serde_json::Value) -> (r: bool)
    ensures
        r == is_image_part(json::json_of(*part)),
{
    if let Some(members) = json::as_object(part) {
        if let Some(kind) = json::get_member(members, "type") {
            if let Some(kind) = json::as_text(kind) {
                return text::same(kind, "image_url");
            }
        }
    }
    false
}

/// The content parts of a message.
pub(crate) fn parts_of<'a>(message: &'a serde_json::Value) -> (r: Option<
    &'a Vec<serde_json::Value>,
>)
    ensures
        r is Some <==> (json::member(json::json_of(*message), "content"@) matches Some(
            JsonView::Array(_),
        )),
        r matches Some(parts) ==> content_parts(json::json_of(*message)) == json::items_of(parts@),
        r is None ==> content_parts(json::json_of(*message)) == Seq::<JsonView>::empty(),
{
    if let Some(members) = json::as_object(message) {
        if let Some(content) = json::get_member(members, "content") {
            return json::as_array(content);
        }
    }
    None
}

/// Copies of the image parts of a request, in order.
fn image_parts(body: &JsonMap) -> (r: Vec<serde_json::Value>)
    ensures
        json::items_of(r@) == images_of(messages_of(json::members_of(*body))),
{
    let mut r: Vec<serde_json::Value> = Vec::new();
    let messages = match json::get_member(body, "messages") {
        Some(value) => json::as_array(value),
        None => None,
    };
    proof {
        assert(json::items_of(r@) =~= Seq::<JsonView>::empty());
    }
    if let Some(messages) = messages {
        let ghost views = json::items_of(messages@);
        let mut i: usize = 0;
        proof {
            assert(views.take(0) =~= Seq::empty());
        }
        while i < messages.len()
            invariant
                views == json::items_of(messages@),
                i <= messages.len(),
                json::items_of(r@) == images_of(views.take(i as int)),
            decreases messages.len() - i,
        {
            let ghost before = images_of(views.take(i as int));
            proof {
                assert(views.take(i + 1).drop_last() =~= views.take(i as int));
            }
            if let Some(parts) = parts_of(&messages[i]) {
                let ghost inner = json::items_of(parts@);
                let mut j: usize = 0;
                proof {
                    assert(inner.take(0) =~= Seq::empty());
                    assert(before + images_among(inner.take(0)) =~= before);
                }
                while j < parts.len()
                    invariant
                        views == json::items_of(messages@),
                        i < messages.len(),
                        inner == json::items_of(parts@),
                        before == images_of(views.take(i as int)),
                        j <= parts.len(),
                        json::items_of(r@) == before + images_among(inner.take(j as int)),
                    decreases parts.len() - j,
                {
                    let ghost held = r@;
                    proof {
                        assert(inner.take(j + 1).drop_last() =~= inner.take(j as int));
                    }
                    if part_is_image(&parts[j]) {
                        r.push(json::copy_json(&parts[j]));
                        proof {
                            assert(json::items_of(r@) =~= json::items_of(held).push(
                                inner[j as int],
                            ));
                            assert(json::items_of(r@) =~= before + images_among(
                                inner.take(j + 1),
                            ));
                        }
                    }
                    j += 1;
                }
                proof {
                    assert(inner.take(inner.len() as int) =~= inner);
                }
            } else {
                proof {
                    assert(images_of(views.take(i + 1)) =~= before);
                }
            }
            i += 1;
        }
        proof {
            assert(views.take(views.len() as int) =~= views);
        }
    }
    r
}

/// The encoder request of an entry.
fn encoder_json(
    state: &CoordinatorState,
    entry: &MultimodalEntry,
    images: &Vec<serde_json::Value>,
) -> (r: serde_json::Value)
    requires
        json::items_of(images@) == images_of(messages_of(json::members_of(state.body))),
    ensures
        json::json_of(r) == JsonView::Object(encode_view(*state, *entry)),
{
    let token_ids = encoder_token_ids(&state.token_ids, entry);
    let feature = encoder_feature_json(entry);
    let mut body = json::new_members();
    json::put_member(&mut body, "model", model_json(&state.body));
    match state.format {
        WireFormat::Generate => {
            json::put_member(&mut body, "token_ids", tokens_json(&token_ids));
            json::put_member(&mut body, "features", feature);
            proof {
                lemma_encoder_literals();
            }
        },
        WireFormat::ChatCompletions | WireFormat::Completions => {
            let mut content: Vec<serde_json::Value> = Vec::new();
            if entry.index < images.len() {
                content.push(json::copy_json(&images[entry.index]));
            }
            proof {
                let all = json::items_of(images@);
                assert(json::items_of(content@) =~= if entry.index < all.len() {
                    seq![all[entry.index as int]]
                } else {
                    Seq::empty()
                });
            }
            let mut message = json::new_members();
            json::put_member(&mut message, "role", json::json_text("user".to_owned()));
            json::put_member(&mut message, "content", json::json_array(content));
            let messages = vec![json::json_object(message)];
            proof {
                assert(json::items_of(messages@) =~= seq![
                    encoder_message(json::items_of(images@), entry.index as nat),
                ]);
            }
            json::put_member(&mut body, "messages", json::json_array(messages));
            json::put_member(&mut body, "tokens", rendered_json(&token_ids, Some(feature)));
        },
    }
    cap_single_token(&mut body, state.format);
    json::json_object(body)
}

/// A tokens-in encoder request has no sampling parameters of its own.
proof fn lemma_encoder_literals()
    ensures
        "model"@ != "sampling_params"@,
        "token_ids"@ != "sampling_params"@,
        "features"@ != "sampling_params"@,
{
    reveal_strlit("model");
    reveal_strlit("token_ids");
    reveal_strlit("features");
    reveal_strlit("sampling_params");
    assert("model"@.len() != "sampling_params"@.len());
    assert("token_ids"@.len() != "sampling_params"@.len());
    assert("features"@.len() != "sampling_params"@.len());
}

/// Build one bounded encoder request per rendered multimodal entry.
pub fn encode_bodies(state: &CoordinatorState) -> (r: Vec<(String, serde_json::Value)>)
    ensures
        r@.len() == state.multimodal@.len(),
        forall|i: int|
            0 <= i < r@.len() ==> (#[trigger] r@[i]).0@ == state.multimodal@[i].hash@
                && json::json_of(r@[i].1) == JsonView::Object(
                encode_view(*state, state.multimodal@[i]),
            ),
{
    let images = image_parts(&state.body);
    let mut r: Vec<(String, serde_json::Value)> = Vec::new();
    let mut i: usize = 0;
    while i < state.multimodal.len()
        invariant
            json::items_of(images@) == images_of(messages_of(json::members_of(state.body))),
            i <= state.multimodal.len(),
            r@.len() == i,
            forall|j: int|
                0 <= j < i ==> (#[trigger] r@[j]).0@ == state.multimodal@[j].hash@
                    && json::json_of(r@[j].1) == JsonView::Object(
                    encode_view(*state, state.multimodal@[j]),
                ),
        decreases state.multimodal.len() - i,
    {
        let entry = &state.multimodal[i];
        r.push((entry.hash.clone(), encoder_json(state, entry, &images)));
        i += 1;
    }
    r
}

/// Whether a request asks for one token, in one piece.
pub open spec fn single_token(body: Map<Seq<char>, JsonView>, format: WireFormat) -> bool {
    let limits = if format is Generate {
        nested(body, "sampling_params"@)
    } else {
        body
    };
    &&& json::field(limits, "max_tokens"@) == Some(JsonView::Whole(1))
    &&& !limits.contains_key("min_tokens"@)
    &&& body.contains_key("max_completion_tokens"@) ==> body["max_completion_tokens"@]
        == JsonView::Whole(1)
    &&& json::field(body, "stream"@) == Some(JsonView::Bool(false))
    &&& !body.contains_key("stream_options"@)
}

proof fn lemma_cap_literals()
    ensures
        "max_tokens"@ != "min_tokens"@,
        "max_tokens"@ != "max_completion_tokens"@,
        "max_tokens"@ != "stream"@,
        "max_tokens"@ != "stream_options"@,
        "min_tokens"@ != "max_completion_tokens"@,
        "min_tokens"@ != "stream"@,
        "min_tokens"@ != "stream_options"@,
        "max_completion_tokens"@ != "stream"@,
        "max_completion_tokens"@ != "stream_options"@,
        "sampling_params"@ != "max_completion_tokens"@,
        "sampling_params"@ != "stream"@,
        "sampling_params"@ != "stream_options"@,
        "stream"@ != "stream_options"@,
{
    reveal_strlit("max_tokens");
    reveal_strlit("min_tokens");
    reveal_strlit("max_completion_tokens");
    reveal_strlit("stream");
    reveal_strlit("stream_options");
    reveal_strlit("sampling_params");
    assert("max_tokens"@[1] != "min_tokens"@[1]);
    assert("max_tokens"@.len() != "max_completion_tokens"@.len());
    assert("max_tokens"@.len() != "stream"@.len());
    assert("max_tokens"@.len() != "stream_options"@.len());
    assert("min_tokens"@.len() != "max_completion_tokens"@.len());
    assert("min_tokens"@.len() != "stream"@.len());
    assert("min_tokens"@.len() != "stream_options"@.len());
    assert("max_completion_tokens"@.len() != "stream"@.len());
    assert("max_completion_tokens"@.len() != "stream_options"@.len());
    assert("sampling_params"@.len() != "max_completion_tokens"@.len());
    assert("sampling_params"@.len() != "stream"@.len());
    assert("sampling_params"@.len() != "stream_options"@.len());
    assert("stream"@.len() != "stream_options"@.len());
}

/// A capped request asks for one token, in one piece.
pub proof fn capped_requests_ask_for_one_token(
    members: Map<Seq<char>, JsonView>,
    format: WireFormat,
)
    ensures
        single_token(capped(members, format), format),
{
    lemma_cap_literals();
}

/// Capping a capped request changes nothing.
pub proof fn capping_is_idempotent(members: Map<Seq<char>, JsonView>, format: WireFormat)
    ensures
        capped(capped(members, format), format) == capped(members, format),
{
    lemma_cap_literals();
    let once = capped(members, format);
    let twice = capped(once, format);
    if format is Generate {
        let limits = nested(once, "sampling_params"@);
        assert(one_token(limits) =~= limits);
    }
    assert(twice =~= once);
}

/// Every prefill request asks for one token, in one piece, whatever the
/// client asked for.
pub proof fn prefill_asks_for_one_token(
    state: CoordinatorState,
    format: WireFormat,
    connector: KvConnector,
)
    ensures
        single_token(prefill_view(state, format, connector), format),
{
    capped_requests_ask_for_one_token(prefill_open(state, format, connector), format);
}

/// Every encoder request asks for one token, in one piece.
pub proof fn encode_asks_for_one_token(state: CoordinatorState, entry: MultimodalEntry)
    ensures
        single_token(encode_view(state, entry), state.format),
{
    capped_requests_ask_for_one_token(encode_open(state, entry), state.format);
}

/// In an API format decode gets what the client sent, but for the rendered
/// tokens and the KV transfer parameters.
pub proof fn decode_keeps_client_controls(
    state: CoordinatorState,
    format: WireFormat,
    connector: KvConnector,
    key: Seq<char>,
)
    requires
        !(format is Generate),
        key != "kv_transfer_params"@,
        key != "tokens"@,
        key != "prompt"@,
    ensures
        json::field(decode_view(state, format, connector), key) == json::field(
            json::members_of(state.body),
            key,
        ),
{
}

/// A worker that does everything itself gets what decode gets elsewhere, but
/// for the transfer parameters, and none are generated for it.
pub proof fn combined_decode_transfers_nothing(
    state: CoordinatorState,
    format: WireFormat,
    connector: KvConnector,
    key: Seq<char>,
)
    ensures
        !(format is Generate) && key != "kv_transfer_params"@ ==> json::field(
            combined_view(state, format),
            key,
        ) == json::field(decode_view(state, format, connector), key),
        format is Generate || kv_slot(json::members_of(state.body), format) is None ==> kv_slot(
            combined_view(state, format),
            format,
        ) is None,
{
    lemma_sampling_literals();
    extra_args_are_own(json::members_of(state.body));
    reveal_strlit("kv_transfer_params");
    reveal_strlit("tokens");
    reveal_strlit("prompt");
    assert("kv_transfer_params"@.len() != "tokens"@.len());
    assert("kv_transfer_params"@.len() != "prompt"@.len());
    lemma_encoder_literals();
}

/// The request that the conditional stage sends is what the client sent, but
/// for the rendered tokens and the transfer parameters.
pub proof fn conditional_decode_keeps_the_request(
    state: CoordinatorState,
    format: WireFormat,
    key: Seq<char>,
)
    requires
        key != "tokens"@,
        key != "prompt"@,
        key != "kv_transfer_params"@,
        key != "ec_transfer_params"@,
        key != "sampling_params"@,
    ensures
        json::field(conditional_view(state, format), key) == json::field(
            json::members_of(state.body),
            key,
        ),
{
    discarding_keeps_other_members(json::members_of(state.body), key);
}

/// The request that the conditional stage sends carries no transfer parameters
/// where a worker of any format would look for them, whatever the client sent.
pub proof fn conditional_decode_transfers_nothing(
    state: CoordinatorState,
    format: WireFormat,
    reader: WireFormat,
)
    ensures
        kv_slot(conditional_view(state, format), reader) is None,
        ec_slot(conditional_view(state, format), reader) is None,
{
    client_transfer_parameters_are_discarded(json::members_of(state.body), reader);
    lemma_transfer_literals();
}

/// The keys that a tokens-in worker request can have.
pub open spec fn native_key(key: Seq<char>) -> bool {
    key == "model"@ || key == "token_ids"@ || key == "sampling_params"@ || key == "features"@
}

/// A tokens-in decode request that was made of an API request carries the
/// model, the tokens, the sampling controls and the features, and nothing else
/// of what the client sent.
pub proof fn native_decode_sends_only_native_keys(
    state: CoordinatorState,
    connector: KvConnector,
    key: Seq<char>,
)
    requires
        state.original_path@ != WireFormat::Generate.route(),
        decode_view(state, WireFormat::Generate, connector).contains_key(key),
    ensures
        native_key(key),
{
}

/// Decode gets what a client sent in the tokens-in format as it was, but for
/// the tokens, the sampling parameters, the features and transfer parameters.
pub proof fn native_requests_are_retained(
    state: CoordinatorState,
    connector: KvConnector,
    key: Seq<char>,
)
    requires
        state.original_path@ == WireFormat::Generate.route(),
        !native_key(key),
        key != "kv_transfer_params"@,
        key != "ec_transfer_params"@,
    ensures
        json::field(decode_view(state, WireFormat::Generate, connector), key) == json::field(
            json::members_of(state.body),
            key,
        ),
        json::field(combined_view(state, WireFormat::Generate), key) == json::field(
            json::members_of(state.body),
            key,
        ),
{
}

/// A tokens-in decode request keeps each control of an API as the client set
/// it, and otherwise each sampling parameter that the client states in the
/// tokens-in format.
pub proof fn native_decode_keeps_sampling_controls(
    state: CoordinatorState,
    connector: KvConnector,
    key: Seq<char>,
)
    requires
        key != "extra_args"@,
    ensures
        json::field(
            nested(decode_view(state, WireFormat::Generate, connector), "sampling_params"@),
            key,
        ) == if sampling_keys().contains(key) && json::members_of(state.body).contains_key(key) {
            json::field(json::members_of(state.body), key)
        } else {
            json::field(nested(json::members_of(state.body), "sampling_params"@), key)
        },
{
    lemma_sampling_literals();
    let body = json::members_of(state.body);
    picked_members(own_sampling(body), body, sampling_keys(), key);
    assert(json::field(own_sampling(body), key) == json::field(
        nested(body, "sampling_params"@),
        key,
    ));
}

/// A tokens-in decode request keeps the extra arguments that the client states,
/// but for transfer parameters.
pub proof fn native_decode_keeps_extra_arguments(
    state: CoordinatorState,
    connector: KvConnector,
    key: Seq<char>,
)
    requires
        key != "kv_transfer_params"@,
        key != "ec_transfer_params"@,
    ensures
        json::field(
            nested(
                nested(decode_view(state, WireFormat::Generate, connector), "sampling_params"@),
                "extra_args"@,
            ),
            key,
        ) == json::field(
            nested(nested(json::members_of(state.body), "sampling_params"@), "extra_args"@),
            key,
        ),
{
    lemma_sampling_literals();
    extra_args_are_own(json::members_of(state.body));
}

/// Where a worker of a format looks for the KV transfer parameters.
pub open spec fn kv_slot(body: Map<Seq<char>, JsonView>, format: WireFormat) -> Option<JsonView> {
    if format is Generate {
        json::field(
            nested(nested(body, "sampling_params"@), "extra_args"@),
            "kv_transfer_params"@,
        )
    } else {
        json::field(body, "kv_transfer_params"@)
    }
}

/// Where a worker of a format looks for the encoder-cache transfer parameters.
pub open spec fn ec_slot(body: Map<Seq<char>, JsonView>, format: WireFormat) -> Option<JsonView> {
    if format is Generate {
        json::field(
            nested(nested(body, "sampling_params"@), "extra_args"@),
            "ec_transfer_params"@,
        )
    } else {
        json::field(body, "ec_transfer_params"@)
    }
}

proof fn lemma_transfer_literals()
    ensures
        "kv_transfer_params"@ != "sampling_params"@,
        "ec_transfer_params"@ != "sampling_params"@,
        "kv_transfer_params"@ != "tokens"@,
        "kv_transfer_params"@ != "prompt"@,
        "ec_transfer_params"@ != "tokens"@,
        "ec_transfer_params"@ != "prompt"@,
        "sampling_params"@ != "tokens"@,
        "sampling_params"@ != "prompt"@,
{
    reveal_strlit("kv_transfer_params");
    reveal_strlit("ec_transfer_params");
    reveal_strlit("sampling_params");
    reveal_strlit("tokens");
    reveal_strlit("prompt");
    assert("kv_transfer_params"@.len() != "sampling_params"@.len());
    assert("ec_transfer_params"@.len() != "sampling_params"@.len());
    assert("kv_transfer_params"@.len() != "tokens"@.len());
    assert("kv_transfer_params"@.len() != "prompt"@.len());
    assert("ec_transfer_params"@.len() != "tokens"@.len());
    assert("ec_transfer_params"@.len() != "prompt"@.len());
    assert("sampling_params"@.len() != "tokens"@.len());
    assert("sampling_params"@.len() != "prompt"@.len());
}

/// No transfer parameter that a client sends is where a worker of any format
/// would look for one.
pub proof fn client_transfer_parameters_are_discarded(
    body: Map<Seq<char>, JsonView>,
    format: WireFormat,
)
    ensures
        kv_slot(discarded(body), format) is None,
        ec_slot(discarded(body), format) is None,
{
    lemma_transfer_literals();
}

/// Discarding transfer parameters keeps every other member of a request.
pub proof fn discarding_keeps_other_members(body: Map<Seq<char>, JsonView>, key: Seq<char>)
    requires
        key != "kv_transfer_params"@,
        key != "ec_transfer_params"@,
        key != "sampling_params"@,
    ensures
        json::field(discarded(body), key) == json::field(body, key),
{
}

/// Whatever the format, prefill finds the connector's parameters in its slot,
/// and decode finds there what prefill returned.
pub proof fn workers_find_their_transfer_parameters(
    state: CoordinatorState,
    format: WireFormat,
    connector: KvConnector,
)
    ensures
        kv_slot(prefill_view(state, format, connector), format) == Some(
            JsonView::Object(connector.prefill_fields()),
        ),
        kv_slot(decode_view(state, format, connector), format) == Some(
            JsonView::Object(
                KvConnector::decode_fields(json::members_of(state.kv_transfer_params)),
            ),
        ),
{
    lemma_cap_literals();
    lemma_sampling_literals();
    reveal_strlit("kv_transfer_params");
    reveal_strlit("ec_transfer_params");
    reveal_strlit("tokens");
    reveal_strlit("prompt");
    reveal_strlit("max_tokens");
    reveal_strlit("min_tokens");
    reveal_strlit("max_completion_tokens");
    reveal_strlit("stream");
    reveal_strlit("stream_options");
    assert("kv_transfer_params"@[0] != "ec_transfer_params"@[0]);
    assert("kv_transfer_params"@.len() != "tokens"@.len());
    assert("kv_transfer_params"@.len() != "prompt"@.len());
    assert("kv_transfer_params"@.len() != "max_tokens"@.len());
    assert("kv_transfer_params"@.len() != "min_tokens"@.len());
    assert("kv_transfer_params"@.len() != "max_completion_tokens"@.len());
    assert("kv_transfer_params"@.len() != "stream"@.len());
    assert("kv_transfer_params"@.len() != "stream_options"@.len());
}

/// Only prefill gets the tensors of the media: the features that decode gets
/// carry hashes and placeholder ranges alone.
pub proof fn decode_features_carry_no_tensors(entries: Seq<MultimodalEntry>)
    ensures
        features_view(entries, false) matches Some(features) ==> json::member(
            features,
            "kwargs_data"@,
        ) is None,
        features_view(entries, true) is Some <==> features_view(entries, false) is Some,
{
    reveal_strlit("kwargs_data");
    reveal_strlit("mm_hashes");
    reveal_strlit("mm_placeholders");
    assert("kwargs_data"@[0] != "mm_hashes"@[0]);
    assert("kwargs_data"@[0] != "mm_placeholders"@[0]);
}

} // verus!
