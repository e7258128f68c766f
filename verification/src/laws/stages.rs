//! What each stage does to a request, and what it takes over from its worker.
#[allow(unused_imports)]
use crate::codec;
#[allow(unused_imports)]
use crate::connectors::{self, EcConnector, KvConnector};
#[allow(unused_imports)]
use crate::filter::StopView;
#[allow(unused_imports)]
use crate::json::{self, JsonView};
#[allow(unused_imports)]
use crate::laws::requests;
#[allow(unused_imports)]
use crate::stage::{self, BodyView, EncodeResponse, HeadView, Stage, StageConfig};
#[allow(unused_imports)]
use crate::state::{self, CoordinatorState, MultimodalEntry, Topology, WireFormat};
#[allow(unused_imports)]
use crate::transform;
use vstd::prelude::*;

verus! {

proof fn paths_differ()
    ensures
        "/v1/chat/completions"@ != "/v1/completions"@,
        "/v1/chat/completions"@ != "/inference/v1/generate"@,
        "/v1/completions"@ != "/inference/v1/generate"@,
{
    reveal_strlit("/v1/chat/completions");
    reveal_strlit("/v1/completions");
    reveal_strlit("/inference/v1/generate");
    assert("/v1/chat/completions"@.len() != "/v1/completions"@.len());
    assert("/v1/chat/completions"@.len() != "/inference/v1/generate"@.len());
    assert("/v1/completions"@.len() != "/inference/v1/generate"@.len());
}

/// Whether a path is one of the three that requests are led through the stages
/// from.
pub open spec fn is_inference_path(path: Seq<char>) -> bool {
    path == "/v1/chat/completions"@ || path == "/v1/completions"@ || path
        == "/inference/v1/generate"@
}

/// Requests to three paths are led through the stages, and no others.
pub proof fn three_paths_are_led_through(path: Seq<char>)
    ensures
        state::orchestrated(path) <==> is_inference_path(path),
{
}

/// The format of a request follows its path where the formats of the APIs are
/// used, and is the tokens-in format where they are not; each format has its path.
pub proof fn formats_follow_paths(path: Seq<char>)
    ensures
        WireFormat::of("/v1/chat/completions"@, true) == WireFormat::ChatCompletions,
        WireFormat::of("/v1/completions"@, true) == WireFormat::Completions,
        WireFormat::of("/inference/v1/generate"@, true) == WireFormat::Generate,
        WireFormat::of(path, false) == WireFormat::Generate,
        path != "/v1/completions"@ && path != "/inference/v1/generate"@ ==> WireFormat::of(
            path,
            true,
        ) == WireFormat::ChatCompletions,
        WireFormat::ChatCompletions.route() == "/v1/chat/completions"@,
        WireFormat::Completions.route() == "/v1/completions"@,
        WireFormat::Generate.route() == "/inference/v1/generate"@,
{
    paths_differ();
}

/// The topologies have their names, and the two of them that have a remote encode
/// stage need it for requests with media, and for no others.
pub proof fn topologies_have_their_names(held: CoordinatorState)
    ensures
        Topology::Combined.label() == "epd"@,
        Topology::PrefillDecode.label() == "p-d"@,
        Topology::EncodePrefillDecode.label() == "e-pd"@,
        Topology::FullyDisaggregated.label() == "e-p-d"@,
        held.encodes() <==> held.multimodal@.len() > 0 && (held.topology
            == Topology::EncodePrefillDecode || held.topology == Topology::FullyDisaggregated),
{
}

/// Each stage names the profile of its workers, and only the two stages of decode
/// answer the client.
pub proof fn stages_have_their_profile()
    ensures
        Stage::ConditionalDecode.role() == "decode"@,
        Stage::Decode.role() == "decode"@,
        Stage::Encode.role() == "encode"@,
        Stage::Prefill.role() == "prefill"@,
        Stage::ConditionalDecode.answers_client(),
        Stage::Decode.answers_client(),
        !Stage::Encode.answers_client(),
        !Stage::Prefill.answers_client(),
{
}

/// The head of a stage's request sets the profile of its workers; the conditional
/// stage also asks for what is available only, and no other stage does; and only
/// the stages of decode ask for an answer that is streamed to the client.
pub proof fn heads_are_set_by_stage(
    config: StageConfig,
    held: CoordinatorState,
    path: Seq<char>,
)
    requires
        is_inference_path(held.original_path@),
        !(config.phase is Encode),
    ensures
        ({
            let head = stage::stage_head(config, Some(held), path);
            match config.phase {
                Stage::ConditionalDecode => if held.multimodal@.len() > 0 {
                    head == Err::<HeadView, StopView>(StopView::Reject { status: 412, body: None })
                } else {
                    head matches Ok(set) && set.streaming && set.headers == seq![
                        ("epp-profile"@, "decode"@),
                        ("prefer"@, "if-available"@),
                    ]
                },
                Stage::Prefill => head matches Ok(set) && !set.streaming && set.headers == seq![
                    ("epp-profile"@, "prefill"@),
                ],
                Stage::Decode => head matches Ok(set) && set.streaming && set.headers == seq![
                    ("epp-profile"@, "decode"@),
                ],
                Stage::Encode => true,
            }
        }),
{
}

/// An encode request sets the profile of encode workers, keeps its path, and asks
/// for no answer that is streamed.
pub proof fn encode_heads_are_set()
    ensures
        stage::encode_head() == (HeadView {
            path: None,
            headers: seq![("epp-profile"@, "encode"@)],
            streaming: false,
        }),
{
}

/// A request is sent to the path of its stage's format, unless it came in there:
/// with the stage's own setting the format is the tokens-in format where that
/// turns the formats of the APIs off, and else that of the client's path; without
/// one it is the format that the request was prepared in.
pub proof fn requests_go_to_the_path_of_their_format(
    config: StageConfig,
    held: CoordinatorState,
    path: Seq<char>,
)
    requires
        is_inference_path(held.original_path@),
    ensures
        ({
            let target = match stage::rerouted(path, config, held) {
                Some(route) => route,
                None => path,
            };
            &&& config.use_openai_format == Some(true) ==> target == held.original_path@
            &&& config.use_openai_format == Some(false) ==> target == "/inference/v1/generate"@
            &&& config.use_openai_format is None ==> target == match held.format {
                WireFormat::ChatCompletions => "/v1/chat/completions"@,
                WireFormat::Completions => "/v1/completions"@,
                WireFormat::Generate => "/inference/v1/generate"@,
            }
            &&& stage::rerouted(path, config, held) matches Some(route) ==> route != path
        }),
{
    paths_differ();
}

/// What each stage sends: prefill asks for one token and is told the connector's
/// parameters; decode gets what prefill handed over, where it does not do
/// everything itself, and else no KV parameters; and the conditional stage sends
/// no transfer parameters at all.
pub proof fn stages_send_their_request(config: StageConfig, held: CoordinatorState)
    ensures
        ({
            let format = config.format_for(held);
            let request = stage::worker_request(config, held);
            &&& request is Object
            &&& config.phase is Prefill ==> transform::single_token(request->Object_0, format)
                && transform::kv_slot(request->Object_0, format) == Some(
                JsonView::Object(config.kv_for(held).prefill_fields()),
            )
            &&& config.phase is Decode && !(held.topology is Combined) ==> transform::kv_slot(
                request->Object_0,
                format,
            ) == Some(
                JsonView::Object(
                    KvConnector::decode_fields(json::members_of(held.kv_transfer_params)),
                ),
            )
            &&& config.phase is Decode && held.topology is Combined && format is Generate
                ==> transform::kv_slot(request->Object_0, format) is None
            &&& config.phase is Decode && held.topology is Combined && !(format is Generate)
                ==> json::field(request->Object_0, "kv_transfer_params"@) == json::field(
                json::members_of(held.body),
                "kv_transfer_params"@,
            )
            &&& config.phase is ConditionalDecode ==> transform::kv_slot(
                request->Object_0,
                format,
            ) is None && transform::ec_slot(request->Object_0, format) is None
        }),
{
    let format = config.format_for(held);
    transform::prefill_asks_for_one_token(held, format, config.kv_for(held));
    transform::workers_find_their_transfer_parameters(held, format, config.kv_for(held));
    transform::combined_decode_transfers_nothing(
        held,
        format,
        config.kv_for(held),
        "kv_transfer_params"@,
    );
    transform::conditional_decode_transfers_nothing(held, format, format);
    reveal_strlit("kv_transfer_params");
    reveal_strlit("tokens");
    reveal_strlit("prompt");
    assert("kv_transfer_params"@.len() != "tokens"@.len());
    assert("kv_transfer_params"@.len() != "prompt"@.len());
    if !(format is Generate) {
        requests::combined_decode_keeps_the_request(held, format, "kv_transfer_params"@);
    }
}

/// Every stage that a request in an API format goes through gets the client's own
/// model, messages and any other member that no stage needs for itself.
pub proof fn stages_keep_the_request(
    config: StageConfig,
    held: CoordinatorState,
    key: Seq<char>,
)
    requires
        !(config.phase is Encode),
        !(config.format_for(held) is Generate),
        key != "kv_transfer_params"@,
        key != "ec_transfer_params"@,
        key != "sampling_params"@,
        key != "tokens"@,
        key != "prompt"@,
        key != "max_tokens"@,
        key != "min_tokens"@,
        key != "max_completion_tokens"@,
        key != "stream"@,
        key != "stream_options"@,
    ensures
        json::member(stage::worker_request(config, held), key) == json::field(
            json::members_of(held.body),
            key,
        ),
{
    let format = config.format_for(held);
    requests::prefill_keeps_the_request(held, format, config.kv_for(held), key);
    requests::combined_decode_keeps_the_request(held, format, key);
    transform::decode_keeps_client_controls(held, format, config.kv_for(held), key);
    transform::conditional_decode_keeps_the_request(held, format, key);
}

/// The body of a stage's request is replaced by what the stage sends, with the
/// profile of its workers; one that cannot be written fails.
pub proof fn bodies_are_replaced(
    config: StageConfig,
    held: CoordinatorState,
    path: Seq<char>,
    written: Seq<u8>,
    error: Seq<char>,
)
    requires
        is_inference_path(held.original_path@),
    ensures
        stage::stage_body(config, held, path, Ok(written)) matches Ok(
            BodyView::Ready { head, body },
        ) && body == Some(written) && head.headers.len() == 1 && head.headers[0] == (
            "epp-profile"@,
            config.phase.role(),
        ) && head.path == stage::rerouted(path, config, held),
        stage::stage_body(config, held, path, Err(error)) == Err::<BodyView, StopView>(
            StopView::Fail("llmd_stage: serialize: "@ + error),
        ),
{
}

proof fn read_up_to(responses: Seq<EncodeResponse>, upto: nat)
    requires
        upto <= responses.len(),
    ensures
        stage::responses_read(responses, upto) is Ok <==> forall|i: int|
            0 <= i < upto ==> json::object_read((#[trigger] responses[i]).body@) is Ok,
        stage::responses_read(responses, upto) matches Ok(read) ==> read.len() == upto && forall|
            i: int,
        |
            0 <= i < upto ==> json::object_read(responses[i].body@) == Ok::<
                Map<Seq<char>, JsonView>,
                Seq<char>,
            >(#[trigger] read[i]),
    decreases upto,
{
    if upto > 0 {
        read_up_to(responses, (upto - 1) as nat);
        if let Ok(read) = stage::responses_read(responses, upto) {
            let before = stage::responses_read(responses, (upto - 1) as nat)->Ok_0;
            assert forall|i: int| 0 <= i < upto implies json::object_read(responses[i].body@)
                == Ok::<Map<Seq<char>, JsonView>, Seq<char>>(#[trigger] read[i]) by {
                if i < upto - 1 {
                    assert(read[i] == before[i]);
                }
            }
        }
    }
}

/// The answers of encode workers are taken over exactly where each is an object,
/// and then all of them, in order.
pub proof fn every_encode_answer_is_read(responses: Seq<EncodeResponse>)
    ensures
        stage::responses_read(responses, responses.len()) is Ok <==> forall|i: int|
            0 <= i < responses.len() ==> json::object_read((#[trigger] responses[i]).body@) is Ok,
        stage::responses_read(responses, responses.len()) matches Ok(read) ==> read.len()
            == responses.len() && forall|i: int|
            0 <= i < read.len() ==> json::object_read(responses[i].body@) == Ok::<
                Map<Seq<char>, JsonView>,
                Seq<char>,
            >(#[trigger] read[i]),
{
    read_up_to(responses, responses.len());
}

/// A descriptor names an encoder by a host, a port from 1 to 65535, a size within
/// the limit, and metadata that is base64; one that leaves any of these out, or has
/// another value for it, names none.
pub proof fn encoders_are_named_completely(descriptor: JsonView, max_bytes: nat)
    ensures
        stage::names_an_encoder(descriptor, max_bytes) <==> {
            &&& json::member(descriptor, "peer_host"@) matches Some(JsonView::Text(host))
                && host.len() > 0 && forall|i: int|
                0 <= i < host.len() ==> ({
                    let c = #[trigger] host[i];
                    'a' <= c <= 'z' || 'A' <= c <= 'Z' || '0' <= c <= '9' || c == '-' || c == '.'
                        || c == '_' || c == ':' || c == '%' || c == '[' || c == ']'
                })
            &&& json::member(descriptor, "peer_port"@) matches Some(JsonView::Whole(port)) && 1
                <= port <= 65535
            &&& json::member(descriptor, "size_bytes"@) matches Some(JsonView::Whole(size)) && 0
                <= size <= max_bytes
            &&& json::member(descriptor, "nixl_agent_metadata_b64"@) matches Some(
                JsonView::Text(metadata),
            ) && codec::base64_bytes(metadata) is Some
        },
{
    if let Some(JsonView::Text(host)) = json::member(descriptor, "peer_host"@) {
        assert forall|i: int| 0 <= i < host.len() implies stage::host_char(#[trigger] host[i]) == ({
            let c = host[i];
            'a' <= c <= 'z' || 'A' <= c <= 'Z' || '0' <= c <= '9' || c == '-' || c == '.' || c
                == '_' || c == ':' || c == '%' || c == '[' || c == ']'
        }) by {}
    }
}

/// With a peer protocol, prefill hands over exactly where its answer has KV
/// parameters that name the engine and the host, list the blocks and have a port
/// from 1 to 65535; with shared storage exactly where it has KV parameters. What is
/// handed over is what the answer has.
pub proof fn prefill_hands_its_parameters_over(
    config: StageConfig,
    held: CoordinatorState,
    response: JsonView,
)
    ensures
        ({
            let answered = json::member(response, "kv_transfer_params"@);
            let handed = stage::handed_to_decode(config, Some(held), Ok(response));
            let connector = match config.kv_connector {
                Some(connector) => connector,
                None => held.kv_connector,
            };
            let names_peer = {
                &&& requests::inside(answered, "remote_engine_id"@) matches Some(JsonView::Text(_))
                &&& requests::inside(answered, "remote_block_ids"@) matches Some(JsonView::Array(_))
                &&& requests::inside(answered, "remote_host"@) matches Some(JsonView::Text(_))
                &&& requests::inside(answered, "remote_port"@) matches Some(JsonView::Whole(port))
                    && 1 <= port <= 65535
            };
            &&& handed is Ok <==> answered is Some && answered->0 is Object && (
            connector is KvSharedStorage || names_peer)
            &&& handed matches Ok(params) ==> answered == Some(JsonView::Object(params))
        }),
{
}

/// Prefill takes over the merged descriptors of the encoders, with shared storage
/// whatever they are, and with a peer protocol exactly where there is one for each
/// item of the request and for no other, and each names an encoder.
pub proof fn prefill_takes_the_descriptors_over(
    config: StageConfig,
    held: CoordinatorState,
    responses: Seq<Map<Seq<char>, JsonView>>,
)
    ensures
        ({
            let connector = config.ec_for(held);
            let merged = connector.merge(responses);
            let handed = stage::handed_to_prefill(config, Some(held), Ok(responses));
            &&& handed is Ok <==> (merged matches Ok(params) && (connector is EcSharedStorage || {
                &&& forall|i: int|
                    0 <= i < held.multimodal@.len() ==> params.contains_key(
                        (#[trigger] held.multimodal@[i]).hash@,
                    )
                &&& forall|hash: Seq<char>| #[trigger]
                    params.contains_key(hash) ==> (exists|i: int|
                        0 <= i < held.multimodal@.len() && (#[trigger] held.multimodal@[i]).hash@
                            == hash) && stage::names_an_encoder(
                        params[hash],
                        config.max_body_bytes as nat,
                    )
            }))
            &&& handed matches Ok(params) ==> merged == Ok::<Map<Seq<char>, JsonView>, Seq<char>>(
                params,
            )
        }),
{
    let connector = config.ec_for(held);
    if let Ok(params) = connector.merge(responses) {
        assert forall|hash: Seq<char>| #[trigger] params.contains_key(hash) implies (
        stage::asked_for(held.multimodal@, hash) <==> (exists|i: int|
            0 <= i < held.multimodal@.len() && (#[trigger] held.multimodal@[i]).hash@ == hash)) by {}
    }
}

/// Without a prepared request a stage fails.
pub proof fn stages_need_a_prepared_request(
    config: StageConfig,
    path: Seq<char>,
    responses: Seq<Map<Seq<char>, JsonView>>,
    response: JsonView,
)
    ensures
        stage::stage_head(config, None, path) == Err::<HeadView, StopView>(
            StopView::Fail("llmd_stage: coordinator state missing"@),
        ),
        stage::handed_to_prefill(config, None, Ok(responses)) is Err,
        stage::handed_to_decode(config, None, Ok(response)) is Err,
{
}

/// Where encode responses cannot be merged, the complaint names a hash that two of
/// them offer different descriptors for.
pub proof fn conflicts_are_named(responses: Seq<Map<Seq<char>, JsonView>>)
    ensures
        EcConnector::EcNixl.merge(responses) matches Err(message) ==> exists|
            hash: Seq<char>,
            i: int,
            j: int,
        |
            #![trigger connectors::conflict_text(hash), connectors::offers(responses)[i], connectors::offers(responses)[j]]
            message == "ec_transfer_params: conflicting descriptors for mm_hash '"@ + hash + "'"@
                && 0 <= i < j < connectors::offers(responses).len() && connectors::offers(
                responses,
            )[i].0 == hash && connectors::offers(responses)[j].0 == hash && !json::json_same(
                connectors::offers(responses)[i].1,
                connectors::offers(responses)[j].1,
            ),
{
    let rows = connectors::offers(responses);
    if let Err(hash) = connectors::merged(rows) {
        let (i, j) = conflicting_rows(rows, hash);
        assert(connectors::conflict_text(hash)
            == "ec_transfer_params: conflicting descriptors for mm_hash '"@ + hash + "'"@);
        assert(rows[i].0 == hash && rows[j].0 == hash);
    }
}

proof fn conflicting_rows(rows: Seq<(Seq<char>, JsonView)>, hash: Seq<char>) -> (r: (int, int))
    requires
        connectors::merged(rows) == Err::<Map<Seq<char>, JsonView>, Seq<char>>(hash),
    ensures
        0 <= r.0 < r.1 < rows.len(),
        rows[r.0].0 == hash,
        rows[r.1].0 == hash,
        !json::json_same(rows[r.0].1, rows[r.1].1),
    decreases rows.len(),
{
    let head = rows.drop_last();
    match connectors::merged(head) {
        Err(_) => {
            let (i, j) = conflicting_rows(head, hash);
            assert(head[i] == rows[i] && head[j] == rows[j]);
            (i, j)
        },
        Ok(known) => {
            connectors::merging_fails_exactly_on_conflict(head);
            let i = choose|i: int| 0 <= i < head.len() && (#[trigger] head[i]).0 == hash;
            assert(rows[i] == head[i]);
            if json::json_same(rows[i].1, rows.last().1) {
                json::json_same_symmetric(rows[i].1, known[hash]);
                json::json_same_transitive(known[hash], rows[i].1, rows.last().1);
            }
            (i, rows.len() - 1)
        },
    }
}

/// The first answer of an encode worker that is no object ends the reading, and
/// the complaint names the request that it answers.
pub proof fn unreadable_encode_answers_are_named(
    responses: Seq<EncodeResponse>,
    at: nat,
    upto: nat,
    error: Seq<char>,
)
    requires
        at < upto <= responses.len(),
        forall|i: int| 0 <= i < at ==> json::object_read((#[trigger] responses[i]).body@) is Ok,
        json::object_read(responses[at as int].body@) == Err::<Map<Seq<char>, JsonView>, Seq<char>>(
            error,
        ),
    ensures
        stage::responses_read(responses, upto) == Err::<Seq<Map<Seq<char>, JsonView>>, StopView>(
            StopView::Fail(
                "llmd_stage: invalid encode response '"@ + responses[at as int].key@ + "': "@
                    + error,
            ),
        ),
    decreases upto,
{
    if upto == at + 1 {
        read_up_to(responses, at);
    } else {
        unreadable_encode_answers_are_named(responses, at, (upto - 1) as nat, error);
    }
}

/// Descriptors that do not fit what was asked for are refused, and it is said
/// whether one is missing, one was not asked for or one names no encoder, in that
/// order; descriptors that fit are handed over as they are.
pub proof fn unfit_descriptors_are_explained(
    entries: Seq<MultimodalEntry>,
    descriptors: Map<Seq<char>, JsonView>,
    max_bytes: nat,
)
    ensures
        ({
            let matched = stage::matched(EcConnector::EcNixl, entries, descriptors, max_bytes);
            if exists|i: int|
                0 <= i < entries.len() && !descriptors.contains_key(
                    (#[trigger] entries[i]).hash@,
                ) {
                matched == Err::<Map<Seq<char>, JsonView>, StopView>(
                    StopView::Fail(
                        "llmd_stage: ec_transfer_params: requested mm_hash has no descriptor"@,
                    ),
                )
            } else if exists|hash: Seq<char>| #[trigger]
                descriptors.contains_key(hash) && forall|i: int|
                    0 <= i < entries.len() ==> (#[trigger] entries[i]).hash@ != hash {
                matched == Err::<Map<Seq<char>, JsonView>, StopView>(
                    StopView::Fail(
                        "llmd_stage: ec_transfer_params: descriptor for an mm_hash not requested"@,
                    ),
                )
            } else if exists|hash: Seq<char>| #[trigger]
                descriptors.contains_key(hash) && !stage::names_an_encoder(
                    descriptors[hash],
                    max_bytes,
                ) {
                matched == Err::<Map<Seq<char>, JsonView>, StopView>(
                    StopView::Fail("llmd_stage: ec_transfer_params: invalid descriptor"@),
                )
            } else {
                matched == Ok::<Map<Seq<char>, JsonView>, StopView>(descriptors)
            }
        }),
{
    if exists|hash: Seq<char>| #[trigger]
        descriptors.contains_key(hash) && forall|i: int|
            0 <= i < entries.len() ==> (#[trigger] entries[i]).hash@ != hash {
        let hash = choose|hash: Seq<char>| #[trigger]
            descriptors.contains_key(hash) && forall|i: int|
                0 <= i < entries.len() ==> (#[trigger] entries[i]).hash@ != hash;
        assert(!stage::asked_for(entries, hash));
    } else {
        assert forall|hash: Seq<char>| #[trigger]
            descriptors.contains_key(hash) implies stage::asked_for(entries, hash) by {
            let i = choose|i: int|
                0 <= i < entries.len() && (#[trigger] entries[i]).hash@ == hash;
            assert(entries[i].hash@ == hash);
        }
    }
}

/// A prefill answer that hands over no parameters, or under NIXL parameters that
/// name no peer, is refused, and it is said which; so is one that is no JSON.
pub proof fn unfit_prefill_answers_are_explained(
    config: StageConfig,
    state: CoordinatorState,
    connector: KvConnector,
    response: JsonView,
    error: Seq<char>,
)
    ensures
        !(json::member(response, "kv_transfer_params"@) matches Some(JsonView::Object(_)))
            ==> stage::accepted_handover(connector, response) == Err::<
            Map<Seq<char>, JsonView>,
            StopView,
        >(StopView::Fail("llmd_stage: prefill response has no kv_transfer_params"@)),
        json::member(response, "kv_transfer_params"@) matches Some(JsonView::Object(_)) ==> (
        stage::accepted_handover(connector, response) matches Err(stop) ==> connector is KvNixl
            && stop == StopView::Fail(
            "llmd_stage: invalid kv_transfer_params in prefill response"@,
        )),
        stage::handed_to_decode(config, Some(state), Err(error)) == Err::<
            Map<Seq<char>, JsonView>,
            StopView,
        >(StopView::Fail("llmd_stage: invalid prefill response: "@ + error)),
{
}

} // verus!
