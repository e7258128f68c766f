//! What becomes of a request on its way from the client to the stages.
#[allow(unused_imports)]
use crate::codec;
#[allow(unused_imports)]
use crate::connectors::{EcConnector, KvConnector};
#[allow(unused_imports)]
use crate::filter::{self, StopView};
#[allow(unused_imports)]
use crate::json::{self, JsonView};
#[allow(unused_imports)]
use crate::laws::stages;
#[allow(unused_imports)]
use crate::media;
#[allow(unused_imports)]
use crate::prepare::{
    self, AdmittedView, EncodeRequest, EventView, Outcome, PrepareAction, PrepareConfig, StepView,
};
#[allow(unused_imports)]
use crate::preprocessing::{self, Complaint, Rendered};
#[allow(unused_imports)]
use crate::state::{self, CoordinatorState, WireFormat};
#[allow(unused_imports)]
use crate::text;
#[allow(unused_imports)]
use crate::transform;
use vstd::prelude::*;

verus! {

/// A request to one of the three inference paths is admitted where its body is
/// there and an object: with everything that the client sent but transfer
/// parameters. One without a body fails, and one whose body is no object is
/// answered with 400. A request to any other path is passed through.
pub proof fn requests_are_admitted_by_path_and_body(
    path: Seq<char>,
    body: Map<Seq<char>, JsonView>,
    error: Seq<char>,
    read: Option<Result<Map<Seq<char>, JsonView>, Seq<char>>>,
    key: Seq<char>,
)
    ensures
        stages::is_inference_path(path) ==> {
            &&& prepare::admission(path, Some(Ok(body))) matches Ok(AdmittedView::Request(admitted))
                && (key != "kv_transfer_params"@ && key != "ec_transfer_params"@ && key
                != "sampling_params"@ ==> json::field(admitted, key) == json::field(body, key))
                && !admitted.contains_key("kv_transfer_params"@) && !admitted.contains_key(
                "ec_transfer_params"@,
            )
            &&& prepare::admission(path, Some(Err(error))) == Err::<AdmittedView, StopView>(
                StopView::Reject { status: 400, body: Some("invalid JSON request body"@) },
            )
            &&& prepare::admission(path, None) == Err::<AdmittedView, StopView>(
                StopView::Fail("llmd_prepare: buffered request body unavailable"@),
            )
        },
        !stages::is_inference_path(path) ==> prepare::admission(path, read) == Ok::<
            AdmittedView,
            StopView,
        >(AdmittedView::Passthrough),
{
    reveal_strlit("kv_transfer_params");
    reveal_strlit("ec_transfer_params");
    reveal_strlit("sampling_params");
    assert("kv_transfer_params"@.len() != "sampling_params"@.len());
    assert("ec_transfer_params"@.len() != "sampling_params"@.len());
}

/// A header of a client reaches encode requests unless it is one of the four that
/// only the coordinator sets or one of the eight that are about one connection.
pub proof fn headers_reach_encode_requests(lines: Map<Seq<char>, Seq<Seq<u8>>>, name: Seq<char>)
    ensures
        ({
            let internal = name == "epp-profile"@ || name == "x-gateway-destination-endpoint"@
                || name == "kv-transfer-params"@ || name == "ec-transfer-params"@;
            let hop = name == "connection"@ || name == "keep-alive"@ || name
                == "proxy-authenticate"@ || name == "proxy-authorization"@ || name == "te"@ || name
                == "trailer"@ || name == "transfer-encoding"@ || name == "upgrade"@;
            let left = prepare::cleaned(lines);
            &&& left.contains_key(name) <==> lines.contains_key(name) && !internal && !hop
            &&& left.contains_key(name) ==> left[name] == lines[name]
        }),
{
    let internal = prepare::internal_names();
    assert(internal[0] == "epp-profile"@ && internal[1] == "x-gateway-destination-endpoint"@
        && internal[2] == "kv-transfer-params"@ && internal[3] == "ec-transfer-params"@);
    let hop = prepare::hop_names();
    assert(hop[0] == "connection"@ && hop[1] == "keep-alive"@ && hop[2] == "proxy-authenticate"@
        && hop[3] == "proxy-authorization"@ && hop[4] == "te"@ && hop[5] == "trailer"@ && hop[6]
        == "transfer-encoding"@ && hop[7] == "upgrade"@);
}

proof fn written_up_to(state: CoordinatorState, upto: nat)
    requires
        upto <= state.multimodal@.len(),
    ensures
        prepare::written_requests(state, upto) matches Ok(rows) ==> rows.len() == upto && forall|
            i: int,
        |
            0 <= i < upto ==> (#[trigger] rows[i]).0 == state.multimodal@[i].hash@
                && json::json_written(
                JsonView::Object(transform::encode_view(state, state.multimodal@[i])),
            ) == Ok::<Seq<u8>, Seq<char>>(rows[i].1),
        (forall|i: int|
            0 <= i < upto ==> json::json_written(
                JsonView::Object(
                    transform::encode_view(state, #[trigger] state.multimodal@[i]),
                ),
            ) is Ok) ==> prepare::written_requests(state, upto) is Ok,
    decreases upto,
{
    if upto > 0 {
        written_up_to(state, (upto - 1) as nat);
        if let Ok(rows) = prepare::written_requests(state, upto) {
            let before = prepare::written_requests(state, (upto - 1) as nat)->Ok_0;
            assert forall|i: int| 0 <= i < upto implies (#[trigger] rows[i]).0
                == state.multimodal@[i].hash@ && json::json_written(
                JsonView::Object(transform::encode_view(state, state.multimodal@[i])),
            ) == Ok::<Seq<u8>, Seq<char>>(rows[i].1) by {
                if i < upto - 1 {
                    assert(rows[i] == before[i]);
                }
            }
        }
        if prepare::written_requests(state, (upto - 1) as nat) is Ok {
            assert(json::json_written(
                JsonView::Object(transform::encode_view(state, state.multimodal@[upto - 1])),
            ) is Ok ==> prepare::written_requests(state, upto) is Ok);
        }
    }
}

/// Where the encode stage is remote there is one encode request for each of the
/// media of a request, in order: under its hash, the text of the encode request of
/// its entry. Where each can be written there are all of them.
pub proof fn encode_requests_are_those_of_the_media(state: CoordinatorState)
    requires
        state.encodes(),
    ensures
        prepare::encode_requests(state) matches Ok(rows) ==> rows.len() == state.multimodal@.len()
            && forall|i: int|
            0 <= i < rows.len() ==> (#[trigger] rows[i]).0 == state.multimodal@[i].hash@
                && json::json_written(
                JsonView::Object(transform::encode_view(state, state.multimodal@[i])),
            ) == Ok::<Seq<u8>, Seq<char>>(rows[i].1),
        (forall|i: int|
            0 <= i < state.multimodal@.len() ==> json::json_written(
                JsonView::Object(
                    transform::encode_view(state, #[trigger] state.multimodal@[i]),
                ),
            ) is Ok) ==> prepare::encode_requests(state) is Ok,
{
    written_up_to(state, state.multimodal@.len());
}

/// The state of a prepared request holds the client's path and the request, the
/// tokens and media that were read of it, the topology and connectors that are
/// configured, and no transfer parameters yet. Its format is the tokens-in format
/// where the formats of the APIs are turned off, and else that of its path.
pub proof fn prepared_states_hold_the_request(
    config: PrepareConfig,
    path: Seq<char>,
    body: Map<Seq<char>, JsonView>,
    rendered: Rendered,
    state: CoordinatorState,
    requests: Vec<EncodeRequest>,
)
    requires
        prepare::carries_out(
            config,
            Outcome::Prepared { path, body, rendered },
            PrepareAction::Install { state, requests },
        ),
    ensures
        state.original_path@ == path,
        json::members_of(state.body) == body,
        state.token_ids@ == rendered.token_ids,
        state.multimodal@.len() == rendered.entries.len(),
        forall|i: int|
            0 <= i < rendered.entries.len() ==> ({
                let entry = #[trigger] state.multimodal@[i];
                &&& entry.index == rendered.entries[i].index
                &&& entry.hash@ == rendered.entries[i].hash
                &&& entry.kwargs_data@ == rendered.entries[i].kwargs_data
                &&& entry.placeholder.offset == rendered.entries[i].offset
                &&& entry.placeholder.length == rendered.entries[i].length
            }),
        state.topology == config.topology,
        state.kv_connector == config.kv_connector,
        state.ec_connector == config.ec_connector,
        forall|key: Seq<char>| !#[trigger] json::members_of(state.ec_transfer_params).contains_key(key),
        forall|key: Seq<char>| !#[trigger] json::members_of(state.kv_transfer_params).contains_key(key),
        !config.use_openai_format || path == "/inference/v1/generate"@ ==> state.format is Generate,
        config.use_openai_format && path == "/v1/completions"@ ==> state.format is Completions,
        config.use_openai_format && path == "/v1/chat/completions"@ ==> state.format
            is ChatCompletions,
{
    stages::formats_follow_paths(path);
    assert(preprocessing::entries_view(state.multimodal@).len() == state.multimodal@.len());
    assert forall|i: int| 0 <= i < rendered.entries.len() implies ({
        let entry = #[trigger] state.multimodal@[i];
        &&& entry.index == rendered.entries[i].index
        &&& entry.hash@ == rendered.entries[i].hash
        &&& entry.kwargs_data@ == rendered.entries[i].kwargs_data
        &&& entry.placeholder.offset == rendered.entries[i].offset
        &&& entry.placeholder.length == rendered.entries[i].length
    }) by {
        assert(preprocessing::entries_view(state.multimodal@)[i] == preprocessing::entry_view(
            state.multimodal@[i],
        ));
    }
}

/// An admitted request waits for its media: those that it names, in order, as long
/// as they are no more than is configured. One with more, or with one that is no
/// text, is refused with 400.
pub proof fn admitted_requests_wait_for_their_media(
    config: PrepareConfig,
    path: Seq<char>,
    bytes: Seq<u8>,
    body: Map<Seq<char>, JsonView>,
)
    requires
        stages::is_inference_path(path),
        json::object_read(bytes) == Ok::<Map<Seq<char>, JsonView>, Seq<char>>(body),
    ensures
        ({
            let admitted = transform::discarded(body);
            let urls = media::media_urls(admitted);
            let (step, outcome) = prepare::following(
                config,
                StepView::Start,
                EventView::Request { path, body: Some(bytes) },
            );
            if urls.len() <= config.max_multimodal_entries && forall|i: int|
                0 <= i < urls.len() ==> #[trigger] urls[i] is Text {
                &&& step == (StepView::Media { path, body: admitted })
                &&& outcome matches Outcome::Inline(jobs) && jobs.len() == urls.len() && forall|
                    i: int,
                |
                    0 <= i < jobs.len() ==> urls[i] == JsonView::Text(#[trigger] jobs[i])
            } else {
                &&& step is Finished
                &&& outcome matches Outcome::Refuse(StopView::Reject { status, body: _ }) && status
                    == 400
            }
        }),
{
}

/// A request whose media were made inline goes on with them: a chat request is
/// sent to the render service under its path, and then prepared with the tokens
/// and media of the answer.
pub proof fn chat_requests_are_rendered(
    config: PrepareConfig,
    body: Map<Seq<char>, JsonView>,
    values: Seq<Seq<char>>,
    base: Seq<char>,
    written: Seq<u8>,
    answer: Seq<u8>,
    members: Map<Seq<char>, JsonView>,
    rendered: Rendered,
)
    requires
        values.len() == media::media_urls(body).len(),
        codec::text_option(config.render_url) == Some(base),
        json::json_written(JsonView::Object(media::installed(body, values))) == Ok::<
            Seq<u8>,
            Seq<char>,
        >(written),
        json::json_read(answer) == Ok::<JsonView, Seq<char>>(JsonView::Object(members)),
        preprocessing::rendered(members, Some(values.len()), config.limits()) == Ok::<
            Rendered,
            Complaint,
        >(rendered),
    ensures
        ({
            let path = "/v1/chat/completions"@;
            let inline = media::installed(body, values);
            let (asking, ask) = prepare::following(
                config,
                StepView::Media { path, body },
                EventView::Media(Ok(values)),
            );
            let (finished, prepared) = prepare::following(
                config,
                asking,
                EventView::Answer(Ok((200u16, answer))),
            );
            &&& ask == (Outcome::Ask {
                url: text::unsuffixed(base, '/') + "/v1/chat/completions/render"@,
                sent: written,
            })
            &&& finished is Finished
            &&& prepared == (Outcome::Prepared { path, body: inline, rendered })
        }),
{
    stages::formats_follow_paths("/v1/chat/completions"@);
}

/// What goes wrong while a request is prepared ends its preparation with the
/// answer to the fault: 400 where the client is at fault and 502 where a service
/// is. Media that are not as many as the request names are a service's fault.
pub proof fn faults_end_the_preparation(
    config: PrepareConfig,
    path: Seq<char>,
    body: Map<Seq<char>, JsonView>,
    media: nat,
    complaint: Complaint,
    values: Seq<Seq<char>>,
)
    ensures
        ({
            let status: u16 = if complaint.client {
                400
            } else {
                502
            };
            let refused = (
                StepView::Finished,
                Outcome::Refuse(StopView::Reject { status, body: Some(complaint.message) }),
            );
            &&& prepare::following(
                config,
                StepView::Media { path, body },
                EventView::Media(Err(complaint)),
            ) == refused
            &&& prepare::following(
                config,
                StepView::Render { path, body, media },
                EventView::Answer(Err(complaint)),
            ) == refused
            &&& values.len() != media::media_urls(body).len() ==> (prepare::following(
                config,
                StepView::Media { path, body },
                EventView::Media(Ok(values)),
            ).1 matches Outcome::Refuse(StopView::Reject { status, body: _ }) && status == 502)
        }),
{
}

/// The limits on a request's tokens are those that are configured, and a
/// configuration has its limits where none of the five is zero.
pub proof fn limits_are_those_configured(config: PrepareConfig)
    ensures
        config.limits().max_total_tokens == config.max_total_tokens,
        config.limits().max_total_placeholder_tokens == config.max_total_placeholder_tokens,
        config.has_limits() <==> config.max_multimodal_entries > 0
            && config.max_concurrent_downloads > 0 && config.max_download_bytes > 0
            && config.max_total_tokens > 0 && config.max_total_placeholder_tokens > 0,
{
}

/// A completions request whose prompt is a text is sent to the render service
/// under its path, and then prepared with the tokens of the first answer.
pub proof fn completions_requests_are_rendered(
    config: PrepareConfig,
    body: Map<Seq<char>, JsonView>,
    base: Seq<char>,
    written: Seq<u8>,
    answer: Seq<u8>,
    members: Map<Seq<char>, JsonView>,
    rendered: Rendered,
)
    requires
        media::media_urls(body).len() == 0,
        json::field(media::installed(body, Seq::empty()), "prompt"@) matches Some(JsonView::Text(_)),
        codec::text_option(config.render_url) == Some(base),
        json::json_written(JsonView::Object(media::installed(body, Seq::empty()))) == Ok::<
            Seq<u8>,
            Seq<char>,
        >(written),
        json::json_read(answer) == Ok::<JsonView, Seq<char>>(
            JsonView::Array(seq![JsonView::Object(members)]),
        ),
        preprocessing::rendered(members, Some(0nat), config.limits()) == Ok::<Rendered, Complaint>(
            rendered,
        ),
    ensures
        ({
            let path = "/v1/completions"@;
            let inline = media::installed(body, Seq::empty());
            let (asking, ask) = prepare::following(
                config,
                StepView::Media { path, body },
                EventView::Media(Ok(Seq::empty())),
            );
            let (finished, prepared) = prepare::following(
                config,
                asking,
                EventView::Answer(Ok((200u16, answer))),
            );
            &&& ask == (Outcome::Ask {
                url: text::unsuffixed(base, '/') + "/v1/completions/render"@,
                sent: written,
            })
            &&& finished is Finished
            &&& prepared == (Outcome::Prepared { path, body: inline, rendered })
        }),
{
    stages::formats_follow_paths("/v1/completions"@);
    let items = seq![JsonView::Object(members)];
    assert(items[0] == JsonView::Object(members));
}

/// A request in the tokens-in format is prepared as soon as its media are inline,
/// with the tokens and media that it states itself, and refused with 400 where it
/// does not state them well.
pub proof fn generate_requests_are_prepared_at_once(
    config: PrepareConfig,
    body: Map<Seq<char>, JsonView>,
    values: Seq<Seq<char>>,
)
    requires
        values.len() == media::media_urls(body).len(),
    ensures
        ({
            let path = "/inference/v1/generate"@;
            let inline = media::installed(body, values);
            let (step, outcome) = prepare::following(
                config,
                StepView::Media { path, body },
                EventView::Media(Ok(values)),
            );
            &&& step is Finished
            &&& match preprocessing::rendered(inline, None, config.limits()) {
                Ok(rendered) => outcome == (Outcome::Prepared { path, body: inline, rendered }),
                Err(complaint) => outcome == Outcome::Refuse(
                    StopView::Reject { status: 400, body: Some(complaint.message) },
                ),
            }
        }),
{
    stages::formats_follow_paths("/inference/v1/generate"@);
    preprocessing::complaints_blame_the_sender(
        media::installed(body, values),
        None,
        config.limits(),
    );
}

/// A request to a path that is not led through the stages is prepared at once,
/// with its path, no body, no tokens and no media.
pub proof fn other_requests_are_prepared_empty(
    config: PrepareConfig,
    path: Seq<char>,
    body: Option<Seq<u8>>,
)
    requires
        !stages::is_inference_path(path),
    ensures
        ({
            let (step, outcome) = prepare::following(
                config,
                StepView::Start,
                EventView::Request { path, body },
            );
            &&& step is Finished
            &&& outcome matches Outcome::Prepared { path: to, body: held, rendered } && to == path
                && held == Map::<Seq<char>, JsonView>::empty() && rendered.token_ids.len() == 0
                && rendered.entries.len() == 0
        }),
{
}

/// A status that is none is a fault of the render service.
pub proof fn impossible_statuses_are_upstream_faults(
    config: PrepareConfig,
    path: Seq<char>,
    body: Map<Seq<char>, JsonView>,
    media: nat,
    status: u16,
    bytes: Seq<u8>,
)
    requires
        status < 100 || status > 999,
    ensures
        prepare::following(
            config,
            StepView::Render { path, body, media },
            EventView::Answer(Ok((status, bytes))),
        ) == (
            StepView::Finished,
            Outcome::Refuse(
                StopView::Reject { status: 502, body: Some("render request failed"@) },
            ),
        ),
{
}

/// The first encode request that cannot be written ends the preparation, with
/// what was wrong.
pub proof fn unwritable_encode_requests_are_explained(
    state: CoordinatorState,
    at: nat,
    upto: nat,
    error: Seq<char>,
)
    requires
        at < upto <= state.multimodal@.len(),
        forall|i: int|
            0 <= i < at ==> json::json_written(
                JsonView::Object(transform::encode_view(state, #[trigger] state.multimodal@[i])),
            ) is Ok,
        json::json_written(
            JsonView::Object(transform::encode_view(state, state.multimodal@[at as int])),
        ) == Err::<Seq<u8>, Seq<char>>(error),
    ensures
        prepare::written_requests(state, upto) == Err::<Seq<(Seq<char>, Seq<u8>)>, StopView>(
            StopView::Fail("llmd_prepare: serialize encode request: "@ + error),
        ),
    decreases upto,
{
    if upto == at + 1 {
        writable_up_to(state, at);
    } else {
        unwritable_encode_requests_are_explained(state, at, (upto - 1) as nat, error);
    }
}

proof fn writable_up_to(state: CoordinatorState, upto: nat)
    requires
        upto <= state.multimodal@.len(),
        forall|i: int|
            0 <= i < upto ==> json::json_written(
                JsonView::Object(transform::encode_view(state, #[trigger] state.multimodal@[i])),
            ) is Ok,
    ensures
        prepare::written_requests(state, upto) is Ok,
    decreases upto,
{
    if upto > 0 {
        writable_up_to(state, (upto - 1) as nat);
        assert(json::json_written(
            JsonView::Object(transform::encode_view(state, state.multimodal@[upto - 1])),
        ) is Ok);
    }
}

/// Media that are not as many as were asked for are a fault of the download.
pub proof fn missing_media_are_a_fault(
    config: PrepareConfig,
    path: Seq<char>,
    body: Map<Seq<char>, JsonView>,
    values: Seq<Seq<char>>,
)
    requires
        values.len() != media::media_urls(body).len(),
    ensures
        prepare::following(
            config,
            StepView::Media { path, body },
            EventView::Media(Ok(values)),
        ) == (
            StepView::Finished,
            Outcome::Refuse(
                StopView::Reject { status: 502, body: Some("media download task failed"@) },
            ),
        ),
{
}

} // verus!
