use llmd_coordinator::connectors::{EcConnector, KvConnector};
use llmd_coordinator::filter::{refuse, BodyAccess, BodyMode, Stop, MAX_BODY_BYTES};
use llmd_coordinator::prepare::{
    admit_request, child_headers, default_download_timeout_ms, default_max_body_bytes,
    default_max_concurrent_downloads, default_max_download_bytes, default_max_media_entries,
    default_max_placeholder_tokens, default_max_tokens, default_render_timeout_ms, default_true,
    fan_out, internal_headers, Admitted, LlmdPrepareFilter, PrepareAction, PrepareConfig,
    PrepareEvent, PrepareStep, Rendering,
};
use llmd_coordinator::preprocessing::PreprocessError;
use llmd_coordinator::state::{
    is_orchestrated, MultimodalEntry, PlaceholderRange, Topology, WireFormat,
};
use llmd_coordinator::transform::discard_transfer;
use serde_json::Value;

fn members(text: &str) -> serde_json::Map<String, Value> {
    serde_json::from_str(text).unwrap()
}

fn filter(render_url: Option<&str>) -> LlmdPrepareFilter {
    let mut config = PrepareConfig::new(Topology::FullyDisaggregated);
    config.render_url = render_url.map(str::to_owned);
    LlmdPrepareFilter::from_config(config).unwrap()
}

#[test]
fn zero_body_limit_is_invalid() {
    let mut cfg = PrepareConfig::new(Topology::FullyDisaggregated);
    cfg.max_body_bytes = 0;
    assert!(LlmdPrepareFilter::from_config(cfg).is_err());
}

#[test]
fn limits_are_checked() {
    let mut large = PrepareConfig::new(Topology::Combined);
    large.max_body_bytes = MAX_BODY_BYTES + 1;
    assert_eq!(
        LlmdPrepareFilter::from_config(large).unwrap_err(),
        "llmd_prepare: max_body_bytes must be 1..=67108864"
    );
    let mut none = PrepareConfig::new(Topology::Combined);
    none.max_total_tokens = 0;
    assert_eq!(
        LlmdPrepareFilter::from_config(none).unwrap_err(),
        "llmd_prepare: preprocessing limits must be positive"
    );
    assert!(LlmdPrepareFilter::from_config(PrepareConfig::new(Topology::Combined)).is_ok());
}

#[test]
fn defaults_are_the_documented_ones() {
    assert!(default_true());
    assert_eq!(default_max_body_bytes(), 67_108_864);
    assert_eq!(default_download_timeout_ms(), 10_000);
    assert_eq!(default_render_timeout_ms(), 30_000);
    assert_eq!(default_max_media_entries(), 16);
    assert_eq!(default_max_concurrent_downloads(), 8);
    assert_eq!(default_max_download_bytes(), 10_485_760);
    assert_eq!(default_max_tokens(), 131_072);
    assert_eq!(default_max_placeholder_tokens(), 65_536);
    let config = PrepareConfig::new(Topology::Combined);
    assert_eq!(config.kv_connector, KvConnector::KvSharedStorage);
    assert_eq!(config.ec_connector, EcConnector::EcSharedStorage);
}

#[test]
fn bodies_are_admitted() {
    assert!(matches!(
        admit_request("/v1/completions", None),
        Err(Stop::Fail(message)) if message == "llmd_prepare: buffered request body unavailable"
    ));
    for bytes in ["{", "[]", ""] {
        assert!(matches!(
            admit_request("/v1/completions", Some(bytes.as_bytes())),
            Err(Stop::Reject { status: 400, body: Some(body) }) if body == "invalid JSON request body"
        ));
    }
    assert!(matches!(
        admit_request("/v1/completions", Some(br#"{"model": "m", "kv_transfer_params": {"x": 1}}"#)),
        Ok(Admitted::Request(body)) if body == members(r#"{"model": "m"}"#)
    ));
}

#[test]
fn other_paths_are_passed_through() {
    assert!(matches!(admit_request("/v1/models", None), Ok(Admitted::Passthrough)));
    assert!(matches!(admit_request("/v1/embeddings", Some(b"{")), Ok(Admitted::Passthrough)));
    assert!(is_orchestrated("/inference/v1/generate"));
    assert!(!is_orchestrated("/v1/completions/"));
}

#[test]
fn client_transfer_params_are_discarded() {
    let body = members(
        r#"{
            "kv_transfer_params": 1, "ec_transfer_params": 2, "n": 3,
            "sampling_params": {"top_k": 4, "extra_args": {
                "kv_transfer_params": 5, "ec_transfer_params": 6, "m": 7
            }}
        }"#,
    );
    assert_eq!(
        discard_transfer(&body),
        members(r#"{"n": 3, "sampling_params": {"top_k": 4, "extra_args": {"m": 7}}}"#)
    );
    let other = members(r#"{"sampling_params": {"extra_args": 1}}"#);
    assert_eq!(discard_transfer(&other), other);
}

#[test]
fn errors_are_answered_by_fault() {
    assert!(matches!(
        refuse(PreprocessError::bad_request("a")),
        Stop::Reject { status: 400, body: Some(body) } if body == "a"
    ));
    assert!(matches!(
        refuse(PreprocessError::upstream("b")),
        Stop::Reject { status: 502, body: Some(body) } if body == "b"
    ));
}

#[test]
fn token_prompts_are_not_rendered() {
    let rendering = filter(Some("http://r")).rendering("/v1/completions", &members(r#"{"prompt": [1, 2]}"#));
    assert!(matches!(rendering, Rendering::Done(Ok((tokens, media))) if tokens == [1, 2] && media.is_empty()));
}

#[test]
fn what_a_client_states_wrong_is_the_clients_fault() {
    let twice = members(
        r#"{"token_ids":[1,2],"features":{"mm_hashes":{"image":["h","h"]},"mm_placeholders":{"image":[{"offset":0,"length":1},{"offset":1,"length":1}]}}}"#,
    );
    for (path, body) in [
        ("/inference/v1/generate", twice),
        ("/inference/v1/generate", members(r#"{"token_ids":[1],"features":{"mm_hashes":{"image":["h"]}}}"#)),
        ("/inference/v1/generate", members("{}")),
        ("/v1/completions", members(r#"{"prompt": [1, "a"]}"#)),
    ] {
        match filter(Some("http://r")).rendering(path, &body) {
            Rendering::Done(Err(error)) => assert_eq!(error.status(), 400),
            _ => panic!("the request is refused"),
        }
    }
}

#[test]
fn tokens_in_requests_are_generated() {
    let mut config = PrepareConfig::new(Topology::PrefillDecode);
    config.use_openai_format = false;
    let filter = LlmdPrepareFilter::from_config(config).unwrap();
    let state = filter.prepare_state("/v1/completions", members("{}"), vec![1], Vec::new());
    assert_eq!(state.format, WireFormat::Generate);
    assert_eq!(state.format.path(), "/inference/v1/generate");
}

#[test]
fn generate_requests_are_not_rendered() {
    let rendering = filter(Some("http://r"))
        .rendering("/inference/v1/generate", &members(r#"{"token_ids": [3]}"#));
    assert!(matches!(rendering, Rendering::Done(Ok((tokens, _))) if tokens == [3]));
    let wrong = filter(None).rendering("/inference/v1/generate", &members("{}"));
    assert!(matches!(wrong, Rendering::Done(Err(error)) if error.client));
}

#[test]
fn text_requests_are_rendered() {
    let rendering = filter(Some("http://r/")).rendering("/v1/completions", &members(r#"{"prompt": "x"}"#));
    match rendering {
        Rendering::Ask { url, body } => {
            assert_eq!(url, "http://r/v1/completions/render");
            assert_eq!(body, br#"{"prompt":"x"}"#);
        }
        Rendering::Done(_) => panic!("the render service is asked"),
    }
    let missing = filter(None).rendering("/v1/chat/completions", &members("{}"));
    assert!(matches!(
        missing,
        Rendering::Done(Err(error))
            if !error.client && error.message == "render_url is required for OpenAI text inputs"
    ));
}

fn entry(hash: &str) -> MultimodalEntry {
    MultimodalEntry {
        index: 0,
        hash: hash.to_owned(),
        kwargs_data: String::new(),
        placeholder: PlaceholderRange { offset: 0, length: 1 },
    }
}

#[test]
fn each_image_gets_an_encode_request() {
    let filter = filter(None);
    let state = filter.prepare_state(
        "/inference/v1/generate",
        members(r#"{"model": "m"}"#),
        vec![5, 6],
        vec![entry("a"), entry("b")],
    );
    assert_eq!(state.format, WireFormat::Generate);
    assert!(state.kv_transfer_params.is_empty());
    let requests = fan_out(&state).unwrap();
    let keys: Vec<&str> = requests.iter().map(|request| request.key.as_str()).collect();
    assert_eq!(keys, ["a", "b"]);
    let body: Value = serde_json::from_slice(&requests[0].body).unwrap();
    assert_eq!(body["token_ids"], serde_json::from_str::<Value>("[5, 5]").unwrap());
}

#[test]
fn text_requests_fan_out_nothing() {
    let state = filter(None).prepare_state("/v1/chat/completions", members("{}"), vec![1], Vec::new());
    assert_eq!(state.original_path, "/v1/chat/completions");
    assert!(fan_out(&state).unwrap().is_empty());
}

#[test]
fn internal_headers_do_not_reach_encode_requests() {
    let mut client = http::HeaderMap::new();
    client.insert("authorization", "token".parse().unwrap());
    client.append("accept", "a".parse().unwrap());
    client.append("accept", "b".parse().unwrap());
    for name in internal_headers() {
        client.insert(name, "spoofed".parse().unwrap());
    }
    for name in [
        "connection",
        "keep-alive",
        "proxy-authenticate",
        "proxy-authorization",
        "te",
        "trailer",
        "transfer-encoding",
        "upgrade",
    ] {
        client.append(name, "a".parse().unwrap());
        client.append(name, "b".parse().unwrap());
    }
    let child = child_headers(&client);
    assert_eq!(child["authorization"], "token");
    assert_eq!(child.get_all("accept").iter().count(), 2);
    assert_eq!(child.len(), 3);
    assert_eq!(
        internal_headers(),
        ["epp-profile", "x-gateway-destination-endpoint", "kv-transfer-params", "ec-transfer-params"]
    );
}

#[test]
fn preparation_reads_whole_bodies() {
    let filter = filter(None);
    assert_eq!(filter.request_body_access(), BodyAccess::ReadOnly);
    assert_eq!(
        filter.request_body_mode(),
        BodyMode::StreamBuffer { max_bytes: Some(MAX_BODY_BYTES) }
    );
    assert_eq!(filter.media_config().max_entries, 16);
    assert_eq!(filter.limits().max_total_placeholder_tokens, 65_536);
}

fn request(path: &str, body: &str) -> PrepareEvent {
    PrepareEvent::Request { path: path.to_owned(), body: Some(body.as_bytes().to_vec()) }
}

const CHAT: &str = r#"{"messages": [{"content": [{"type": "image_url", "image_url": {"url": "http://i/"}}]}]}"#;
const RENDERED: &str = r#"{"token_ids":[1,2],"features":{"mm_hashes":{"image":["h"]},"mm_placeholders":{"image":[{"offset":0,"length":1}]}}}"#;

#[test]
fn a_request_is_prepared_step_by_step() {
    let filter = filter(Some("http://r"));
    let (step, action) = filter.next(PrepareStep::Start, request("/v1/chat/completions", CHAT));
    assert!(matches!(action, PrepareAction::Inline(jobs) if jobs == ["http://i/"]));
    let (step, action) = filter.next(step, request("/v1/models", ""));
    assert!(matches!(action, PrepareAction::Wait));
    let (step, action) =
        filter.next(step, PrepareEvent::Media(Ok(vec!["data:image/png;base64,AQID".to_owned()])));
    let PrepareAction::Ask { url, body } = action else { panic!("the render service is asked") };
    assert_eq!(url, "http://r/v1/chat/completions/render");
    assert!(String::from_utf8(body).unwrap().contains("data:image/png;base64,AQID"));
    let (step, action) =
        filter.next(step, PrepareEvent::Answer(Ok((200, RENDERED.as_bytes().to_vec()))));
    let PrepareAction::Install { state, requests } = action else { panic!("it is prepared") };
    assert_eq!(state.token_ids, [1, 2]);
    assert_eq!(state.original_path, "/v1/chat/completions");
    assert_eq!(requests.len(), 1);
    assert_eq!(requests[0].key, "h");
    let (step, action) = filter.next(step, request("/v1/chat/completions", CHAT));
    assert!(matches!(action, PrepareAction::Wait));
    assert!(matches!(step, PrepareStep::Finished));
}

#[test]
fn a_refusal_ends_the_preparation() {
    let filter = filter(Some("http://r"));
    let media = || filter.next(PrepareStep::Start, request("/v1/chat/completions", CHAT)).0;
    let render = || {
        let one = PrepareEvent::Media(Ok(vec!["data:image/png;base64,AQID".to_owned()]));
        filter.next(media(), one).0
    };
    let refused = |step: PrepareStep, event: PrepareEvent| {
        let (step, action) = filter.next(step, event);
        let PrepareAction::Refuse(stop) = action else { panic!("it is refused") };
        assert!(matches!(step, PrepareStep::Finished));
        let (step, action) = filter.next(step, PrepareEvent::Media(Ok(Vec::new())));
        assert!(matches!((step, action), (PrepareStep::Finished, PrepareAction::Wait)));
        match stop {
            Stop::Reject { status, .. } => status,
            Stop::Fail(_) => panic!("it is answered"),
        }
    };
    assert_eq!(refused(PrepareStep::Start, request("/v1/completions", "{")), 400);
    assert_eq!(refused(PrepareStep::Start, request("/v1/chat/completions", &CHAT.replace("\"http://i/\"", "1"))), 400);
    assert_eq!(refused(media(), PrepareEvent::Media(Err(PreprocessError::upstream("x")))), 502);
    assert_eq!(refused(media(), PrepareEvent::Media(Ok(Vec::new()))), 502);
    assert_eq!(refused(render(), PrepareEvent::Answer(Err(PreprocessError::upstream("x")))), 502);
    assert_eq!(refused(render(), PrepareEvent::Answer(Ok((500, Vec::new())))), 502);
    assert_eq!(refused(render(), PrepareEvent::Answer(Ok((0, Vec::new())))), 502);
    assert_eq!(refused(render(), PrepareEvent::Answer(Ok((200, b"{}".to_vec())))), 502);
}

#[test]
fn some_requests_are_prepared_without_the_render_service() {
    let filter = filter(None);
    let (_, action) = filter.next(PrepareStep::Start, request("/v1/models", "no JSON"));
    let PrepareAction::Install { state, requests } = action else { panic!("it is passed through") };
    assert!(state.body.is_empty() && state.token_ids.is_empty() && requests.is_empty());
    let (step, action) =
        filter.next(PrepareStep::Start, request("/inference/v1/generate", r#"{"token_ids": [5]}"#));
    assert!(matches!(action, PrepareAction::Inline(jobs) if jobs.is_empty()));
    let (_, action) = filter.next(step, PrepareEvent::Media(Ok(Vec::new())));
    let PrepareAction::Install { state, .. } = action else { panic!("it is prepared") };
    assert_eq!(state.token_ids, [5]);
}
