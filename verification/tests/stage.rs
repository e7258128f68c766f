use llmd_coordinator::connectors::{EcConnector, KvConnector};
use llmd_coordinator::filter::{BodyAccess, BodyMode, Stop, MAX_BODY_BYTES};
use llmd_coordinator::stage::{
    read_encode_responses, read_handover, EncodeResponse, LlmdStageFilter, Stage, StageBody,
    StageConfig,
};
use llmd_coordinator::state::{
    CoordinatorState, MultimodalEntry, PlaceholderRange, Topology, WireFormat,
};
use serde_json::Value;

fn filter(phase: Stage) -> LlmdStageFilter {
    LlmdStageFilter::from_config(StageConfig::new(phase)).unwrap()
}

fn state(media: bool) -> CoordinatorState {
    CoordinatorState {
        original_path: "/v1/chat/completions".to_owned(),
        body: serde_json::from_str(r#"{"model": "m", "max_tokens": 9}"#).unwrap(),
        topology: Topology::FullyDisaggregated,
        format: WireFormat::ChatCompletions,
        token_ids: vec![1, 2],
        multimodal: if media {
            vec![MultimodalEntry {
                index: 0,
                hash: "h".to_owned(),
                kwargs_data: String::new(),
                placeholder: PlaceholderRange { offset: 0, length: 1 },
            }]
        } else {
            Vec::new()
        },
        ec_transfer_params: serde_json::Map::new(),
        kv_transfer_params: serde_json::Map::new(),
        ec_connector: EcConnector::EcNixl,
        kv_connector: KvConnector::KvNixl,
    }
}

fn response(key: &str, body: &str) -> EncodeResponse {
    EncodeResponse { key: key.to_owned(), body: body.as_bytes().to_vec() }
}

fn failure<T>(r: Result<T, Stop>) -> String {
    match r {
        Err(Stop::Fail(message)) => message,
        _ => panic!("the stage fails"),
    }
}

#[test]
fn stage_limits_are_checked() {
    let mut config = StageConfig::new(Stage::Decode);
    assert_eq!(config.max_body_bytes, MAX_BODY_BYTES);
    config.max_body_bytes = 0;
    assert_eq!(
        LlmdStageFilter::from_config(config).unwrap_err(),
        "llmd_stage: max_body_bytes must be 1..=67108864"
    );
}

#[test]
fn stages_have_their_profile() {
    assert_eq!(filter(Stage::ConditionalDecode).profile(), "decode");
    assert_eq!(filter(Stage::Encode).profile(), "encode");
    assert_eq!(filter(Stage::Prefill).profile(), "prefill");
    assert_eq!(filter(Stage::Decode).profile(), "decode");
}

#[test]
fn only_prefill_answers_are_buffered() {
    let prefill = filter(Stage::Prefill);
    assert_eq!(prefill.response_body_access(), BodyAccess::ReadOnly);
    assert_eq!(
        prefill.response_body_mode(),
        BodyMode::StreamBuffer { max_bytes: Some(MAX_BODY_BYTES) }
    );
    assert!(!prefill.may_select_streaming_subrequest_response());
    let decode = filter(Stage::Decode);
    assert_eq!(decode.request_body_access(), BodyAccess::ReadWrite);
    assert_eq!(decode.response_body_access(), BodyAccess::NoAccess);
    assert_eq!(decode.response_body_mode(), BodyMode::Stream);
    assert!(decode.may_select_streaming_subrequest_response());
}

#[test]
fn conditional_decode_asks_for_what_is_available() {
    let mut held = Some(state(false));
    let head = filter(Stage::ConditionalDecode).on_request(&mut held, None, "/other").unwrap();
    assert_eq!(head.path, Some("/v1/chat/completions"));
    assert_eq!(head.headers, [("epp-profile", "decode"), ("prefer", "if-available")]);
    assert!(head.streaming);
    let mut media = Some(state(true));
    assert!(matches!(
        filter(Stage::ConditionalDecode).on_request(&mut media, None, "/"),
        Err(Stop::Reject { status: 412, body: None })
    ));
}

#[test]
fn encode_only_sets_its_profile() {
    let head = filter(Stage::Encode).on_request(&mut None, None, "/x").unwrap();
    assert_eq!(head.headers, [("epp-profile", "encode")]);
    assert_eq!(head.path, None);
    assert!(matches!(
        filter(Stage::Encode).on_request_body(None, "/x", true),
        Ok(StageBody::Ready { body: None, .. })
    ));
}

#[test]
fn a_stage_needs_its_state() {
    let missing = "llmd_stage: coordinator state missing";
    assert_eq!(failure(filter(Stage::Decode).on_request(&mut None, None, "/")), missing);
    assert_eq!(failure(filter(Stage::Decode).on_request_body(None, "/", true)), missing);
    assert_eq!(failure(filter(Stage::Prefill).on_response_body(&mut None, Some(b"{}"), true)), missing);
    assert_eq!(
        failure(filter(Stage::Prefill).on_request(&mut None, Some(&Vec::new()), "/")),
        missing
    );
}

#[test]
fn prefill_takes_the_encode_answers_over() {
    let responses = vec![
        response("a", r#"{"ec_transfer_params": {"h": {"peer_host": "x", "peer_port": 7, "size_bytes": 5, "nixl_agent_metadata_b64": "AQID"}}}"#),
        response("b", r#"{"ec_transfer_params": {"h": {"peer_host": "x", "peer_port": 7, "size_bytes": 5, "nixl_agent_metadata_b64": "AQID"}, "g": null}}"#),
    ];
    let mut held = Some(state(true));
    let head = filter(Stage::Prefill)
        .on_request(&mut held, Some(&responses), "/v1/chat/completions")
        .unwrap();
    assert_eq!(head.path, None);
    assert!(!head.streaming);
    let params = held.unwrap().ec_transfer_params;
    assert_eq!(params["h"]["peer_host"], "x");
    assert_eq!(params.len(), 1);
}

#[test]
fn descriptors_have_to_match_the_request() {
    let prefill = filter(Stage::Prefill);
    for body in [r#"{"ec_transfer_params": {"h": null}}"#, "{}"] {
        let mut held = Some(state(true));
        assert_eq!(
            failure(prefill.on_request(&mut held, Some(&vec![response("h", body)]), "/")),
            "llmd_stage: ec_transfer_params: requested mm_hash has no descriptor"
        );
        assert!(held.unwrap().ec_transfer_params.is_empty());
    }
    let more = vec![response("h", r#"{"ec_transfer_params": {"h": {}, "g": {}}}"#)];
    let mut held = Some(state(true));
    assert_eq!(
        failure(prefill.on_request(&mut held, Some(&more), "/")),
        "llmd_stage: ec_transfer_params: descriptor for an mm_hash not requested"
    );
    assert!(held.unwrap().ec_transfer_params.is_empty());
    let mut text = Some(state(false));
    prefill.on_request(&mut text, Some(&Vec::new()), "/").unwrap();
}

#[test]
fn descriptors_have_to_name_an_encoder() {
    let merge = |descriptor: &str| {
        let body = format!(r#"{{"ec_transfer_params": {{"h": {descriptor}}}}}"#);
        let mut held = Some(state(true));
        let result = filter(Stage::Prefill).on_request(&mut held, Some(&vec![response("h", &body)]), "/");
        (result, held.unwrap().ec_transfer_params)
    };
    let descriptor = |host: &str, port: &str, size: &str, metadata: &str| {
        format!(
            r#"{{"peer_host": {host}, "peer_port": {port}, "size_bytes": {size}, "nixl_agent_metadata_b64": {metadata}, "more": 1}}"#
        )
    };
    for host in ["\"enc-1.local\"", "\"10.0.0.2\"", "\"fe80::1\""] {
        let (result, params) = merge(&descriptor(host, "65535", "67108864", "\"\""));
        assert!(result.is_ok());
        assert_eq!(params["h"]["more"], 1);
    }
    for invalid in [
        descriptor("\"\"", "7", "5", "\"AQID\""),
        descriptor("\"a b\"", "7", "5", "\"AQID\""),
        descriptor("null", "7", "5", "\"AQID\""),
        descriptor("\"h\"", "0", "5", "\"AQID\""),
        descriptor("\"h\"", "65536", "5", "\"AQID\""),
        descriptor("\"h\"", "\"7\"", "5", "\"AQID\""),
        descriptor("\"h\"", "7", "-1", "\"AQID\""),
        descriptor("\"h\"", "7", "67108865", "\"AQID\""),
        descriptor("\"h\"", "7", "5", "\"AQ*\""),
        r#"{"peer_host": "h"}"#.to_owned(),
        "1".to_owned(),
    ] {
        let (result, params) = merge(&invalid);
        assert_eq!(failure(result), "llmd_stage: ec_transfer_params: invalid descriptor");
        assert!(params.is_empty());
    }
}

#[test]
fn a_failed_merge_leaves_the_state() {
    let conflict = vec![
        response("a", r#"{"ec_transfer_params": {"h": 1}}"#),
        response("b", r#"{"ec_transfer_params": {"h": 2}}"#),
    ];
    let mut held = Some(state(true));
    assert_eq!(
        failure(filter(Stage::Prefill).on_request(&mut held, Some(&conflict), "/")),
        "llmd_stage: ec_transfer_params: conflicting descriptors for mm_hash 'h'"
    );
    assert!(held.unwrap().ec_transfer_params.is_empty());
}

#[test]
fn encode_answers_have_to_be_objects() {
    let message = failure(read_encode_responses(&vec![response("a", "{}"), response("k", "[1]")]));
    assert!(message.starts_with("llmd_stage: invalid encode response 'k': "));
}

#[test]
fn a_stage_connector_decides_over_the_state() {
    let mut config = StageConfig::new(Stage::Prefill);
    config.ec_connector = Some(EcConnector::EcSharedStorage);
    let stage = LlmdStageFilter::from_config(config).unwrap();
    let mut held = Some(state(true));
    let responses = vec![response("a", r#"{"ec_transfer_params": {"h": 1}}"#)];
    stage.on_request(&mut held, Some(&responses), "/").unwrap();
    assert!(held.unwrap().ec_transfer_params.is_empty());
}

fn sent(filter: &LlmdStageFilter, state: &CoordinatorState) -> Value {
    match filter.on_request_body(Some(state), "/", true).unwrap() {
        StageBody::Ready { head, body } => {
            assert_eq!(head.headers, [("epp-profile", filter.profile())]);
            serde_json::from_slice(&body.unwrap()).unwrap()
        }
        StageBody::Pending => panic!("the body ended"),
    }
}

#[test]
fn stages_send_their_request() {
    let state = state(false);
    assert!(matches!(
        filter(Stage::Decode).on_request_body(Some(&state), "/", false),
        Ok(StageBody::Pending)
    ));
    let prefill = sent(&filter(Stage::Prefill), &state);
    assert_eq!(prefill["max_tokens"], 1);
    assert_eq!(prefill["kv_transfer_params"]["do_remote_decode"], true);
    let conditional = sent(&filter(Stage::ConditionalDecode), &state);
    assert!(conditional.get("kv_transfer_params").is_none());
    let mut config = StageConfig::new(Stage::Decode);
    config.use_openai_format = Some(false);
    let native = sent(&LlmdStageFilter::from_config(config).unwrap(), &state);
    assert_eq!(native["sampling_params"]["max_tokens"], 9);
}

#[test]
fn the_prefill_handover_reaches_decode() {
    let mut held = Some(state(false));
    let body = br#"{"kv_transfer_params": {
        "remote_engine_id": "e", "remote_block_ids": [1, 2], "remote_host": "pre", "remote_port": 7
    }}"#;
    filter(Stage::Prefill).on_response_body(&mut held, Some(body), false).unwrap();
    assert!(held.as_ref().unwrap().kv_transfer_params.is_empty());
    filter(Stage::Prefill).on_response_body(&mut held, Some(body), true).unwrap();
    let decode = sent(&filter(Stage::Decode), held.as_ref().unwrap());
    assert_eq!(decode["kv_transfer_params"]["remote_port"], 7);
    assert_eq!(decode["kv_transfer_params"]["do_remote_prefill"], true);
    filter(Stage::Decode).on_response_body(&mut held, Some(b"{}"), true).unwrap();
    assert_eq!(held.unwrap().kv_transfer_params.len(), 4);
}

#[test]
fn prefill_answers_have_to_be_json() {
    let mut held = Some(state(false));
    let message = failure(filter(Stage::Prefill).on_response_body(&mut held, None, true));
    assert!(message.starts_with("llmd_stage: invalid prefill response: "));
    assert!(held.unwrap().kv_transfer_params.is_empty());
}

#[test]
fn decode_needs_a_handover() {
    for body in ["[1]", "{}", r#"{"kv_transfer_params": 1}"#] {
        let mut held = Some(state(false));
        held.as_mut().unwrap().kv_transfer_params.insert("old".to_owned(), Value::Null);
        assert_eq!(
            failure(filter(Stage::Prefill).on_response_body(&mut held, Some(body.as_bytes()), true)),
            "llmd_stage: prefill response has no kv_transfer_params"
        );
        assert_eq!(held.unwrap().kv_transfer_params.len(), 1);
    }
    let peer = |port: &str| -> Value {
        serde_json::from_str(&format!(
            r#"{{"kv_transfer_params": {{"remote_engine_id": "e", "remote_block_ids": [], "remote_host": "h", "remote_port": {port}}}}}"#
        ))
        .unwrap()
    };
    assert_eq!(read_handover(KvConnector::KvNixl, &peer("65535")).unwrap().len(), 4);
    for port in ["0", "65536", "null", "\"7\""] {
        assert_eq!(
            failure(read_handover(KvConnector::KvNixl, &peer(port))),
            "llmd_stage: invalid kv_transfer_params in prefill response"
        );
    }
    let location: Value = serde_json::from_str(r#"{"kv_transfer_params": {"location": "x"}}"#).unwrap();
    assert!(read_handover(KvConnector::KvNixl, &location).is_err());
    assert_eq!(read_handover(KvConnector::KvSharedStorage, &location).unwrap()["location"], "x");
}

#[test]
fn a_combined_worker_gets_no_transfer_params() {
    let mut combined = state(true);
    combined.topology = Topology::Combined;
    let decode = sent(&filter(Stage::Decode), &combined);
    assert!(decode.get("kv_transfer_params").is_none());
    assert_eq!(decode["tokens"]["features"]["mm_hashes"]["image"][0], "h");
    let mut config = StageConfig::new(Stage::Decode);
    config.use_openai_format = Some(false);
    let native = sent(&LlmdStageFilter::from_config(config).unwrap(), &combined);
    assert!(native["sampling_params"].get("extra_args").is_none());
}

#[test]
fn passed_requests_reach_decode_alone() {
    let mut passed = state(false);
    passed.original_path = "/v1/models".to_owned();
    let mut held = Some(passed.clone());
    let head = filter(Stage::Decode).on_request(&mut held, None, "/v1/models").unwrap();
    assert_eq!(head.path, None);
    assert_eq!(head.headers, [("epp-profile", "decode")]);
    assert!(head.streaming);
    assert!(matches!(
        filter(Stage::Decode).on_request_body(Some(&passed), "/v1/models", true),
        Ok(StageBody::Ready { head, body: None }) if head.path.is_none()
    ));
    for body in [None, Some(&b"{}"[..]), Some(&b"no JSON"[..])] {
        filter(Stage::Prefill).on_response_body(&mut held, body, true).unwrap();
        assert!(held.as_ref().unwrap().kv_transfer_params.is_empty());
    }
    for phase in [Stage::ConditionalDecode, Stage::Prefill] {
        assert!(matches!(
            filter(phase).on_request(&mut held, None, "/v1/models"),
            Err(Stop::Reject { status: 412, body: None })
        ));
    }
}
