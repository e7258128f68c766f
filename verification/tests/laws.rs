use llmd_coordinator::config::{
    infer_topology, CoordinatorConfig, CoordinatorGateway, CoordinatorPipeline, CoordinatorServer,
    CoordinatorStep,
};
use llmd_coordinator::media::{install_media, media_jobs, start_media, MediaConfig, MediaStart};
use llmd_coordinator::prepare::{admit_request, Admitted, LlmdPrepareFilter, PrepareConfig};
use llmd_coordinator::preprocessing::parse_rendered;
use llmd_coordinator::state::{
    CoordinatorState, MultimodalEntry, PlaceholderRange, PreprocessingLimits, Topology, WireFormat,
};
use llmd_coordinator::transform::{conditional_decode_body, decode_body, prefill_body};
use llmd_coordinator::translate::translate_coordinator;
use serde_json::Value;

const LIMITS: PreprocessingLimits = PreprocessingLimits {
    max_total_tokens: 100,
    max_total_placeholder_tokens: 100,
};

fn entry(index: usize, hash: &str, offset: usize) -> MultimodalEntry {
    MultimodalEntry {
        index,
        hash: hash.to_owned(),
        kwargs_data: if index == 0 { "tensor".to_owned() } else { String::new() },
        placeholder: PlaceholderRange { offset, length: 2 },
    }
}

fn prepared(path: &str, body: &str, multimodal: Vec<MultimodalEntry>) -> CoordinatorState {
    let filter =
        LlmdPrepareFilter::from_config(PrepareConfig::new(Topology::FullyDisaggregated)).unwrap();
    let body = match admit_request(path, Some(body.as_bytes())).unwrap() {
        Admitted::Request(body) => body,
        Admitted::Passthrough => panic!("the request is led through the stages"),
    };
    filter.prepare_state(path, body, vec![1, 2, 3, 4, 5], multimodal)
}

#[test]
fn worker_paths_are_detected_as_their_format() {
    for format in [WireFormat::ChatCompletions, WireFormat::Completions, WireFormat::Generate] {
        assert_eq!(WireFormat::detect(format.path(), true), format);
    }
}

#[test]
fn capping_again_changes_nothing() {
    let mut state = prepared(
        "/v1/chat/completions",
        r#"{"max_tokens": 5, "min_tokens": 2, "max_completion_tokens": 7, "stream": true}"#,
        vec![entry(0, "a", 0)],
    );
    let once = prefill_body(&state).unwrap();
    state.body = once.as_object().unwrap().clone();
    assert_eq!(prefill_body(&state).unwrap(), once);
}

#[test]
fn written_features_are_read_back() {
    let entries = vec![entry(0, "a", 1), entry(1, "b", 3)];
    let state = prepared("/inference/v1/generate", "{}", entries.clone());
    let body = prefill_body(&state).unwrap();
    let (tokens, read) = parse_rendered(&body, Some(2), LIMITS).unwrap();
    assert_eq!(tokens, vec![1, 2, 3, 4, 5]);
    assert_eq!(read, entries);
}

#[test]
fn rendered_entries_stand_apart_and_in_order() {
    let text = r#"{"token_ids":[1,2,3,4],"features":{"mm_hashes":{"image":["a","b"]},
        "mm_placeholders":{"image":[{"offset":0,"length":2},{"offset":2,"length":2}]}}}"#;
    let value: Value = serde_json::from_str(text).unwrap();
    let (_, entries) = parse_rendered(&value, Some(2), LIMITS).unwrap();
    assert!(entries.iter().enumerate().all(|(index, entry)| entry.index == index));
    let ends = entries[0].placeholder.offset + entries[0].placeholder.length;
    assert!(ends <= entries[1].placeholder.offset);
}

#[test]
fn admitted_requests_transfer_only_what_workers_hand_over() {
    let body = r#"{"prompt": [1], "kv_transfer_params": {"remote_host": "client"}, "user": "u"}"#;
    let state = prepared("/v1/completions", body, Vec::new());
    let conditional = conditional_decode_body(&state, WireFormat::Completions);
    assert!(conditional.get("kv_transfer_params").is_none());
    assert_eq!(conditional["user"], "u");
    let decode = decode_body(&state).unwrap();
    assert!(decode["kv_transfer_params"].get("remote_host").is_none());
}

#[test]
fn inline_requests_stay_as_they_are() {
    let config = MediaConfig {
        timeout_ms: 1,
        max_concurrent_downloads: 1,
        max_entries: 9,
        max_bytes: 9,
        allow_private_networks: false,
        allowed_domains: Vec::new(),
    };
    let body: serde_json::Map<String, Value> = serde_json::from_str(
        r#"{"messages": [{"content": [{"type": "image_url", "image_url": {"url": "http://x/"}}]}]}"#,
    )
    .unwrap();
    let values = vec!["data:image/png;base64,AQID".to_owned()];
    let (inline, _) = install_media(&body, &values);
    let jobs = media_jobs(&inline, &config).unwrap();
    assert_eq!(jobs, values);
    assert!(matches!(start_media(&jobs[0], &config), Ok(MediaStart::Ready(value)) if value == values[0]));
    assert_eq!(install_media(&inline, &jobs).0, inline);
}

fn step(name: &str) -> CoordinatorStep {
    CoordinatorStep { step_type: name.to_owned(), params: serde_yaml::Mapping::new() }
}

fn configuration(steps: &[&str]) -> CoordinatorConfig {
    CoordinatorConfig {
        log_level: None,
        server: CoordinatorServer::default(),
        gateway: CoordinatorGateway::new("http://epp".to_owned()),
        pipeline: CoordinatorPipeline::new(steps.iter().map(|name| step(name)).collect()),
    }
}

#[test]
fn encoding_topologies_have_an_encode_step() {
    for (steps, topology, encodes) in [
        (&["decode"][..], Topology::Combined, false),
        (&["prefill", "decode"], Topology::PrefillDecode, false),
        (&["encode", "decode"], Topology::EncodePrefillDecode, true),
        (&["encode", "prefill", "decode"], Topology::FullyDisaggregated, true),
    ] {
        assert_eq!(infer_topology(&configuration(steps).pipeline), Ok(topology));
        assert_eq!(steps.contains(&"encode"), encodes);
    }
}

#[test]
fn accepted_configurations_fit_the_filters() {
    let config = configuration(&["conditional-decode", "encode", "prefill", "decode"]);
    let native = serde_yaml::Value::Mapping(translate_coordinator(&config).unwrap());
    let limit = native["body_limits"]["max_request_bytes"].as_u64().unwrap();
    let mut prepare = PrepareConfig::new(Topology::FullyDisaggregated);
    prepare.max_body_bytes = usize::try_from(limit).unwrap();
    assert!(LlmdPrepareFilter::from_config(prepare).is_ok());
    let steps = native["filter_chains"][0]["filters"][1]["steps"].as_sequence().unwrap().clone();
    let names: Vec<&str> = steps.iter().map(|step| step["name"].as_str().unwrap()).collect();
    assert_eq!(names, ["conditional_decode-0", "encode-1", "prefill-2", "decode-3"]);
    assert_eq!(steps[1]["on_result"][0]["next"].as_str(), Some("prefill-2"));
    assert_eq!(steps[2]["on_result"][0]["next"].as_str(), Some("decode-3"));
    assert_eq!(steps[3]["on_result"][0]["done"].as_bool(), Some(true));
    assert_eq!(steps[3]["on_result"].as_sequence().unwrap().len(), 1);
}
