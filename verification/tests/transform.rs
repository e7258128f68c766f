use llmd_coordinator::connectors::{EcConnector, KvConnector};
use llmd_coordinator::state::{
    CoordinatorState, MultimodalEntry, PlaceholderRange, Topology, WireFormat,
};
use llmd_coordinator::transform::{
    combined_decode_body, conditional_decode_body, decode_body, decode_body_with, encode_bodies, prefill_body,
    prefill_body_with,
};
use serde_json::Value;

fn value(text: &str) -> Value {
    serde_json::from_str(text).unwrap()
}

fn state(format: WireFormat) -> CoordinatorState {
    CoordinatorState {
        original_path: format.path().to_owned(),
        body: serde_json::from_str(
            r#"{"model": "model-a", "messages": [], "max_tokens": 16, "stream": true}"#,
        )
        .unwrap(),
        topology: Topology::FullyDisaggregated,
        format,
        token_ids: vec![10, 11, 12],
        multimodal: vec![MultimodalEntry {
            index: 0,
            hash: "hash-a".to_owned(),
            kwargs_data: "tensor-a".to_owned(),
            placeholder: PlaceholderRange { offset: 1, length: 2 },
        }],
        ec_transfer_params: serde_json::from_str(r#"{"hash-a": {"peer_host": "enc"}}"#).unwrap(),
        kv_transfer_params: serde_json::from_str(r#"{"remote_host": "pre"}"#).unwrap(),
        ec_connector: EcConnector::EcNixl,
        kv_connector: KvConnector::KvNixl,
    }
}

#[test]
fn chat_prefill_has_tokens_and_transfer_params() {
    let body = prefill_body(&state(WireFormat::ChatCompletions)).unwrap();
    assert_eq!(body["max_tokens"], 1);
    assert_eq!(body["stream"], false);
    assert_eq!(body["tokens"]["token_ids"], value("[10, 11, 12]"));
    assert_eq!(body["tokens"]["features"]["kwargs_data"]["image"][0], "tensor-a");
    assert_eq!(body["ec_transfer_params"]["hash-a"]["peer_host"], "enc");
}

#[test]
fn generate_prefill_nests_transfer_params() {
    let body = prefill_body(&state(WireFormat::Generate)).unwrap();
    assert_eq!(body["sampling_params"]["max_tokens"], 1);
    assert_eq!(
        body["sampling_params"]["extra_args"]["kv_transfer_params"]["do_remote_decode"],
        true
    );
    assert_eq!(
        body["sampling_params"]["extra_args"]["ec_transfer_params"]["hash-a"]["peer_host"],
        "enc"
    );
}

#[test]
fn decode_preserves_client_output_controls() {
    let body = decode_body(&state(WireFormat::ChatCompletions)).unwrap();
    assert_eq!(body["max_tokens"], 16);
    assert_eq!(body["stream"], true);
    assert_eq!(body["kv_transfer_params"]["do_remote_prefill"], true);
}

#[test]
fn generate_decode_translates_openai_input_to_native_tokens() {
    let body = decode_body_with(
        &state(WireFormat::ChatCompletions),
        WireFormat::Generate,
        KvConnector::KvNixl,
    )
    .unwrap();
    assert_eq!(body["model"], "model-a");
    assert_eq!(body["token_ids"], value("[10, 11, 12]"));
    assert_eq!(body["sampling_params"]["max_tokens"], 16);
    assert_eq!(body["features"]["mm_hashes"]["image"][0], "hash-a");
    assert!(body.get("messages").is_none());
    assert!(body["features"].get("kwargs_data").is_none());
    assert_eq!(
        body["sampling_params"]["extra_args"]["kv_transfer_params"]["do_remote_prefill"],
        true
    );
}

#[test]
fn chat_prefill_is_exact() {
    let body = prefill_body_with(
        &state(WireFormat::ChatCompletions),
        WireFormat::ChatCompletions,
        KvConnector::KvSharedStorage,
    )
    .unwrap();
    assert_eq!(
        body,
        value(
            r#"{
                "model": "model-a", "messages": [], "max_tokens": 1, "stream": false,
                "kv_transfer_params": {"do_remote_decode": true, "do_remote_prefill": false},
                "ec_transfer_params": {"hash-a": {"peer_host": "enc"}},
                "tokens": {
                    "token_ids": [10, 11, 12],
                    "features": {
                        "mm_hashes": {"image": ["hash-a"]},
                        "mm_placeholders": {"image": [{"offset": 1, "length": 2}]},
                        "kwargs_data": {"image": ["tensor-a"]}
                    }
                }
            }"#
        )
    );
}

#[test]
fn generate_prefill_is_exact() {
    let body = prefill_body_with(
        &state(WireFormat::ChatCompletions),
        WireFormat::Generate,
        KvConnector::KvSharedStorage,
    )
    .unwrap();
    assert_eq!(
        body,
        value(
            r#"{
                "model": "model-a",
                "token_ids": [10, 11, 12],
                "sampling_params": {
                    "max_tokens": 1,
                    "extra_args": {
                        "kv_transfer_params": {"do_remote_decode": true, "do_remote_prefill": false},
                        "ec_transfer_params": {"hash-a": {"peer_host": "enc"}}
                    }
                },
                "features": {
                    "mm_hashes": {"image": ["hash-a"]},
                    "mm_placeholders": {"image": [{"offset": 1, "length": 2}]},
                    "kwargs_data": {"image": ["tensor-a"]}
                },
                "stream": false
            }"#
        )
    );
}

#[test]
fn completions_prefill_replaces_the_prompt_and_caps_every_limit() {
    let mut state = state(WireFormat::Completions);
    state.body = serde_json::from_str(
        r#"{"prompt": "hi", "min_tokens": 4, "max_completion_tokens": 9, "stream_options": {}}"#,
    )
    .unwrap();
    state.ec_transfer_params = serde_json::Map::new();
    let body = prefill_body(&state).unwrap();
    assert_eq!(body["prompt"], value("[10, 11, 12]"));
    assert_eq!(body["max_tokens"], 1);
    assert_eq!(body["max_completion_tokens"], 1);
    assert!(body.get("min_tokens").is_none());
    assert!(body.get("stream_options").is_none());
    assert!(body.get("ec_transfer_params").is_none());
}

#[test]
fn generate_decode_keeps_only_sampling_controls() {
    let mut state = state(WireFormat::Generate);
    state.original_path = "/v1/chat/completions".to_owned();
    state.multimodal = Vec::new();
    state.body = serde_json::from_str(
        r#"{"max_tokens": 5, "top_p": 0.5, "stop": ["x"], "logit_bias": {}, "sampling_params": 3}"#,
    )
    .unwrap();
    let body = decode_body(&state).unwrap();
    assert_eq!(
        body,
        value(
            r#"{
                "model": null,
                "token_ids": [10, 11, 12],
                "sampling_params": {
                    "max_tokens": 5, "top_p": 0.5, "stop": ["x"],
                    "extra_args": {
                        "kv_transfer_params": {
                            "remote_host": "pre",
                            "do_remote_decode": false,
                            "do_remote_prefill": true
                        }
                    }
                }
            }"#
        )
    );
}

#[test]
fn generate_decode_keeps_the_clients_sampling_params() {
    let mut state = state(WireFormat::Generate);
    state.multimodal = Vec::new();
    state.body = serde_json::from_str(
        r#"{
            "model": "m", "token_ids": [10, 11, 12], "seed": 4, "stream": true,
            "kv_transfer_params": {"remote_host": "client"}, "features": null,
            "sampling_params": {
                "max_tokens": 16, "logprobs": 2, "seed": 3,
                "extra_args": {
                    "m": 7,
                    "kv_transfer_params": {"remote_host": "client"},
                    "ec_transfer_params": {}
                }
            }
        }"#,
    )
    .unwrap();
    let expected = value(
        r#"{
            "model": "m", "seed": 4, "stream": true, "features": null,
            "token_ids": [10, 11, 12],
            "sampling_params": {
                "max_tokens": 16, "logprobs": 2, "seed": 4,
                "extra_args": {
                    "m": 7,
                    "kv_transfer_params": {
                        "remote_host": "pre",
                        "do_remote_decode": false,
                        "do_remote_prefill": true
                    }
                }
            }
        }"#,
    );
    assert_eq!(decode_body(&state).unwrap(), expected);
    let combined = combined_decode_body(&state, WireFormat::Generate);
    assert_eq!(combined["stream"], true);
    assert!(combined.get("kv_transfer_params").is_none());
    assert_eq!(
        combined["sampling_params"],
        value(r#"{"max_tokens": 16, "logprobs": 2, "seed": 4, "extra_args": {"m": 7}}"#)
    );
    state.body = serde_json::from_str(r#"{"sampling_params": {"top_k": 1, "extra_args": 5}}"#).unwrap();
    assert_eq!(
        combined_decode_body(&state, WireFormat::Generate)["sampling_params"],
        value(r#"{"top_k": 1}"#)
    );
}

#[test]
fn conditional_decode_discards_the_clients_transfer_params() {
    let mut state = state(WireFormat::Completions);
    state.token_ids = vec![1];
    state.multimodal = Vec::new();
    state.body = serde_json::from_str(
        r#"{"model": "m", "prompt": "hi", "kv_transfer_params": {"remote_host": "x"}}"#,
    )
    .unwrap();
    assert_eq!(
        conditional_decode_body(&state, WireFormat::Completions),
        value(r#"{"model": "m", "prompt": [1]}"#)
    );
    state.body = serde_json::from_str(
        r#"{"ec_transfer_params": {}, "sampling_params": {"top_k": 2, "extra_args": {"ec_transfer_params": {}}}}"#,
    )
    .unwrap();
    assert_eq!(
        conditional_decode_body(&state, WireFormat::Generate),
        value(r#"{"sampling_params": {"top_k": 2, "extra_args": {}}}"#)
    );
}

#[test]
fn conditional_decode_carries_no_transfer_params() {
    let body = conditional_decode_body(&state(WireFormat::ChatCompletions), WireFormat::ChatCompletions);
    assert!(body.get("kv_transfer_params").is_none());
    assert_eq!(body["tokens"]["token_ids"], value("[10, 11, 12]"));
    assert_eq!(body["max_tokens"], 16);
    let native = conditional_decode_body(&state(WireFormat::ChatCompletions), WireFormat::Generate);
    assert!(native.get("tokens").is_none());
}

#[test]
fn encode_bodies_are_one_per_entry() {
    let mut state = state(WireFormat::ChatCompletions);
    state.body = serde_json::from_str(
        r#"{"model": "m", "messages": [
            {"role": "user", "content": [
                {"type": "text", "text": "a"},
                {"type": "image_url", "image_url": {"url": "data:1"}},
                {"type": "image_url", "image_url": {"url": "data:2"}}
            ]}
        ]}"#,
    )
    .unwrap();
    state.multimodal.push(MultimodalEntry {
        index: 1,
        hash: "hash-b".to_owned(),
        kwargs_data: String::new(),
        placeholder: PlaceholderRange { offset: 2, length: 1 },
    });
    let bodies = encode_bodies(&state);
    assert_eq!(bodies.len(), 2);
    assert_eq!(bodies[0].0, "hash-a");
    assert_eq!(
        bodies[1],
        (
            "hash-b".to_owned(),
            value(
                r#"{
                    "model": "m",
                    "messages": [{"role": "user", "content": [
                        {"type": "image_url", "image_url": {"url": "data:2"}}
                    ]}],
                    "tokens": {
                        "token_ids": [10, 12],
                        "features": {
                            "mm_hashes": {"image": ["hash-b"]},
                            "mm_placeholders": {"image": [{"offset": 1, "length": 1}]},
                            "kwargs_data": {"image": [""]}
                        }
                    },
                    "max_tokens": 1,
                    "stream": false
                }"#
            )
        )
    );
}

#[test]
fn formats_are_detected_by_path() {
    assert_eq!(WireFormat::detect("/v1/completions", true), WireFormat::Completions);
    assert_eq!(WireFormat::detect("/v1/completions", false), WireFormat::Generate);
    assert_eq!(WireFormat::detect("/inference/v1/generate", true), WireFormat::Generate);
    assert_eq!(WireFormat::detect("/v1/chat/completions", false), WireFormat::Generate);
    assert_eq!(WireFormat::detect("/v1/chat/completions", true), WireFormat::ChatCompletions);
    assert_eq!(WireFormat::Generate.path(), "/inference/v1/generate");
    assert_eq!(WireFormat::default(), WireFormat::ChatCompletions);
}

#[test]
fn only_media_of_encoding_topologies_are_encoded() {
    let mut state = state(WireFormat::ChatCompletions);
    assert!(state.needs_encode());
    state.topology = Topology::PrefillDecode;
    assert!(!state.needs_encode());
    state.topology = Topology::EncodePrefillDecode;
    assert!(state.clone().needs_encode());
    state.multimodal.clear();
    assert!(!state.needs_encode());
    assert_eq!(Topology::EncodePrefillDecode.name(), "e-pd");
}
