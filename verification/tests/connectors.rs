use llmd_coordinator::connectors::{EcConnector, KvConnector};
use serde_json::Value;

fn value(text: &str) -> Value {
    serde_json::from_str(text).unwrap()
}

fn members(text: &str) -> serde_json::Map<String, Value> {
    serde_json::from_str(text).unwrap()
}

#[test]
fn nixl_prefill_shape_matches_coordinator_contract() {
    assert_eq!(
        KvConnector::KvNixl.prefill_params(),
        value(
            r#"{
                "do_remote_decode": true,
                "do_remote_prefill": false,
                "remote_engine_id": null,
                "remote_block_ids": null,
                "remote_host": null,
                "remote_port": null
            }"#
        )
    );
}

#[test]
fn shared_storage_prefill_names_no_peer() {
    assert_eq!(
        KvConnector::KvSharedStorage.prefill_params(),
        value(r#"{"do_remote_decode": true, "do_remote_prefill": false}"#)
    );
}

#[test]
fn decode_preserves_returned_descriptor() {
    let returned = members(r#"{"remote_host": "10.0.0.2", "remote_port": 14579}"#);
    assert_eq!(
        KvConnector::KvNixl.decode_params(&returned),
        value(
            r#"{
                "remote_host": "10.0.0.2",
                "remote_port": 14579,
                "do_remote_decode": false,
                "do_remote_prefill": true
            }"#
        )
    );
}

#[test]
fn decode_sets_the_transfer_marks_over_the_returned_ones() {
    let returned = members(r#"{"do_remote_decode": true, "do_remote_prefill": "x"}"#);
    assert_eq!(
        KvConnector::KvSharedStorage.decode_params(&returned),
        value(r#"{"do_remote_decode": false, "do_remote_prefill": true}"#)
    );
}

#[test]
fn nixl_ec_merges_equal_descriptors() {
    let response = members(r#"{"ec_transfer_params": {"hash-a": {"peer_host": "encoder-a"}}}"#);
    let merged = EcConnector::EcNixl
        .merge_encode_responses(vec![response.clone(), response])
        .unwrap();
    assert_eq!(merged["hash-a"], value(r#"{"peer_host": "encoder-a"}"#));
    assert_eq!(merged.len(), 1);
}

#[test]
fn nixl_ec_rejects_conflicting_descriptors() {
    let first = members(r#"{"ec_transfer_params": {"hash-a": {"peer_host": "encoder-a"}}}"#);
    let second = members(r#"{"ec_transfer_params": {"hash-a": {"peer_host": "encoder-b"}}}"#);
    let error = EcConnector::EcNixl
        .merge_encode_responses(vec![first, second])
        .unwrap_err();
    assert!(error.contains("hash-a"));
    assert_eq!(error, "ec_transfer_params: conflicting descriptors for mm_hash 'hash-a'");
}

#[test]
fn nixl_ec_takes_the_zero_floats_for_the_same() {
    let first = members(r#"{"ec_transfer_params": {"h": {"weight": 0.0}}}"#);
    let second = members(r#"{"ec_transfer_params": {"h": {"weight": -0.0}}}"#);
    assert!(EcConnector::EcNixl.merge_encode_responses(vec![first, second]).is_ok());
}

#[test]
fn nixl_ec_merges_different_hashes_and_skips_null_descriptors() {
    let first = members(r#"{"ec_transfer_params": {"h1": {"peer_host": "a"}, "h2": null}}"#);
    let second = members(r#"{"ec_transfer_params": {"h3": "b"}}"#);
    let third = members(r#"{"other": 1}"#);
    let merged = EcConnector::EcNixl
        .merge_encode_responses(vec![first, second, third])
        .unwrap();
    assert_eq!(Value::Object(merged), value(r#"{"h1": {"peer_host": "a"}, "h3": "b"}"#));
}

#[test]
fn nixl_ec_merges_in_any_order() {
    let first = members(r#"{"ec_transfer_params": {"a": 1, "b": {"peer_host": "x"}}}"#);
    let second = members(r#"{"ec_transfer_params": {"c": [2], "b": {"peer_host": "x"}}}"#);
    let third = members(r#"{"ec_transfer_params": 3}"#);
    let merge = |responses| EcConnector::EcNixl.merge_encode_responses(responses).unwrap();
    let one = merge(vec![first.clone(), second.clone(), third.clone()]);
    assert_eq!(Value::Object(one.clone()), value(r#"{"a": 1, "b": {"peer_host": "x"}, "c": [2]}"#));
    assert_eq!(merge(vec![third, second.clone(), first, second]), one);
}

#[test]
fn shared_storage_ignores_encoder_descriptors() {
    let response = members(r#"{"ec_transfer_params": {"hash-a": {"peer_host": "encoder-a"}}}"#);
    assert!(EcConnector::EcSharedStorage
        .merge_encode_responses(vec![response])
        .unwrap()
        .is_empty());
}

#[test]
fn connectors_default_to_shared_storage() {
    assert_eq!(KvConnector::default(), KvConnector::KvSharedStorage);
    assert_eq!(EcConnector::default(), EcConnector::EcSharedStorage);
}
