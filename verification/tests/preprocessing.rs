use llmd_coordinator::preprocessing::{
    accept_render, parse_rendered, parse_rendered_map, read_render_answer, render_url,
    PreprocessError,
};
use llmd_coordinator::state::{PlaceholderRange, PreprocessingLimits, WireFormat};
use serde_json::Value;

const LIMITS: PreprocessingLimits = PreprocessingLimits {
    max_total_tokens: 16,
    max_total_placeholder_tokens: 8,
};

fn value(text: &str) -> Value {
    serde_json::from_str(text).unwrap()
}

fn complaint(text: &str, expected: Option<usize>) -> (bool, String) {
    let error = parse_rendered(&value(text), expected, LIMITS).unwrap_err();
    (error.client, error.message)
}

#[test]
fn validates_generate_features() {
    let value = value(
        r#"{"token_ids":[1,2,3,4],"features":{"mm_hashes":{"image":["h"]},"mm_placeholders":{"image":[{"offset":1,"length":2}]},"kwargs_data":{"image":["tensor"]}}}"#,
    );
    let (_, entries) = parse_rendered(&value, None, LIMITS).unwrap();
    assert_eq!(entries[0].hash, "h");
    assert_eq!(entries[0].placeholder, PlaceholderRange { offset: 1, length: 2 });
    assert_eq!(entries[0].kwargs_data, "tensor");
}

#[test]
fn rejects_overlapping_placeholders() {
    let value = value(
        r#"{"token_ids":[1,2,3],"features":{"mm_hashes":{"image":["a","b"]},"mm_placeholders":{"image":[{"offset":0,"length":2},{"offset":1,"length":1}]}}}"#,
    );
    assert!(parse_rendered(&value, None, LIMITS).is_err());
}

#[test]
fn each_complaint_about_a_rendered_request() {
    assert_eq!(complaint("[]", None), (true, "rendered request must be an object".to_owned()));
    assert_eq!(complaint("{}", None), (true, "token_ids must be an array".to_owned()));
    assert_eq!(
        complaint(r#"{"token_ids":[0,0,0,0,0,0,0,0,0,0,0,0,0,0,0,0,0]}"#, None),
        (true, "too many token_ids".to_owned())
    );
    assert_eq!(
        complaint(r#"{"token_ids":[1,-1]}"#, None),
        (true, "token_ids must contain non-negative integers".to_owned())
    );
    assert_eq!(
        complaint(r#"{"token_ids":[1],"features":null}"#, Some(1)),
        (false, "render response has no multimodal features".to_owned())
    );
    assert_eq!(
        complaint(r#"{"token_ids":[1],"features":[]}"#, None),
        (true, "features must be an object".to_owned())
    );
    assert_eq!(
        complaint(r#"{"token_ids":[1],"features":{"mm_hashes":[]}}"#, None),
        (true, "features.mm_hashes must be an object".to_owned())
    );
    assert_eq!(
        complaint(r#"{"token_ids":[1],"features":{"kwargs_data":{"image":1}}}"#, None),
        (true, "features.kwargs_data.image must be an array".to_owned())
    );
    assert_eq!(
        complaint(r#"{"token_ids":[1],"features":{"mm_hashes":{"image":["a"]}}}"#, None),
        (true, "render response multimodal cardinality mismatch".to_owned())
    );
    let one = |hash: &str, range: &str| {
        format!(
            r#"{{"token_ids":[1,2],"features":{{"mm_hashes":{{"image":[{hash}]}},"mm_placeholders":{{"image":[{range}]}}}}}}"#
        )
    };
    assert_eq!(
        complaint(&one("\"\"", "{}"), None),
        (true, "mm_hashes must contain non-empty strings".to_owned())
    );
    assert_eq!(
        complaint(&one("\"a\"", "1"), None),
        (true, "mm_placeholders must contain objects".to_owned())
    );
    assert_eq!(
        complaint(&one("\"a\"", "{}"), None),
        (true, "placeholder offset must be a non-negative integer".to_owned())
    );
    assert_eq!(
        complaint(&one("\"a\"", r#"{"offset":0,"length":-1}"#), None),
        (true, "placeholder length must be a non-negative integer".to_owned())
    );
    assert_eq!(
        complaint(&one("\"a\"", r#"{"offset":1,"length":18446744073709551615}"#), None),
        (true, "placeholder span overflows".to_owned())
    );
    assert_eq!(
        complaint(&one("\"a\"", r#"{"offset":2,"length":0}"#), None),
        (true, "placeholder spans overlap or exceed token_ids".to_owned())
    );
    assert_eq!(
        complaint(
            &one(
                "\"a\",\"a\"",
                r#"{"offset":0,"length":1},{"offset":1,"length":1}"#
            ),
            None
        ),
        (true, "render response contains duplicate mm_hash".to_owned())
    );
    let long = format!(
        r#"{{"token_ids":[1,2,3,4,5,6,7,8,9,10],"features":{{"mm_hashes":{{"image":["a"]}},"mm_placeholders":{{"image":[{{"offset":0,"length":9}}]}}}}}}"#
    );
    assert_eq!(complaint(&long, None), (true, "too many placeholder tokens".to_owned()));
}

#[test]
fn a_render_answer_is_the_services_fault() {
    assert_eq!(complaint("[]", Some(0)), (false, "rendered request must be an object".to_owned()));
    assert_eq!(complaint("{}", Some(0)), (false, "token_ids must be an array".to_owned()));
    assert_eq!(
        complaint(r#"{"token_ids":[1,-1]}"#, Some(0)),
        (false, "token_ids must contain non-negative integers".to_owned())
    );
    assert_eq!(
        complaint(r#"{"token_ids":[1],"features":{"mm_hashes":[]}}"#, Some(1)),
        (false, "features.mm_hashes must be an object".to_owned())
    );
    assert_eq!(
        complaint(r#"{"token_ids":[1],"features":{"mm_hashes":{"image":["a"]}}}"#, Some(1)),
        (false, "render response multimodal cardinality mismatch".to_owned())
    );
    let twice = r#"{"token_ids":[1,2],"features":{"mm_hashes":{"image":["h","h"]},"mm_placeholders":{"image":[{"offset":0,"length":1},{"offset":1,"length":1}]}}}"#;
    assert_eq!(
        complaint(twice, Some(2)),
        (false, "render response contains duplicate mm_hash".to_owned())
    );
    let missing = accept_render(WireFormat::ChatCompletions, 200, br#"{"a":1}"#, 0, LIMITS).unwrap_err();
    assert_eq!(missing.status(), 502);
    assert_eq!(missing.message, "token_ids must be an array");
}

#[test]
fn tokens_beyond_the_limits_are_the_clients_fault() {
    let many = r#"{"token_ids":[0,0,0,0,0,0,0,0,0,0,0,0,0,0,0,0,0]}"#;
    assert_eq!(complaint(many, Some(0)), (true, "too many token_ids".to_owned()));
    let long = r#"{"token_ids":[1,2,3,4,5,6,7,8,9,10],"features":{"mm_hashes":{"image":["a"]},"mm_placeholders":{"image":[{"offset":0,"length":9}]}}}"#;
    assert_eq!(complaint(long, Some(1)), (true, "too many placeholder tokens".to_owned()));
}

#[test]
fn missing_tensors_are_empty() {
    let body: serde_json::Map<String, Value> = serde_json::from_str(
        r#"{"token_ids":[1,2],"features":{"mm_hashes":{"image":["a"]},"mm_placeholders":{"image":[{"offset":0,"length":1}]},"kwargs_data":{"image":[null]}}}"#,
    )
    .unwrap();
    let (tokens, entries) = parse_rendered_map(&body, Some(1), LIMITS).unwrap();
    assert_eq!(tokens, vec![1, 2]);
    assert_eq!(entries[0].kwargs_data, "");
    assert_eq!(entries[0].index, 0);
}

#[test]
fn render_urls_follow_the_format() {
    assert_eq!(
        render_url("http://render:8080//", WireFormat::ChatCompletions).unwrap(),
        "http://render:8080/v1/chat/completions/render"
    );
    assert_eq!(
        render_url("http://render:8080", WireFormat::Completions).unwrap(),
        "http://render:8080/v1/completions/render"
    );
    assert!(render_url("http://render:8080", WireFormat::Generate).is_none());
}

#[test]
fn render_answers_are_read() {
    let chat = accept_render(
        WireFormat::ChatCompletions,
        200,
        br#"{"token_ids":[7]}"#,
        0,
        LIMITS,
    )
    .unwrap();
    assert_eq!(chat.0, vec![7]);
    let completions = accept_render(
        WireFormat::Completions,
        200,
        br#"[{"token_ids":[8]},{"token_ids":[9]}]"#,
        0,
        LIMITS,
    )
    .unwrap();
    assert_eq!(completions.0, vec![8]);
}

#[test]
fn render_failures_are_upstream_errors() {
    let status = accept_render(WireFormat::ChatCompletions, 503, b"", 0, LIMITS).unwrap_err();
    assert_eq!(status.message, "render returned 503 Service Unavailable");
    assert_eq!(status.status(), 502);
    let json = accept_render(WireFormat::ChatCompletions, 200, b"{", 0, LIMITS).unwrap_err();
    assert_eq!(json.message, "render returned invalid JSON");
    assert!(!json.client);
    let list = read_render_answer(WireFormat::Completions, &value("[]"), 0, LIMITS).unwrap_err();
    assert_eq!(list.message, "render returned invalid completions response");
    let other = read_render_answer(WireFormat::ChatCompletions, &value("[]"), 0, LIMITS).unwrap_err();
    assert_eq!(other.message, "rendered request must be an object");
}

#[test]
fn clients_and_services_are_told_apart() {
    assert_eq!(PreprocessError::bad_request("x").status(), 400);
    assert_eq!(PreprocessError::upstream("x").status(), 502);
}
