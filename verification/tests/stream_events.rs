use llmd_coordinator::sse::{
    completed_sse_prefix_len, first_sse_event_len, replace_sse_data, sse_event_data,
};
use llmd_coordinator::stream_events::{
    accept_frames, begin_chunk, check_timeout, finish_chunk, is_done_sentinel,
    is_event_stream_content_type, is_responses_create, is_success_sse_response, mark_complete,
    on_response, prepare_rewritten_stream_headers, record_completion, response_has_identity_encoding,
    restore_previous, rewrite_completed_events, rewrite_response_event, rewrite_stream_chunk,
    validate_stream_end, BodyChange, CompletionState, EventKind, FrameReport,
    OpenaiStreamEventsFilter, SseParseError, StreamEventsConfig, StreamEventsState,
};
use serde_json::Value;

fn filter() -> OpenaiStreamEventsFilter {
    OpenaiStreamEventsFilter::from_config(&StreamEventsConfig {
        max_buffer_bytes: None,
        max_events: None,
        timeout_secs: None,
        max_tool_call_argument_bytes: None,
    })
}

fn state() -> StreamEventsState {
    filter()
        .on_request("POST", "/v1/responses", Some("openai_responses"), Some("true"))
        .unwrap()
}

fn rewriting() -> StreamEventsState {
    let mut state = state();
    state.previous_response_id = Some("resp_1".to_owned());
    state
}

#[test]
fn stream_defaults_are_the_documented_ones() {
    let filter = filter();
    assert_eq!(filter.max_buffer_bytes, 10_485_760);
    assert_eq!(filter.max_events, 100_000);
    assert_eq!(filter.timeout_secs, 300);
    assert_eq!(filter.max_tool_call_argument_bytes, 1_048_576);
    assert_eq!(state().timeout, 300_000_000_000);
    let set = OpenaiStreamEventsFilter::from_config(&StreamEventsConfig {
        max_buffer_bytes: Some(1),
        max_events: Some(2),
        timeout_secs: Some(3),
        max_tool_call_argument_bytes: Some(4),
    });
    assert_eq!((set.max_buffer_bytes, set.max_events), (1, 2));
    assert_eq!((set.timeout_secs, set.max_tool_call_argument_bytes), (3, 4));
}

#[test]
fn only_streamed_responses_are_followed() {
    assert!(is_responses_create("POST", "/v1/responses"));
    assert!(!is_responses_create("GET", "/v1/responses"));
    let filter = filter();
    assert!(filter.on_request("POST", "/v1/chat", Some("openai_responses"), Some("true")).is_none());
    assert!(filter.on_request("POST", "/v1/responses", None, Some("true")).is_none());
    assert!(filter
        .on_request("POST", "/v1/responses", Some("openai_responses"), Some("false"))
        .is_none());
}

#[test]
fn events_end_with_an_empty_line() {
    assert_eq!(first_sse_event_len(b"data: a\n\nx"), Some(9));
    assert_eq!(first_sse_event_len(b"data: a\r\n\r\nx"), Some(11));
    assert_eq!(first_sse_event_len(b"data: a\r\rx"), Some(9));
    assert_eq!(first_sse_event_len(b"data: a\n"), None);
    assert_eq!(first_sse_event_len(b"\nx"), Some(1));
    assert_eq!(completed_sse_prefix_len(b"a\n\nb\n\nc\n"), 6);
    assert_eq!(completed_sse_prefix_len(b"a"), 0);
}

#[test]
fn event_data_is_joined() {
    assert_eq!(sse_event_data(b"event: x\ndata: a\ndata:b\ndata\n\n").unwrap(), b"a\nb\n");
    assert_eq!(sse_event_data(b"data:  a\n\n").unwrap(), b" a");
    assert_eq!(sse_event_data(b"event: x\ndatax: 1\n\n"), None);
}

#[test]
fn data_is_replaced_in_place() {
    assert_eq!(
        replace_sse_data(b"event: x\r\ndata: a\r\nid: 1\r\ndata: b\r\n\r\n", b"{}"),
        b"event: x\r\ndata: {}\r\nid: 1\r\n\r\n"
    );
    assert_eq!(replace_sse_data(b"event: x\n\n", b"{}"), b"event: x\n\n");
    assert_eq!(replace_sse_data(b"data: a", b"{}"), b"data: a");
}

#[test]
fn replaced_data_reads_back() {
    let event = replace_sse_data(b"data: a\ndata: b\n\n", b"[1]");
    assert_eq!(sse_event_data(&event).unwrap(), b"[1]");
    assert_eq!(first_sse_event_len(&event), Some(event.len()));
}

#[test]
fn mixed_line_ends_can_run_together() {
    assert_eq!(replace_sse_data(b"data: a\rdata: b\n\n", b"[1]"), b"data: [1]\r\n");
}

#[test]
fn replacing_data_keeps_the_other_lines() {
    let event = b": c\rdata: a\nid: 1\r\ndata\nretry: 5\rdata:b\r\n\n";
    let once = replace_sse_data(event, b"{}");
    assert_eq!(once, b": c\rdata: {}\nid: 1\r\nretry: 5\r\n".to_vec());
    let apart = b": c\ndata: a\nid: 1\r\ndata\nretry: 5\ndata:b\r\n\n";
    let once = replace_sse_data(apart, b"{}");
    assert_eq!(once, b": c\ndata: {}\nid: 1\r\nretry: 5\n\n".to_vec());
    assert_eq!(replace_sse_data(&once, b"{}"), once);
}

#[test]
fn rewriting_keeps_the_other_lines() {
    let event = b"id: 7\r\nevent: e\ndata: {\"type\":\ndata: \"response.queued\"}\n: note\n\n";
    assert_eq!(
        rewrite_response_event(event, "p"),
        b"id: 7\r\nevent: e\ndata: {\"previous_response_id\":\"p\",\"type\":\"response.queued\"}\n: note\n\n"
            .to_vec()
    );
}

#[test]
fn rewriting_twice_changes_nothing() {
    for event in [
        &b"event: e\ndata: {\"type\":\ndata: \"response.queued\",\"n\":-3}\n: note\n\n"[..],
        &b"data: {\"type\":\"response.created\",\"response\":{\"id\":\"\\u0001\",\"a\":[null,true]}}\r\n\r\n"[..],
        &b"data: {\"type\":\"other\"}\n\n"[..],
    ] {
        let once = rewrite_response_event(event, "p");
        assert_eq!(rewrite_response_event(&once, "p"), once);
    }
}

#[test]
fn predecessors_are_restored() {
    let value = |text: &str| serde_json::from_str::<Value>(text).unwrap();
    assert_eq!(
        restore_previous(&value(r#"{"type": "response.created", "response": {"id": "r"}}"#), "p"),
        Some(value(
            r#"{"type": "response.created", "response": {"id": "r", "previous_response_id": "p"}}"#
        ))
    );
    assert_eq!(
        restore_previous(&value(r#"{"type": "response.failed"}"#), "p"),
        Some(value(r#"{"type": "response.failed", "previous_response_id": "p"}"#))
    );
    assert_eq!(restore_previous(&value(r#"{"type": "response.completed", "response": null}"#), "p"), None);
    assert_eq!(restore_previous(&value(r#"{"type": "response.output_text.delta"}"#), "p"), None);
    assert_eq!(restore_previous(&value("[]"), "p"), None);
}

#[test]
fn lifecycle_events_are_rewritten() {
    assert_eq!(
        rewrite_response_event(b"event: e\ndata: {\"type\":\"response.queued\"}\n\n", "p"),
        b"event: e\ndata: {\"previous_response_id\":\"p\",\"type\":\"response.queued\"}\n\n"
    );
    for raw in [&b"data: [DONE]\n\n"[..], b": ping\n\n", b"data: {\"type\":\"other\"}\n\n"] {
        assert_eq!(rewrite_response_event(raw, "p"), raw);
    }
}

const STREAM: &[u8] =
    b"data: {\"type\":\"response.created\"}\r\n\r\ndata: {\"type\":\"x\"}\n\ndata: [DONE]\n\nrest";

#[test]
fn streams_are_rewritten_event_by_event() {
    let expected: &[u8] = b"data: {\"previous_response_id\":\"p\",\"type\":\"response.created\"}\r\n\r\n\
data: {\"type\":\"x\"}\n\ndata: [DONE]\n\nrest";
    assert_eq!(rewrite_completed_events(STREAM, Some("p")), expected);
    assert_eq!(rewrite_completed_events(STREAM, None), STREAM);
}

#[test]
fn cuts_do_not_matter() {
    let whole = rewrite_completed_events(STREAM, Some("resp_1"));
    for cut in 0..STREAM.len() {
        for size in [1, 3, 7] {
            let mut state = rewriting();
            let mut sent = Vec::new();
            let (head, tail) = STREAM.split_at(cut);
            let mut pieces = vec![head];
            pieces.extend(tail.chunks(size));
            for piece in pieces {
                match rewrite_stream_chunk(&mut state, Some(piece), false) {
                    BodyChange::Replace(bytes) => sent.extend(bytes),
                    BodyChange::Keep => panic!("a piece is replaced"),
                }
            }
            match rewrite_stream_chunk(&mut state, None, true) {
                BodyChange::Replace(bytes) => sent.extend(bytes),
                BodyChange::Keep => panic!("the end is replaced"),
            }
            assert_eq!(sent, whole);
            assert!(state.wire_buffer.is_empty());
        }
    }
}

#[test]
fn too_long_events_end_the_rewriting() {
    let mut state = rewriting();
    state.max_wire_buffer_bytes = 4;
    assert!(matches!(
        rewrite_stream_chunk(&mut state, Some(b"data"), false),
        BodyChange::Replace(bytes) if bytes.is_empty()
    ));
    assert!(matches!(
        rewrite_stream_chunk(&mut state, Some(b":"), false),
        BodyChange::Replace(bytes) if bytes == b"data:"
    ));
    assert_eq!(state.previous_response_id, None);
    assert!(matches!(finish_chunk(&mut state, Some(b"x"), false), BodyChange::Keep));
}

#[test]
fn nothing_is_done_without_bytes() {
    let mut state = rewriting();
    assert!(matches!(rewrite_stream_chunk(&mut state, None, false), BodyChange::Keep));
    assert!(matches!(finish_chunk(&mut state, Some(b"a\n\n"), false), BodyChange::Replace(bytes) if bytes == b"a\n\n"));
}

#[test]
fn streams_have_their_time() {
    let mut state = state();
    assert!(check_timeout(&state, u128::MAX).is_ok());
    assert!(begin_chunk(&mut state, 5).is_ok());
    assert!(begin_chunk(&mut state, 300_000_000_005).is_ok());
    assert!(check_timeout(&state, 0).is_ok());
    assert!(matches!(
        begin_chunk(&mut state, 300_000_000_006),
        Err(SseParseError::Timeout { elapsed: 300_000_000_001, limit: 300_000_000_000 })
    ));
    assert_eq!(state.started_at, Some(5));
}

#[test]
fn completion_is_recorded_once() {
    let mut state = state();
    assert!(record_completion(&mut state, EventKind::Other, "a", 1).is_ok());
    assert_eq!(state.completed_at, None);
    assert!(record_completion(&mut state, EventKind::Terminal, "b", 2).is_ok());
    assert_eq!(state.completion_state, CompletionState::TerminalLifecycle);
    assert!(matches!(
        record_completion(&mut state, EventKind::Other, "c", 3),
        Err(SseParseError::EventAfterTerminal { event_type }) if event_type == "c"
    ));
    assert!(record_completion(&mut state, EventKind::Error, "d", 4).is_ok());
    assert_eq!(state.completion_state, CompletionState::Error);
    assert_eq!(state.completed_at, Some(2));
    assert!(record_completion(&mut state, EventKind::Error, "e", 5).is_err());
    mark_complete(&mut state, CompletionState::Open, 6);
    assert_eq!(state.completed_at, Some(2));
}

fn event(kind: EventKind) -> FrameReport {
    FrameReport::Event { kind, event_type: "t".to_owned() }
}

#[test]
fn frames_are_counted() {
    let mut state = state();
    let frames = vec![event(EventKind::Other), FrameReport::Done, event(EventKind::Terminal)];
    let (accepted, result) = accept_frames(&mut state, &frames, 1);
    assert!(result.is_ok());
    assert_eq!((accepted, state.event_count), (2, 2));
    let late = vec![FrameReport::Done, event(EventKind::Other), event(EventKind::Error)];
    let (accepted, result) = accept_frames(&mut state, &late, 2);
    assert!(matches!(result, Err(SseParseError::EventAfterTerminal { .. })));
    assert_eq!((accepted, state.event_count), (0, 3));
    let broken = vec![FrameReport::Malformed { message: "m".to_owned() }];
    let (accepted, result) = accept_frames(&mut state, &broken, 3);
    assert!(matches!(result, Err(SseParseError::Malformed { message }) if message == "m"));
    assert_eq!((accepted, state.event_count), (0, 4));
}

#[test]
fn the_sentinel_is_known() {
    assert!(is_done_sentinel(b"[DONE]"));
    assert!(!is_done_sentinel(b"[DONE] "));
    assert!(!is_done_sentinel(b"[done]"));
}

#[test]
fn streams_have_to_end() {
    let mut state = state();
    assert!(validate_stream_end(&state, 1));
    state.started_at = Some(0);
    mark_complete(&mut state, CompletionState::TerminalLifecycle, 7);
    assert!(!validate_stream_end(&state, u128::MAX));
    state.completed_at = Some(300_000_000_001);
    assert!(validate_stream_end(&state, 0));
}

fn headers(rows: &[(&'static str, &'static [u8])]) -> http::HeaderMap {
    let mut map = http::HeaderMap::new();
    for (name, value) in rows {
        map.append(*name, http::HeaderValue::from_bytes(value).unwrap());
    }
    map
}

#[test]
fn successful_event_streams_are_known() {
    assert!(is_event_stream_content_type("Text/Event-Stream; charset=utf-8"));
    assert!(!is_event_stream_content_type("application/json"));
    let stream = headers(&[("content-type", b"text/event-stream")]);
    assert!(is_success_sse_response(Some((200, &stream))));
    assert!(!is_success_sse_response(Some((404, &stream))));
    assert!(!is_success_sse_response(Some((200, &headers(&[])))));
    assert!(!is_success_sse_response(Some((200, &headers(&[("content-type", b"\xff")])))));
    assert!(is_success_sse_response(None));
}

#[test]
fn content_coding_is_known() {
    assert!(response_has_identity_encoding(None));
    assert!(response_has_identity_encoding(Some(&headers(&[]))));
    assert!(response_has_identity_encoding(Some(&headers(&[("content-encoding", b"Identity")]))));
    assert!(!response_has_identity_encoding(Some(&headers(&[("content-encoding", b"gzip")]))));
    assert!(!response_has_identity_encoding(Some(&headers(&[("content-encoding", b"\xff")]))));
}

#[test]
fn representation_headers_are_removed() {
    let mut map = headers(&[
        ("content-type", b"text/event-stream"),
        ("content-length", b"1"),
        ("content-encoding", b"identity"),
        ("content-range", b"x"),
        ("etag", b"x"),
        ("content-digest", b"x"),
        ("content-md5", b"x"),
        ("digest", b"x"),
        ("repr-digest", b"x"),
    ]);
    prepare_rewritten_stream_headers(&mut map);
    assert_eq!(map, headers(&[("content-type", b"text/event-stream")]));
}

#[test]
fn answers_arm_the_rewriting() {
    let rows: [(&'static str, &'static [u8]); 2] =
        [("content-type", b"text/event-stream"), ("content-length", b"1")];
    let mut map = headers(&rows);
    let mut held = Some(state());
    assert!(on_response(&mut held, Some(200), &mut map, true, Some("p")));
    assert_eq!(held.unwrap().previous_response_id.as_deref(), Some("p"));
    assert_eq!(map.len(), 1);
    let mut map = headers(&rows);
    let mut held = Some(state());
    assert!(!on_response(&mut held, Some(200), &mut map, false, Some("p")));
    assert_eq!(held.unwrap().previous_response_id, None);
    assert_eq!(map.len(), 2);
    let mut held = Some(state());
    assert!(!on_response(&mut held, Some(500), &mut map, true, Some("p")));
    assert!(held.is_none());
    let mut held = Some(state());
    assert!(!on_response(&mut held, None, &mut map, true, Some("p")));
    assert!(held.unwrap().previous_response_id.is_some());
    assert!(!on_response(&mut None, Some(200), &mut map, true, Some("p")));
}
