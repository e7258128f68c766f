//! Responses API event streams: how a stream ends, how long it may take, and
//! how the predecessor of a response is put back into its events.
use crate::headers::{self, Headers};
use crate::json::{self, JsonView};
use crate::sse;
use crate::text;
use vstd::prelude::*;

verus! {

/// Completion state observed while parsing a Responses SSE stream.
#[derive(Clone, Copy, Debug, PartialEq, Eq, Structural)]
pub enum CompletionState {
    /// No completion signal has been observed.
    Open,
    /// A terminal lifecycle event was observed.
    TerminalLifecycle,
    /// A stream-level error event was observed.
    Error,
}

/// Per-request accumulation state. Times are nanoseconds on one clock.
#[derive(Debug)]
pub struct StreamEventsState {
    /// Raw bytes retained until the next complete SSE event boundary.
    pub wire_buffer: Vec<u8>,
    /// Maximum raw partial-event bytes retained for response rewriting.
    pub max_wire_buffer_bytes: usize,
    /// Locally consumed predecessor id restored on terminal response events.
    pub previous_response_id: Option<String>,
    /// Number of non-sentinel events parsed so far.
    pub event_count: usize,
    /// Maximum allowed event count.
    pub max_events: usize,
    /// Maximum allowed wall-clock time.
    pub timeout: u128,
    /// Time of the first chunk.
    pub started_at: Option<u128>,
    /// Time when a terminal state was first observed.
    pub completed_at: Option<u128>,
    /// Stream completion state.
    pub completion_state: CompletionState,
    /// Cap on accumulated bytes per tool-call argument string.
    pub max_tool_call_argument_bytes: usize,
}

/// What can be configured; what is not set has a default.
#[derive(Debug)]
pub struct StreamEventsConfig {
    pub max_buffer_bytes: Option<usize>,
    pub max_events: Option<usize>,
    pub timeout_secs: Option<u64>,
    pub max_tool_call_argument_bytes: Option<usize>,
}

/// Accumulates state from native Responses API SSE event streams.
#[derive(Debug)]
pub struct OpenaiStreamEventsFilter {
    pub max_buffer_bytes: usize,
    pub max_events: usize,
    pub timeout_secs: u64,
    pub max_tool_call_argument_bytes: usize,
}

/// A setting, or its default.
pub open spec fn setting<T>(value: Option<T>, default: T) -> T {
    match value {
        Some(value) => value,
        None => default,
    }
}

impl OpenaiStreamEventsFilter {
    /// Construct from a configuration.
    pub fn from_config(config: &StreamEventsConfig) -> (r: OpenaiStreamEventsFilter)
        ensures
            r.max_buffer_bytes == setting(config.max_buffer_bytes, 10_485_760),
            r.max_events == setting(config.max_events, 100_000),
            r.timeout_secs == setting(config.timeout_secs, 300),
            r.max_tool_call_argument_bytes == setting(
                config.max_tool_call_argument_bytes,
                1_048_576,
            ),
    {
        OpenaiStreamEventsFilter {
            max_buffer_bytes: match config.max_buffer_bytes {
                Some(value) => value,
                None => 10_485_760,
            },
            max_events: match config.max_events {
                Some(value) => value,
                None => 100_000,
            },
            timeout_secs: match config.timeout_secs {
                Some(value) => value,
                None => 300,
            },
            max_tool_call_argument_bytes: match config.max_tool_call_argument_bytes {
                Some(value) => value,
                None => 1_048_576,
            },
        }
    }

    /// The state of a stream that has not begun, where the request asks for a
    /// streamed response in the Responses format.
    pub fn on_request(
        &self,
        method: &str,
        path: &str,
        format: Option<&str>,
        stream: Option<&str>,
    ) -> (r: Option<StreamEventsState>)
        ensures
            r is Some <==> creates_response(method@, path@) && option_view(format) == Some(
                "openai_responses"@,
            ) && option_view(stream) == Some("true"@),
            r matches Some(state) ==> {
                &&& state.wire_buffer@ == Seq::<u8>::empty()
                &&& state.max_wire_buffer_bytes == self.max_buffer_bytes
                &&& state.previous_response_id is None
                &&& state.event_count == 0
                &&& state.max_events == self.max_events
                &&& state.timeout == self.timeout_secs * 1_000_000_000
                &&& state.started_at is None
                &&& state.completed_at is None
                &&& state.completion_state is Open
                &&& state.max_tool_call_argument_bytes == self.max_tool_call_argument_bytes
            },
    {
        let formatted = match format {
            Some(format) => text::same(format, "openai_responses"),
            None => false,
        };
        let streamed = match stream {
            Some(stream) => text::same(stream, "true"),
            None => false,
        };
        if !is_responses_create(method, path) || !formatted || !streamed {
            return None;
        }
        Some(
            StreamEventsState {
                wire_buffer: Vec::new(),
                max_wire_buffer_bytes: self.max_buffer_bytes,
                previous_response_id: None,
                event_count: 0,
                max_events: self.max_events,
                timeout: self.timeout_secs as u128 * 1_000_000_000,
                started_at: None,
                completed_at: None,
                completion_state: CompletionState::Open,
                max_tool_call_argument_bytes: self.max_tool_call_argument_bytes,
            },
        )
    }
}

/// What an optional text is.
pub open spec fn option_view(value: Option<&str>) -> Option<Seq<char>> {
    match value {
        Some(value) => Some(value@),
        None => None,
    }
}

/// Whether a request creates a response.
pub open spec fn creates_response(method: Seq<char>, path: Seq<char>) -> bool {
    method == "POST"@ && path == "/v1/responses"@
}

/// Whether a request creates a response.
pub fn is_responses_create(method: &str, path: &str) -> (r: bool)
    ensures
        r == creates_response(method@, path@),
{
    text::same(method, "POST") && text::same(path, "/v1/responses")
}

/// Whether a content type is that of an event stream.
pub open spec fn event_stream_type(content_type: Seq<char>) -> bool {
    text::lowered(text::trimmed(text::before(content_type, ';'))) == "text/event-stream"@
}

/// Whether a content type is that of an event stream.
pub fn is_event_stream_content_type(value: &str) -> (r: bool)
    ensures
        r == event_stream_type(value@),
{
    let mime = text::trim(text::up_to(value, ';'));
    proof {
        reveal_strlit("text/event-stream");
        assert(text::lowered("text/event-stream"@) =~= "text/event-stream"@);
    }
    text::same_ignoring_case(mime, "text/event-stream")
}

/// Whether an answer is a successful event stream; one that is not known is
/// taken for one.
pub open spec fn success_stream(response: Option<(u16, Map<Seq<char>, Seq<Seq<u8>>>)>) -> bool {
    match response {
        None => true,
        Some((status, lines)) => 200 <= status <= 299 && match headers::text_line(
            lines,
            "content-type"@,
        ) {
            Some(content_type) => event_stream_type(content_type),
            None => false,
        },
    }
}

/// Whether an answer comes without content coding; one that is not known is
/// taken to.
pub open spec fn identity_encoded(response: Option<Map<Seq<char>, Seq<Seq<u8>>>>) -> bool {
    match response {
        None => true,
        Some(lines) => lines.contains_key("content-encoding"@) ==> match headers::text_line(
            lines,
            "content-encoding"@,
        ) {
            Some(coding) => text::lowered(coding) == "identity"@,
            None => false,
        },
    }
}

/// Header fields without those that speak of the exact bytes of the body.
pub open spec fn represented(lines: Map<Seq<char>, Seq<Seq<u8>>>) -> Map<
    Seq<char>,
    Seq<Seq<u8>>,
> {
    lines.remove("content-length"@).remove("content-encoding"@).remove("content-range"@).remove(
        "etag"@,
    ).remove("content-digest"@).remove("content-md5"@).remove("digest"@).remove("repr-digest"@)
}

proof fn lemma_header_names()
    ensures
        text::lowered("content-type"@) == "content-type"@,
        text::lowered("content-length"@) == "content-length"@,
        text::lowered("content-encoding"@) == "content-encoding"@,
        text::lowered("content-range"@) == "content-range"@,
        text::lowered("etag"@) == "etag"@,
        text::lowered("content-digest"@) == "content-digest"@,
        text::lowered("content-md5"@) == "content-md5"@,
        text::lowered("digest"@) == "digest"@,
        text::lowered("repr-digest"@) == "repr-digest"@,
        text::lowered("identity"@) == "identity"@,
{
    reveal_strlit("content-type");
    reveal_strlit("content-length");
    reveal_strlit("content-encoding");
    reveal_strlit("content-range");
    reveal_strlit("etag");
    reveal_strlit("content-digest");
    reveal_strlit("content-md5");
    reveal_strlit("digest");
    reveal_strlit("repr-digest");
    reveal_strlit("identity");
    assert(text::lowered("content-type"@) =~= "content-type"@);
    assert(text::lowered("content-length"@) =~= "content-length"@);
    assert(text::lowered("content-encoding"@) =~= "content-encoding"@);
    assert(text::lowered("content-range"@) =~= "content-range"@);
    assert(text::lowered("etag"@) =~= "etag"@);
    assert(text::lowered("content-digest"@) =~= "content-digest"@);
    assert(text::lowered("content-md5"@) =~= "content-md5"@);
    assert(text::lowered("digest"@) =~= "digest"@);
    assert(text::lowered("repr-digest"@) =~= "repr-digest"@);
    assert(text::lowered("identity"@) =~= "identity"@);
}

/// Whether the response is a successful `text/event-stream` response.
pub fn is_success_sse_response(response: Option<(u16, &Headers)>) -> (r: bool)
    ensures
        r == success_stream(
            match response {
                Some((status, held)) => Some((status, headers::header_lines(*held))),
                None => None,
            },
        ),
{
    let (status, held) = match response {
        Some(response) => response,
        None => {
            return true;
        },
    };
    if !(200 <= status && status <= 299) {
        return false;
    }
    proof {
        lemma_header_names();
    }
    match headers::header_text(held, "content-type") {
        Some(content_type) => is_event_stream_content_type(content_type.as_str()),
        None => false,
    }
}

/// Whether the response comes without content coding.
pub fn response_has_identity_encoding(response: Option<&Headers>) -> (r: bool)
    ensures
        r == identity_encoded(
            match response {
                Some(held) => Some(headers::header_lines(*held)),
                None => None,
            },
        ),
{
    proof {
        lemma_header_names();
    }
    match response {
        None => true,
        Some(held) => if headers::has_header(held, "content-encoding") {
            match headers::header_text(held, "content-encoding") {
                Some(coding) => text::same_ignoring_case(coding.as_str(), "identity"),
                None => false,
            }
        } else {
            true
        },
    }
}

/// Remove representation metadata invalidated by rewriting terminal SSE events.
pub fn prepare_rewritten_stream_headers(response: &mut Headers)
    ensures
        headers::header_lines(*final(response)) == represented(
            headers::header_lines(*old(response)),
        ),
{
    proof {
        lemma_header_names();
    }
    headers::take_header(response, "content-length");
    headers::take_header(response, "content-encoding");
    headers::take_header(response, "content-range");
    headers::take_header(response, "etag");
    headers::take_header(response, "content-digest");
    headers::take_header(response, "content-md5");
    headers::take_header(response, "digest");
    headers::take_header(response, "repr-digest");
}

/// Whether a text names an event of a response's life that carries the
/// response.
pub open spec fn lifecycle(kind: Seq<char>) -> bool {
    ||| kind == "response.created"@
    ||| kind == "response.queued"@
    ||| kind == "response.in_progress"@
    ||| kind == "response.completed"@
    ||| kind == "response.incomplete"@
    ||| kind == "response.failed"@
}

/// An object with the predecessor of a response set.
pub open spec fn with_previous(
    members: Map<Seq<char>, JsonView>,
    id: Seq<char>,
) -> Map<Seq<char>, JsonView> {
    members.insert("previous_response_id"@, JsonView::Text(id))
}

/// The payload of an event of a response's life with the predecessor set in
/// its response, or in itself where it has none. Nothing for another payload.
pub open spec fn restored(payload: JsonView, id: Seq<char>) -> Option<JsonView> {
    match payload {
        JsonView::Object(members) => match json::field(members, "type"@) {
            Some(JsonView::Text(kind)) if lifecycle(kind) => match json::field(
                members,
                "response"@,
            ) {
                Some(JsonView::Object(response)) => Some(
                    JsonView::Object(
                        members.insert(
                            "response"@,
                            JsonView::Object(with_previous(response, id)),
                        ),
                    ),
                ),
                Some(_) => None,
                None => Some(JsonView::Object(with_previous(members, id))),
            },
            _ => None,
        },
        _ => None,
    }
}

/// What an optional value is.
pub open spec fn payload_view(value: Option<serde_json::Value>) -> Option<JsonView> {
    match value {
        Some(value) => Some(json::json_of(value)),
        None => None,
    }
}

/// Whether a text names an event of a response's life that carries the
/// response.
fn is_lifecycle(kind: &str) -> (r: bool)
    ensures
        r == lifecycle(kind@),
{
    text::same(kind, "response.created") || text::same(kind, "response.queued") || text::same(
        kind,
        "response.in_progress",
    ) || text::same(kind, "response.completed") || text::same(kind, "response.incomplete")
        || text::same(kind, "response.failed")
}

/// Sets the predecessor in the payload of an event of a response's life.
pub fn restore_previous(payload: &serde_json::Value, previous_response_id: &str) -> (r: Option<
    serde_json::Value,
>)
    ensures
        payload_view(r) == restored(json::json_of(*payload), previous_response_id@),
{
    let members = match json::as_object(payload) {
        Some(members) => members,
        None => {
            return None;
        },
    };
    let known = match json::get_member(members, "type") {
        Some(kind) => match json::as_text(kind) {
            Some(kind) => is_lifecycle(kind),
            None => false,
        },
        None => false,
    };
    if !known {
        return None;
    }
    let mut changed = json::copy_members(members);
    match json::get_member(members, "response") {
        Some(response) => match json::as_object(response) {
            Some(response) => {
                let mut response = json::copy_members(response);
                json::put_member(
                    &mut response,
                    "previous_response_id",
                    json::json_text(previous_response_id.to_owned()),
                );
                json::put_member(&mut changed, "response", json::json_object(response));
                Some(json::json_object(changed))
            },
            None => None,
        },
        None => {
            json::put_member(
                &mut changed,
                "previous_response_id",
                json::json_text(previous_response_id.to_owned()),
            );
            Some(json::json_object(changed))
        },
    }
}

/// What an event that carries a response says with the predecessor set.
pub open spec fn restored_data(raw: Seq<u8>, id: Seq<char>) -> Option<Seq<u8>> {
    match sse::data_of(raw) {
        None => None,
        Some(data) => match json::json_read(data) {
            Err(_) => None,
            Ok(payload) => match restored(payload, id) {
                None => None,
                Some(payload) => match json::json_written(payload) {
                    Err(_) => None,
                    Ok(data) => Some(data),
                },
            },
        },
    }
}

/// An event with the predecessor set in its payload; any event that does not
/// carry a response is kept as it is.
pub open spec fn rewritten_event(raw: Seq<u8>, id: Seq<char>) -> Seq<u8> {
    match restored_data(raw, id) {
        Some(data) => sse::replaced(raw, data),
        None => raw,
    }
}

/// The bytes of events with the predecessor set in each; what follows the last
/// complete event is kept as it is.
pub open spec fn rewritten(bytes: Seq<u8>, id: Seq<char>) -> Seq<u8>
    decreases bytes.len(),
    when true via rewritten_decreases
{
    match sse::event_len(bytes) {
        None => bytes,
        Some(n) => rewritten_event(bytes.take(n as int), id) + rewritten(bytes.skip(n as int), id),
    }
}

#[via_fn]
proof fn rewritten_decreases(bytes: Seq<u8>, id: Seq<char>) {
    sse::event_len_bounds(bytes);
}

/// The bytes of events with the predecessor, if there is one, set in each.
pub open spec fn rewritten_if(bytes: Seq<u8>, id: Option<Seq<char>>) -> Seq<u8> {
    match id {
        Some(id) => rewritten(bytes, id),
        None => bytes,
    }
}

/// Whether no float stands in the payload of an event.
pub open spec fn floatless_payload(raw: Seq<u8>) -> bool {
    sse::data_of(raw) matches Some(data) ==> (json::json_read(data) matches Ok(payload)
        ==> json::floatless(payload))
}

/// Setting the predecessor a second time changes nothing, and setting it adds
/// neither floats nor nesting.
proof fn restored_is_settled(payload: JsonView, id: Seq<char>, depth: nat)
    requires
        json::floatless(payload),
        json::shallow(payload, depth),
        restored(payload, id) is Some,
    ensures
        restored(restored(payload, id)->0, id) == restored(payload, id),
        json::floatless(restored(payload, id)->0),
        json::shallow(restored(payload, id)->0, depth),
{
    lemma_payload_literals();
    let after = restored(payload, id)->0;
    let members = payload->Object_0;
    let changed = after->Object_0;
    let twice = restored(after, id)->0;
    match json::field(members, "response"@) {
        Some(JsonView::Object(response)) => {
            let named = with_previous(response, id);
            assert(json::floatless(members["response"@]));
            assert(json::shallow(members["response"@], (depth - 1) as nat));
            assert(changed["response"@] == JsonView::Object(named));
            assert forall|k: Seq<char>| named.contains_key(k) implies json::floatless(
                #[trigger] named[k],
            ) && json::shallow(named[k], (depth - 2) as nat) by {
                if k != "previous_response_id"@ {
                    assert(named[k] == response[k]);
                }
            }
            assert(with_previous(named, id) =~= named);
            assert(changed.insert("response"@, JsonView::Object(named)) =~= changed);
            assert(json::floatless(JsonView::Object(named)));
            assert(json::shallow(JsonView::Object(named), (depth - 1) as nat));
        },
        _ => {
            assert(with_previous(changed, id) =~= changed);
        },
    }
    assert forall|k: Seq<char>| changed.contains_key(k) implies json::floatless(
        #[trigger] changed[k],
    ) && json::shallow(changed[k], (depth - 1) as nat) by {
        if k != "response"@ && k != "previous_response_id"@ {
            assert(changed[k] == members[k]);
        } else if members.contains_key(k) && changed[k] == members[k] {
            assert(json::floatless(members[k]));
        }
    }
}

proof fn lemma_payload_literals()
    ensures
        "type"@ != "response"@,
        "type"@ != "previous_response_id"@,
        "response"@ != "previous_response_id"@,
{
    reveal_strlit("type");
    reveal_strlit("response");
    reveal_strlit("previous_response_id");
    assert("type"@.len() != "response"@.len());
    assert("type"@.len() != "previous_response_id"@.len());
    assert("response"@.len() != "previous_response_id"@.len());
}

/// Sets the predecessor in the payload of one event. Every other line of the
/// event stays, byte for byte and in order. Doing so a second time changes
/// nothing, where no float stands in the payload.
pub fn rewrite_response_event(raw_event: &[u8], previous_response_id: &str) -> (r: Vec<u8>)
    ensures
        r@ == rewritten_event(raw_event@, previous_response_id@),
        restored_data(raw_event@, previous_response_id@) matches Some(data) ==> sse::data_of(r@)
            == Some(data),
        sse::ends_stay_apart(raw_event@, false, false) ==> sse::other_lines(r@)
            == sse::other_lines(raw_event@) && sse::open_line(r@) == sse::open_line(raw_event@),
        sse::ends_stay_apart(raw_event@, false, false) && sse::event_len(raw_event@) == Some(
            raw_event@.len(),
        ) ==> sse::event_len(r@) == Some(r@.len()),
        sse::ends_stay_apart(raw_event@, false, false) && floatless_payload(raw_event@)
            ==> rewritten_event(r@, previous_response_id@) == r@,
{
    let data = match sse::sse_event_data(raw_event) {
        Some(data) => data,
        None => {
            return sse::copy_bytes(raw_event);
        },
    };
    let payload = match json::read_json(data.as_slice()) {
        Ok(payload) => payload,
        Err(_) => {
            return sse::copy_bytes(raw_event);
        },
    };
    let ghost read = json::json_of(payload);
    let payload = match restore_previous(&payload, previous_response_id) {
        Some(payload) => payload,
        None => {
            return sse::copy_bytes(raw_event);
        },
    };
    match json::write_json(&payload) {
        Ok(data) => {
            proof {
                sse::replaced_data_reads_back(raw_event@, data@);
                if sse::ends_stay_apart(raw_event@, false, false) {
                    sse::replacing_keeps_other_lines(raw_event@, data@);
                    if sse::event_len(raw_event@) == Some(raw_event@.len()) {
                        sse::replaced_events_stay_events(raw_event@, data@);
                    }
                    if json::floatless(read) {
                        restored_is_settled(read, previous_response_id@, json::MAX_NESTING as nat);
                        sse::replacing_is_idempotent(raw_event@, data@);
                    }
                }
            }
            sse::replace_sse_data(raw_event, data.as_slice())
        },
        Err(_) => sse::copy_bytes(raw_event),
    }
}

/// Rewrite response lifecycle payloads while leaving every other event byte-exact.
pub fn rewrite_completed_events(bytes: &[u8], previous_response_id: Option<&str>) -> (r: Vec<u8>)
    ensures
        r@ == rewritten_if(bytes@, option_view(previous_response_id)),
{
    let id = match previous_response_id {
        Some(id) => id,
        None => {
            return sse::copy_bytes(bytes);
        },
    };
    let total: usize = bytes.len();
    let mut output: Vec<u8> = Vec::new();
    let mut start: usize = 0;
    proof {
        assert(bytes@.skip(0) =~= bytes@);
        assert(output@ + rewritten(bytes@, id@) =~= rewritten(bytes@, id@));
    }
    loop
        invariant
            option_view(previous_response_id) == Some(id@),
            total == bytes@.len(),
            start <= bytes@.len(),
            rewritten(bytes@, id@) == output@ + rewritten(bytes@.skip(start as int), id@),
        decreases bytes@.len() - start,
    {
        let ghost held = output@;
        let ghost rest = bytes@.skip(start as int);
        match sse::event_len_from(bytes, start) {
            None => {
                sse::add_part(&mut output, bytes, start, bytes.len());
                proof {
                    assert(rest =~= bytes@.subrange(start as int, bytes@.len() as int));
                }
                return output;
            },
            Some(n) => {
                let mut event: Vec<u8> = Vec::new();
                sse::add_part(&mut event, bytes, start, start + n);
                let mut changed = rewrite_response_event(event.as_slice(), id);
                output.append(&mut changed);
                proof {
                    assert(event@ =~= rest.take(n as int));
                    assert(rest.skip(n as int) =~= bytes@.skip(start + n));
                    sse::regrouped(
                        held,
                        rewritten_event(rest.take(n as int), id@),
                        rewritten(rest.skip(n as int), id@),
                    );
                }
                start = start + n;
            },
        }
    }
}

/// What a filter does to a piece of a body.
#[derive(Debug)]
pub enum BodyChange {
    Keep,
    Replace(Vec<u8>),
}

/// What a `BodyChange` is.
pub enum ChangeView {
    Keep,
    Replace(Seq<u8>),
}

impl View for BodyChange {
    type V = ChangeView;

    open spec fn view(&self) -> ChangeView {
        match self {
            BodyChange::Keep => ChangeView::Keep,
            BodyChange::Replace(bytes) => ChangeView::Replace(bytes@),
        }
    }
}

/// What of a stream is held back, and the predecessor to set in it.
pub struct Wire {
    pub held: Seq<u8>,
    pub id: Option<Seq<char>>,
}

impl StreamEventsState {
    /// What of the stream is held back, and the predecessor to set in it.
    pub open spec fn wire(self) -> Wire {
        Wire {
            held: self.wire_buffer@,
            id: match self.previous_response_id {
                Some(id) => Some(id@),
                None => None,
            },
        }
    }

    /// Whether nothing but what is held back and the predecessor differs.
    pub open spec fn same_but_wire(self, other: StreamEventsState) -> bool {
        other == StreamEventsState {
            wire_buffer: other.wire_buffer,
            previous_response_id: other.previous_response_id,
            ..self
        }
    }
}

/// What is held back of a stream that got so far: what follows its last
/// complete event.
pub open spec fn pending(bytes: Seq<u8>) -> Seq<u8> {
    bytes.skip(sse::completed_len(bytes) as int)
}

/// The complete events of a stream that got so far.
pub open spec fn completed(bytes: Seq<u8>) -> Seq<u8> {
    bytes.take(sse::completed_len(bytes) as int)
}

/// What is held back after a piece of a stream, and what is sent on. At the
/// end, or where more than `max` bytes would be held back, everything is sent;
/// in the second case nothing is rewritten from then on.
pub open spec fn wire_step(wire: Wire, max: nat, chunk: Option<Seq<u8>>, end: bool) -> (
    Wire,
    ChangeView,
) {
    if chunk is None && !end {
        (wire, ChangeView::Keep)
    } else {
        let bytes = match chunk {
            Some(chunk) => wire.held + chunk,
            None => wire.held,
        };
        let sent = rewritten_if(completed(bytes), wire.id);
        let rest = pending(bytes);
        if end && rest.len() > 0 {
            (
                Wire { held: Seq::empty(), id: wire.id },
                ChangeView::Replace(sent + rest),
            )
        } else if rest.len() > max {
            (Wire { held: Seq::empty(), id: None }, ChangeView::Replace(sent + rest))
        } else {
            (Wire { held: rest, id: wire.id }, ChangeView::Replace(sent))
        }
    }
}

/// What a piece of a stream is.
pub open spec fn chunk_view(chunk: Option<&[u8]>) -> Option<Seq<u8>> {
    match chunk {
        Some(bytes) => Some(bytes@),
        None => None,
    }
}

/// Hold at most one partial event and rewrite completed terminal events.
pub fn rewrite_stream_chunk(
    state: &mut StreamEventsState,
    body: Option<&[u8]>,
    end_of_stream: bool,
) -> (r: BodyChange)
    ensures
        old(state).same_but_wire(*final(state)),
        (final(state).wire(), r@) == wire_step(
            old(state).wire(),
            old(state).max_wire_buffer_bytes as nat,
            chunk_view(body),
            end_of_stream,
        ),
{
    let ghost wire = state.wire();
    match body {
        Some(bytes) => {
            state.wire_buffer.extend_from_slice(bytes);
        },
        None => {
            if !end_of_stream {
                return BodyChange::Keep;
            }
        },
    }
    let ghost all = state.wire_buffer@;
    let completed_len: usize = sse::completed_sse_prefix_len(state.wire_buffer.as_slice());
    let rest = state.wire_buffer.split_off(completed_len);
    proof {
        assert(state.wire_buffer@ =~= completed(all));
        assert(rest@ =~= pending(all));
    }
    let mut output = match &state.previous_response_id {
        Some(id) => rewrite_completed_events(state.wire_buffer.as_slice(), Some(id.as_str())),
        None => rewrite_completed_events(state.wire_buffer.as_slice(), None),
    };
    state.wire_buffer = rest;
    if end_of_stream && state.wire_buffer.len() != 0 {
        output.append(&mut state.wire_buffer);
    } else if state.wire_buffer.len() > state.max_wire_buffer_bytes {
        output.append(&mut state.wire_buffer);
        state.previous_response_id = None;
    }
    proof {
        assert(all == match chunk_view(body) {
            Some(chunk) => wire.held + chunk,
            None => wire.held,
        });
        assert(state.wire_buffer@ =~= wire_step(
            wire,
            state.max_wire_buffer_bytes as nat,
            chunk_view(body),
            end_of_stream,
        ).0.held);
    }
    BodyChange::Replace(output)
}

/// Rewrites a piece of a stream, where there is a predecessor to set.
pub fn finish_chunk(
    state: &mut StreamEventsState,
    body: Option<&[u8]>,
    end_of_stream: bool,
) -> (r: BodyChange)
    ensures
        old(state).same_but_wire(*final(state)),
        old(state).previous_response_id is None ==> *final(state) == *old(state) && r@
            == ChangeView::Keep,
        old(state).previous_response_id is Some ==> (final(state).wire(), r@) == wire_step(
            old(state).wire(),
            old(state).max_wire_buffer_bytes as nat,
            chunk_view(body),
            end_of_stream,
        ),
{
    if state.previous_response_id.is_some() {
        rewrite_stream_chunk(state, body, end_of_stream)
    } else {
        BodyChange::Keep
    }
}

/// Why events of a stream are not accepted.
#[derive(Debug)]
pub enum SseParseError {
    /// The stream takes longer than it may.
    Timeout { elapsed: u128, limit: u128 },
    /// An event came after the one that ends the stream.
    EventAfterTerminal { event_type: String },
    /// An event is not one of the Responses API.
    Malformed { message: String },
}

/// What an `SseParseError` says.
pub enum ErrorView {
    Timeout { elapsed: nat, limit: nat },
    EventAfterTerminal { event_type: Seq<char> },
    Malformed { message: Seq<char> },
}

impl View for SseParseError {
    type V = ErrorView;

    open spec fn view(&self) -> ErrorView {
        match self {
            SseParseError::Timeout { elapsed, limit } => ErrorView::Timeout {
                elapsed: *elapsed as nat,
                limit: *limit as nat,
            },
            SseParseError::EventAfterTerminal { event_type } => ErrorView::EventAfterTerminal {
                event_type: event_type@,
            },
            SseParseError::Malformed { message } => ErrorView::Malformed { message: message@ },
        }
    }
}

/// What a check of a stream says.
pub open spec fn check_view(r: Result<(), SseParseError>) -> Result<(), ErrorView> {
    match r {
        Ok(()) => Ok(()),
        Err(error) => Err(error@),
    }
}

/// What an event says of the end of its stream.
#[derive(Clone, Copy, Debug, PartialEq, Eq, Structural)]
pub enum EventKind {
    /// A stream-level error.
    Error,
    /// The end of the response's life.
    Terminal,
    /// Nothing.
    Other,
}

/// What a frame of a stream holds.
#[derive(Debug)]
pub enum FrameReport {
    /// The sentinel behind the last event.
    Done,
    /// Something that is not an event.
    Malformed { message: String },
    /// An event.
    Event { kind: EventKind, event_type: String },
}

/// How far a stream got.
pub struct Progress {
    pub event_count: nat,
    pub completion: CompletionState,
    pub completed_at: Option<u128>,
    /// How many events were accepted of those looked at.
    pub accepted: nat,
}

impl StreamEventsState {
    /// How far the stream got.
    pub open spec fn progress(self, accepted: nat) -> Progress {
        Progress {
            event_count: self.event_count as nat,
            completion: self.completion_state,
            completed_at: self.completed_at,
            accepted,
        }
    }

    /// Whether nothing but how far the stream got differs.
    pub open spec fn same_but_progress(self, other: StreamEventsState) -> bool {
        other == StreamEventsState {
            event_count: other.event_count,
            completion_state: other.completion_state,
            completed_at: other.completed_at,
            ..self
        }
    }

    /// What the time says of the stream. A time before the start counts as
    /// the start.
    pub open spec fn time_check(self, now: u128) -> Result<(), ErrorView> {
        match self.started_at {
            Some(started_at) if now > started_at && now - started_at > self.timeout => Err(
                ErrorView::Timeout {
                    elapsed: (now - started_at) as nat,
                    limit: self.timeout as nat,
                },
            ),
            _ => Ok(()),
        }
    }
}

/// Check whether the stream has exceeded its wall-clock timeout.
pub fn check_timeout(state: &StreamEventsState, now: u128) -> (r: Result<(), SseParseError>)
    ensures
        check_view(r) == state.time_check(now),
{
    let started_at: u128 = match state.started_at {
        Some(started_at) => started_at,
        None => {
            return Ok(());
        },
    };
    let elapsed: u128 = if now > started_at {
        now - started_at
    } else {
        0
    };
    if elapsed > state.timeout {
        return Err(SseParseError::Timeout { elapsed, limit: state.timeout });
    }
    Ok(())
}

/// Record the first terminal-state timestamp while allowing stronger
/// states to replace weaker ones.
pub fn mark_complete(state: &mut StreamEventsState, new_state: CompletionState, now: u128)
    ensures
        old(state).same_but_progress(*final(state)),
        final(state).event_count == old(state).event_count,
        final(state).completion_state == new_state,
        final(state).completed_at == match old(state).completed_at {
            Some(at) => Some(at),
            None => Some(now),
        },
{
    state.completion_state = new_state;
    if state.completed_at.is_none() {
        state.completed_at = Some(now);
    }
}

/// How a stream is complete after an event, where the event may come. After
/// the end of the response's life only an error may, and after an error
/// nothing.
pub open spec fn completion_after(state: CompletionState, kind: EventKind) -> Option<
    CompletionState,
> {
    match (state, kind) {
        (CompletionState::Error, _) => None,
        (_, EventKind::Error) => Some(CompletionState::Error),
        (CompletionState::TerminalLifecycle, _) => None,
        (CompletionState::Open, EventKind::Terminal) => Some(CompletionState::TerminalLifecycle),
        (CompletionState::Open, EventKind::Other) => Some(CompletionState::Open),
    }
}

/// How far a stream got with an event that may come.
pub open spec fn progressed(
    progress: Progress,
    completion: CompletionState,
    kind: EventKind,
    now: u128,
) -> Progress {
    Progress {
        completion,
        completed_at: if kind is Other || progress.completed_at is Some {
            progress.completed_at
        } else {
            Some(now)
        },
        ..progress
    }
}

/// Record whether an event signals stream completion.
pub fn record_completion(
    state: &mut StreamEventsState,
    kind: EventKind,
    event_type: &str,
    now: u128,
) -> (r: Result<(), SseParseError>)
    ensures
        match completion_after(old(state).completion_state, kind) {
            Some(completion) => r is Ok && old(state).same_but_progress(*final(state))
                && final(state).progress(0) == progressed(
                old(state).progress(0),
                completion,
                kind,
                now,
            ),
            None => check_view(r) == Err::<(), ErrorView>(
                ErrorView::EventAfterTerminal { event_type: event_type@ },
            ) && *final(state) == *old(state),
        },
{
    if kind == EventKind::Error {
        if state.completion_state == CompletionState::Error {
            return Err(SseParseError::EventAfterTerminal { event_type: event_type.to_owned() });
        }
        mark_complete(state, CompletionState::Error, now);
        return Ok(());
    }
    if state.completion_state != CompletionState::Open {
        return Err(SseParseError::EventAfterTerminal { event_type: event_type.to_owned() });
    }
    if kind == EventKind::Terminal {
        mark_complete(state, CompletionState::TerminalLifecycle, now);
    }
    Ok(())
}

/// How far a stream got with the frames up to one, and what is wrong with the
/// first that is not accepted. A frame that is not the sentinel is counted,
/// accepted or not.
pub open spec fn followed(
    start: Progress,
    frames: Seq<FrameReport>,
    upto: nat,
    now: u128,
) -> (Progress, Result<(), ErrorView>)
    decreases upto,
{
    if upto == 0 {
        (start, Ok(()))
    } else {
        let (before, result) = followed(start, frames, (upto - 1) as nat, now);
        if result is Err {
            (before, result)
        } else {
            let counted = Progress { event_count: before.event_count + 1, ..before };
            match frames[upto - 1] {
                FrameReport::Done => (before, Ok(())),
                FrameReport::Malformed { message } => (
                    counted,
                    Err(ErrorView::Malformed { message: message@ }),
                ),
                FrameReport::Event { kind, event_type } => match completion_after(
                    before.completion,
                    kind,
                ) {
                    None => (
                        counted,
                        Err(ErrorView::EventAfterTerminal { event_type: event_type@ }),
                    ),
                    Some(completion) => {
                        let after = progressed(counted, completion, kind, now);
                        (Progress { accepted: after.accepted + 1, ..after }, Ok(()))
                    },
                },
            }
        }
    }
}

proof fn following_stops(
    start: Progress,
    frames: Seq<FrameReport>,
    upto: nat,
    more: nat,
    now: u128,
)
    requires
        upto <= more,
        followed(start, frames, upto, now).1 is Err,
    ensures
        followed(start, frames, more, now) == followed(start, frames, upto, now),
    decreases more,
{
    if upto < more {
        following_stops(start, frames, upto, (more - 1) as nat, now);
    }
}

/// Accepts the frames of a piece of a stream, in order, until one is not
/// accepted. Gives how many events were accepted.
pub fn accept_frames(
    state: &mut StreamEventsState,
    frames: &Vec<FrameReport>,
    now: u128,
) -> (r: (usize, Result<(), SseParseError>))
    requires
        old(state).event_count + frames@.len() <= usize::MAX,
    ensures
        old(state).same_but_progress(*final(state)),
        (final(state).progress(r.0 as nat), check_view(r.1)) == followed(
            old(state).progress(0),
            frames@,
            frames@.len(),
            now,
        ),
{
    let ghost begun = *state;
    let ghost start = state.progress(0);
    let mut accepted: usize = 0;
    let mut i: usize = 0;
    while i < frames.len()
        invariant
            begun == *old(state),
            start == begun.progress(0),
            begun.same_but_progress(*state),
            begun.event_count + frames@.len() <= usize::MAX,
            i <= frames.len(),
            accepted <= i,
            state.event_count <= begun.event_count + i,
            followed(start, frames@, i as nat, now) == (
                state.progress(accepted as nat),
                Ok::<(), ErrorView>(()),
            ),
        decreases frames.len() - i,
    {
        proof {
            let step = followed(start, frames@, (i + 1) as nat, now);
            if step.1 is Err {
                following_stops(start, frames@, (i + 1) as nat, frames@.len(), now);
            }
        }
        match &frames[i] {
            FrameReport::Done => {},
            FrameReport::Malformed { message } => {
                state.event_count = state.event_count + 1;
                return (accepted, Err(SseParseError::Malformed { message: message.clone() }));
            },
            FrameReport::Event { kind, event_type } => {
                state.event_count = state.event_count + 1;
                match record_completion(state, *kind, event_type.as_str(), now) {
                    Ok(()) => {
                        accepted += 1;
                    },
                    Err(error) => {
                        return (accepted, Err(error));
                    },
                }
            },
        }
        i += 1;
    }
    (accepted, Ok(()))
}

/// Whether the data of a frame is the sentinel behind the last event.
pub fn is_done_sentinel(data: &[u8]) -> (r: bool)
    ensures
        r == (data@ == seq![91u8, 68u8, 79u8, 78u8, 69u8, 93u8]),
{
    if data.len() != 6 {
        return false;
    }
    let same = data[0] == 91 && data[1] == 68 && data[2] == 79 && data[3] == 78 && data[4] == 69
        && data[5] == 93;
    proof {
        if same {
            assert(data@ =~= seq![91u8, 68u8, 79u8, 78u8, 69u8, 93u8]);
        }
    }
    same
}

/// Begins with a piece of a stream: the first sets when the stream began.
pub fn begin_chunk(state: &mut StreamEventsState, now: u128) -> (r: Result<(), SseParseError>)
    ensures
        *final(state) == (StreamEventsState {
            started_at: Some(setting(old(state).started_at, now)),
            ..*old(state)
        }),
        check_view(r) == final(state).time_check(now),
{
    if state.started_at.is_none() {
        state.started_at = Some(now);
    }
    check_timeout(state, now)
}

/// Whether a stream did not end as it should: in time and with an event that
/// ends it.
pub open spec fn ended_badly(state: StreamEventsState, now: u128) -> bool {
    state.time_check(setting(state.completed_at, now)) is Err || state.completion_state is Open
}

/// Check that the SSE stream terminated with a terminal event. Says whether it
/// is incomplete.
pub fn validate_stream_end(state: &StreamEventsState, now: u128) -> (r: bool)
    ensures
        r == ended_badly(*state, now),
{
    let checked_at: u128 = match state.completed_at {
        Some(at) => at,
        None => now,
    };
    match check_timeout(state, checked_at) {
        Err(_) => true,
        Ok(()) => state.completion_state == CompletionState::Open,
    }
}

/// The predecessor to set in a stream: the one that was resolved locally, and
/// only where the answer comes without content coding.
pub open spec fn predecessor(
    identity: bool,
    history_rehydrated: bool,
    previous_response_id: Option<Seq<char>>,
) -> Option<Seq<char>> {
    if identity && history_rehydrated {
        previous_response_id
    } else {
        None
    }
}

/// Takes the head of an answer to a request with a state, where the answer is
/// known: `status` and `response` are its status and header fields. The state
/// goes where the answer is not a successful event stream; else it gets the
/// predecessor to set, and where there is one the header fields are prepared
/// for it. Says whether they were.
pub fn on_response(
    state: &mut Option<StreamEventsState>,
    status: Option<u16>,
    response: &mut Headers,
    history_rehydrated: bool,
    previous_response_id: Option<&str>,
) -> (r: bool)
    ensures
        ({
            let lines = headers::header_lines(*old(response));
            let known = match status {
                Some(status) => Some((status, lines)),
                None => None,
            };
            let id = predecessor(
                identity_encoded(
                    if status is Some {
                        Some(lines)
                    } else {
                        None
                    },
                ),
                history_rehydrated,
                option_view(previous_response_id),
            );
            &&& *final(state) is Some <==> *old(state) is Some && success_stream(known)
            &&& r == (*final(state) is Some && status is Some && id is Some)
            &&& *final(state) is Some ==> (*old(state))->0.same_but_wire((*final(state))->0)
                && (*final(state))->0.wire() == (Wire { held: (*old(state))->0.wire().held, id })
            &&& r ==> headers::header_lines(*final(response)) == represented(lines)
            &&& !r ==> *final(response) == *old(response)
        }),
{
    match state.take() {
        None => false,
        Some(mut held) => {
            let success = match status {
                Some(status) => is_success_sse_response(Some((status, &*response))),
                None => is_success_sse_response(None),
            };
            if !success {
                return false;
            }
            let identity = match status {
                Some(_) => response_has_identity_encoding(Some(&*response)),
                None => response_has_identity_encoding(None),
            };
            let id = if identity && history_rehydrated {
                match previous_response_id {
                    Some(id) => Some(id.to_owned()),
                    None => None,
                }
            } else {
                None
            };
            let prepared = id.is_some() && status.is_some();
            held.previous_response_id = id;
            if prepared {
                prepare_rewritten_stream_headers(response);
            }
            *state = Some(held);
            prepared
        },
    }
}

proof fn rewritten_completed(bytes: Seq<u8>, id: Seq<char>)
    ensures
        sse::event_len(bytes) matches Some(n) ==> rewritten(completed(bytes), id)
            == rewritten_event(bytes.take(n as int), id) + rewritten(
            completed(bytes.skip(n as int)),
            id,
        ),
        sse::event_len(bytes) is None ==> rewritten(completed(bytes), id) == Seq::<u8>::empty(),
{
    sse::event_len_bounds(bytes);
    sse::nothing_complete_is_left(bytes);
    match sse::event_len(bytes) {
        Some(n) => {
            let rest = bytes.skip(n as int);
            sse::nothing_complete_is_left(rest);
            let all = sse::completed_len(bytes) as int;
            sse::event_in_part(bytes, all);
            assert(bytes.take(all).take(n as int) =~= bytes.take(n as int));
            assert(bytes.take(all).skip(n as int) =~= completed(rest));
        },
        None => {
            assert(completed(bytes) =~= Seq::empty());
            sse::event_len_bounds(completed(bytes));
        },
    }
}

/// A line feed that was cut off from the carriage return that ends an event is
/// sent on behind the event.
proof fn cut_event_is_rewritten(event: Seq<u8>, id: Seq<char>)
    requires
        sse::event_len(event) == Some(event.len()),
        event.last() == 13,
    ensures
        rewritten_event(event.push(10u8), id) == rewritten_event(event, id).push(10u8),
{
    sse::split_end_is_kept(event, Seq::empty(), None, false);
    if let Some(data) = restored_data(event, id) {
        sse::split_end_is_kept(event, data, None, false);
    }
}

proof fn lone_line_feed_is_kept(bytes: Seq<u8>, id: Seq<char>)
    requires
        bytes.len() > 0,
        bytes[0] == 10,
    ensures
        rewritten(bytes, id) == seq![10u8] + rewritten(bytes.skip(1), id),
{
    assert(sse::event_len(bytes) == Some(1nat));
    let first = bytes.take(1);
    assert(first =~= seq![10u8]);
    assert(sse::first_line(first) =~= Seq::empty());
    assert(sse::after_line(first) =~= Seq::empty());
    assert(!sse::has_line(sse::after_line(first)));
    assert(sse::data_after(sse::after_line(first), None) is None);
    assert(sse::data_name().len() == 4);
    assert(sse::data_of(first) is None);
}

/// A cut between the carriage return and the line feed that end an event does
/// not matter.
proof fn split_event_is_rewritten(event: Seq<u8>, more: Seq<u8>, id: Seq<char>)
    requires
        sse::event_len(event) == Some(event.len()),
        sse::split_end(event, more),
    ensures
        rewritten(event + more, id) == rewritten_event(event, id) + rewritten(more, id),
{
    sse::event_len_bounds(event);
    sse::event_with_more(event, more);
    let n = event.len() as int;
    assert((event + more).take(n + 1) =~= event.push(10u8));
    assert((event + more).skip(n + 1) =~= more.skip(1));
    cut_event_is_rewritten(event, id);
    lone_line_feed_is_kept(more, id);
    let changed = rewritten_event(event, id);
    assert(changed.push(10u8) =~= changed + seq![10u8]);
    sse::regrouped(changed, seq![10u8], rewritten(more.skip(1), id));
}

/// Where a stream is cut does not matter: what is sent for its complete events
/// so far, and what is sent for the rest with more of the stream behind it, is
/// what is sent for the whole.
pub proof fn cuts_do_not_matter(bytes: Seq<u8>, more: Seq<u8>, id: Seq<char>)
    ensures
        rewritten(bytes + more, id) == rewritten(completed(bytes), id) + rewritten(
            pending(bytes) + more,
            id,
        ),
    decreases bytes.len(),
{
    rewritten_completed(bytes, id);
    sse::event_len_bounds(bytes);
    match sse::event_len(bytes) {
        None => {
            assert(pending(bytes) =~= bytes);
            assert(Seq::<u8>::empty() + rewritten(bytes + more, id) =~= rewritten(
                bytes + more,
                id,
            ));
        },
        Some(n) => {
            let event = bytes.take(n as int);
            let rest = bytes.skip(n as int);
            sse::nothing_complete_is_left(rest);
            assert(pending(bytes) =~= pending(rest));
            sse::event_with_more(bytes, more);
            cuts_do_not_matter(rest, more, id);
            sse::regrouped(
                rewritten_event(event, id),
                rewritten(completed(rest), id),
                rewritten(pending(rest) + more, id),
            );
            if n == bytes.len() && sse::split_end(bytes, more) {
                assert(event =~= bytes);
                assert(rest + more =~= more);
                split_event_is_rewritten(event, more, id);
            } else {
                assert((bytes + more).take(n as int) =~= event);
                assert((bytes + more).skip(n as int) =~= rest + more);
            }
        },
    }
}

/// The bytes of the pieces of a stream, in order.
pub open spec fn joined(chunks: Seq<Seq<u8>>) -> Seq<u8>
    decreases chunks.len(),
{
    if chunks.len() == 0 {
        Seq::empty()
    } else {
        chunks[0] + joined(chunks.skip(1))
    }
}

/// What a change sends on.
pub open spec fn sent_by(change: ChangeView) -> Seq<u8> {
    match change {
        ChangeView::Keep => Seq::empty(),
        ChangeView::Replace(bytes) => bytes,
    }
}

/// All that is sent on for the pieces of a stream and its end.
pub open spec fn sent_for(wire: Wire, max: nat, chunks: Seq<Seq<u8>>) -> Seq<u8>
    decreases chunks.len(),
{
    if chunks.len() == 0 {
        sent_by(wire_step(wire, max, None, true).1)
    } else {
        let (next, change) = wire_step(wire, max, Some(chunks[0]), false);
        sent_by(change) + sent_for(next, max, chunks.skip(1))
    }
}

/// Whether no piece of a stream leaves more than `max` bytes to hold back.
pub open spec fn fits(held: Seq<u8>, max: nat, chunks: Seq<Seq<u8>>) -> bool
    decreases chunks.len(),
{
    chunks.len() > 0 ==> pending(held + chunks[0]).len() <= max && fits(
        pending(held + chunks[0]),
        max,
        chunks.skip(1),
    )
}

/// However a stream is cut into pieces, what is sent on for them is the stream
/// with the predecessor set in each event that carries a response, as long as
/// no partial event exceeds the limit.
pub proof fn pieces_are_rewritten_as_a_whole(
    held: Seq<u8>,
    id: Seq<char>,
    max: nat,
    chunks: Seq<Seq<u8>>,
)
    requires
        fits(held, max, chunks),
    ensures
        sent_for(Wire { held, id: Some(id) }, max, chunks) == rewritten(held + joined(chunks), id),
    decreases chunks.len(),
{
    if chunks.len() == 0 {
        assert(held + joined(chunks) =~= held);
        cuts_do_not_matter(held, Seq::empty(), id);
        sse::nothing_complete_is_left(held);
        assert(pending(held) + Seq::<u8>::empty() =~= pending(held));
        assert(held + Seq::<u8>::empty() =~= held);
        if pending(held).len() == 0 {
            assert(rewritten(completed(held), id) + pending(held) =~= rewritten(
                completed(held),
                id,
            ));
        }
    } else {
        let bytes = held + chunks[0];
        let rest = chunks.skip(1);
        pieces_are_rewritten_as_a_whole(pending(bytes), id, max, rest);
        cuts_do_not_matter(bytes, joined(rest), id);
        assert(held + joined(chunks) =~= bytes + joined(rest));
    }
}

/// Without a predecessor to set, what is sent on is what came in.
pub proof fn nothing_changes_without_a_predecessor(held: Seq<u8>, max: nat, chunks: Seq<Seq<u8>>)
    ensures
        sent_for(Wire { held, id: None }, max, chunks) == held + joined(chunks),
    decreases chunks.len(),
{
    if chunks.len() == 0 {
        sse::nothing_complete_is_left(held);
        assert(completed(held) + pending(held) =~= held);
        if pending(held).len() == 0 {
            assert(completed(held) =~= held);
        }
        assert(held + joined(chunks) =~= held);
    } else {
        let bytes = held + chunks[0];
        let rest = chunks.skip(1);
        sse::nothing_complete_is_left(bytes);
        assert(completed(bytes) + pending(bytes) =~= bytes);
        let (next, change) = wire_step(Wire { held, id: None }, max, Some(chunks[0]), false);
        nothing_changes_without_a_predecessor(next.held, max, rest);
        assert(held + joined(chunks) =~= bytes + joined(rest));
        if pending(bytes).len() > max {
            assert(bytes + (Seq::<u8>::empty() + joined(rest)) =~= bytes + joined(rest));
        } else {
            sse::regrouped(completed(bytes), pending(bytes), joined(rest));
        }
    }
}

/// No more than the limit is held back of a stream, and nothing at its end.
pub proof fn held_bytes_are_bounded(wire: Wire, max: nat, chunk: Option<Seq<u8>>, end: bool)
    requires
        wire.held.len() <= max,
    ensures
        wire_step(wire, max, chunk, end).0.held.len() <= max,
        end ==> wire_step(wire, max, chunk, end).0.held.len() == 0,
{
}

/// An event that does not carry a response is sent on byte for byte.
pub proof fn other_events_are_kept(raw: Seq<u8>, id: Seq<char>)
    requires
        sse::data_of(raw) matches Some(data) ==> (json::json_read(data) matches Ok(payload)
            ==> restored(payload, id) is None),
    ensures
        rewritten_event(raw, id) == raw,
{
}

/// A payload that the predecessor was set in has it in its response, or in
/// itself where it has no response, and keeps its type.
pub proof fn restored_payloads_name_their_predecessor(payload: JsonView, id: Seq<char>)
    ensures
        restored(payload, id) matches Some(changed) ==> {
            &&& json::member(changed, "type"@) == json::member(payload, "type"@)
            &&& json::member(
                match json::member(changed, "response"@) {
                    Some(response) => response,
                    None => changed,
                },
                "previous_response_id"@,
            ) == Some(JsonView::Text(id))
        },
{
    reveal_strlit("type");
    reveal_strlit("response");
    reveal_strlit("previous_response_id");
    assert("type"@.len() != "response"@.len());
    assert("type"@.len() != "previous_response_id"@.len());
    assert("response"@.len() != "previous_response_id"@.len());
}

/// A stream that is complete stays complete, and the time when it first was is
/// kept.
pub proof fn completion_is_kept(
    start: Progress,
    frames: Seq<FrameReport>,
    upto: nat,
    now: u128,
)
    ensures
        !(start.completion is Open) ==> !(followed(start, frames, upto, now).0.completion is Open),
        start.completed_at is Some ==> followed(start, frames, upto, now).0.completed_at
            == start.completed_at,
    decreases upto,
{
    if upto > 0 {
        completion_is_kept(start, frames, (upto - 1) as nat, now);
    }
}

/// After an error no event is accepted, and after the end of the response's
/// life none but an error.
pub proof fn nothing_follows_the_end(kind: EventKind)
    ensures
        completion_after(CompletionState::Error, kind) is None,
        completion_after(CompletionState::TerminalLifecycle, kind) is Some <==> kind is Error,
{
}

} // verus!
