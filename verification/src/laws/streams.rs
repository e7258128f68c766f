//! What happens to the events of a response stream.
#[allow(unused_imports)]
use crate::headers;
#[allow(unused_imports)]
use crate::json::{self, JsonView};
#[allow(unused_imports)]
use crate::sse;
#[allow(unused_imports)]
use crate::stream_events::{
    self, ChangeView, CompletionState, ErrorView, EventKind, FrameReport, Progress,
    StreamEventsState, Wire,
};
#[allow(unused_imports)]
use crate::text;
use vstd::prelude::*;

verus! {

/// Whether a payload is of one of the six types of events that carry a response.
pub open spec fn carries_a_response(payload: JsonView) -> bool {
    let kind = json::member(payload, "type"@);
    ||| kind == Some(JsonView::Text("response.created"@))
    ||| kind == Some(JsonView::Text("response.queued"@))
    ||| kind == Some(JsonView::Text("response.in_progress"@))
    ||| kind == Some(JsonView::Text("response.completed"@))
    ||| kind == Some(JsonView::Text("response.incomplete"@))
    ||| kind == Some(JsonView::Text("response.failed"@))
}

proof fn payload_keys_differ()
    ensures
        "type"@ != "response"@,
        "type"@ != "previous_response_id"@,
        "response"@ != "previous_response_id"@,
{
    reveal_strlit("type");
    reveal_strlit("response");
    reveal_strlit("previous_response_id");
    assert("type"@.len() != "response"@.len());
    assert("type"@.len() != "previous_response_id"@.len());
    assert("response"@.len() != "previous_response_id"@.len());
}

/// A payload of each of the six types whose response is an object is rewritten:
/// its response then names the predecessor, and everything else in the response
/// and beside it is as it was. A payload of such a type without a response names
/// the predecessor itself.
pub proof fn responses_name_their_predecessor(payload: JsonView, id: Seq<char>, key: Seq<char>)
    requires
        carries_a_response(payload),
    ensures
        ({
            let changed = stream_events::restored(payload, id);
            match json::member(payload, "response"@) {
                Some(JsonView::Object(response)) => {
                    &&& changed matches Some(JsonView::Object(_))
                    &&& json::member(changed->0, "response"@) matches Some(JsonView::Object(_))
                    &&& json::member(
                        json::member(changed->0, "response"@)->0,
                        "previous_response_id"@,
                    ) == Some(JsonView::Text(id))
                    &&& key != "previous_response_id"@ ==> json::member(
                        json::member(changed->0, "response"@)->0,
                        key,
                    ) == json::field(response, key)
                    &&& key != "response"@ ==> json::member(changed->0, key) == json::member(
                        payload,
                        key,
                    )
                },
                Some(_) => changed is None,
                None => {
                    &&& changed matches Some(JsonView::Object(_))
                    &&& json::member(changed->0, "previous_response_id"@) == Some(
                        JsonView::Text(id),
                    )
                    &&& key != "previous_response_id"@ ==> json::member(changed->0, key)
                        == json::member(payload, key)
                },
            }
        }),
{
    payload_keys_differ();
}

/// A payload of any other type, or without a type, is not rewritten.
pub proof fn other_payloads_are_not_rewritten(payload: JsonView, id: Seq<char>)
    requires
        !carries_a_response(payload),
    ensures
        stream_events::restored(payload, id) is None,
{
}

/// An event whose data reads as a payload of one of the six types, with an
/// object as its response, is sent on with other data: the text of a payload
/// whose response names the predecessor.
pub proof fn lifecycle_events_are_rewritten(
    raw: Seq<u8>,
    id: Seq<char>,
    payload: JsonView,
    changed: JsonView,
    written: Seq<u8>,
)
    requires
        sse::data_of(raw) matches Some(data) && json::json_read(data) == Ok::<JsonView, Seq<char>>(
            payload,
        ),
        carries_a_response(payload),
        json::member(payload, "response"@) matches Some(JsonView::Object(_)),
        stream_events::restored(payload, id) == Some(changed),
        json::json_written(changed) == Ok::<Seq<u8>, Seq<char>>(written),
        sse::unbroken(written),
    ensures
        sse::data_of(stream_events::rewritten_event(raw, id)) == Some(written),
        json::member(changed, "response"@) matches Some(response) && json::member(
            response,
            "previous_response_id"@,
        ) == Some(JsonView::Text(id)),
{
    responses_name_their_predecessor(payload, id, "type"@);
    sse::replaced_data_reads_back(raw, written);
}

/// An event whose data is no JSON, or reads as a payload of any other type, and
/// one without data, is sent on byte for byte.
pub proof fn other_events_are_sent_on(raw: Seq<u8>, id: Seq<char>)
    requires
        sse::data_of(raw) matches Some(data) ==> (json::json_read(data) matches Ok(payload)
            ==> !carries_a_response(payload)),
    ensures
        stream_events::rewritten_event(raw, id) == raw,
{
}

/// A stream is rewritten event by event: the first complete event, and then the
/// rest. What holds no complete event is kept as it is.
pub proof fn events_are_rewritten_one_by_one(bytes: Seq<u8>, id: Seq<char>)
    ensures
        sse::event_len(bytes) matches Some(n) ==> stream_events::rewritten(bytes, id)
            == stream_events::rewritten_event(bytes.take(n as int), id) + stream_events::rewritten(
            bytes.skip(n as int),
            id,
        ),
        sse::event_len(bytes) is None ==> stream_events::rewritten(bytes, id) == bytes,
{
}

/// Where a partial event exceeds the limit, nothing is held back and nothing is
/// rewritten from then on, but no byte is lost: the complete events before it
/// are sent on rewritten and the partial event as it came.
pub proof fn too_long_events_end_the_rewriting(
    held: Seq<u8>,
    id: Seq<char>,
    max: nat,
    chunk: Seq<u8>,
)
    requires
        stream_events::pending(held + chunk).len() > max,
    ensures
        ({
            let (next, change) = stream_events::wire_step(
                Wire { held, id: Some(id) },
                max,
                Some(chunk),
                false,
            );
            let complete = sse::completed_len(held + chunk) as int;
            &&& next.held.len() == 0
            &&& next.id is None
            &&& change == ChangeView::Replace(
                stream_events::rewritten((held + chunk).take(complete), id) + (held + chunk).skip(
                    complete,
                ),
            )
        }),
{
}

/// Without bytes, and before the end, nothing happens; at the end whatever is
/// held back is sent on.
pub proof fn held_bytes_are_sent_at_the_end(held: Seq<u8>, id: Option<Seq<char>>, max: nat)
    requires
        sse::event_len(held) is None,
    ensures
        stream_events::wire_step(Wire { held, id }, max, None, false) == (
            Wire { held, id },
            ChangeView::Keep,
        ),
        stream_events::wire_step(Wire { held, id }, max, None, true).1 == ChangeView::Replace(held),
{
    let complete = stream_events::completed(held);
    assert(complete =~= Seq::empty());
    assert(sse::line_len(complete) == 0);
    assert(sse::event_len(complete) is None);
    let sent = stream_events::rewritten_if(complete, id);
    assert(sent =~= Seq::empty());
    assert(stream_events::pending(held) =~= held);
    assert(sent + held =~= held);
    if held.len() == 0 {
        assert(held =~= sent);
    }
}

/// A request asks for a followed stream by posting to the Responses API, and in
/// no other way.
pub proof fn responses_are_created_by_posting(method: Seq<char>, path: Seq<char>)
    ensures
        stream_events::creates_response(method, path) <==> method == "POST"@ && path
            == "/v1/responses"@,
{
}

proof fn no_mark_before_end(t: Seq<char>, mark: char)
    requires
        forall|i: int| 0 <= i < t.len() ==> t[i] != mark,
    ensures
        text::before(t, mark) == t,
{
    text::before_is_take(t, mark, t.len() as int);
    assert(t.take(t.len() as int) =~= t);
}

/// The content type of an event stream is `text/event-stream`, whatever the case
/// of its letters and with any parameters behind it.
pub proof fn event_streams_are_known_by_type(name: Seq<char>, parameters: Seq<char>)
    requires
        text::lowered(name) == "text/event-stream"@,
    ensures
        stream_events::event_stream_type(name),
        stream_events::event_stream_type(name + ";"@ + parameters),
{
    reveal_strlit("text/event-stream");
    reveal_strlit(";");
    let lower = text::lowered(name);
    assert("text/event-stream"@.len() == 17);
    assert(lower.len() == name.len());
    assert forall|i: int| 0 <= i < name.len() implies name[i] != ';' && !text::white(name[i]) by {
        assert(lower[i] == text::lower(name[i]));
        assert(lower[i] == "text/event-stream"@[i]);
    }
    no_mark_before_end(name, ';');
    let whole = name + ";"@ + parameters;
    assert(whole[17] == ';');
    assert(forall|i: int| 0 <= i < 17 ==> whole[i] == name[i]);
    text::before_is_take(whole, ';', 17);
    assert(whole.take(17) =~= name);
    assert(text::trimmed_start(name) == name);
    assert(text::trimmed_end(name) == name);
}

/// A type of another length than `text/event-stream`, with nothing behind it and
/// no white space around it, is not that of an event stream.
pub proof fn other_types_are_no_event_streams(name: Seq<char>)
    requires
        name.len() > 0,
        forall|i: int| 0 <= i < name.len() ==> name[i] != ';',
        !text::white(name[0]),
        !text::white(name.last()),
        text::lowered(name) != "text/event-stream"@,
    ensures
        !stream_events::event_stream_type(name),
{
    no_mark_before_end(name, ';');
    assert(text::trimmed_start(name) == name);
    assert(text::trimmed_end(name) == name);
}

/// An answer is followed only where its status says success and it has a
/// content type that is that of an event stream.
pub proof fn only_successful_streams_are_followed(
    status: u16,
    lines: Map<Seq<char>, Seq<Seq<u8>>>,
)
    ensures
        status < 200 || status > 299 ==> !stream_events::success_stream(Some((status, lines))),
        !lines.contains_key("content-type"@) ==> !stream_events::success_stream(
            Some((status, lines)),
        ),
        200 <= status <= 299 ==> stream_events::success_stream(Some((status, lines))) == (
        headers::text_line(lines, "content-type"@) matches Some(kind)
            && stream_events::event_stream_type(kind)),
        stream_events::success_stream(None),
{
}

/// An answer comes without content coding where it names none, or names
/// `identity`, whatever the case of its letters.
pub proof fn only_plain_answers_are_rewritten(lines: Map<Seq<char>, Seq<Seq<u8>>>)
    ensures
        !lines.contains_key("content-encoding"@) ==> stream_events::identity_encoded(Some(lines)),
        lines.contains_key("content-encoding"@) ==> stream_events::identity_encoded(Some(lines))
            == (headers::text_line(lines, "content-encoding"@) matches Some(coding)
            && text::lowered(coding) == "identity"@),
        stream_events::identity_encoded(None),
{
}

/// A rewritten answer loses the eight header fields that speak of the exact
/// bytes of the body, and keeps every other.
pub proof fn only_representation_headers_are_removed(
    lines: Map<Seq<char>, Seq<Seq<u8>>>,
    name: Seq<char>,
)
    ensures
        ({
            let about_bytes = name == "content-length"@ || name == "content-encoding"@ || name
                == "content-range"@ || name == "etag"@ || name == "content-digest"@ || name
                == "content-md5"@ || name == "digest"@ || name == "repr-digest"@;
            let left = stream_events::represented(lines);
            &&& left.contains_key(name) <==> lines.contains_key(name) && !about_bytes
            &&& left.contains_key(name) ==> left[name] == lines[name]
        }),
{
}

/// A predecessor is put back only where it was resolved here and the answer
/// comes without content coding, and then it is the one that was resolved.
pub proof fn predecessors_are_put_back_where_resolved(
    identity: bool,
    resolved: bool,
    id: Option<Seq<char>>,
)
    ensures
        !identity ==> stream_events::predecessor(identity, resolved, id) is None,
        !resolved ==> stream_events::predecessor(identity, resolved, id) is None,
        identity && resolved ==> stream_events::predecessor(identity, resolved, id) == id,
{
}

/// A stream runs out of time once more than its timeout has passed since its
/// first piece, and not before; the complaint states both times.
pub proof fn streams_have_their_time(state: StreamEventsState, now: u128)
    ensures
        state.started_at is None ==> state.time_check(now) is Ok,
        state.started_at matches Some(at) ==> if now <= at + state.timeout {
            state.time_check(now) is Ok
        } else {
            state.time_check(now) == Err::<(), ErrorView>(
                ErrorView::Timeout { elapsed: (now - at) as nat, limit: state.timeout as nat },
            )
        },
{
}

/// A stream ends well exactly where an event ended it, and that in time: within
/// the timeout from its first piece, however late its end is looked at.
pub proof fn streams_have_to_end_in_time(state: StreamEventsState, now: u128)
    ensures
        state.completion_state is Open ==> stream_events::ended_badly(state, now),
        !(state.completion_state is Open) ==> (stream_events::ended_badly(state, now) <==> (
        state.started_at matches Some(at) && (match state.completed_at {
            Some(completed) => completed,
            None => now,
        }) > at + state.timeout)),
{
}

/// How a stream is complete after an event: an open stream stays open after an
/// ordinary event and is complete after one that ends the response's life; an
/// error is final; and after the end of the response's life only an error may
/// come.
pub proof fn events_complete_a_stream(state: CompletionState)
    ensures
        stream_events::completion_after(CompletionState::Open, EventKind::Other) == Some(
            CompletionState::Open,
        ),
        stream_events::completion_after(CompletionState::Open, EventKind::Terminal) == Some(
            CompletionState::TerminalLifecycle,
        ),
        !(state is Error) ==> stream_events::completion_after(state, EventKind::Error) == Some(
            CompletionState::Error,
        ),
        state is Error ==> stream_events::completion_after(state, EventKind::Error) is None,
        !(state is Open) ==> stream_events::completion_after(state, EventKind::Other) is None
            && stream_events::completion_after(state, EventKind::Terminal) is None,
{
}

/// How many frames are not the sentinel.
pub open spec fn events_among(frames: Seq<FrameReport>) -> nat
    decreases frames.len(),
{
    if frames.len() == 0 {
        0
    } else {
        events_among(frames.drop_last()) + if frames.last() is Done {
            0nat
        } else {
            1nat
        }
    }
}

/// Where every frame is accepted, each that is not the sentinel was counted and
/// accepted, and none was malformed. Where one is not, the count includes it and
/// every one before it, and those before it were accepted.
pub proof fn frames_are_counted(
    start: Progress,
    frames: Seq<FrameReport>,
    upto: nat,
    now: u128,
)
    requires
        upto <= frames.len(),
    ensures
        ({
            let (after, result) = stream_events::followed(start, frames, upto, now);
            &&& result is Ok ==> after.event_count == start.event_count + events_among(
                frames.take(upto as int),
            ) && after.accepted == start.accepted + events_among(frames.take(upto as int))
                && forall|i: int| 0 <= i < upto ==> !(#[trigger] frames[i] is Malformed)
            &&& result is Err ==> after.event_count - start.event_count == after.accepted
                - start.accepted + 1
        }),
    decreases upto,
{
    if upto == 0 {
        assert(frames.take(0) =~= Seq::empty());
    } else {
        frames_are_counted(start, frames, (upto - 1) as nat, now);
        assert(frames.take(upto as int).drop_last() =~= frames.take(upto - 1));
        assert(frames.take(upto as int).last() == frames[upto - 1]);
    }
}

/// The first event that completes a stream sets the time of its completion, and
/// an ordinary event sets none.
pub proof fn completion_has_a_time(
    progress: Progress,
    completion: CompletionState,
    kind: EventKind,
    now: u128,
)
    ensures
        ({
            let after = stream_events::progressed(progress, completion, kind, now);
            &&& after.completion == completion
            &&& progress.completed_at is Some || kind is Other ==> after.completed_at
                == progress.completed_at
            &&& progress.completed_at is None && !(kind is Other) ==> after.completed_at == Some(
                now,
            )
            &&& after.event_count == progress.event_count && after.accepted == progress.accepted
        }),
{
}

/// An event whose payload cannot be written with its predecessor is sent on byte
/// for byte.
pub proof fn unwritable_events_are_sent_on(
    raw: Seq<u8>,
    id: Seq<char>,
    payload: JsonView,
    changed: JsonView,
)
    requires
        sse::data_of(raw) matches Some(data) && json::json_read(data) == Ok::<JsonView, Seq<char>>(
            payload,
        ),
        stream_events::restored(payload, id) == Some(changed),
        json::json_written(changed) is Err,
    ensures
        stream_events::rewritten_event(raw, id) == raw,
{
}

/// A setting that is made holds, and its default holds where it is not.
pub proof fn settings_hold(made: usize, default: usize)
    ensures
        stream_events::setting(Some(made), default) == made,
        stream_events::setting(None, default) == default,
{
}

/// The value of a header is read as the text of its bytes, character by character,
/// where each of them is a tab or visible; a value with any other byte is not read.
pub proof fn header_values_are_texts(
    lines: Map<Seq<char>, Seq<Seq<u8>>>,
    name: Seq<char>,
    at: int,
)
    ensures
        ({
            let read = headers::text_line(lines, name);
            let first = lines[name][0];
            &&& !lines.contains_key(name) ==> read is None
            &&& lines.contains_key(name) && (forall|i: int|
                0 <= i < first.len() ==> (#[trigger] first[i] == 9 || 32 <= first[i] <= 126)) ==> (
            read matches Some(value) && value.len() == first.len() && (0 <= at < value.len()
                ==> value[at] as int == first[at]))
            &&& lines.contains_key(name) && 0 <= at < first.len() && first[at] != 9 && !(32
                <= first[at] <= 126) ==> read is None
        }),
{
}

} // verus!
