//! The filter that turns a prepared request into the request of one worker
//! stage, and keeps what the worker hands over.
use crate::codec;
use crate::connectors::{self, EcConnector, KvConnector};
use crate::filter::{self, BodyAccess, BodyMode, Stop, StopView, MAX_BODY_BYTES};
use crate::json::{self, JsonMap, JsonView};
use crate::prepare;
use crate::state::{self, CoordinatorState, MultimodalEntry, Topology, WireFormat};
use crate::text;
use crate::transform;
use vstd::prelude::*;

verus! {

/// A stage of the pipeline.
#[derive(Clone, Copy, Debug, PartialEq, Eq, Structural)]
pub enum Stage {
    ConditionalDecode,
    Encode,
    Prefill,
    Decode,
}

impl Stage {
    /// The scheduling profile of the workers of a stage.
    pub open spec fn role(self) -> Seq<char> {
        match self {
            Stage::ConditionalDecode | Stage::Decode => "decode"@,
            Stage::Encode => "encode"@,
            Stage::Prefill => "prefill"@,
        }
    }

    /// Whether the answer of the stage goes to the client.
    pub open spec fn answers_client(self) -> bool {
        self is ConditionalDecode || self is Decode
    }
}

/// How a stage runs. What is not set is as the request was prepared.
#[derive(Debug)]
pub struct StageConfig {
    pub phase: Stage,
    pub use_openai_format: Option<bool>,
    pub kv_connector: Option<KvConnector>,
    pub ec_connector: Option<EcConnector>,
    pub max_body_bytes: usize,
}

impl StageConfig {
    /// The configuration with nothing set but the stage.
    pub fn new(phase: Stage) -> (r: StageConfig)
        ensures
            r.phase == phase,
            r.use_openai_format is None,
            r.kv_connector is None,
            r.ec_connector is None,
            r.max_body_bytes == MAX_BODY_BYTES,
    {
        StageConfig {
            phase,
            use_openai_format: None,
            kv_connector: None,
            ec_connector: None,
            max_body_bytes: prepare::default_max_body_bytes(),
        }
    }

    /// The wire format of the stage for a prepared request.
    pub open spec fn format_for(self, state: CoordinatorState) -> WireFormat {
        match self.use_openai_format {
            Some(openai) => WireFormat::of(state.original_path@, openai),
            None => state.format,
        }
    }

    /// The KV connector of the stage for a prepared request.
    pub open spec fn kv_for(self, state: CoordinatorState) -> KvConnector {
        match self.kv_connector {
            Some(connector) => connector,
            None => state.kv_connector,
        }
    }

    /// The encoder-cache connector of the stage for a prepared request.
    pub open spec fn ec_for(self, state: CoordinatorState) -> EcConnector {
        match self.ec_connector {
            Some(connector) => connector,
            None => state.ec_connector,
        }
    }
}

/// The answer of an encode worker.
#[derive(Debug)]
pub struct EncodeResponse {
    pub key: String,
    pub body: Vec<u8>,
}

/// The answers of encode workers, as far as they are objects, or the complaint
/// about the first that is none.
pub open spec fn responses_read(responses: Seq<EncodeResponse>, upto: nat) -> Result<
    Seq<Map<Seq<char>, JsonView>>,
    StopView,
>
    decreases upto,
{
    if upto == 0 {
        Ok(Seq::empty())
    } else {
        match responses_read(responses, (upto - 1) as nat) {
            Err(stop) => Err(stop),
            Ok(read) => match json::object_read(responses[upto - 1].body@) {
                Ok(members) => Ok(read.push(members)),
                Err(error) => Err(
                    StopView::Fail(
                        "llmd_stage: invalid encode response '"@ + responses[upto - 1].key@
                            + "': "@ + error,
                    ),
                ),
            },
        }
    }
}

/// What reading the answers of encode workers says.
pub open spec fn maps_result(r: Result<Vec<JsonMap>, Stop>) -> Result<
    Seq<Map<Seq<char>, JsonView>>,
    StopView,
> {
    match r {
        Ok(maps) => Ok(connectors::responses_of(maps@)),
        Err(stop) => Err(stop@),
    }
}

proof fn responses_read_stop(responses: Seq<EncodeResponse>, upto: nat, more: nat)
    requires
        upto <= more,
        responses_read(responses, upto) is Err,
    ensures
        responses_read(responses, more) == responses_read(responses, upto),
    decreases more,
{
    if upto < more {
        responses_read_stop(responses, upto, (more - 1) as nat);
    }
}

/// Reads the answers of encode workers.
pub fn read_encode_responses(responses: &Vec<EncodeResponse>) -> (r: Result<Vec<JsonMap>, Stop>)
    ensures
        maps_result(r) == responses_read(responses@, responses@.len()),
{
    let mut maps: Vec<JsonMap> = Vec::new();
    proof {
        assert(connectors::responses_of(maps@) =~= Seq::empty());
    }
    let mut i: usize = 0;
    while i < responses.len()
        invariant
            i <= responses.len(),
            responses_read(responses@, i as nat) == Ok::<
                Seq<Map<Seq<char>, JsonView>>,
                StopView,
            >(connectors::responses_of(maps@)),
        decreases responses.len() - i,
    {
        match json::read_object(responses[i].body.as_slice()) {
            Ok(members) => {
                let ghost held = maps@;
                maps.push(members);
                proof {
                    assert(connectors::responses_of(maps@) =~= connectors::responses_of(held).push(
                        json::members_of(members),
                    ));
                }
            },
            Err(error) => {
                let place = text::join3(
                    "llmd_stage: invalid encode response '",
                    responses[i].key.as_str(),
                    "': ",
                );
                let message = text::join2(place.as_str(), error.as_str());
                proof {
                    responses_read_stop(responses@, (i + 1) as nat, responses@.len());
                }
                return Err(Stop::Fail(message));
            },
        }
        i += 1;
    }
    Ok(maps)
}

/// Whether the request has an item with this hash.
pub open spec fn asked_for(entries: Seq<MultimodalEntry>, hash: Seq<char>) -> bool {
    exists|i: int| 0 <= i < entries.len() && (#[trigger] entries[i]).hash@ == hash
}

/// Whether each item of the request has a descriptor.
pub open spec fn all_described(
    entries: Seq<MultimodalEntry>,
    descriptors: Map<Seq<char>, JsonView>,
) -> bool {
    forall|i: int|
        0 <= i < entries.len() ==> descriptors.contains_key((#[trigger] entries[i]).hash@)
}

/// Whether each descriptor is that of an item of the request.
pub open spec fn only_asked_for(
    entries: Seq<MultimodalEntry>,
    descriptors: Map<Seq<char>, JsonView>,
) -> bool {
    forall|hash: Seq<char>| #[trigger]
        descriptors.contains_key(hash) ==> asked_for(entries, hash)
}

/// Whether a character can stand in the name or address of a host.
pub open spec fn host_char(c: char) -> bool {
    ||| 'a' <= c <= 'z'
    ||| 'A' <= c <= 'Z'
    ||| '0' <= c <= '9'
    ||| c == '-'
    ||| c == '.'
    ||| c == '_'
    ||| c == ':'
    ||| c == '%'
    ||| c == '['
    ||| c == ']'
}

/// Whether a text can be the name or address of a host.
pub open spec fn is_host(text: Seq<char>) -> bool {
    text.len() > 0 && forall|i: int| 0 <= i < text.len() ==> host_char(#[trigger] text[i])
}

/// Whether a number is a port that can be connected to.
pub open spec fn is_port(n: int) -> bool {
    1 <= n <= u16::MAX
}

/// Whether a descriptor holds what prefill needs to fetch from an encoder: its
/// host and port, a size within the limit, and metadata in base64.
pub open spec fn names_an_encoder(descriptor: JsonView, max_bytes: nat) -> bool {
    &&& json::member(descriptor, "peer_host"@) matches Some(JsonView::Text(host)) && is_host(host)
    &&& json::member(descriptor, "peer_port"@) matches Some(JsonView::Whole(port)) && is_port(port)
    &&& json::member(descriptor, "size_bytes"@) matches Some(JsonView::Whole(size)) && 0 <= size
        <= max_bytes
    &&& json::member(descriptor, "nixl_agent_metadata_b64"@) matches Some(JsonView::Text(metadata))
        && codec::base64_bytes(metadata) is Some
}

/// Whether each descriptor names an encoder.
pub open spec fn all_name_encoders(
    descriptors: Map<Seq<char>, JsonView>,
    max_bytes: nat,
) -> bool {
    forall|hash: Seq<char>| #[trigger]
        descriptors.contains_key(hash) ==> names_an_encoder(descriptors[hash], max_bytes)
}

/// The descriptors that a connector takes over for the items of a request. A
/// peer protocol needs exactly one for each item, and each names an encoder.
pub open spec fn matched(
    connector: EcConnector,
    entries: Seq<MultimodalEntry>,
    descriptors: Map<Seq<char>, JsonView>,
    max_bytes: nat,
) -> Result<Map<Seq<char>, JsonView>, StopView> {
    if connector is EcSharedStorage {
        Ok(descriptors)
    } else if !all_described(entries, descriptors) {
        Err(StopView::Fail("llmd_stage: ec_transfer_params: requested mm_hash has no descriptor"@))
    } else if !only_asked_for(entries, descriptors) {
        Err(
            StopView::Fail(
                "llmd_stage: ec_transfer_params: descriptor for an mm_hash not requested"@,
            ),
        )
    } else if !all_name_encoders(descriptors, max_bytes) {
        Err(StopView::Fail("llmd_stage: ec_transfer_params: invalid descriptor"@))
    } else {
        Ok(descriptors)
    }
}

/// What taking transfer parameters over says.
pub open spec fn params_result(r: Result<JsonMap, Stop>) -> Result<
    Map<Seq<char>, JsonView>,
    StopView,
> {
    match r {
        Ok(descriptors) => Ok(json::members_of(descriptors)),
        Err(stop) => Err(stop@),
    }
}

/// Whether the request has an item with this hash.
fn is_asked_for(entries: &Vec<MultimodalEntry>, hash: &str) -> (r: bool)
    ensures
        r == asked_for(entries@, hash@),
{
    let mut i: usize = 0;
    while i < entries.len()
        invariant
            i <= entries.len(),
            forall|j: int| 0 <= j < i ==> (#[trigger] entries@[j]).hash@ != hash@,
        decreases entries.len() - i,
    {
        if text::same(entries[i].hash.as_str(), hash) {
            return true;
        }
        i += 1;
    }
    false
}

/// Whether a text can be the name or address of a host.
fn is_host_name(text: &str) -> (r: bool)
    ensures
        r == is_host(text@),
{
    let chars = text::chars_of(text);
    let mut i: usize = 0;
    while i < chars.len()
        invariant
            chars@ == text@,
            i <= chars.len(),
            forall|j: int| 0 <= j < i ==> host_char(#[trigger] text@[j]),
        decreases chars.len() - i,
    {
        let c = chars[i];
        let known = ('a' <= c && c <= 'z') || ('A' <= c && c <= 'Z') || ('0' <= c && c <= '9') || c
            == '-' || c == '.' || c == '_' || c == ':' || c == '%' || c == '[' || c == ']';
        if !known {
            proof {
                assert(!host_char(text@[i as int]));
            }
            return false;
        }
        i += 1;
    }
    chars.len() > 0
}

/// Whether a member is an integer between two bounds.
fn has_number(members: &JsonMap, key: &str, low: u64, high: u64) -> (r: bool)
    ensures
        r == (json::field(json::members_of(*members), key@) matches Some(JsonView::Whole(n)) && low
            <= n <= high),
{
    match json::get_member(members, key) {
        Some(value) => match json::as_whole(value) {
            Some(n) => low <= n && n <= high,
            None => false,
        },
        None => false,
    }
}

/// Whether a descriptor holds what prefill needs to fetch from an encoder.
fn is_encoder(descriptor: &serde_json::Value, max_bytes: usize) -> (r: bool)
    ensures
        r == names_an_encoder(json::json_of(*descriptor), max_bytes as nat),
{
    let members = match json::as_object(descriptor) {
        Some(members) => members,
        None => {
            return false;
        },
    };
    let host = match json::get_member(members, "peer_host") {
        Some(value) => match json::as_text(value) {
            Some(host) => is_host_name(host),
            None => false,
        },
        None => false,
    };
    let metadata = match json::get_member(members, "nixl_agent_metadata_b64") {
        Some(value) => match json::as_text(value) {
            Some(metadata) => codec::decode_base64(metadata).is_some(),
            None => false,
        },
        None => false,
    };
    host && metadata && has_number(members, "peer_port", 1, 65535) && has_number(
        members,
        "size_bytes",
        0,
        max_bytes as u64,
    )
}

/// Takes descriptors over for the items of a request.
pub fn match_descriptors(
    connector: EcConnector,
    entries: &Vec<MultimodalEntry>,
    descriptors: JsonMap,
    max_bytes: usize,
) -> (r: Result<JsonMap, Stop>)
    ensures
        params_result(r) == matched(
            connector,
            entries@,
            json::members_of(descriptors),
            max_bytes as nat,
        ),
{
    if connector == EcConnector::EcSharedStorage {
        return Ok(descriptors);
    }
    let mut i: usize = 0;
    while i < entries.len()
        invariant
            connector is EcNixl,
            i <= entries.len(),
            forall|j: int|
                0 <= j < i ==> json::members_of(descriptors).contains_key(
                    (#[trigger] entries@[j]).hash@,
                ),
        decreases entries.len() - i,
    {
        if json::get_member(&descriptors, entries[i].hash.as_str()).is_none() {
            proof {
                assert(!json::members_of(descriptors).contains_key(entries@[i as int].hash@));
            }
            return Err(
                Stop::Fail(
                    "llmd_stage: ec_transfer_params: requested mm_hash has no descriptor".to_owned(),
                ),
            );
        }
        i += 1;
    }
    let rows = json::list_members(&descriptors);
    let ghost list = json::rows_of(rows@);
    let mut k: usize = 0;
    while k < rows.len()
        invariant
            connector is EcNixl,
            all_described(entries@, json::members_of(descriptors)),
            list == json::rows_of(rows@),
            json::lists(list, json::members_of(descriptors)),
            k <= rows.len(),
            forall|j: int| 0 <= j < k ==> asked_for(entries@, (#[trigger] list[j]).0),
        decreases rows.len() - k,
    {
        proof {
            assert(list[k as int].0 == rows@[k as int].0@);
        }
        if !is_asked_for(entries, rows[k].0.as_str()) {
            proof {
                assert(json::members_of(descriptors).contains_key(list[k as int].0));
            }
            return Err(
                Stop::Fail(
                    "llmd_stage: ec_transfer_params: descriptor for an mm_hash not requested".to_owned(),
                ),
            );
        }
        k += 1;
    }
    let mut m: usize = 0;
    while m < rows.len()
        invariant
            connector is EcNixl,
            all_described(entries@, json::members_of(descriptors)),
            only_asked_for(entries@, json::members_of(descriptors)),
            list == json::rows_of(rows@),
            json::lists(list, json::members_of(descriptors)),
            m <= rows.len(),
            forall|j: int|
                0 <= j < m ==> names_an_encoder((#[trigger] list[j]).1, max_bytes as nat),
        decreases rows.len() - m,
    {
        proof {
            assert(list[m as int].1 == json::json_of(rows@[m as int].1));
            assert(json::members_of(descriptors).contains_key(list[m as int].0));
        }
        if !is_encoder(&rows[m].1, max_bytes) {
            return Err(
                Stop::Fail("llmd_stage: ec_transfer_params: invalid descriptor".to_owned()),
            );
        }
        m += 1;
    }
    proof {
        assert forall|hash: Seq<char>| #[trigger]
            json::members_of(descriptors).contains_key(hash) implies names_an_encoder(
            json::members_of(descriptors)[hash],
            max_bytes as nat,
        ) by {
            let j = choose|j: int| 0 <= j < list.len() && #[trigger] list[j].0 == hash;
            assert(names_an_encoder(list[j].1, max_bytes as nat));
        }
    }
    Ok(descriptors)
}

/// The encoder-cache parameters that prefill gets, given what the answers of
/// the encode workers read as.
pub open spec fn handed_to_prefill(
    config: StageConfig,
    state: Option<CoordinatorState>,
    read: Result<Seq<Map<Seq<char>, JsonView>>, StopView>,
) -> Result<Map<Seq<char>, JsonView>, StopView> {
    match read {
        Err(stop) => Err(stop),
        Ok(responses) => match state {
            None => Err(StopView::Fail("llmd_stage: coordinator state missing"@)),
            Some(state) => match config.ec_for(state).merge(responses) {
                Ok(params) => matched(
                    config.ec_for(state),
                    state.multimodal@,
                    params,
                    config.max_body_bytes as nat,
                ),
                Err(error) => Err(StopView::Fail("llmd_stage: "@ + error)),
            },
        },
    }
}

/// What a stage does to the head of a request.
#[derive(Debug)]
pub struct StageHead {
    /// The path to send the request to, where it is another.
    pub path: Option<&'static str>,
    /// The headers to set.
    pub headers: Vec<(&'static str, &'static str)>,
    /// Whether to ask for an answer that is streamed to the client.
    pub streaming: bool,
}

/// What a `StageHead` is.
#[verifier::ext_equal]
pub struct HeadView {
    pub path: Option<Seq<char>>,
    pub headers: Seq<(Seq<char>, Seq<char>)>,
    pub streaming: bool,
}

impl View for StageHead {
    type V = HeadView;

    open spec fn view(&self) -> HeadView {
        HeadView {
            path: match self.path {
                Some(path) => Some(path@),
                None => None,
            },
            headers: self.headers@.map_values(
                |header: (&'static str, &'static str)| (header.0@, header.1@),
            ),
            streaming: self.streaming,
        }
    }
}

/// What changing the head of a request says.
pub open spec fn head_result(r: Result<StageHead, Stop>) -> Result<HeadView, StopView> {
    match r {
        Ok(head) => Ok(head@),
        Err(stop) => Err(stop@),
    }
}

/// The path that a request goes to, where it is not where it came in. One that
/// is passed through goes where it came in.
pub open spec fn rerouted(
    path: Seq<char>,
    config: StageConfig,
    state: CoordinatorState,
) -> Option<Seq<char>> {
    let route = config.format_for(state).route();
    if path == route || !state::orchestrated(state.original_path@) {
        None
    } else {
        Some(route)
    }
}

/// The head of an encode request.
pub open spec fn encode_head() -> HeadView {
    HeadView { path: None, headers: seq![("epp-profile"@, "encode"@)], streaming: false }
}

/// Whether a request skips a stage: one with media skips the conditional
/// stage, and one that is passed through skips every stage but decode.
pub open spec fn skips(phase: Stage, state: CoordinatorState) -> bool {
    ||| phase is ConditionalDecode && state.multimodal@.len() > 0
    ||| !(phase is Decode) && !state::orchestrated(state.original_path@)
}

/// The head of a stage's request that came in at `path`.
pub open spec fn stage_head(
    config: StageConfig,
    state: Option<CoordinatorState>,
    path: Seq<char>,
) -> Result<HeadView, StopView> {
    match state {
        None => Err(StopView::Fail("llmd_stage: coordinator state missing"@)),
        Some(state) => if skips(config.phase, state) {
            Err(StopView::Reject { status: 412, body: None })
        } else {
            let profile = ("epp-profile"@, config.phase.role());
            Ok(
                HeadView {
                    path: rerouted(path, config, state),
                    headers: if config.phase is ConditionalDecode {
                        seq![profile, ("prefer"@, "if-available"@)]
                    } else {
                        seq![profile]
                    },
                    streaming: config.phase.answers_client(),
                },
            )
        },
    }
}

/// What a stage does to the body of a request.
#[derive(Debug)]
pub enum StageBody {
    /// Nothing yet: more of the body is to come.
    Pending,
    /// The head changes; a new body, where there is one, replaces the body.
    Ready { head: StageHead, body: Option<Vec<u8>> },
}

/// What a `StageBody` is.
pub enum BodyView {
    Pending,
    Ready { head: HeadView, body: Option<Seq<u8>> },
}

impl View for StageBody {
    type V = BodyView;

    open spec fn view(&self) -> BodyView {
        match self {
            StageBody::Pending => BodyView::Pending,
            StageBody::Ready { head, body } => BodyView::Ready {
                head: head@,
                body: match body {
                    Some(bytes) => Some(bytes@),
                    None => None,
                },
            },
        }
    }
}

/// What changing the body of a request says.
pub open spec fn body_result(r: Result<StageBody, Stop>) -> Result<BodyView, StopView> {
    match r {
        Ok(body) => Ok(body@),
        Err(stop) => Err(stop@),
    }
}

/// What a worker stage sends. Where decode does everything itself, there is
/// nothing to transfer.
pub open spec fn worker_request(config: StageConfig, state: CoordinatorState) -> JsonView {
    let format = config.format_for(state);
    JsonView::Object(
        match config.phase {
            Stage::ConditionalDecode => transform::conditional_view(state, format),
            Stage::Prefill => transform::prefill_view(state, format, config.kv_for(state)),
            _ => if state.topology is Combined {
                transform::combined_view(state, format)
            } else {
                transform::decode_view(state, format, config.kv_for(state))
            },
        },
    )
}

/// The head and body of a worker stage's request that came in at `path`,
/// given how what it sends is written. The body of a request that is passed
/// through is kept.
pub open spec fn stage_body(
    config: StageConfig,
    state: CoordinatorState,
    path: Seq<char>,
    written: Result<Seq<u8>, Seq<char>>,
) -> Result<BodyView, StopView> {
    let head = HeadView {
        path: rerouted(path, config, state),
        headers: seq![("epp-profile"@, config.phase.role())],
        streaming: false,
    };
    if !state::orchestrated(state.original_path@) {
        Ok(BodyView::Ready { head, body: None })
    } else {
        match written {
            Err(error) => Err(StopView::Fail("llmd_stage: serialize: "@ + error)),
            Ok(bytes) => Ok(BodyView::Ready { head, body: Some(bytes) }),
        }
    }
}

/// The KV parameters that a prefill worker's answer hands over, if it does.
pub open spec fn handed_over(response: JsonView) -> Option<Map<Seq<char>, JsonView>> {
    match json::member(response, "kv_transfer_params"@) {
        Some(JsonView::Object(params)) => Some(params),
        _ => None,
    }
}

/// Whether KV parameters hold what decode needs to reach the peer: the engine
/// and the host by name, the blocks as a list, and a port.
pub open spec fn names_a_peer(params: Map<Seq<char>, JsonView>) -> bool {
    &&& json::field(params, "remote_engine_id"@) matches Some(JsonView::Text(_))
    &&& json::field(params, "remote_block_ids"@) matches Some(JsonView::Array(_))
    &&& json::field(params, "remote_host"@) matches Some(JsonView::Text(_))
    &&& json::field(params, "remote_port"@) matches Some(JsonView::Whole(port)) && is_port(port)
}

/// The KV parameters that decode gets through a connector, given what the
/// answer of the prefill worker is. Shared storage needs that there are some, a
/// peer protocol that they name the peer.
pub open spec fn accepted_handover(connector: KvConnector, response: JsonView) -> Result<
    Map<Seq<char>, JsonView>,
    StopView,
> {
    match handed_over(response) {
        None => Err(StopView::Fail("llmd_stage: prefill response has no kv_transfer_params"@)),
        Some(params) => if connector is KvNixl && !names_a_peer(params) {
            Err(StopView::Fail("llmd_stage: invalid kv_transfer_params in prefill response"@))
        } else {
            Ok(params)
        },
    }
}

/// The KV parameters that decode gets, given what the answer of the prefill
/// worker reads as.
pub open spec fn handed_to_decode(
    config: StageConfig,
    state: Option<CoordinatorState>,
    read: Result<JsonView, Seq<char>>,
) -> Result<Map<Seq<char>, JsonView>, StopView> {
    match read {
        Err(error) => Err(StopView::Fail("llmd_stage: invalid prefill response: "@ + error)),
        Ok(response) => match state {
            None => Err(StopView::Fail("llmd_stage: coordinator state missing"@)),
            Some(state) => accepted_handover(config.kv_for(state), response),
        },
    }
}

/// Whether a request is passed through.
pub open spec fn passed(state: Option<CoordinatorState>) -> bool {
    state matches Some(state) && !state::orchestrated(state.original_path@)
}

/// Whether only the encoder-cache parameters differ.
pub open spec fn same_but_ec(a: CoordinatorState, b: CoordinatorState) -> bool {
    b == CoordinatorState { ec_transfer_params: b.ec_transfer_params, ..a }
}

/// Whether only the KV parameters differ.
pub open spec fn same_but_kv(a: CoordinatorState, b: CoordinatorState) -> bool {
    b == CoordinatorState { kv_transfer_params: b.kv_transfer_params, ..a }
}

/// Whether KV parameters hold what decode needs to reach the peer.
fn is_peer(params: &JsonMap) -> (r: bool)
    ensures
        r == names_a_peer(json::members_of(*params)),
{
    let engine = match json::get_member(params, "remote_engine_id") {
        Some(value) => json::as_text(value).is_some(),
        None => false,
    };
    let blocks = match json::get_member(params, "remote_block_ids") {
        Some(value) => json::as_array(value).is_some(),
        None => false,
    };
    let host = match json::get_member(params, "remote_host") {
        Some(value) => json::as_text(value).is_some(),
        None => false,
    };
    engine && blocks && host && has_number(params, "remote_port", 1, 65535)
}

/// Takes the KV parameters that an answer hands over through a connector.
pub fn read_handover(connector: KvConnector, response: &serde_json::Value) -> (r: Result<
    JsonMap,
    Stop,
>)
    ensures
        params_result(r) == accepted_handover(connector, json::json_of(*response)),
{
    let params = match json::as_object(response) {
        Some(members) => match json::get_member(members, "kv_transfer_params") {
            Some(params) => json::as_object(params),
            None => None,
        },
        None => None,
    };
    match params {
        None => Err(
            Stop::Fail("llmd_stage: prefill response has no kv_transfer_params".to_owned()),
        ),
        Some(params) => {
            if connector == KvConnector::KvNixl && !is_peer(params) {
                return Err(
                    Stop::Fail(
                        "llmd_stage: invalid kv_transfer_params in prefill response".to_owned(),
                    ),
                );
            }
            Ok(json::copy_members(params))
        },
    }
}

/// Transform one IRR request into an llm-d worker stage.
#[derive(Debug)]
pub struct LlmdStageFilter {
    pub config: StageConfig,
}

impl LlmdStageFilter {
    /// Construct from a configuration.
    pub fn from_config(config: StageConfig) -> (r: Result<LlmdStageFilter, String>)
        ensures
            match r {
                Ok(made) => filter::is_body_limit(config.max_body_bytes as nat) && made.config
                    == config,
                Err(message) => !filter::is_body_limit(config.max_body_bytes as nat) && message@
                    == "llmd_stage: max_body_bytes must be 1..=67108864"@,
            },
    {
        if config.max_body_bytes == 0 || config.max_body_bytes > MAX_BODY_BYTES {
            return Err("llmd_stage: max_body_bytes must be 1..=67108864".to_owned());
        }
        Ok(LlmdStageFilter { config })
    }

    /// The scheduling profile of the stage.
    pub fn profile(&self) -> (r: &'static str)
        ensures
            r@ == self.config.phase.role(),
    {
        match self.config.phase {
            Stage::ConditionalDecode | Stage::Decode => "decode",
            Stage::Encode => "encode",
            Stage::Prefill => "prefill",
        }
    }

    pub fn request_body_access(&self) -> (r: BodyAccess)
        ensures
            r == BodyAccess::ReadWrite,
    {
        BodyAccess::ReadWrite
    }

    pub fn response_body_access(&self) -> (r: BodyAccess)
        ensures
            r == if self.config.phase is Prefill {
                BodyAccess::ReadOnly
            } else {
                BodyAccess::NoAccess
            },
    {
        if self.config.phase == Stage::Prefill {
            BodyAccess::ReadOnly
        } else {
            BodyAccess::NoAccess
        }
    }

    pub fn request_body_mode(&self) -> (r: BodyMode)
        ensures
            r == (BodyMode::StreamBuffer { max_bytes: Some(self.config.max_body_bytes) }),
    {
        BodyMode::StreamBuffer { max_bytes: Some(self.config.max_body_bytes) }
    }

    pub fn response_body_mode(&self) -> (r: BodyMode)
        ensures
            r == if self.config.phase is Prefill {
                BodyMode::StreamBuffer { max_bytes: Some(self.config.max_body_bytes) }
            } else {
                BodyMode::Stream
            },
    {
        if self.config.phase == Stage::Prefill {
            BodyMode::StreamBuffer { max_bytes: Some(self.config.max_body_bytes) }
        } else {
            BodyMode::Stream
        }
    }

    /// Whether the answer of the stage may be streamed to the client.
    pub fn may_select_streaming_subrequest_response(&self) -> (r: bool)
        ensures
            r == self.config.phase.answers_client(),
    {
        self.config.phase == Stage::ConditionalDecode || self.config.phase == Stage::Decode
    }

    /// The wire format of the stage for a prepared request.
    fn format_of(&self, state: &CoordinatorState) -> (r: WireFormat)
        ensures
            r == self.config.format_for(*state),
    {
        match self.config.use_openai_format {
            Some(openai) => WireFormat::detect(state.original_path.as_str(), openai),
            None => state.format,
        }
    }

    /// The path that a request goes to, where it is not where it came in.
    fn reroute(&self, state: &CoordinatorState, path: &str) -> (r: Option<&'static str>)
        ensures
            match r {
                Some(route) => rerouted(path@, self.config, *state) == Some(route@),
                None => rerouted(path@, self.config, *state) is None,
            },
    {
        let worker_path = self.format_of(state).path();
        if text::same(path, worker_path) || !state::is_orchestrated(
            state.original_path.as_str(),
        ) {
            None
        } else {
            Some(worker_path)
        }
    }

    /// Takes the answers of the encode workers over into the state, where the
    /// stage is prefill.
    pub fn merge_responses(
        &self,
        state: &mut Option<CoordinatorState>,
        responses: &Vec<EncodeResponse>,
    ) -> (r: Result<(), Stop>)
        ensures
            match handed_to_prefill(
                self.config,
                *old(state),
                responses_read(responses@, responses@.len()),
            ) {
                Ok(params) => r is Ok && *final(state) is Some && same_but_ec(
                    (*old(state))->0,
                    (*final(state))->0,
                ) && json::members_of((*final(state))->0.ec_transfer_params) == params,
                Err(stop) => r is Err && r->Err_0@ == stop && *final(state) == *old(state),
            },
    {
        let maps = match read_encode_responses(responses) {
            Ok(maps) => maps,
            Err(stop) => {
                return Err(stop);
            },
        };
        let connector = match state.as_ref() {
            Some(state) => match self.config.ec_connector {
                Some(connector) => connector,
                None => state.ec_connector,
            },
            None => {
                return Err(Stop::Fail("llmd_stage: coordinator state missing".to_owned()));
            },
        };
        let params = match connector.merge_encode_responses(maps) {
            Ok(params) => params,
            Err(error) => {
                return Err(Stop::Fail(text::join2("llmd_stage: ", error.as_str())));
            },
        };
        let params = match state.as_ref() {
            Some(state) => match_descriptors(
                connector,
                &state.multimodal,
                params,
                self.config.max_body_bytes,
            ),
            None => Ok(params),
        };
        match params {
            Ok(params) => {
                if let Some(mut held) = state.take() {
                    held.ec_transfer_params = params;
                    *state = Some(held);
                }
                Ok(())
            },
            Err(stop) => Err(stop),
        }
    }

    /// The head of the stage's request that came in at `path`.
    pub fn head(&self, state: Option<&CoordinatorState>, path: &str) -> (r: Result<
        StageHead,
        Stop,
    >)
        ensures
            head_result(r) == if self.config.phase is Encode {
                Ok(encode_head())
            } else {
                stage_head(
                    self.config,
                    match state {
                        Some(state) => Some(*state),
                        None => None,
                    },
                    path@,
                )
            },
    {
        if self.config.phase == Stage::Encode {
            let head = StageHead {
                path: None,
                headers: vec![("epp-profile", "encode")],
                streaming: false,
            };
            proof {
                assert(head@ =~= encode_head());
            }
            return Ok(head);
        }
        let state = match state {
            Some(state) => state,
            None => {
                return Err(Stop::Fail("llmd_stage: coordinator state missing".to_owned()));
            },
        };
        let passed = !state::is_orchestrated(state.original_path.as_str());
        if (self.config.phase == Stage::ConditionalDecode && state.multimodal.len() != 0) || (passed
            && self.config.phase != Stage::Decode) {
            return Err(Stop::Reject { status: 412, body: None });
        }
        let new_path = self.reroute(state, path);
        let mut headers: Vec<(&'static str, &'static str)> = vec![("epp-profile", self.profile())];
        if self.config.phase == Stage::ConditionalDecode {
            headers.push(("prefer", "if-available"));
        }
        let streaming = self.may_select_streaming_subrequest_response();
        let head = StageHead { path: new_path, headers, streaming };
        proof {
            assert(head@ =~= stage_head(self.config, Some(*state), path@)->Ok_0);
        }
        Ok(head)
    }

    /// Takes a request that came in at `path`: where the stage is prefill and
    /// there are answers of encode workers, they are taken over first.
    pub fn on_request(
        &self,
        state: &mut Option<CoordinatorState>,
        responses: Option<&Vec<EncodeResponse>>,
        path: &str,
    ) -> (r: Result<StageHead, Stop>)
        ensures
            self.config.phase is Encode ==> head_result(r) == Ok::<HeadView, StopView>(
                encode_head(),
            ),
            !(self.config.phase is Encode) && !(self.config.phase is Prefill && responses is Some)
                ==> head_result(r) == stage_head(self.config, *old(state), path@),
            !(self.config.phase is Prefill && responses is Some) ==> *final(state) == *old(state),
            self.config.phase is Prefill && responses is Some ==> match handed_to_prefill(
                self.config,
                *old(state),
                responses_read(responses->0@, responses->0@.len()),
            ) {
                Ok(params) => *final(state) is Some && same_but_ec(
                    (*old(state))->0,
                    (*final(state))->0,
                ) && json::members_of((*final(state))->0.ec_transfer_params) == params
                    && head_result(r) == stage_head(self.config, *final(state), path@),
                Err(stop) => head_result(r) == Err::<HeadView, StopView>(stop) && *final(state)
                    == *old(state),
            },
    {
        if self.config.phase == Stage::Prefill {
            if let Some(responses) = responses {
                match self.merge_responses(state, responses) {
                    Ok(()) => {},
                    Err(stop) => {
                        return Err(stop);
                    },
                }
            }
        }
        self.head(state.as_ref(), path)
    }

    /// Takes the body of a request that came in at `path`, once it ended.
    pub fn on_request_body(
        &self,
        state: Option<&CoordinatorState>,
        path: &str,
        end: bool,
    ) -> (r: Result<StageBody, Stop>)
        ensures
            body_result(r) == if !end {
                Ok(BodyView::Pending)
            } else if self.config.phase is Encode {
                Ok(BodyView::Ready { head: encode_head(), body: None })
            } else {
                match state {
                    None => Err(StopView::Fail("llmd_stage: coordinator state missing"@)),
                    Some(state) => stage_body(
                        self.config,
                        *state,
                        path@,
                        json::json_written(worker_request(self.config, *state)),
                    ),
                }
            },
    {
        if !end {
            return Ok(StageBody::Pending);
        }
        if self.config.phase == Stage::Encode {
            return match self.head(state, path) {
                Ok(head) => Ok(StageBody::Ready { head, body: None }),
                Err(stop) => Err(stop),
            };
        }
        let state = match state {
            Some(state) => state,
            None => {
                return Err(Stop::Fail("llmd_stage: coordinator state missing".to_owned()));
            },
        };
        let format = self.format_of(state);
        let head = StageHead {
            path: self.reroute(state, path),
            headers: vec![("epp-profile", self.profile())],
            streaming: false,
        };
        proof {
            assert(head@ =~= (HeadView {
                path: rerouted(path@, self.config, *state),
                headers: seq![("epp-profile"@, self.config.phase.role())],
                streaming: false,
            }));
        }
        if !state::is_orchestrated(state.original_path.as_str()) {
            return Ok(StageBody::Ready { head, body: None });
        }
        let connector = match self.config.kv_connector {
            Some(connector) => connector,
            None => state.kv_connector,
        };
        let value = match self.config.phase {
            Stage::ConditionalDecode => Ok(transform::conditional_decode_body(state, format)),
            Stage::Prefill => transform::prefill_body_with(state, format, connector),
            _ => if state.topology == Topology::Combined {
                Ok(transform::combined_decode_body(state, format))
            } else {
                transform::decode_body_with(state, format, connector)
            },
        };
        let value = match value {
            Ok(value) => value,
            Err(error) => {
                return Err(Stop::Fail(text::join2("llmd_stage: ", error.as_str())));
            },
        };
        match json::write_json(&value) {
            Ok(bytes) => Ok(StageBody::Ready { head, body: Some(bytes) }),
            Err(error) => Err(Stop::Fail(text::join2("llmd_stage: serialize: ", error.as_str()))),
        }
    }

    /// Takes the body of an answer, once it ended: prefill hands its KV
    /// parameters over to the state. A request that is passed through hands
    /// nothing over.
    pub fn on_response_body(
        &self,
        state: &mut Option<CoordinatorState>,
        body: Option<&[u8]>,
        end: bool,
    ) -> (r: Result<(), Stop>)
        ensures
            !end || !(self.config.phase is Prefill) || passed(*old(state)) ==> r is Ok
                && *final(state) == *old(state),
            end && self.config.phase is Prefill && !passed(*old(state)) ==> match handed_to_decode(
                self.config,
                *old(state),
                json::json_read(
                    match body {
                        Some(bytes) => bytes@,
                        None => Seq::empty(),
                    },
                ),
            ) {
                Ok(params) => r is Ok && *final(state) is Some && same_but_kv(
                    (*old(state))->0,
                    (*final(state))->0,
                ) && json::members_of((*final(state))->0.kv_transfer_params) == params,
                Err(stop) => r is Err && r->Err_0@ == stop && *final(state) == *old(state),
            },
    {
        if !end || self.config.phase != Stage::Prefill {
            return Ok(());
        }
        if let Some(held) = state.as_ref() {
            if !state::is_orchestrated(held.original_path.as_str()) {
                return Ok(());
            }
        }
        let none: Vec<u8> = Vec::new();
        let bytes = match body {
            Some(bytes) => bytes,
            None => none.as_slice(),
        };
        let response = match json::read_json(bytes) {
            Ok(response) => response,
            Err(error) => {
                return Err(
                    Stop::Fail(
                        text::join2("llmd_stage: invalid prefill response: ", error.as_str()),
                    ),
                );
            },
        };
        let connector = match state.as_ref() {
            Some(state) => match self.config.kv_connector {
                Some(connector) => connector,
                None => state.kv_connector,
            },
            None => {
                return Err(Stop::Fail("llmd_stage: coordinator state missing".to_owned()));
            },
        };
        match read_handover(connector, &response) {
            Ok(params) => {
                if let Some(mut held) = state.take() {
                    held.kv_transfer_params = params;
                    *state = Some(held);
                }
                Ok(())
            },
            Err(stop) => Err(stop),
        }
    }
}

/// What a prefill worker hands over is what the decode worker finds in its
/// slot, whatever the formats of the stages, with the transfer now remote for
/// prefill. Where decode does everything itself there is no handover.
pub proof fn handover_reaches_decode(
    before: CoordinatorState,
    after: CoordinatorState,
    response: JsonView,
    prefill: StageConfig,
    decode: StageConfig,
)
    requires
        decode.phase is Decode,
        !(before.topology is Combined),
        same_but_kv(before, after),
        handed_to_decode(prefill, Some(before), Ok(response)) == Ok::<
            Map<Seq<char>, JsonView>,
            StopView,
        >(json::members_of(after.kv_transfer_params)),
    ensures
        handed_over(response) matches Some(params) && transform::kv_slot(
            worker_request(decode, after)->Object_0,
            decode.format_for(before),
        ) == Some(JsonView::Object(KvConnector::decode_fields(params))),
{
    transform::workers_find_their_transfer_parameters(
        after,
        decode.format_for(after),
        decode.kv_for(after),
    );
}

/// Decode is never reached without a handover: an answer of prefill without KV
/// parameters fails, and so does one that names no peer where one is needed.
pub proof fn handovers_are_complete(
    config: StageConfig,
    state: CoordinatorState,
    response: JsonView,
)
    ensures
        handed_to_decode(config, Some(state), Ok(response)) is Ok <==> handed_over(response) is Some
            && (config.kv_for(state) is KvNixl ==> names_a_peer(handed_over(response)->0)),
{
}

/// With a peer protocol prefill gets a descriptor for each item of the request
/// and for no other, each of which names an encoder; answers that leave one
/// out, add one or do not name an encoder fail.
pub proof fn descriptors_are_those_asked_for(
    config: StageConfig,
    state: CoordinatorState,
    responses: Seq<Map<Seq<char>, JsonView>>,
    hash: Seq<char>,
)
    requires
        config.ec_for(state) is EcNixl,
    ensures
        handed_to_prefill(config, Some(state), Ok(responses)) matches Ok(params)
            ==> params.contains_key(hash) == asked_for(state.multimodal@, hash) && (
        params.contains_key(hash) ==> names_an_encoder(
            params[hash],
            config.max_body_bytes as nat,
        )),
        config.ec_for(state).merge(responses) matches Ok(params) && params.contains_key(hash)
            != asked_for(state.multimodal@, hash) ==> handed_to_prefill(
            config,
            Some(state),
            Ok(responses),
        ) is Err,
        config.ec_for(state).merge(responses) matches Ok(params) && params.contains_key(hash)
            && !names_an_encoder(params[hash], config.max_body_bytes as nat) ==> handed_to_prefill(
            config,
            Some(state),
            Ok(responses),
        ) is Err,
{
}

/// A stage's own setting decides over how the request was prepared, and where
/// it has none the request's setting does.
pub proof fn stage_settings_decide(config: StageConfig, state: CoordinatorState)
    ensures
        config.kv_connector matches Some(connector) ==> config.kv_for(state) == connector,
        config.ec_connector matches Some(connector) ==> config.ec_for(state) == connector,
        config.use_openai_format matches Some(openai) ==> config.format_for(state)
            == WireFormat::of(state.original_path@, openai),
        config.kv_connector is None ==> config.kv_for(state) == state.kv_connector,
        config.ec_connector is None ==> config.ec_for(state) == state.ec_connector,
        config.use_openai_format is None ==> config.format_for(state) == state.format,
{
}

/// The conditional stage is never attempted for a request with media, and
/// every stage that is attempted names its profile first.
pub proof fn media_skips_the_conditional_stage(
    config: StageConfig,
    state: CoordinatorState,
    path: Seq<char>,
)
    ensures
        config.phase is ConditionalDecode && state.multimodal@.len() > 0 ==> stage_head(
            config,
            Some(state),
            path,
        ) == Err::<HeadView, StopView>(StopView::Reject { status: 412, body: None }),
        stage_head(config, Some(state), path) matches Ok(head) ==> head.headers.len() > 0
            && head.headers[0] == ("epp-profile"@, config.phase.role()),
{
}

/// A request that is passed through reaches decode as it is, with the profile
/// of decode, and no other worker.
pub proof fn passed_requests_are_left_alone(
    config: StageConfig,
    state: CoordinatorState,
    path: Seq<char>,
    written: Result<Seq<u8>, Seq<char>>,
)
    requires
        !state::orchestrated(state.original_path@),
        !(config.phase is Encode),
    ensures
        config.phase is Decode ==> stage_head(config, Some(state), path) == Ok::<
            HeadView,
            StopView,
        >(HeadView { path: None, headers: seq![("epp-profile"@, "decode"@)], streaming: true }),
        !(config.phase is Decode) ==> stage_head(config, Some(state), path) == Err::<
            HeadView,
            StopView,
        >(StopView::Reject { status: 412, body: None }),
        stage_body(config, state, path, written) matches Ok(BodyView::Ready { head, body })
            && head.path is None && body is None,
{
}

} // verus!
