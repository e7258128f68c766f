//! The filter that admits a request and prepares it for the stages.
use crate::codec;
use crate::connectors::{EcConnector, KvConnector};
use crate::filter::{self, BodyAccess, BodyMode, Stop, StopView, MAX_BODY_BYTES};
use crate::headers::{self, Headers};
use crate::json::{self, JsonMap, JsonView};
use crate::media::{self, MediaConfig};
use crate::preprocessing::{self, Complaint, PreprocessError, Rendered};
use crate::state::{
    self, CoordinatorState, MultimodalEntry, PreprocessingLimits, Topology, WireFormat,
};
use crate::text;
use crate::transform;
use vstd::prelude::*;

verus! {

pub fn default_true() -> (r: bool)
    ensures
        r,
{
    true
}

pub fn default_max_body_bytes() -> (r: usize)
    ensures
        r == MAX_BODY_BYTES,
{
    MAX_BODY_BYTES
}

pub fn default_download_timeout_ms() -> (r: u64)
    ensures
        r == 10_000,
{
    10_000
}

pub fn default_render_timeout_ms() -> (r: u64)
    ensures
        r == 30_000,
{
    30_000
}

pub fn default_max_media_entries() -> (r: usize)
    ensures
        r == 16,
{
    16
}

pub fn default_max_concurrent_downloads() -> (r: usize)
    ensures
        r == 8,
{
    8
}

pub fn default_max_download_bytes() -> (r: usize)
    ensures
        r == 10 * 1024 * 1024,
{
    10 * 1024 * 1024
}

pub fn default_max_tokens() -> (r: usize)
    ensures
        r == 131_072,
{
    131_072
}

pub fn default_max_placeholder_tokens() -> (r: usize)
    ensures
        r == 65_536,
{
    65_536
}

/// How requests are prepared.
#[derive(Debug)]
pub struct PrepareConfig {
    pub topology: Topology,
    pub use_openai_format: bool,
    pub kv_connector: KvConnector,
    pub ec_connector: EcConnector,
    pub max_body_bytes: usize,
    pub render_url: Option<String>,
    pub download_timeout_ms: u64,
    pub render_timeout_ms: u64,
    pub max_multimodal_entries: usize,
    pub max_concurrent_downloads: usize,
    pub max_download_bytes: usize,
    pub allow_private_networks: bool,
    pub allowed_domains: Vec<String>,
    pub max_total_tokens: usize,
    pub max_total_placeholder_tokens: usize,
}

impl PrepareConfig {
    /// The configuration with nothing set but the topology.
    pub fn new(topology: Topology) -> (r: PrepareConfig)
        ensures
            r.topology == topology,
            r.use_openai_format,
            r.kv_connector == KvConnector::KvSharedStorage,
            r.ec_connector == EcConnector::EcSharedStorage,
            r.max_body_bytes == MAX_BODY_BYTES,
            r.render_url is None,
            r.download_timeout_ms == 10_000,
            r.render_timeout_ms == 30_000,
            r.max_multimodal_entries == 16,
            r.max_concurrent_downloads == 8,
            r.max_download_bytes == 10 * 1024 * 1024,
            !r.allow_private_networks,
            r.allowed_domains@.len() == 0,
            r.max_total_tokens == 131_072,
            r.max_total_placeholder_tokens == 65_536,
    {
        PrepareConfig {
            topology,
            use_openai_format: default_true(),
            kv_connector: KvConnector::default(),
            ec_connector: EcConnector::default(),
            max_body_bytes: default_max_body_bytes(),
            render_url: None,
            download_timeout_ms: default_download_timeout_ms(),
            render_timeout_ms: default_render_timeout_ms(),
            max_multimodal_entries: default_max_media_entries(),
            max_concurrent_downloads: default_max_concurrent_downloads(),
            max_download_bytes: default_max_download_bytes(),
            allow_private_networks: false,
            allowed_domains: Vec::new(),
            max_total_tokens: default_max_tokens(),
            max_total_placeholder_tokens: default_max_placeholder_tokens(),
        }
    }

    /// Whether every limit on what a request holds is positive.
    pub open spec fn has_limits(self) -> bool {
        &&& self.max_multimodal_entries > 0
        &&& self.max_concurrent_downloads > 0
        &&& self.max_download_bytes > 0
        &&& self.max_total_tokens > 0
        &&& self.max_total_placeholder_tokens > 0
    }

    /// The limits on rendered requests.
    pub open spec fn limits(self) -> PreprocessingLimits {
        PreprocessingLimits {
            max_total_tokens: self.max_total_tokens,
            max_total_placeholder_tokens: self.max_total_placeholder_tokens,
        }
    }
}

/// What is to be done with a request.
#[derive(Debug)]
pub enum Admitted {
    /// It is passed through to a decode worker as it is.
    Passthrough,
    /// It is led through the stages.
    Request(JsonMap),
}

/// What an `Admitted` is.
pub enum AdmittedView {
    Passthrough,
    Request(Map<Seq<char>, JsonView>),
}

/// What admitting a request says.
pub open spec fn admission_result(r: Result<Admitted, Stop>) -> Result<AdmittedView, StopView> {
    match r {
        Ok(Admitted::Passthrough) => Ok(AdmittedView::Passthrough),
        Ok(Admitted::Request(body)) => Ok(AdmittedView::Request(json::members_of(body))),
        Err(stop) => Err(stop@),
    }
}

/// What is to be done with a request to `path`, given what its body reads as.
pub open spec fn admission(
    path: Seq<char>,
    read: Option<Result<Map<Seq<char>, JsonView>, Seq<char>>>,
) -> Result<AdmittedView, StopView> {
    if !state::orchestrated(path) {
        Ok(AdmittedView::Passthrough)
    } else {
        match read {
            None => Err(StopView::Fail("llmd_prepare: buffered request body unavailable"@)),
            Some(Err(_)) => Err(
                StopView::Reject { status: 400, body: Some("invalid JSON request body"@) },
            ),
            Some(Ok(body)) => Ok(AdmittedView::Request(transform::discarded(body))),
        }
    }
}

/// What a body, if there is one, reads as where an object is asked for.
pub open spec fn body_read(body: Option<Seq<u8>>) -> Option<
    Result<Map<Seq<char>, JsonView>, Seq<char>>,
> {
    match body {
        Some(bytes) => Some(json::object_read(bytes)),
        None => None,
    }
}

/// Admits a request to `path`, where it is passed through or its body is there
/// and an object.
pub fn admit_request(path: &str, body: Option<&[u8]>) -> (r: Result<Admitted, Stop>)
    ensures
        admission_result(r) == admission(
            path@,
            body_read(
                match body {
                    Some(bytes) => Some(bytes@),
                    None => None,
                },
            ),
        ),
{
    if !state::is_orchestrated(path) {
        return Ok(Admitted::Passthrough);
    }
    let bytes = match body {
        Some(bytes) => bytes,
        None => {
            return Err(
                Stop::Fail("llmd_prepare: buffered request body unavailable".to_owned()),
            );
        },
    };
    match json::read_object(bytes) {
        Ok(body) => Ok(Admitted::Request(transform::discard_transfer(&body))),
        Err(_) => Err(
            Stop::Reject { status: 400, body: Some("invalid JSON request body".to_owned()) },
        ),
    }
}

/// How a request gets its tokens: it has them, or the render service is asked.
#[derive(Debug)]
pub enum Rendering {
    Done(Result<(Vec<u64>, Vec<MultimodalEntry>), PreprocessError>),
    Ask { url: String, body: Vec<u8> },
}

/// What a `Rendering` says.
pub enum RenderingView {
    Done(Result<Rendered, Complaint>),
    Ask { url: Seq<char>, body: Seq<u8> },
}

impl View for Rendering {
    type V = RenderingView;

    open spec fn view(&self) -> RenderingView {
        match self {
            Rendering::Done(result) => RenderingView::Done(
                preprocessing::rendered_result(*result),
            ),
            Rendering::Ask { url, body } => RenderingView::Ask { url: url@, body: body@ },
        }
    }
}

/// How a request in a format gets its tokens. A completions request whose
/// prompt is an array and a request in the tokens-in format have them.
pub open spec fn rendering_of(
    format: WireFormat,
    body: Map<Seq<char>, JsonView>,
    written: Result<Seq<u8>, Seq<char>>,
    render_url: Option<Seq<char>>,
    limits: PreprocessingLimits,
) -> RenderingView {
    let prompt = json::field(body, "prompt"@);
    if format is Completions && prompt is Some && prompt->0 is Array {
        RenderingView::Done(
            preprocessing::rendered(
                json::no_fields().insert("token_ids"@, prompt->0),
                None,
                limits,
            ),
        )
    } else if format is Generate {
        RenderingView::Done(preprocessing::rendered(body, None, limits))
    } else {
        match render_url {
            Some(base) => match written {
                Ok(bytes) => RenderingView::Ask {
                    url: text::unsuffixed(base, '/') + preprocessing::render_path(format)->0,
                    body: bytes,
                },
                Err(_) => RenderingView::Done(
                    Err(preprocessing::service_fault("render request failed"@)),
                ),
            },
            None => RenderingView::Done(
                Err(
                    preprocessing::service_fault("render_url is required for OpenAI text inputs"@),
                ),
            ),
        }
    }
}

/// One request of the encode stage.
#[derive(Debug)]
pub struct EncodeRequest {
    pub key: String,
    pub body: Vec<u8>,
}

/// What the requests of the encode stage are.
pub open spec fn requests_view(requests: Seq<EncodeRequest>) -> Seq<(Seq<char>, Seq<u8>)> {
    requests.map_values(|request: EncodeRequest| (request.key@, request.body@))
}

/// What preparing the encode stage says.
pub open spec fn requests_result(r: Result<Vec<EncodeRequest>, Stop>) -> Result<
    Seq<(Seq<char>, Seq<u8>)>,
    StopView,
> {
    match r {
        Ok(requests) => Ok(requests_view(requests@)),
        Err(stop) => Err(stop@),
    }
}

/// The encode requests of the first entries, or the first that cannot be
/// written.
pub open spec fn written_requests(state: CoordinatorState, upto: nat) -> Result<
    Seq<(Seq<char>, Seq<u8>)>,
    StopView,
>
    decreases upto,
{
    if upto == 0 {
        Ok(Seq::empty())
    } else {
        match written_requests(state, (upto - 1) as nat) {
            Err(stop) => Err(stop),
            Ok(rows) => {
                let entry = state.multimodal@[upto - 1];
                match json::json_written(
                    JsonView::Object(transform::encode_view(state, entry)),
                ) {
                    Ok(bytes) => Ok(rows.push((entry.hash@, bytes))),
                    Err(error) => Err(
                        StopView::Fail("llmd_prepare: serialize encode request: "@ + error),
                    ),
                }
            },
        }
    }
}

/// The encode requests of a prepared request: one for each entry where the
/// encode stage is remote, and else none.
pub open spec fn encode_requests(state: CoordinatorState) -> Result<
    Seq<(Seq<char>, Seq<u8>)>,
    StopView,
> {
    if state.encodes() {
        written_requests(state, state.multimodal@.len())
    } else {
        Ok(Seq::empty())
    }
}

proof fn written_requests_stop(state: CoordinatorState, upto: nat, more: nat)
    requires
        upto <= more,
        written_requests(state, upto) is Err,
    ensures
        written_requests(state, more) == written_requests(state, upto),
    decreases more,
{
    if upto < more {
        written_requests_stop(state, upto, (more - 1) as nat);
    }
}

/// Writes the encode requests of a prepared request.
pub fn fan_out(state: &CoordinatorState) -> (r: Result<Vec<EncodeRequest>, Stop>)
    ensures
        requests_result(r) == encode_requests(*state),
{
    let mut requests: Vec<EncodeRequest> = Vec::new();
    proof {
        assert(requests_view(requests@) =~= Seq::empty());
    }
    if !state.needs_encode() {
        return Ok(requests);
    }
    let bodies = transform::encode_bodies(state);
    let mut i: usize = 0;
    while i < bodies.len()
        invariant
            state.encodes(),
            bodies@.len() == state.multimodal@.len(),
            forall|j: int|
                0 <= j < bodies@.len() ==> (#[trigger] bodies@[j]).0@ == state.multimodal@[j].hash@
                    && json::json_of(bodies@[j].1) == JsonView::Object(
                    transform::encode_view(*state, state.multimodal@[j]),
                ),
            i <= bodies.len(),
            written_requests(*state, i as nat) == Ok::<Seq<(Seq<char>, Seq<u8>)>, StopView>(
                requests_view(requests@),
            ),
        decreases bodies.len() - i,
    {
        match json::write_json(&bodies[i].1) {
            Ok(body) => {
                let ghost held = requests@;
                let request = EncodeRequest { key: bodies[i].0.clone(), body };
                requests.push(request);
                proof {
                    assert(requests_view(requests@) =~= requests_view(held).push(
                        (request.key@, request.body@),
                    ));
                }
            },
            Err(error) => {
                let message = text::join2(
                    "llmd_prepare: serialize encode request: ",
                    error.as_str(),
                );
                proof {
                    written_requests_stop(*state, (i + 1) as nat, bodies@.len());
                }
                return Err(Stop::Fail(message));
            },
        }
        i += 1;
    }
    Ok(requests)
}

/// The headers that only the coordinator sets.
pub open spec fn internal_names() -> Seq<Seq<char>> {
    seq![
        "epp-profile"@,
        "x-gateway-destination-endpoint"@,
        "kv-transfer-params"@,
        "ec-transfer-params"@,
    ]
}

/// The headers that are about one connection and go no further.
pub open spec fn hop_names() -> Seq<Seq<char>> {
    seq![
        "connection"@,
        "keep-alive"@,
        "proxy-authenticate"@,
        "proxy-authorization"@,
        "te"@,
        "trailer"@,
        "transfer-encoding"@,
        "upgrade"@,
    ]
}

/// Header fields without those that only the coordinator sets and those that
/// are about one connection.
pub open spec fn cleaned(lines: Map<Seq<char>, Seq<Seq<u8>>>) -> Map<Seq<char>, Seq<Seq<u8>>> {
    Map::new(
        |name: Seq<char>|
            lines.contains_key(name) && !internal_names().contains(name) && !hop_names().contains(
                name,
            ),
        |name: Seq<char>| lines[name],
    )
}

proof fn internal_names_are(name: Seq<char>)
    ensures
        internal_names().contains(name) <==> (name == "epp-profile"@ || name
            == "x-gateway-destination-endpoint"@ || name == "kv-transfer-params"@ || name
            == "ec-transfer-params"@),
{
    let names = internal_names();
    assert(names[0] == "epp-profile"@);
    assert(names[1] == "x-gateway-destination-endpoint"@);
    assert(names[2] == "kv-transfer-params"@);
    assert(names[3] == "ec-transfer-params"@);
}

proof fn hop_names_are(name: Seq<char>)
    ensures
        hop_names().contains(name) <==> (name == "connection"@ || name == "keep-alive"@ || name
            == "proxy-authenticate"@ || name == "proxy-authorization"@ || name == "te"@ || name
            == "trailer"@ || name == "transfer-encoding"@ || name == "upgrade"@),
{
    let names = hop_names();
    assert(names[0] == "connection"@);
    assert(names[1] == "keep-alive"@);
    assert(names[2] == "proxy-authenticate"@);
    assert(names[3] == "proxy-authorization"@);
    assert(names[4] == "te"@);
    assert(names[5] == "trailer"@);
    assert(names[6] == "transfer-encoding"@);
    assert(names[7] == "upgrade"@);
}

proof fn lemma_hop_names()
    ensures
        text::lowered("connection"@) == "connection"@,
        text::lowered("keep-alive"@) == "keep-alive"@,
        text::lowered("proxy-authenticate"@) == "proxy-authenticate"@,
        text::lowered("proxy-authorization"@) == "proxy-authorization"@,
        text::lowered("te"@) == "te"@,
        text::lowered("trailer"@) == "trailer"@,
        text::lowered("transfer-encoding"@) == "transfer-encoding"@,
        text::lowered("upgrade"@) == "upgrade"@,
{
    reveal_strlit("connection");
    reveal_strlit("keep-alive");
    reveal_strlit("proxy-authenticate");
    reveal_strlit("proxy-authorization");
    reveal_strlit("te");
    reveal_strlit("trailer");
    reveal_strlit("transfer-encoding");
    reveal_strlit("upgrade");
    assert(text::lowered("connection"@) =~= "connection"@);
    assert(text::lowered("keep-alive"@) =~= "keep-alive"@);
    assert(text::lowered("proxy-authenticate"@) =~= "proxy-authenticate"@);
    assert(text::lowered("proxy-authorization"@) =~= "proxy-authorization"@);
    assert(text::lowered("te"@) =~= "te"@);
    assert(text::lowered("trailer"@) =~= "trailer"@);
    assert(text::lowered("transfer-encoding"@) =~= "transfer-encoding"@);
    assert(text::lowered("upgrade"@) =~= "upgrade"@);
}

proof fn lemma_internal_names()
    ensures
        text::lowered("epp-profile"@) == "epp-profile"@,
        text::lowered("x-gateway-destination-endpoint"@) == "x-gateway-destination-endpoint"@,
        text::lowered("kv-transfer-params"@) == "kv-transfer-params"@,
        text::lowered("ec-transfer-params"@) == "ec-transfer-params"@,
{
    reveal_strlit("epp-profile");
    reveal_strlit("x-gateway-destination-endpoint");
    reveal_strlit("kv-transfer-params");
    reveal_strlit("ec-transfer-params");
    assert(text::lowered("epp-profile"@) =~= "epp-profile"@);
    assert(text::lowered("x-gateway-destination-endpoint"@)
        =~= "x-gateway-destination-endpoint"@);
    assert(text::lowered("kv-transfer-params"@) =~= "kv-transfer-params"@);
    assert(text::lowered("ec-transfer-params"@) =~= "ec-transfer-params"@);
}

/// The names of the headers that only the coordinator sets.
pub fn internal_headers() -> (r: Vec<&'static str>)
    ensures
        r@.map_values(|name: &str| name@) == internal_names(),
{
    let r = vec![
        "epp-profile",
        "x-gateway-destination-endpoint",
        "kv-transfer-params",
        "ec-transfer-params",
    ];
    proof {
        assert(r@.map_values(|name: &str| name@) =~= internal_names());
    }
    r
}

/// The headers of an encode request: those of the client, without those that
/// only the coordinator sets and those that are about one connection.
pub fn child_headers(client: &Headers) -> (r: Headers)
    ensures
        headers::header_lines(r) == cleaned(headers::header_lines(*client)),
{
    proof {
        lemma_internal_names();
        lemma_hop_names();
    }
    let mut r = headers::copy_headers(client);
    headers::take_header(&mut r, "epp-profile");
    headers::take_header(&mut r, "x-gateway-destination-endpoint");
    headers::take_header(&mut r, "kv-transfer-params");
    headers::take_header(&mut r, "ec-transfer-params");
    headers::take_header(&mut r, "connection");
    headers::take_header(&mut r, "keep-alive");
    headers::take_header(&mut r, "proxy-authenticate");
    headers::take_header(&mut r, "proxy-authorization");
    headers::take_header(&mut r, "te");
    headers::take_header(&mut r, "trailer");
    headers::take_header(&mut r, "transfer-encoding");
    headers::take_header(&mut r, "upgrade");
    proof {
        let lines = headers::header_lines(*client);
        assert forall|name: Seq<char>| headers::header_lines(r).contains_key(name) == cleaned(
            lines,
        ).contains_key(name) by {
            internal_names_are(name);
            hop_names_are(name);
        }
        assert(headers::header_lines(r) =~= cleaned(lines));
    }
    r
}

/// Parse the admitted request and initialize coordinator state.
#[derive(Debug)]
pub struct LlmdPrepareFilter {
    pub config: PrepareConfig,
}

impl LlmdPrepareFilter {
    /// Construct from a configuration.
    pub fn from_config(config: PrepareConfig) -> (r: Result<LlmdPrepareFilter, String>)
        ensures
            match r {
                Ok(made) => filter::is_body_limit(config.max_body_bytes as nat)
                    && config.has_limits() && made.config == config,
                Err(message) => if !filter::is_body_limit(config.max_body_bytes as nat) {
                    message@ == "llmd_prepare: max_body_bytes must be 1..=67108864"@
                } else {
                    !config.has_limits() && message@
                        == "llmd_prepare: preprocessing limits must be positive"@
                },
            },
    {
        if config.max_body_bytes == 0 || config.max_body_bytes > MAX_BODY_BYTES {
            return Err("llmd_prepare: max_body_bytes must be 1..=67108864".to_owned());
        }
        if config.max_multimodal_entries == 0 || config.max_concurrent_downloads == 0
            || config.max_download_bytes == 0 || config.max_total_tokens == 0
            || config.max_total_placeholder_tokens == 0 {
            return Err("llmd_prepare: preprocessing limits must be positive".to_owned());
        }
        Ok(LlmdPrepareFilter { config })
    }

    pub fn request_body_access(&self) -> (r: BodyAccess)
        ensures
            r == BodyAccess::ReadOnly,
    {
        BodyAccess::ReadOnly
    }

    pub fn request_body_mode(&self) -> (r: BodyMode)
        ensures
            r == (BodyMode::StreamBuffer { max_bytes: Some(self.config.max_body_bytes) }),
    {
        BodyMode::StreamBuffer { max_bytes: Some(self.config.max_body_bytes) }
    }

    /// Limits and permissions for the media of a request.
    pub fn media_config(&self) -> (r: MediaConfig)
        ensures
            r.timeout_ms == self.config.download_timeout_ms,
            r.max_concurrent_downloads == self.config.max_concurrent_downloads,
            r.max_entries == self.config.max_multimodal_entries,
            r.max_bytes == self.config.max_download_bytes,
            r.allow_private_networks == self.config.allow_private_networks,
            r.allowed_domains@ == self.config.allowed_domains@,
    {
        let allowed_domains = self.config.allowed_domains.clone();
        proof {
            assert(allowed_domains@ =~= self.config.allowed_domains@);
        }
        MediaConfig {
            timeout_ms: self.config.download_timeout_ms,
            max_concurrent_downloads: self.config.max_concurrent_downloads,
            max_entries: self.config.max_multimodal_entries,
            max_bytes: self.config.max_download_bytes,
            allow_private_networks: self.config.allow_private_networks,
            allowed_domains,
        }
    }

    /// The limits on rendered requests.
    pub fn limits(&self) -> (r: PreprocessingLimits)
        ensures
            r == self.config.limits(),
    {
        PreprocessingLimits {
            max_total_tokens: self.config.max_total_tokens,
            max_total_placeholder_tokens: self.config.max_total_placeholder_tokens,
        }
    }

    /// How a request to `path` gets its tokens.
    pub fn rendering(&self, path: &str, body: &JsonMap) -> (r: Rendering)
        ensures
            r@ == rendering_of(
                WireFormat::of(path@, true),
                json::members_of(*body),
                json::json_written(JsonView::Object(json::members_of(*body))),
                match self.config.render_url {
                    Some(url) => Some(url@),
                    None => None,
                },
                self.config.limits(),
            ),
    {
        let format = WireFormat::detect(path, true);
        let limits = self.limits();
        if format == WireFormat::Completions {
            if let Some(prompt) = json::get_member(body, "prompt") {
                if let Some(_) = json::as_array(prompt) {
                    let mut members = json::new_members();
                    json::put_member(&mut members, "token_ids", json::copy_json(prompt));
                    return Rendering::Done(
                        preprocessing::parse_rendered_map(&members, None, limits),
                    );
                }
            }
        }
        if format == WireFormat::Generate {
            return Rendering::Done(preprocessing::parse_rendered_map(body, None, limits));
        }
        match &self.config.render_url {
            Some(base) => match preprocessing::render_url(base.as_str(), format) {
                Some(url) => match json::write_json(&json::json_object(json::copy_members(body))) {
                    Ok(body) => Rendering::Ask { url, body },
                    Err(_) => Rendering::Done(
                        Err(PreprocessError::upstream("render request failed")),
                    ),
                },
                None => Rendering::Done(
                    preprocessing::parse_rendered_map(body, None, limits),
                ),
            },
            None => Rendering::Done(
                Err(PreprocessError::upstream("render_url is required for OpenAI text inputs")),
            ),
        }
    }

    /// The state that the stages share for a request to `path`.
    pub fn prepare_state(
        &self,
        path: &str,
        body: JsonMap,
        token_ids: Vec<u64>,
        multimodal: Vec<MultimodalEntry>,
    ) -> (r: CoordinatorState)
        ensures
            r.original_path@ == path@,
            r.body == body,
            r.topology == self.config.topology,
            r.format == WireFormat::of(path@, self.config.use_openai_format),
            r.token_ids == token_ids,
            r.multimodal == multimodal,
            json::members_of(r.ec_transfer_params) == json::no_fields(),
            json::members_of(r.kv_transfer_params) == json::no_fields(),
            r.ec_connector == self.config.ec_connector,
            r.kv_connector == self.config.kv_connector,
    {
        CoordinatorState {
            original_path: path.to_owned(),
            body,
            topology: self.config.topology,
            format: WireFormat::detect(path, self.config.use_openai_format),
            token_ids,
            multimodal,
            ec_transfer_params: json::new_members(),
            kv_transfer_params: json::new_members(),
            ec_connector: self.config.ec_connector,
            kv_connector: self.config.kv_connector,
        }
    }
}

/// Where the preparation of a request stands.
#[derive(Debug)]
pub enum PrepareStep {
    /// Nothing came yet.
    Start,
    /// The media of the request are made inline.
    Media { path: String, body: JsonMap },
    /// The render service is asked for the tokens of the request, which has
    /// so many media.
    Render { path: String, body: JsonMap, media: usize },
    /// The request was refused or prepared.
    Finished,
}

/// What happened to a request under preparation.
#[derive(Debug)]
pub enum PrepareEvent {
    /// It came in.
    Request { path: String, body: Option<Vec<u8>> },
    /// Its media were made inline, or could not be.
    Media(Result<Vec<String>, PreprocessError>),
    /// The render service answered with a status and a body, or did not.
    Answer(Result<(u16, Vec<u8>), PreprocessError>),
}

/// What is to be done next for a request under preparation.
#[derive(Debug)]
pub enum PrepareAction {
    /// Its media are to be made inline.
    Inline(Vec<String>),
    /// The render service is to be asked.
    Ask { url: String, body: Vec<u8> },
    /// It is prepared: the stages get this state, and encode workers these
    /// requests.
    Install { state: CoordinatorState, requests: Vec<EncodeRequest> },
    /// It goes no further.
    Refuse(Stop),
    /// Nothing: what happened is not what is waited for.
    Wait,
}

/// What a `PrepareStep` is.
pub enum StepView {
    Start,
    Media { path: Seq<char>, body: Map<Seq<char>, JsonView> },
    Render { path: Seq<char>, body: Map<Seq<char>, JsonView>, media: nat },
    Finished,
}

/// What a `PrepareEvent` is.
pub enum EventView {
    Request { path: Seq<char>, body: Option<Seq<u8>> },
    Media(Result<Seq<Seq<char>>, Complaint>),
    Answer(Result<(u16, Seq<u8>), Complaint>),
}

/// What follows for a request under preparation.
pub enum Outcome {
    Inline(Seq<Seq<char>>),
    Ask { url: Seq<char>, sent: Seq<u8> },
    Prepared { path: Seq<char>, body: Map<Seq<char>, JsonView>, rendered: Rendered },
    Refuse(StopView),
    Wait,
}

impl View for PrepareStep {
    type V = StepView;

    open spec fn view(&self) -> StepView {
        match self {
            PrepareStep::Start => StepView::Start,
            PrepareStep::Media { path, body } => StepView::Media {
                path: path@,
                body: json::members_of(*body),
            },
            PrepareStep::Render { path, body, media } => StepView::Render {
                path: path@,
                body: json::members_of(*body),
                media: *media as nat,
            },
            PrepareStep::Finished => StepView::Finished,
        }
    }
}

impl View for PrepareEvent {
    type V = EventView;

    open spec fn view(&self) -> EventView {
        match self {
            PrepareEvent::Request { path, body } => EventView::Request {
                path: path@,
                body: codec::bytes_option(*body),
            },
            PrepareEvent::Media(result) => EventView::Media(media::jobs_result(*result)),
            PrepareEvent::Answer(result) => EventView::Answer(
                match result {
                    Ok((status, body)) => Ok((*status, body@)),
                    Err(error) => Err(error@),
                },
            ),
        }
    }
}

/// The end of a preparation with a complaint.
pub open spec fn refused(complaint: Complaint) -> (StepView, Outcome) {
    (StepView::Finished, Outcome::Refuse(filter::refusal(complaint)))
}

/// What follows once the tokens of a request are known, or not.
pub open spec fn after_tokens(
    path: Seq<char>,
    body: Map<Seq<char>, JsonView>,
    rendered: Result<Rendered, Complaint>,
) -> (StepView, Outcome) {
    match rendered {
        Ok(rendered) => (StepView::Finished, Outcome::Prepared { path, body, rendered }),
        Err(complaint) => refused(complaint),
    }
}

/// What follows once the media of a request are inline.
pub open spec fn after_media(
    config: PrepareConfig,
    path: Seq<char>,
    body: Map<Seq<char>, JsonView>,
    media: nat,
) -> (StepView, Outcome) {
    match rendering_of(
        WireFormat::of(path, true),
        body,
        json::json_written(JsonView::Object(body)),
        codec::text_option(config.render_url),
        config.limits(),
    ) {
        RenderingView::Done(rendered) => after_tokens(path, body, rendered),
        RenderingView::Ask { url, body: bytes } => (
            StepView::Render { path, body, media },
            Outcome::Ask { url, sent: bytes },
        ),
    }
}

/// What follows in a step once something happened. A request is admitted, its
/// media are made inline, it gets its tokens, and then it is prepared; one that
/// is passed through is prepared with nothing in it. What is not waited for
/// changes nothing.
pub open spec fn following(config: PrepareConfig, step: StepView, event: EventView) -> (
    StepView,
    Outcome,
) {
    match (step, event) {
        (StepView::Start, EventView::Request { path, body }) => match admission(
            path,
            body_read(body),
        ) {
            Err(stop) => (StepView::Finished, Outcome::Refuse(stop)),
            Ok(AdmittedView::Passthrough) => after_tokens(
                path,
                json::no_fields(),
                Ok(Rendered { token_ids: Seq::empty(), entries: Seq::empty() }),
            ),
            Ok(AdmittedView::Request(body)) => match media::jobs_read(
                body,
                config.max_multimodal_entries as nat,
            ) {
                Err(complaint) => refused(complaint),
                Ok(jobs) => (StepView::Media { path, body }, Outcome::Inline(jobs)),
            },
        },
        (StepView::Media { path, body }, EventView::Media(result)) => match result {
            Err(complaint) => refused(complaint),
            Ok(values) => if values.len() != media::media_urls(body).len() {
                refused(preprocessing::service_fault("media download task failed"@))
            } else {
                after_media(config, path, media::installed(body, values), values.len())
            },
        },
        (StepView::Render { path, body, media }, EventView::Answer(result)) => match result {
            Err(complaint) => refused(complaint),
            Ok((status, bytes)) => if !(100 <= status <= 999) {
                refused(preprocessing::service_fault("render request failed"@))
            } else {
                after_tokens(
                    path,
                    body,
                    preprocessing::render_response(
                        WireFormat::of(path, true),
                        status,
                        json::json_read(bytes),
                        Some(media),
                        config.limits(),
                    ),
                )
            },
        },
        _ => (step, Outcome::Wait),
    }
}

/// Whether a state is that of a prepared request.
pub open spec fn stands_for(
    config: PrepareConfig,
    path: Seq<char>,
    body: Map<Seq<char>, JsonView>,
    rendered: Rendered,
    state: CoordinatorState,
) -> bool {
    &&& state.original_path@ == path
    &&& json::members_of(state.body) == body
    &&& state.topology == config.topology
    &&& state.format == WireFormat::of(path, config.use_openai_format)
    &&& state.token_ids@ == rendered.token_ids
    &&& preprocessing::entries_view(state.multimodal@) == rendered.entries
    &&& json::members_of(state.ec_transfer_params) == json::no_fields()
    &&& json::members_of(state.kv_transfer_params) == json::no_fields()
    &&& state.ec_connector == config.ec_connector
    &&& state.kv_connector == config.kv_connector
}

/// Whether the encode requests of a prepared request cannot be written.
pub open spec fn is_unwritable(
    config: PrepareConfig,
    path: Seq<char>,
    body: Map<Seq<char>, JsonView>,
    rendered: Rendered,
    stop: StopView,
) -> bool {
    exists|state: CoordinatorState| #[trigger]
        stands_for(config, path, body, rendered, state) && encode_requests(state) == Err::<
            Seq<(Seq<char>, Seq<u8>)>,
            StopView,
        >(stop)
}

/// Whether an action is what follows. A prepared request is installed with the
/// requests of its encode stage; it is refused where one of those cannot be
/// written.
pub open spec fn carries_out(
    config: PrepareConfig,
    outcome: Outcome,
    action: PrepareAction,
) -> bool {
    match outcome {
        Outcome::Inline(jobs) => action matches PrepareAction::Inline(values)
            && text::strings_view(values@) == jobs,
        Outcome::Ask { url, sent } => action matches PrepareAction::Ask { url: to, body }
            && to@ == url && body@ == sent,
        Outcome::Refuse(stop) => action matches PrepareAction::Refuse(by) && by@ == stop,
        Outcome::Wait => action is Wait,
        Outcome::Prepared { path, body, rendered } => match action {
            PrepareAction::Install { state, requests } => stands_for(
                config,
                path,
                body,
                rendered,
                state,
            ) && encode_requests(state) == Ok::<Seq<(Seq<char>, Seq<u8>)>, StopView>(
                requests_view(requests@),
            ),
            PrepareAction::Refuse(stop) => is_unwritable(config, path, body, rendered, stop@),
            _ => false,
        },
    }
}

impl LlmdPrepareFilter {
    /// Ends a preparation with a complaint.
    fn give_up(&self, error: PreprocessError) -> (r: (PrepareStep, PrepareAction))
        ensures
            r.0@ == refused(error@).0,
            carries_out(self.config, refused(error@).1, r.1),
    {
        (PrepareStep::Finished, PrepareAction::Refuse(filter::refuse(error)))
    }

    /// Ends a preparation with the tokens of the request, or without.
    fn finish(
        &self,
        path: &str,
        body: JsonMap,
        tokens: Result<(Vec<u64>, Vec<MultimodalEntry>), PreprocessError>,
    ) -> (r: (PrepareStep, PrepareAction))
        ensures
            ({
                let (step, outcome) = after_tokens(
                    path@,
                    json::members_of(body),
                    preprocessing::rendered_result(tokens),
                );
                r.0@ == step && carries_out(self.config, outcome, r.1)
            }),
    {
        let (token_ids, multimodal) = match tokens {
            Ok((token_ids, multimodal)) => (token_ids, multimodal),
            Err(error) => {
                return self.give_up(error);
            },
        };
        let ghost rendered = Rendered {
            token_ids: token_ids@,
            entries: preprocessing::entries_view(multimodal@),
        };
        let ghost members = json::members_of(body);
        let state = self.prepare_state(path, body, token_ids, multimodal);
        proof {
            assert(stands_for(self.config, path@, members, rendered, state));
        }
        match fan_out(&state) {
            Ok(requests) => (PrepareStep::Finished, PrepareAction::Install { state, requests }),
            Err(stop) => {
                proof {
                    assert(is_unwritable(self.config, path@, members, rendered, stop@));
                }
                (PrepareStep::Finished, PrepareAction::Refuse(stop))
            },
        }
    }

    /// Takes what happened in a step of the preparation: gives the next step
    /// and what is to be done.
    pub fn next(&self, step: PrepareStep, event: PrepareEvent) -> (r: (PrepareStep, PrepareAction))
        ensures
            r.0@ == following(self.config, step@, event@).0,
            carries_out(self.config, following(self.config, step@, event@).1, r.1),
    {
        match (step, event) {
            (PrepareStep::Start, PrepareEvent::Request { path, body }) => {
                let bytes = match &body {
                    Some(bytes) => Some(bytes.as_slice()),
                    None => None,
                };
                let body = match admit_request(path.as_str(), bytes) {
                    Ok(Admitted::Request(body)) => body,
                    Ok(Admitted::Passthrough) => {
                        let none: Vec<MultimodalEntry> = Vec::new();
                        proof {
                            assert(preprocessing::entries_view(none@) =~= Seq::empty());
                        }
                        return self.finish(
                            path.as_str(),
                            json::new_members(),
                            Ok((Vec::new(), none)),
                        );
                    },
                    Err(stop) => {
                        return (PrepareStep::Finished, PrepareAction::Refuse(stop));
                    },
                };
                match media::media_jobs(&body, &self.media_config()) {
                    Ok(jobs) => (PrepareStep::Media { path, body }, PrepareAction::Inline(jobs)),
                    Err(error) => self.give_up(error),
                }
            },
            (PrepareStep::Media { path, body }, PrepareEvent::Media(result)) => {
                let values = match result {
                    Ok(values) => values,
                    Err(error) => {
                        return self.give_up(error);
                    },
                };
                if values.len() != media::originals_len(&body) {
                    return self.give_up(PreprocessError::upstream("media download task failed"));
                }
                let (body, media) = media::install_media(&body, &values);
                match self.rendering(path.as_str(), &body) {
                    Rendering::Done(tokens) => self.finish(path.as_str(), body, tokens),
                    Rendering::Ask { url, body: bytes } => (
                        PrepareStep::Render { path, body, media },
                        PrepareAction::Ask { url, body: bytes },
                    ),
                }
            },
            (PrepareStep::Render { path, body, media }, PrepareEvent::Answer(result)) => {
                let (status, bytes) = match result {
                    Ok((status, bytes)) => (status, bytes),
                    Err(error) => {
                        return self.give_up(error);
                    },
                };
                if status < 100 || status > 999 {
                    return self.give_up(PreprocessError::upstream("render request failed"));
                }
                let tokens = preprocessing::accept_render(
                    WireFormat::detect(path.as_str(), true),
                    status,
                    bytes.as_slice(),
                    media,
                    self.limits(),
                );
                self.finish(path.as_str(), body, tokens)
            },
            (step, _) => (step, PrepareAction::Wait),
        }
    }
}

/// How far a preparation is.
pub open spec fn progress(step: StepView) -> nat {
    match step {
        StepView::Start => 0,
        StepView::Media { .. } => 1,
        StepView::Render { .. } => 2,
        StepView::Finished => 3,
    }
}

/// A preparation only goes forward: what happens takes it to a later step, or
/// changes nothing. Media are made inline first, and the render service is
/// asked after that.
pub proof fn preparation_goes_forward(config: PrepareConfig, step: StepView, event: EventView)
    ensures
        ({
            let (after, outcome) = following(config, step, event);
            &&& outcome is Wait ==> after == step
            &&& !(outcome is Wait) ==> progress(after) > progress(step)
            &&& outcome is Inline ==> step is Start && after is Media
            &&& outcome is Ask ==> step is Media && after is Render
            &&& outcome is Refuse || outcome is Prepared ==> after is Finished
        }),
{
}

/// A refusal is final, and so is a preparation that came to its end: whatever
/// happens after that, nothing is sent and nothing is installed.
pub proof fn refusals_are_final(
    config: PrepareConfig,
    step: StepView,
    event: EventView,
    later: EventView,
)
    ensures
        following(config, step, event).1 is Refuse ==> following(config, step, event).0 is Finished,
        following(config, StepView::Finished, later) == (StepView::Finished, Outcome::Wait),
{
}

/// A request is prepared, and its encode requests made, only once its tokens
/// were accepted: those that it states itself or those in an answer of the
/// render service. A request that is passed through is prepared at once, with
/// nothing in it.
pub proof fn only_accepted_requests_are_prepared(
    config: PrepareConfig,
    step: StepView,
    event: EventView,
)
    ensures
        following(config, step, event).1 matches Outcome::Prepared { path, body, rendered } ==> {
            ||| step is Start && !state::orchestrated(path) && body == json::no_fields()
                && rendered.token_ids.len() == 0 && rendered.entries.len() == 0
            ||| step is Media && rendering_of(
                WireFormat::of(path, true),
                body,
                json::json_written(JsonView::Object(body)),
                codec::text_option(config.render_url),
                config.limits(),
            ) == RenderingView::Done(Ok(rendered))
            ||| step matches StepView::Render { media, .. } && (event matches EventView::Answer(
                Ok(answer),
            ) && preprocessing::render_response(
                WireFormat::of(path, true),
                answer.0,
                json::json_read(answer.1),
                Some(media),
                config.limits(),
            ) == Ok::<Rendered, Complaint>(rendered))
        },
{
}

/// The encode requests of a request with well-placed media have keys of their
/// own.
pub proof fn encode_keys_are_unique(
    state: CoordinatorState,
    tokens: nat,
    limits: PreprocessingLimits,
    i: int,
    j: int,
)
    requires
        preprocessing::well_placed(
            preprocessing::entries_view(state.multimodal@),
            tokens,
            limits,
        ),
        encode_requests(state) is Ok,
        0 <= i < j < encode_requests(state)->Ok_0.len(),
    ensures
        encode_requests(state)->Ok_0[i].0 != encode_requests(state)->Ok_0[j].0,
{
    written_keys(state, state.multimodal@.len());
    let views = preprocessing::entries_view(state.multimodal@);
    assert(views[i].hash != views[j].hash);
}

proof fn written_keys(state: CoordinatorState, upto: nat)
    requires
        upto <= state.multimodal@.len(),
    ensures
        written_requests(state, upto) matches Ok(rows) ==> rows.len() == upto && forall|i: int|
            0 <= i < rows.len() ==> (#[trigger] rows[i]).0 == state.multimodal@[i].hash@,
    decreases upto,
{
    if upto > 0 {
        written_keys(state, (upto - 1) as nat);
    }
}

/// A remote encode stage gets one request for each image, in order, and a
/// request without images, or a topology without that stage, gets none.
pub proof fn each_image_is_encoded_once(state: CoordinatorState)
    ensures
        encode_requests(state) matches Ok(rows) ==> rows.len() == if state.encodes() {
            state.multimodal@.len()
        } else {
            0
        },
        state.multimodal@.len() == 0 ==> encode_requests(state) == Ok::<
            Seq<(Seq<char>, Seq<u8>)>,
            StopView,
        >(Seq::empty()),
{
    written_keys(state, state.multimodal@.len());
}

/// No header that only the coordinator sets, and none that is about one
/// connection, reaches an encode request from a client, and every other does.
pub proof fn internal_headers_are_stripped(
    lines: Map<Seq<char>, Seq<Seq<u8>>>,
    name: Seq<char>,
)
    ensures
        internal_names().contains(name) || hop_names().contains(name) ==> !cleaned(
            lines,
        ).contains_key(name),
        !internal_names().contains(name) && !hop_names().contains(name) ==> cleaned(
            lines,
        ).contains_key(name) == lines.contains_key(name) && (lines.contains_key(name) ==> cleaned(
            lines,
        )[name] == lines[name]),
{
}

/// What is wrong with the tokens or media that a client's own request states
/// is the client's fault.
pub proof fn stated_tokens_are_the_clients(
    format: WireFormat,
    body: Map<Seq<char>, JsonView>,
    written: Result<Seq<u8>, Seq<char>>,
    render_url: Option<Seq<char>>,
    limits: PreprocessingLimits,
)
    requires
        format is Generate || (format is Completions && json::field(body, "prompt"@) matches Some(
            JsonView::Array(_),
        )),
    ensures
        rendering_of(format, body, written, render_url, limits) matches RenderingView::Done(result)
            && (result matches Err(complaint) ==> complaint.client),
{
    if format is Generate {
        preprocessing::complaints_blame_the_sender(body, None, limits);
    } else {
        preprocessing::complaints_blame_the_sender(
            json::no_fields().insert("token_ids"@, json::field(body, "prompt"@)->0),
            None,
            limits,
        );
    }
}

} // verus!
