//! Request-scoped state for disaggregated inference.
use crate::connectors::{EcConnector, KvConnector};
use crate::json::{self, JsonMap};
use crate::text;
use vstd::prelude::*;

verus! {

/// Deployment topology driven by the coordinator pipeline.
#[derive(Clone, Copy, Debug, PartialEq, Eq, Structural)]
pub enum Topology {
    /// Encode, prefill, and decode execute on one decode worker.
    Combined,
    /// Prefill and decode execute on separate workers.
    PrefillDecode,
    /// Encode is separate; prefill and decode share a worker.
    EncodePrefillDecode,
    /// Encode, prefill, and decode execute on separate workers.
    FullyDisaggregated,
}

impl Topology {
    /// The configuration name of the topology.
    pub open spec fn label(self) -> Seq<char> {
        match self {
            Topology::Combined => "epd"@,
            Topology::PrefillDecode => "p-d"@,
            Topology::EncodePrefillDecode => "e-pd"@,
            Topology::FullyDisaggregated => "e-p-d"@,
        }
    }

    /// The configuration name of the topology.
    pub fn name(self) -> (r: &'static str)
        ensures
            r@ == self.label(),
    {
        match self {
            Topology::Combined => "epd",
            Topology::PrefillDecode => "p-d",
            Topology::EncodePrefillDecode => "e-pd",
            Topology::FullyDisaggregated => "e-p-d",
        }
    }

    /// Whether the topology has a remote encode stage.
    pub open spec fn encodes(self) -> bool {
        self is EncodePrefillDecode || self is FullyDisaggregated
    }
}

/// Worker request encoding.
#[derive(Clone, Copy, Debug, PartialEq, Eq, Structural)]
pub enum WireFormat {
    /// `/v1/chat/completions`.
    ChatCompletions,
    /// `/v1/completions`.
    Completions,
    /// `/inference/v1/generate` tokens-in format.
    Generate,
}

impl Default for WireFormat {
    fn default() -> (r: Self)
        ensures
            r == WireFormat::ChatCompletions,
    {
        WireFormat::ChatCompletions
    }
}

impl WireFormat {
    /// The format of a request to `path`: the tokens-in format where it came in
    /// that way or where that format is configured, and else that of its API.
    pub open spec fn of(path: Seq<char>, use_openai_format: bool) -> WireFormat {
        if !use_openai_format || path == "/inference/v1/generate"@ {
            WireFormat::Generate
        } else if path == "/v1/completions"@ {
            WireFormat::Completions
        } else {
            WireFormat::ChatCompletions
        }
    }

    /// The worker request path of the format.
    pub open spec fn route(self) -> Seq<char> {
        match self {
            WireFormat::ChatCompletions => "/v1/chat/completions"@,
            WireFormat::Completions => "/v1/completions"@,
            WireFormat::Generate => "/inference/v1/generate"@,
        }
    }

    /// Detect the incoming request format.
    pub fn detect(path: &str, use_openai_format: bool) -> (r: Self)
        ensures
            r == WireFormat::of(path@, use_openai_format),
    {
        if !use_openai_format || text::same(path, "/inference/v1/generate") {
            return WireFormat::Generate;
        }
        if text::same(path, "/v1/completions") {
            return WireFormat::Completions;
        }
        WireFormat::ChatCompletions
    }

    /// Worker request path.
    pub fn path(self) -> (r: &'static str)
        ensures
            r@ == self.route(),
    {
        match self {
            WireFormat::ChatCompletions => "/v1/chat/completions",
            WireFormat::Completions => "/v1/completions",
            WireFormat::Generate => "/inference/v1/generate",
        }
    }
}

/// Whether requests to `path` are led through the stages. Any other request is
/// passed through to a decode worker as it is.
pub open spec fn orchestrated(path: Seq<char>) -> bool {
    ||| path == WireFormat::ChatCompletions.route()
    ||| path == WireFormat::Completions.route()
    ||| path == WireFormat::Generate.route()
}

/// Whether requests to `path` are led through the stages.
pub fn is_orchestrated(path: &str) -> (r: bool)
    ensures
        r == orchestrated(path@),
{
    text::same(path, WireFormat::ChatCompletions.path()) || text::same(
        path,
        WireFormat::Completions.path(),
    ) || text::same(path, WireFormat::Generate.path())
}

/// Token range occupied by one multimodal placeholder.
#[derive(Clone, Copy, Debug, PartialEq, Eq, Structural)]
pub struct PlaceholderRange {
    /// First placeholder token index.
    pub offset: usize,
    /// Number of placeholder tokens.
    pub length: usize,
}

/// Rendered state for one multimodal input.
#[derive(Debug, PartialEq, Eq)]
pub struct MultimodalEntry {
    /// Stable position in the request.
    pub index: usize,
    /// Cache key returned by the renderer.
    pub hash: String,
    /// Optional base64 tensor; empty means resolve it from encoder cache.
    pub kwargs_data: String,
    /// Placeholder range in the rendered token sequence.
    pub placeholder: PlaceholderRange,
}

impl Clone for MultimodalEntry {
    fn clone(&self) -> (r: Self)
        ensures
            r == *self,
    {
        MultimodalEntry {
            index: self.index,
            hash: self.hash.clone(),
            kwargs_data: self.kwargs_data.clone(),
            placeholder: self.placeholder,
        }
    }
}

/// State moved between coordinator stages for one client request.
#[derive(Debug)]
pub struct CoordinatorState {
    /// Original client API path.
    pub original_path: String,
    /// Mutable provider request object.
    pub body: JsonMap,
    /// Selected topology.
    pub topology: Topology,
    /// Worker wire format.
    pub format: WireFormat,
    /// Token IDs produced by render or supplied by the client.
    pub token_ids: Vec<u64>,
    /// Rendered multimodal entries.
    pub multimodal: Vec<MultimodalEntry>,
    /// Encoder-cache descriptor merged from encode workers.
    pub ec_transfer_params: JsonMap,
    /// KV descriptor returned by prefill.
    pub kv_transfer_params: JsonMap,
    /// Configured EC connector.
    pub ec_connector: EcConnector,
    /// Configured KV connector.
    pub kv_connector: KvConnector,
}

impl Clone for CoordinatorState {
    fn clone(&self) -> (r: Self)
        ensures
            r.original_path@ == self.original_path@,
            json::members_of(r.body) == json::members_of(self.body),
            r.topology == self.topology,
            r.format == self.format,
            r.token_ids@ == self.token_ids@,
            r.multimodal@ == self.multimodal@,
            json::members_of(r.ec_transfer_params) == json::members_of(self.ec_transfer_params),
            json::members_of(r.kv_transfer_params) == json::members_of(self.kv_transfer_params),
            r.ec_connector == self.ec_connector,
            r.kv_connector == self.kv_connector,
    {
        let token_ids = self.token_ids.clone();
        let multimodal = self.multimodal.clone();
        proof {
            assert(token_ids@ =~= self.token_ids@);
            assert(multimodal@ =~= self.multimodal@);
        }
        CoordinatorState {
            original_path: self.original_path.clone(),
            body: json::copy_members(&self.body),
            topology: self.topology,
            format: self.format,
            token_ids,
            multimodal,
            ec_transfer_params: json::copy_members(&self.ec_transfer_params),
            kv_transfer_params: json::copy_members(&self.kv_transfer_params),
            ec_connector: self.ec_connector,
            kv_connector: self.kv_connector,
        }
    }
}

/// Limits applied before worker scheduling begins.
#[derive(Clone, Copy, Debug)]
pub struct PreprocessingLimits {
    /// Maximum number of token IDs accepted from render or generate.
    pub max_total_tokens: usize,
    /// Maximum sum of multimodal placeholder lengths.
    pub max_total_placeholder_tokens: usize,
}

impl CoordinatorState {
    /// Whether the request has media and the topology a remote encode stage.
    pub open spec fn encodes(self) -> bool {
        self.multimodal@.len() > 0 && self.topology.encodes()
    }

    /// Whether this request needs a remote encode stage.
    pub fn needs_encode(&self) -> (r: bool)
        ensures
            r == self.encodes(),
    {
        self.multimodal.len() != 0 && matches!(
            self.topology,
            Topology::EncodePrefillDecode | Topology::FullyDisaggregated
        )
    }
}

/// Where the tokens-in format is configured, every request is in that format
/// and goes to its worker path.
pub proof fn tokens_in_requests_are_generated(path: Seq<char>)
    ensures
        WireFormat::of(path, false) == WireFormat::Generate,
        WireFormat::of(path, false).route() == "/inference/v1/generate"@,
{
}

/// A generate request is always in the tokens-in format.
pub proof fn generate_keeps_its_format(use_openai_format: bool)
    ensures
        WireFormat::of(WireFormat::Generate.route(), use_openai_format) == WireFormat::Generate,
{
}

/// In the API format, the worker path of a format is detected as that format.
pub proof fn detecting_a_worker_path_gives_its_format(format: WireFormat)
    ensures
        WireFormat::of(format.route(), true) == format,
{
    reveal_strlit("/v1/completions");
    reveal_strlit("/inference/v1/generate");
    reveal_strlit("/v1/chat/completions");
    assert("/v1/completions"@.len() != "/inference/v1/generate"@.len());
    assert("/v1/completions"@.len() != "/v1/chat/completions"@.len());
    assert("/v1/chat/completions"@.len() != "/inference/v1/generate"@.len());
}

} // verus!
