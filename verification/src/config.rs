//! The coordinator's own configuration: what can be set, what it means, and
//! what is wrong with it.
use crate::codec;
use crate::prepare;
use crate::state::Topology;
use crate::text;
use crate::yaml::{self, YamlView};
use vstd::prelude::*;

verus! {

/// Bytes in a mebibyte.
pub const MIB: usize = 1_048_576;

/// The default of the largest request, in mebibytes.
pub const DEFAULT_MAX_BODY_MIB: usize = 64;

/// A coordinator configuration.
#[derive(Debug)]
pub struct CoordinatorConfig {
    pub log_level: Option<u8>,
    pub server: CoordinatorServer,
    pub gateway: CoordinatorGateway,
    pub pipeline: CoordinatorPipeline,
}

/// How requests are served.
#[derive(Debug)]
pub struct CoordinatorServer {
    pub listen_addr: String,
    pub metrics_port: Option<i32>,
    pub read_timeout: String,
    pub write_timeout: String,
    pub shutdown_timeout: String,
    pub max_request_body_size: usize,
}

impl Default for CoordinatorServer {
    fn default() -> (r: Self)
        ensures
            r.listen_addr@ == ":8080"@,
            r.metrics_port == Some(9090i32),
            r.read_timeout@ == "30s"@,
            r.write_timeout@ == "120s"@,
            r.shutdown_timeout@ == "25s"@,
            r.max_request_body_size == DEFAULT_MAX_BODY_MIB,
    {
        CoordinatorServer {
            listen_addr: ":8080".to_owned(),
            metrics_port: Some(9090),
            read_timeout: "30s".to_owned(),
            write_timeout: "120s".to_owned(),
            shutdown_timeout: "25s".to_owned(),
            max_request_body_size: DEFAULT_MAX_BODY_MIB,
        }
    }
}

/// How the scheduler is reached.
#[derive(Debug)]
pub struct CoordinatorGateway {
    pub address: String,
    pub max_idle_conns_per_host: usize,
    pub idle_conn_timeout: String,
    pub timeout: String,
    pub epp_tls: Option<TlsSettings>,
    pub worker_tls: Option<TlsSettings>,
}

impl CoordinatorGateway {
    /// The gateway with nothing set but its address.
    pub fn new(address: String) -> (r: CoordinatorGateway)
        ensures
            r.address == address,
            r.max_idle_conns_per_host == 200,
            r.idle_conn_timeout@ == "90s"@,
            r.timeout@ == "60s"@,
            r.epp_tls is None,
            r.worker_tls is None,
    {
        CoordinatorGateway {
            address,
            max_idle_conns_per_host: default_max_idle_connections(),
            idle_conn_timeout: default_idle_timeout(),
            timeout: default_gateway_timeout(),
            epp_tls: None,
            worker_tls: None,
        }
    }
}

/// How a connection is secured.
#[derive(Debug)]
pub struct TlsSettings {
    pub ca_file: Option<String>,
    pub cert_file: Option<String>,
    pub key_file: Option<String>,
    pub server_name: Option<String>,
    pub verify: bool,
}

impl Default for TlsSettings {
    fn default() -> (r: Self)
        ensures
            r.ca_file is None,
            r.cert_file is None,
            r.key_file is None,
            r.server_name is None,
            r.verify,
    {
        TlsSettings {
            ca_file: None,
            cert_file: None,
            key_file: None,
            server_name: None,
            verify: prepare::default_true(),
        }
    }
}

/// The steps that a request goes through.
#[derive(Debug)]
pub struct CoordinatorPipeline {
    pub kv_connector: String,
    pub ec_connector: String,
    pub use_openai_format: bool,
    pub steps: Vec<CoordinatorStep>,
}

impl CoordinatorPipeline {
    /// The pipeline with nothing set but its steps.
    pub fn new(steps: Vec<CoordinatorStep>) -> (r: CoordinatorPipeline)
        ensures
            r.kv_connector@ == "kv-shared-storage"@,
            r.ec_connector@ == "ec-shared-storage"@,
            r.use_openai_format,
            r.steps == steps,
    {
        CoordinatorPipeline {
            kv_connector: default_kv_connector(),
            ec_connector: default_ec_connector(),
            use_openai_format: prepare::default_true(),
            steps,
        }
    }
}

/// One step of the pipeline.
#[derive(Debug)]
pub struct CoordinatorStep {
    pub step_type: String,
    pub params: serde_yaml::Mapping,
}

pub fn default_max_idle_connections() -> (r: usize)
    ensures
        r == 200,
{
    200
}

pub fn default_idle_timeout() -> (r: String)
    ensures
        r@ == "90s"@,
{
    "90s".to_owned()
}

pub fn default_gateway_timeout() -> (r: String)
    ensures
        r@ == "60s"@,
{
    "60s".to_owned()
}

pub fn default_kv_connector() -> (r: String)
    ensures
        r@ == "kv-shared-storage"@,
{
    "kv-shared-storage".to_owned()
}

pub fn default_ec_connector() -> (r: String)
    ensures
        r@ == "ec-shared-storage"@,
{
    "ec-shared-storage".to_owned()
}

/// What a check says.
pub open spec fn check_view(r: Result<(), String>) -> Result<(), Seq<char>> {
    match r {
        Ok(()) => Ok(()),
        Err(error) => Err(error@),
    }
}

/// What a number or an error text holds.
pub open spec fn number_view(r: Result<u64, String>) -> Result<nat, Seq<char>> {
    match r {
        Ok(n) => Ok(n as nat),
        Err(error) => Err(error@),
    }
}

/// The number of a duration and the milliseconds of its unit.
pub open spec fn duration_parts(value: Seq<char>) -> Option<(Seq<char>, nat)> {
    if text::ends(value, "ms"@) {
        Some((value.take(value.len() - "ms"@.len()), 1))
    } else if text::ends(value, "s"@) {
        Some((value.take(value.len() - "s"@.len()), 1_000))
    } else if text::ends(value, "m"@) {
        Some((value.take(value.len() - "m"@.len()), 60_000))
    } else if text::ends(value, "h"@) {
        Some((value.take(value.len() - "h"@.len()), 3_600_000))
    } else {
        None
    }
}

/// The milliseconds of the duration at `path`.
pub open spec fn duration_read(path: Seq<char>, value: Seq<char>) -> Result<nat, Seq<char>> {
    let trimmed = text::trimmed(value);
    match duration_parts(trimmed) {
        None => Err(path + " must use an ms, s, m, or h suffix"@),
        Some((number, unit)) => match text::unsigned_value(number) {
            Some(amount) if amount <= u64::MAX => if amount * unit <= u64::MAX {
                Ok(amount * unit)
            } else {
                Err(path + " exceeds supported duration"@)
            },
            _ => Err(path + " has invalid duration '"@ + trimmed + "'"@),
        },
    }
}

/// The milliseconds of the duration at `path`, which is positive.
pub open spec fn millis_read(path: Seq<char>, value: Seq<char>) -> Result<nat, Seq<char>> {
    match duration_read(path, value) {
        Ok(millis) if millis == 0 => Err(path + " must be greater than zero"@),
        other => other,
    }
}

/// The seconds of the duration at `path`, at least one.
pub open spec fn seconds_read(path: Seq<char>, value: Seq<char>) -> Result<nat, Seq<char>> {
    match duration_read(path, value) {
        Ok(millis) => if millis / 1_000 == 0 {
            Err(path + " must be at least one second"@)
        } else {
            Ok(millis / 1_000)
        },
        Err(error) => Err(error),
    }
}

/// The number of a duration and the milliseconds of its unit.
fn split_duration<'a>(value: &'a str) -> (r: Option<(&'a str, u64)>)
    ensures
        match r {
            Some((number, unit)) => duration_parts(value@) == Some((number@, unit as nat)) && 1
                <= unit <= 3_600_000,
            None => duration_parts(value@) is None,
        },
{
    if let Some(number) = text::strip_suffix(value, "ms") {
        Some((number, 1))
    } else if let Some(number) = text::strip_suffix(value, "s") {
        Some((number, 1_000))
    } else if let Some(number) = text::strip_suffix(value, "m") {
        Some((number, 60_000))
    } else if let Some(number) = text::strip_suffix(value, "h") {
        Some((number, 3_600_000))
    } else {
        None
    }
}

/// The milliseconds of the duration at `path`.
pub fn parse_duration(path: &str, value: &str) -> (r: Result<u64, String>)
    ensures
        number_view(r) == duration_read(path@, value@),
{
    let value = text::trim(value);
    let (number, unit) = match split_duration(value) {
        Some(parts) => parts,
        None => {
            return Err(text::join2(path, " must use an ms, s, m, or h suffix"));
        },
    };
    let amount: u64 = match text::parse_unsigned(number, u64::MAX) {
        Some(amount) => amount,
        None => {
            let place = text::join2(path, " has invalid duration '");
            return Err(text::join3(place.as_str(), value, "'"));
        },
    };
    match amount.checked_mul(unit) {
        Some(millis) => Ok(millis),
        None => Err(text::join2(path, " exceeds supported duration")),
    }
}

/// The milliseconds of the duration at `path`, which is positive.
pub fn duration_ms(path: &str, value: &str) -> (r: Result<u64, String>)
    ensures
        number_view(r) == millis_read(path@, value@),
{
    match parse_duration(path, value) {
        Ok(millis) => if millis == 0 {
            Err(text::join2(path, " must be greater than zero"))
        } else {
            Ok(millis)
        },
        Err(error) => Err(error),
    }
}

/// The seconds of the duration at `path`, at least one.
pub fn duration_secs(path: &str, value: &str) -> (r: Result<u64, String>)
    ensures
        number_view(r) == seconds_read(path@, value@),
{
    match parse_duration(path, value) {
        Ok(millis) => {
            let seconds: u64 = millis / 1_000;
            if seconds == 0 {
                Err(text::join2(path, " must be at least one second"))
            } else {
                Ok(seconds)
            }
        },
        Err(error) => Err(error),
    }
}

/// The address that a listening address stands for: a port alone is that of
/// every interface.
pub open spec fn listen_read(value: Seq<char>) -> Result<Seq<char>, Seq<char>> {
    let trimmed = text::trimmed(value);
    if text::begins(trimmed, ":"@) {
        let port = trimmed.skip(":"@.len() as int);
        match text::unsigned_value(port) {
            Some(n) if n <= u16::MAX => Ok("0.0.0.0:"@ + port),
            _ => Err("server.listen_addr has invalid port: "@ + trimmed),
        }
    } else if trimmed.len() == 0 {
        Err("server.listen_addr must not be empty"@)
    } else {
        Ok(trimmed)
    }
}

/// The address that a listening address stands for.
pub fn normalize_listen_address(value: &str) -> (r: Result<String, String>)
    ensures
        yaml::text_result(r) == listen_read(value@),
{
    let trimmed = text::trim(value);
    if let Some(port) = text::strip_prefix(trimmed, ":") {
        return match text::parse_unsigned(port, u16::MAX as u64) {
            Some(_) => Ok(text::join2("0.0.0.0:", port)),
            None => Err(text::join2("server.listen_addr has invalid port: ", trimmed)),
        };
    }
    if trimmed.is_empty() {
        return Err("server.listen_addr must not be empty".to_owned());
    }
    Ok(trimmed.to_owned())
}

/// What the environment sets.
#[derive(Debug)]
pub struct Environment {
    pub use_openai_format: Option<String>,
    pub max_request_body_size: Option<String>,
    pub metrics_port: Option<String>,
}

/// A truth value as the environment sets it.
pub open spec fn env_bool(value: Option<Seq<char>>) -> Result<Option<bool>, Seq<char>> {
    match value {
        None => Ok(None),
        Some(value) => if value == "true"@ {
            Ok(Some(true))
        } else if value == "false"@ {
            Ok(Some(false))
        } else {
            Err("COORDINATOR_PIPELINE_USE_OPENAI_FORMAT must be 'true' or 'false'"@)
        },
    }
}

/// A number of mebibytes as the environment sets it.
pub open spec fn env_size(value: Option<Seq<char>>) -> Result<Option<usize>, Seq<char>> {
    match value {
        None => Ok(None),
        Some(value) => match text::unsigned_value(value) {
            Some(n) if n <= usize::MAX => Ok(Some(n as usize)),
            _ => Err(
                "COORDINATOR_SERVER_MAX_REQUEST_BODY_SIZE must be an integer number of MiB"@,
            ),
        },
    }
}

/// A port as the environment sets it.
pub open spec fn env_port(value: Option<Seq<char>>) -> Result<Option<i32>, Seq<char>> {
    match value {
        None => Ok(None),
        Some(value) => match text::signed_value(value) {
            Some(n) if i32::MIN <= n <= i32::MAX => Ok(Some(n as i32)),
            _ => Err("COORDINATOR_SERVER_METRICS_PORT must be an integer"@),
        },
    }
}

/// A setting, unless the environment has another.
pub open spec fn overridden<T>(held: T, read: Result<Option<T>, Seq<char>>) -> T {
    match read {
        Ok(Some(value)) => value,
        _ => held,
    }
}

/// Sets what the environment sets, up to the first value that cannot be read:
/// what stands behind that one is left as it was.
pub fn apply_environment_overrides(config: &mut CoordinatorConfig, environment: &Environment) -> (r:
    Result<(), String>)
    ensures
        ({
            let openai = env_bool(codec::text_option(environment.use_openai_format));
            let size = env_size(codec::text_option(environment.max_request_body_size));
            let port = env_port(codec::text_option(environment.metrics_port));
            &&& check_view(r) == if openai is Err {
                Err(openai->Err_0)
            } else if size is Err {
                Err(size->Err_0)
            } else if port is Err {
                Err(port->Err_0)
            } else {
                Ok(())
            }
            &&& *final(config) == (CoordinatorConfig {
                server: CoordinatorServer {
                    max_request_body_size: final(config).server.max_request_body_size,
                    metrics_port: final(config).server.metrics_port,
                    ..old(config).server
                },
                pipeline: CoordinatorPipeline {
                    use_openai_format: final(config).pipeline.use_openai_format,
                    ..old(config).pipeline
                },
                ..*old(config)
            })
            &&& final(config).pipeline.use_openai_format == overridden(
                old(config).pipeline.use_openai_format,
                openai,
            )
            &&& final(config).server.max_request_body_size == if openai is Err {
                old(config).server.max_request_body_size
            } else {
                overridden(old(config).server.max_request_body_size, size)
            }
            &&& final(config).server.metrics_port == match port {
                Ok(Some(port)) if openai is Ok && size is Ok => Some(port),
                _ => old(config).server.metrics_port,
            }
        }),
{
    if let Some(value) = &environment.use_openai_format {
        if text::same(value.as_str(), "true") {
            config.pipeline.use_openai_format = true;
        } else if text::same(value.as_str(), "false") {
            config.pipeline.use_openai_format = false;
        } else {
            return Err(
                "COORDINATOR_PIPELINE_USE_OPENAI_FORMAT must be 'true' or 'false'".to_owned(),
            );
        }
    }
    if let Some(value) = &environment.max_request_body_size {
        match text::parse_unsigned(value.as_str(), usize::MAX as u64) {
            Some(size) => {
                config.server.max_request_body_size = size as usize;
            },
            None => {
                return Err(
                    "COORDINATOR_SERVER_MAX_REQUEST_BODY_SIZE must be an integer number of MiB".to_owned(),
                );
            },
        }
    }
    if let Some(value) = &environment.metrics_port {
        match text::parse_i32(value.as_str()) {
            Some(port) => {
                config.server.metrics_port = Some(port);
            },
            None => {
                return Err("COORDINATOR_SERVER_METRICS_PORT must be an integer".to_owned());
            },
        }
    }
    Ok(())
}

/// What a row of names is.
pub open spec fn names_view(names: Seq<&'static str>) -> Seq<Seq<char>> {
    names.map_values(|name: &'static str| name@)
}

/// Whether a name is among some.
fn is_among(names: &Vec<&'static str>, name: &str) -> (r: bool)
    ensures
        r == names_view(names@).contains(name@),
{
    let mut i: usize = 0;
    while i < names.len()
        invariant
            i <= names.len(),
            forall|j: int| 0 <= j < i ==> (#[trigger] names_view(names@)[j]) != name@,
        decreases names.len() - i,
    {
        if text::same(names[i], name) {
            proof {
                assert(names_view(names@)[i as int] == name@);
            }
            return true;
        }
        i += 1;
    }
    false
}

/// Whether some entries have one of these text keys.
pub open spec fn has_key_of(entries: Seq<(YamlView, YamlView)>, names: Seq<Seq<char>>) -> bool {
    exists|i: int|
        0 <= i < entries.len() && (yaml::bare(#[trigger] entries[i].0) matches YamlView::Text(key)
            && names.contains(key))
}

/// The first text key of some entries that is not one of these.
pub open spec fn unknown_key(
    entries: Seq<(YamlView, YamlView)>,
    names: Seq<Seq<char>>,
) -> Option<Seq<char>>
    decreases entries.len(),
{
    if entries.len() == 0 {
        None
    } else {
        match yaml::bare(entries[0].0) {
            YamlView::Text(key) if !names.contains(key) => Some(key),
            _ => unknown_key(entries.skip(1), names),
        }
    }
}

/// Whether a mapping has one of these text keys.
fn has_any_key(mapping: &serde_yaml::Mapping, names: &Vec<&'static str>) -> (r: bool)
    ensures
        r == has_key_of(yaml::entries_of(*mapping), names_view(names@)),
{
    let pairs = yaml::list_entries(mapping);
    let ghost entries = yaml::entries_of(*mapping);
    let mut i: usize = 0;
    while i < pairs.len()
        invariant
            entries == yaml::entries_of(*mapping),
            entries == yaml::pairs_of(pairs@),
            i <= pairs.len(),
            forall|j: int|
                0 <= j < i ==> !(yaml::bare(#[trigger] entries[j].0) matches YamlView::Text(key)
                    && names_view(names@).contains(key)),
        decreases pairs.len() - i,
    {
        proof {
            assert(entries[i as int].0 == yaml::yaml_of(pairs@[i as int].0));
        }
        if let Some(key) = yaml::as_yaml_text(&pairs[i].0) {
            if is_among(names, key) {
                return true;
            }
        }
        i += 1;
    }
    false
}

/// The first text key of a mapping that is not one of these.
fn find_unknown_key(mapping: &serde_yaml::Mapping, names: &Vec<&'static str>) -> (r: Option<
    String,
>)
    ensures
        codec::text_option(r) == unknown_key(yaml::entries_of(*mapping), names_view(names@)),
{
    let pairs = yaml::list_entries(mapping);
    let ghost entries = yaml::entries_of(*mapping);
    let mut i: usize = 0;
    proof {
        assert(entries.skip(0) =~= entries);
    }
    while i < pairs.len()
        invariant
            entries == yaml::entries_of(*mapping),
            entries == yaml::pairs_of(pairs@),
            i <= pairs.len(),
            unknown_key(entries, names_view(names@)) == unknown_key(
                entries.skip(i as int),
                names_view(names@),
            ),
        decreases pairs.len() - i,
    {
        proof {
            assert(entries.skip(i as int)[0].0 == yaml::yaml_of(pairs@[i as int].0));
            assert(entries.skip(i as int).skip(1) =~= entries.skip(i + 1));
        }
        if let Some(key) = yaml::as_yaml_text(&pairs[i].0) {
            if !is_among(names, key) {
                return Some(key.to_owned());
            }
        }
        i += 1;
    }
    None
}

/// What a configuration text is.
#[derive(Debug)]
pub enum ConfigSource {
    /// Native configuration, to be read as it stands.
    Native,
    /// A coordinator configuration.
    Coordinator(serde_yaml::Value),
}

/// What a `ConfigSource` is.
pub enum SourceView {
    Native,
    Coordinator(YamlView),
}

/// What finding out what a configuration is says.
pub open spec fn source_result(r: Result<ConfigSource, String>) -> Result<
    SourceView,
    Seq<char>,
> {
    match r {
        Ok(ConfigSource::Native) => Ok(SourceView::Native),
        Ok(ConfigSource::Coordinator(root)) => Ok(SourceView::Coordinator(yaml::yaml_of(root))),
        Err(error) => Err(error@),
    }
}

/// The keys that mark a coordinator configuration.
pub open spec fn coordinator_roots() -> Seq<Seq<char>> {
    seq!["server"@, "gateway"@, "pipeline"@]
}

/// The keys that mark a native configuration.
pub open spec fn native_roots() -> Seq<Seq<char>> {
    seq![
        "admin"@,
        "body_limits"@,
        "clusters"@,
        "filter_chains"@,
        "insecure_options"@,
        "listeners"@,
        "metrics"@,
        "runtime"@,
        "shutdown_timeout_secs"@,
        "telemetry"@,
    ]
}

/// What the configuration with this root is. One that is both a coordinator's
/// and native is refused.
pub open spec fn source_of(root: YamlView) -> Result<SourceView, Seq<char>> {
    match yaml::bare(root) {
        YamlView::Mapping(entries) => if has_key_of(entries, coordinator_roots()) {
            if has_key_of(entries, native_roots()) {
                Err(
                    "cannot mix coordinator server/gateway/pipeline keys with native Praxis keys"@,
                )
            } else {
                Ok(SourceView::Coordinator(root))
            }
        } else {
            Ok(SourceView::Native)
        },
        _ => Err("configuration root must be a mapping"@),
    }
}

/// Finds out what the configuration with this root is.
pub fn classify_root(root: serde_yaml::Value) -> (r: Result<ConfigSource, String>)
    ensures
        source_result(r) == source_of(yaml::yaml_of(root)),
{
    let (coordinator, native) = match yaml::as_yaml_mapping(&root) {
        Some(mapping) => {
            let roots = vec!["server", "gateway", "pipeline"];
            let native_roots = vec![
                "admin",
                "body_limits",
                "clusters",
                "filter_chains",
                "insecure_options",
                "listeners",
                "metrics",
                "runtime",
                "shutdown_timeout_secs",
                "telemetry",
            ];
            proof {
                assert(names_view(roots@) =~= coordinator_roots());
                assert(names_view(native_roots@) =~= self::native_roots());
            }
            (has_any_key(mapping, &roots), has_any_key(mapping, &native_roots))
        },
        None => {
            return Err("configuration root must be a mapping".to_owned());
        },
    };
    if coordinator && native {
        return Err(
            "cannot mix coordinator server/gateway/pipeline keys with native Praxis keys".to_owned(),
        );
    }
    if coordinator {
        Ok(ConfigSource::Coordinator(root))
    } else {
        Ok(ConfigSource::Native)
    }
}

/// Finds out what a configuration text is.
pub fn classify_config(input: &str) -> (r: Result<ConfigSource, String>)
    ensures
        source_result(r) == match yaml::yaml_read(input@) {
            Ok(root) => source_of(root),
            Err(error) => Err("invalid YAML: "@ + error),
        },
{
    match yaml::read_yaml(input) {
        Ok(root) => classify_root(root),
        Err(error) => Err(text::join2("invalid YAML: ", error.as_str())),
    }
}

/// The steps that a pipeline can have.
pub open spec fn step_types() -> Seq<Seq<char>> {
    seq![
        "replace-media-urls"@,
        "render"@,
        "conditional-decode"@,
        "encode"@,
        "prefill"@,
        "decode"@,
    ]
}

/// The parameters that a step can have.
pub open spec fn step_params(step_type: Seq<char>) -> Seq<Seq<char>> {
    if step_type == "replace-media-urls"@ {
        seq![
            "download_timeout"@,
            "max_concurrent_downloads"@,
            "max_multimodal_entries"@,
            "max_download_size"@,
            "allow_private_networks"@,
            "allowed_domains"@,
        ]
    } else if step_type == "render"@ {
        seq![
            "address"@,
            "timeout"@,
            "max_idle_conns_per_host"@,
            "idle_conn_timeout"@,
            "max_total_tokens"@,
            "max_total_placeholder_tokens"@,
        ]
    } else if step_type == "conditional-decode"@ {
        seq!["use_openai_format"@]
    } else if step_type == "encode"@ {
        seq!["max_parallel"@, "use_openai_format"@, "ec_connector"@]
    } else if step_type == "prefill"@ {
        seq!["use_openai_format"@, "ec_connector"@, "kv_connector"@]
    } else if step_type == "decode"@ {
        seq!["use_openai_format"@, "kv_connector"@]
    } else {
        Seq::empty()
    }
}

/// The encoder-cache connectors there are.
pub open spec fn is_ec_connector(name: Seq<char>) -> bool {
    name == "ec-nixl"@ || name == "ec-shared-storage"@
}

/// The KV connectors there are.
pub open spec fn is_kv_connector(name: Seq<char>) -> bool {
    name == "kv-nixl"@ || name == "kv-shared-storage"@
}

/// The text that a value is, if it is one.
pub open spec fn text_in(value: Option<YamlView>) -> Option<Seq<char>> {
    match value {
        Some(value) => match yaml::bare(value) {
            YamlView::Text(text) => Some(text),
            _ => None,
        },
        None => None,
    }
}

/// The place of the parameters of a step.
pub open spec fn params_place(index: nat) -> Seq<char> {
    "pipeline.steps["@ + text::decimal_text(index) + "].params."@
}

/// What is wrong with the parameters of a step, if anything.
pub open spec fn params_check(
    index: nat,
    step_type: Seq<char>,
    params: Seq<(YamlView, YamlView)>,
) -> Result<(), Seq<char>> {
    let unknown = unknown_key(params, step_params(step_type));
    let ec = text_in(yaml::lookup(params, "ec_connector"@));
    let kv = text_in(yaml::lookup(params, "kv_connector"@));
    if unknown is Some {
        Err(params_place(index) + unknown->0 + " is unsupported"@)
    } else if ec is Some && !is_ec_connector(ec->0) {
        Err(params_place(index) + "ec_connector '"@ + ec->0 + "' is unsupported"@)
    } else if kv is Some && !is_kv_connector(kv->0) {
        Err(params_place(index) + "kv_connector '"@ + kv->0 + "' is unsupported"@)
    } else {
        Ok(())
    }
}

/// The parameters that a step can have.
fn allowed_params(step_type: &str) -> (r: Vec<&'static str>)
    ensures
        names_view(r@) == step_params(step_type@),
{
    let r: Vec<&'static str> = if text::same(step_type, "replace-media-urls") {
        vec![
            "download_timeout",
            "max_concurrent_downloads",
            "max_multimodal_entries",
            "max_download_size",
            "allow_private_networks",
            "allowed_domains",
        ]
    } else if text::same(step_type, "render") {
        vec![
            "address",
            "timeout",
            "max_idle_conns_per_host",
            "idle_conn_timeout",
            "max_total_tokens",
            "max_total_placeholder_tokens",
        ]
    } else if text::same(step_type, "conditional-decode") {
        vec!["use_openai_format"]
    } else if text::same(step_type, "encode") {
        vec!["max_parallel", "use_openai_format", "ec_connector"]
    } else if text::same(step_type, "prefill") {
        vec!["use_openai_format", "ec_connector", "kv_connector"]
    } else if text::same(step_type, "decode") {
        vec!["use_openai_format", "kv_connector"]
    } else {
        Vec::new()
    };
    proof {
        assert(names_view(r@) =~= step_params(step_type@));
    }
    r
}

/// The text under a key of a mapping, if there is one.
pub(crate) fn text_entry<'a>(mapping: &'a serde_yaml::Mapping, key: &str) -> (r: Option<&'a str>)
    ensures
        r is Some <==> text_in(yaml::lookup(yaml::entries_of(*mapping), key@)) is Some,
        r matches Some(text) ==> text_in(yaml::lookup(yaml::entries_of(*mapping), key@)) == Some(
            text@,
        ),
{
    match yaml::get_entry(mapping, key) {
        Some(value) => yaml::as_yaml_text(value),
        None => None,
    }
}

/// The place of the parameters of a step.
fn place_of_params(index: usize) -> (r: String)
    ensures
        r@ == params_place(index as nat),
{
    text::join3("pipeline.steps[", text::decimal(index as u64).as_str(), "].params.")
}

/// Checks the parameters of a step.
pub fn validate_step_params(index: usize, step: &CoordinatorStep) -> (r: Result<(), String>)
    ensures
        check_view(r) == params_check(
            index as nat,
            step.step_type@,
            yaml::entries_of(step.params),
        ),
{
    let place = place_of_params(index);
    let allowed = allowed_params(step.step_type.as_str());
    if let Some(key) = find_unknown_key(&step.params, &allowed) {
        return Err(text::join3(place.as_str(), key.as_str(), " is unsupported"));
    }
    if let Some(value) = text_entry(&step.params, "ec_connector") {
        if !text::same(value, "ec-nixl") && !text::same(value, "ec-shared-storage") {
            let place = text::join2(place.as_str(), "ec_connector '");
            return Err(text::join3(place.as_str(), value, "' is unsupported"));
        }
    }
    if let Some(value) = text_entry(&step.params, "kv_connector") {
        if !text::same(value, "kv-nixl") && !text::same(value, "kv-shared-storage") {
            let place = text::join2(place.as_str(), "kv_connector '");
            return Err(text::join3(place.as_str(), value, "' is unsupported"));
        }
    }
    Ok(())
}

/// Whether a step is a worker stage; the conditional one only where it counts.
pub open spec fn is_stage(step_type: Seq<char>, conditional: bool) -> bool {
    ||| step_type == "encode"@
    ||| step_type == "prefill"@
    ||| step_type == "decode"@
    ||| conditional && step_type == "conditional-decode"@
}

/// The worker stages of some steps, in order.
pub open spec fn stages_of(steps: Seq<CoordinatorStep>, conditional: bool) -> Seq<Seq<char>>
    decreases steps.len(),
{
    if steps.len() == 0 {
        Seq::empty()
    } else {
        let before = stages_of(steps.drop_last(), conditional);
        if is_stage(steps.last().step_type@, conditional) {
            before.push(steps.last().step_type@)
        } else {
            before
        }
    }
}

/// The topology that worker stages describe, if they describe one.
pub open spec fn topology_of(stages: Seq<Seq<char>>) -> Option<Topology> {
    if stages == seq!["decode"@] {
        Some(Topology::Combined)
    } else if stages == seq!["prefill"@, "decode"@] {
        Some(Topology::PrefillDecode)
    } else if stages == seq!["encode"@, "decode"@] {
        Some(Topology::EncodePrefillDecode)
    } else if stages == seq!["encode"@, "prefill"@, "decode"@] {
        Some(Topology::FullyDisaggregated)
    } else {
        None
    }
}

/// Names in quotes, with commas between.
pub open spec fn quoted_names(names: Seq<Seq<char>>) -> Seq<char>
    decreases names.len(),
{
    if names.len() == 0 {
        Seq::empty()
    } else if names.len() == 1 {
        codec::quoted(names[0])
    } else {
        quoted_names(names.drop_last()) + ", "@ + codec::quoted(names.last())
    }
}

/// The complaint about stages that describe no topology.
pub open spec fn sequence_complaint(stages: Seq<Seq<char>>) -> Seq<char> {
    "pipeline step sequence ["@ + quoted_names(stages)
        + "] does not describe EPD, P/D, E/PD, or E/P/D"@
}

/// The worker stages of some steps, in order.
fn list_stages(steps: &Vec<CoordinatorStep>, conditional: bool) -> (r: Vec<String>)
    ensures
        text::strings_view(r@) == stages_of(steps@, conditional),
{
    let mut r: Vec<String> = Vec::new();
    let mut i: usize = 0;
    proof {
        assert(text::strings_view(r@) =~= Seq::empty());
        assert(steps@.take(0) =~= Seq::empty());
    }
    while i < steps.len()
        invariant
            i <= steps.len(),
            text::strings_view(r@) == stages_of(steps@.take(i as int), conditional),
        decreases steps.len() - i,
    {
        proof {
            assert(steps@.take(i + 1).drop_last() =~= steps@.take(i as int));
        }
        let name = steps[i].step_type.as_str();
        if text::same(name, "encode") || text::same(name, "prefill") || text::same(name, "decode")
            || (conditional && text::same(name, "conditional-decode")) {
            let ghost held = r@;
            r.push(name.to_owned());
            proof {
                assert(text::strings_view(r@) =~= text::strings_view(held).push(name@));
            }
        }
        i += 1;
    }
    proof {
        assert(steps@.take(i as int) =~= steps@);
    }
    r
}

/// Names in quotes, with commas between.
fn quote_names(names: &Vec<String>) -> (r: String)
    ensures
        r@ == quoted_names(text::strings_view(names@)),
{
    let mut r = String::new();
    let ghost views = text::strings_view(names@);
    let mut i: usize = 0;
    proof {
        assert(views.take(0) =~= Seq::empty());
    }
    while i < names.len()
        invariant
            views == text::strings_view(names@),
            i <= names.len(),
            r@ == quoted_names(views.take(i as int)),
        decreases names.len() - i,
    {
        proof {
            assert(views.take(i + 1).drop_last() =~= views.take(i as int));
            assert(views.take(i + 1).last() == names@[i as int]@);
        }
        if i > 0 {
            r.append(", ");
        }
        r.append(codec::quote(names[i].as_str()).as_str());
        i += 1;
    }
    proof {
        assert(views.take(i as int) =~= views);
    }
    r
}

/// The complaint about stages that describe no topology.
fn complain_of_sequence(stages: &Vec<String>) -> (r: String)
    ensures
        r@ == sequence_complaint(text::strings_view(stages@)),
{
    text::join3(
        "pipeline step sequence [",
        quote_names(stages).as_str(),
        "] does not describe EPD, P/D, E/PD, or E/P/D",
    )
}

/// The topology that worker stages describe, if they describe one.
fn find_topology(stages: &Vec<String>) -> (r: Option<Topology>)
    ensures
        r == topology_of(text::strings_view(stages@)),
{
    let ghost views = text::strings_view(stages@);
    let n = stages.len();
    proof {
        assert(views.len() == n);
        assert(forall|i: int| 0 <= i < n ==> #[trigger] views[i] == stages@[i]@);
        assert(n == 1 ==> views =~= seq![views[0]]);
        assert(n == 2 ==> views =~= seq![views[0], views[1]]);
        assert(n == 3 ==> views =~= seq![views[0], views[1], views[2]]);
        let one = seq!["decode"@];
        let two = seq!["prefill"@, "decode"@];
        let two_more = seq!["encode"@, "decode"@];
        let three = seq!["encode"@, "prefill"@, "decode"@];
        assert(one.len() == 1 && two.len() == 2 && two_more.len() == 2 && three.len() == 3);
        assert(one[0] == "decode"@);
        assert(two[0] == "prefill"@ && two[1] == "decode"@);
        assert(two_more[0] == "encode"@ && two_more[1] == "decode"@);
        assert(three[0] == "encode"@ && three[1] == "prefill"@ && three[2] == "decode"@);
    }
    if n == 1 && text::same(stages[0].as_str(), "decode") {
        Some(Topology::Combined)
    } else if n == 2 && text::same(stages[0].as_str(), "prefill") && text::same(
        stages[1].as_str(),
        "decode",
    ) {
        Some(Topology::PrefillDecode)
    } else if n == 2 && text::same(stages[0].as_str(), "encode") && text::same(
        stages[1].as_str(),
        "decode",
    ) {
        Some(Topology::EncodePrefillDecode)
    } else if n == 3 && text::same(stages[0].as_str(), "encode") && text::same(
        stages[1].as_str(),
        "prefill",
    ) && text::same(stages[2].as_str(), "decode") {
        Some(Topology::FullyDisaggregated)
    } else {
        None
    }
}

/// What finding a topology says.
pub open spec fn topology_result(r: Result<Topology, String>) -> Result<Topology, Seq<char>> {
    match r {
        Ok(topology) => Ok(topology),
        Err(error) => Err(error@),
    }
}

/// The topology of a pipeline, or the complaint about its stages.
pub open spec fn topology_read(pipeline: CoordinatorPipeline) -> Result<Topology, Seq<char>> {
    let stages = stages_of(pipeline.steps@, false);
    match topology_of(stages) {
        Some(topology) => Ok(topology),
        None => Err(sequence_complaint(stages)),
    }
}

/// The topology of a pipeline.
pub fn infer_topology(pipeline: &CoordinatorPipeline) -> (r: Result<Topology, String>)
    ensures
        topology_result(r) == topology_read(*pipeline),
{
    let stages = list_stages(&pipeline.steps, false);
    match find_topology(&stages) {
        Some(topology) => Ok(topology),
        None => Err(complain_of_sequence(&stages)),
    }
}

/// What is wrong with the settings of a secured connection, if anything:
/// nothing of them can be set.
pub open spec fn tls_check(path: Seq<char>, tls: Option<TlsSettings>) -> Result<(), Seq<char>> {
    match tls {
        Some(tls) if tls.ca_file is Some || tls.cert_file is Some || tls.key_file is Some
            || tls.server_name is Some || !tls.verify => Err(
            path + " is unsupported by the local PoC transport"@,
        ),
        _ => Ok(()),
    }
}

/// Checks the settings of a secured connection.
pub fn validate_tls(path: &str, tls: Option<&TlsSettings>) -> (r: Result<(), String>)
    ensures
        check_view(r) == tls_check(
            path@,
            match tls {
                Some(tls) => Some(*tls),
                None => None,
            },
        ),
{
    if let Some(tls) = tls {
        if tls.ca_file.is_some() || tls.cert_file.is_some() || tls.key_file.is_some()
            || tls.server_name.is_some() || !tls.verify {
            return Err(text::join2(path, " is unsupported by the local PoC transport"));
        }
    }
    Ok(())
}

/// What is wrong with the first steps, if anything.
pub open spec fn steps_check(steps: Seq<CoordinatorStep>, upto: nat) -> Result<(), Seq<char>>
    decreases upto,
{
    if upto == 0 {
        Ok(())
    } else {
        let index = (upto - 1) as nat;
        match steps_check(steps, index) {
            Err(error) => Err(error),
            Ok(()) => {
                let step = steps[index as int];
                if !step_types().contains(step.step_type@) {
                    Err(
                        "pipeline.steps["@ + text::decimal_text(index) + "].type '"@
                            + step.step_type@ + "' is unsupported"@,
                    )
                } else {
                    params_check(index, step.step_type@, yaml::entries_of(step.params))
                }
            },
        }
    }
}

/// The first step of a type, if there is one.
pub open spec fn first_step(steps: Seq<CoordinatorStep>, step_type: Seq<char>) -> Option<
    CoordinatorStep,
>
    decreases steps.len(),
{
    if steps.len() == 0 {
        None
    } else if steps[0].step_type@ == step_type {
        Some(steps[0])
    } else {
        first_step(steps.skip(1), step_type)
    }
}

/// Whether worker stages can run: they describe a topology, only the first can
/// be conditional, and decode is the last.
pub open spec fn can_run(steps: Seq<CoordinatorStep>) -> bool {
    let stages = stages_of(steps, true);
    &&& topology_of(stages_of(steps, false)) is Some
    &&& forall|i: int| 0 < i < stages.len() ==> #[trigger] stages[i] != "conditional-decode"@
    &&& stages.len() > 0 && stages.last() == "decode"@
}

/// What is wrong with a pipeline, if anything.
pub open spec fn pipeline_check(pipeline: CoordinatorPipeline) -> Result<(), Seq<char>> {
    let steps = pipeline.steps@;
    if !is_kv_connector(pipeline.kv_connector@) {
        Err(
            "pipeline.kv_connector '"@ + pipeline.kv_connector@
                + "' is unsupported; expected kv-nixl or kv-shared-storage"@,
        )
    } else if !is_ec_connector(pipeline.ec_connector@) {
        Err(
            "pipeline.ec_connector '"@ + pipeline.ec_connector@
                + "' is unsupported; expected ec-nixl or ec-shared-storage"@,
        )
    } else if steps.len() == 0 {
        Err("pipeline.steps must not be empty"@)
    } else if steps_check(steps, steps.len()) is Err {
        steps_check(steps, steps.len())
    } else if !pipeline.use_openai_format && first_step(steps, "render"@) is None {
        Err("pipeline.use_openai_format=false requires a render step"@)
    } else if !can_run(steps) {
        Err(sequence_complaint(stages_of(steps, true)))
    } else {
        Ok(())
    }
}

proof fn steps_check_stops(steps: Seq<CoordinatorStep>, upto: nat, more: nat)
    requires
        upto <= more,
        steps_check(steps, upto) is Err,
    ensures
        steps_check(steps, more) == steps_check(steps, upto),
    decreases more,
{
    if upto < more {
        steps_check_stops(steps, upto, (more - 1) as nat);
    }
}

/// Checks the steps of a pipeline, one by one.
fn validate_steps(steps: &Vec<CoordinatorStep>) -> (r: Result<(), String>)
    ensures
        check_view(r) == steps_check(steps@, steps@.len()),
{
    let known = vec![
        "replace-media-urls",
        "render",
        "conditional-decode",
        "encode",
        "prefill",
        "decode",
    ];
    proof {
        assert(names_view(known@) =~= step_types());
    }
    let mut i: usize = 0;
    while i < steps.len()
        invariant
            names_view(known@) == step_types(),
            i <= steps.len(),
            steps_check(steps@, i as nat) is Ok,
        decreases steps.len() - i,
    {
        proof {
            if steps_check(steps@, (i + 1) as nat) is Err {
                steps_check_stops(steps@, (i + 1) as nat, steps@.len());
            }
        }
        let step = &steps[i];
        if !is_among(&known, step.step_type.as_str()) {
            let place = text::join3(
                "pipeline.steps[",
                text::decimal(i as u64).as_str(),
                "].type '",
            );
            return Err(
                text::join3(place.as_str(), step.step_type.as_str(), "' is unsupported"),
            );
        }
        match validate_step_params(i, step) {
            Ok(()) => {},
            Err(error) => {
                return Err(error);
            },
        }
        i += 1;
    }
    Ok(())
}

/// Finds the first step of a type.
pub(crate) fn find_step<'a>(steps: &'a Vec<CoordinatorStep>, step_type: &str) -> (r: Option<
    &'a CoordinatorStep,
>)
    ensures
        r is Some <==> first_step(steps@, step_type@) is Some,
        r matches Some(step) ==> first_step(steps@, step_type@) == Some(*step),
{
    let mut i: usize = 0;
    proof {
        assert(steps@.skip(0) =~= steps@);
    }
    while i < steps.len()
        invariant
            i <= steps.len(),
            first_step(steps@, step_type@) == first_step(steps@.skip(i as int), step_type@),
        decreases steps.len() - i,
    {
        proof {
            assert(steps@.skip(i as int)[0] == steps@[i as int]);
            assert(steps@.skip(i as int).skip(1) =~= steps@.skip(i + 1));
        }
        if text::same(steps[i].step_type.as_str(), step_type) {
            return Some(&steps[i]);
        }
        i += 1;
    }
    None
}

/// Checks a pipeline.
pub fn validate_pipeline(pipeline: &CoordinatorPipeline) -> (r: Result<(), String>)
    ensures
        check_view(r) == pipeline_check(*pipeline),
{
    let kv = pipeline.kv_connector.as_str();
    if !text::same(kv, "kv-nixl") && !text::same(kv, "kv-shared-storage") {
        return Err(
            text::join3(
                "pipeline.kv_connector '",
                kv,
                "' is unsupported; expected kv-nixl or kv-shared-storage",
            ),
        );
    }
    let ec = pipeline.ec_connector.as_str();
    if !text::same(ec, "ec-nixl") && !text::same(ec, "ec-shared-storage") {
        return Err(
            text::join3(
                "pipeline.ec_connector '",
                ec,
                "' is unsupported; expected ec-nixl or ec-shared-storage",
            ),
        );
    }
    if pipeline.steps.len() == 0 {
        return Err("pipeline.steps must not be empty".to_owned());
    }
    match validate_steps(&pipeline.steps) {
        Ok(()) => {},
        Err(error) => {
            return Err(error);
        },
    }
    if !pipeline.use_openai_format && find_step(&pipeline.steps, "render").is_none() {
        return Err("pipeline.use_openai_format=false requires a render step".to_owned());
    }
    let stages = list_stages(&pipeline.steps, true);
    let ghost views = text::strings_view(stages@);
    let valid = find_topology(&list_stages(&pipeline.steps, false)).is_some();
    let mut late = false;
    let mut i: usize = 1;
    while i < stages.len()
        invariant
            views == text::strings_view(stages@),
            1 <= i,
            late == exists|j: int|
                0 < j < i && j < views.len() && #[trigger] views[j] == "conditional-decode"@,
        decreases stages.len() - i,
    {
        proof {
            assert(views[i as int] == stages@[i as int]@);
        }
        if text::same(stages[i].as_str(), "conditional-decode") {
            late = true;
        }
        i += 1;
    }
    let last = stages.len() > 0 && text::same(stages[stages.len() - 1].as_str(), "decode");
    proof {
        if stages@.len() > 0 {
            assert(views.last() == stages@.last()@);
        }
    }
    if !valid || late || !last {
        return Err(complain_of_sequence(&stages));
    }
    Ok(())
}

/// What is wrong with a coordinator configuration, if anything.
pub open spec fn coordinator_check(config: CoordinatorConfig) -> Result<(), Seq<char>> {
    let timeout = millis_read("gateway.timeout"@, config.gateway.timeout@);
    let idle = millis_read("gateway.idle_conn_timeout"@, config.gateway.idle_conn_timeout@);
    let epp = tls_check("gateway.epp_tls"@, config.gateway.epp_tls);
    let worker = tls_check("gateway.worker_tls"@, config.gateway.worker_tls);
    if text::trimmed(config.gateway.address@).len() == 0 {
        Err("gateway.address must not be empty"@)
    } else if timeout is Err {
        Err(timeout->Err_0)
    } else if idle is Err {
        Err(idle->Err_0)
    } else if config.gateway.max_idle_conns_per_host == 0 {
        Err("gateway.max_idle_conns_per_host must be greater than zero"@)
    } else if !(1 <= config.server.max_request_body_size <= 64) {
        Err("server.max_request_body_size must be between 1 and 64 MiB"@)
    } else if epp is Err {
        epp
    } else if worker is Err {
        worker
    } else {
        pipeline_check(config.pipeline)
    }
}

/// Checks a coordinator configuration.
pub fn validate_coordinator(config: &CoordinatorConfig) -> (r: Result<(), String>)
    ensures
        check_view(r) == coordinator_check(*config),
{
    if text::trim(config.gateway.address.as_str()).is_empty() {
        return Err("gateway.address must not be empty".to_owned());
    }
    match duration_ms("gateway.timeout", config.gateway.timeout.as_str()) {
        Ok(_) => {},
        Err(error) => {
            return Err(error);
        },
    }
    match duration_ms("gateway.idle_conn_timeout", config.gateway.idle_conn_timeout.as_str()) {
        Ok(_) => {},
        Err(error) => {
            return Err(error);
        },
    }
    if config.gateway.max_idle_conns_per_host == 0 {
        return Err("gateway.max_idle_conns_per_host must be greater than zero".to_owned());
    }
    if config.server.max_request_body_size == 0 || config.server.max_request_body_size > 64 {
        return Err("server.max_request_body_size must be between 1 and 64 MiB".to_owned());
    }
    match validate_tls("gateway.epp_tls", config.gateway.epp_tls.as_ref()) {
        Ok(()) => {},
        Err(error) => {
            return Err(error);
        },
    }
    match validate_tls("gateway.worker_tls", config.gateway.worker_tls.as_ref()) {
        Ok(()) => {},
        Err(error) => {
            return Err(error);
        },
    }
    validate_pipeline(&config.pipeline)
}

/// The complaint about a key that a configuration cannot have.
pub open spec fn unknown_complaint(place: Seq<char>, key: Seq<char>) -> Seq<char> {
    "invalid coordinator configuration: "@ + place + key + ": unknown field `"@ + key + "`"@
}

/// What is wrong with the keys of a section, if it is there and a mapping.
pub open spec fn section_check(
    place: Seq<char>,
    section: Option<YamlView>,
    names: Seq<Seq<char>>,
) -> Result<(), Seq<char>> {
    match section {
        Some(section) => match yaml::bare(section) {
            YamlView::Mapping(entries) => match unknown_key(entries, names) {
                Some(key) => Err(unknown_complaint(place, key)),
                None => Ok(()),
            },
            _ => Ok(()),
        },
        None => Ok(()),
    }
}

/// The value under a key of a section, if it is there and a mapping.
pub open spec fn entry_in(section: Option<YamlView>, key: Seq<char>) -> Option<YamlView> {
    match section {
        Some(section) => match yaml::bare(section) {
            YamlView::Mapping(entries) => yaml::lookup(entries, key),
            _ => None,
        },
        None => None,
    }
}

/// The keys of a coordinator configuration.
pub open spec fn root_keys() -> Seq<Seq<char>> {
    seq!["log_level"@, "server"@, "gateway"@, "pipeline"@]
}

/// The keys of the server section.
pub open spec fn server_keys() -> Seq<Seq<char>> {
    seq![
        "listen_addr"@,
        "metrics_port"@,
        "read_timeout"@,
        "write_timeout"@,
        "shutdown_timeout"@,
        "max_request_body_size"@,
    ]
}

/// The keys of the gateway section.
pub open spec fn gateway_keys() -> Seq<Seq<char>> {
    seq![
        "address"@,
        "max_idle_conns_per_host"@,
        "idle_conn_timeout"@,
        "timeout"@,
        "epp_tls"@,
        "worker_tls"@,
    ]
}

/// The keys of the settings of a secured connection.
pub open spec fn tls_keys() -> Seq<Seq<char>> {
    seq!["ca_file"@, "cert_file"@, "key_file"@, "server_name"@, "verify"@]
}

/// The keys of the pipeline section.
pub open spec fn pipeline_keys() -> Seq<Seq<char>> {
    seq!["kv_connector"@, "ec_connector"@, "use_openai_format"@, "steps"@]
}

/// The keys of a step.
pub open spec fn step_keys() -> Seq<Seq<char>> {
    seq!["type"@, "params"@]
}

/// The steps that a pipeline section lists.
pub open spec fn listed_steps(pipeline: Option<YamlView>) -> Seq<YamlView> {
    match entry_in(pipeline, "steps"@) {
        Some(steps) => match yaml::bare(steps) {
            YamlView::Sequence(steps) => steps,
            _ => Seq::empty(),
        },
        None => Seq::empty(),
    }
}

/// What is wrong with the keys of the first steps, if anything.
pub open spec fn step_keys_check(steps: Seq<YamlView>, upto: nat) -> Result<(), Seq<char>>
    decreases upto,
{
    if upto == 0 {
        Ok(())
    } else {
        let index = (upto - 1) as nat;
        match step_keys_check(steps, index) {
            Err(error) => Err(error),
            Ok(()) => section_check(
                "pipeline.steps["@ + text::decimal_text(index) + "]."@,
                Some(steps[index as int]),
                step_keys(),
            ),
        }
    }
}

/// What is wrong with the keys of a configuration, if anything: every key has
/// to be known, and one that is not is named with its place.
pub open spec fn keys_check(root: YamlView) -> Result<(), Seq<char>> {
    let server = entry_in(Some(root), "server"@);
    let gateway = entry_in(Some(root), "gateway"@);
    let pipeline = entry_in(Some(root), "pipeline"@);
    let steps = listed_steps(pipeline);
    let of_root = section_check(""@, Some(root), root_keys());
    let of_server = section_check("server."@, server, server_keys());
    let of_gateway = section_check("gateway."@, gateway, gateway_keys());
    let of_epp = section_check("gateway.epp_tls."@, entry_in(gateway, "epp_tls"@), tls_keys());
    let of_worker = section_check(
        "gateway.worker_tls."@,
        entry_in(gateway, "worker_tls"@),
        tls_keys(),
    );
    let of_pipeline = section_check("pipeline."@, pipeline, pipeline_keys());
    if of_root is Err {
        of_root
    } else if of_server is Err {
        of_server
    } else if of_gateway is Err {
        of_gateway
    } else if of_epp is Err {
        of_epp
    } else if of_worker is Err {
        of_worker
    } else if of_pipeline is Err {
        of_pipeline
    } else {
        step_keys_check(steps, steps.len())
    }
}

/// What an optional value is.
pub open spec fn section_view(section: Option<&serde_yaml::Value>) -> Option<YamlView> {
    match section {
        Some(section) => Some(yaml::yaml_of(*section)),
        None => None,
    }
}

/// Checks the keys of a section.
fn check_section(
    place: &str,
    section: Option<&serde_yaml::Value>,
    names: &Vec<&'static str>,
) -> (r: Result<(), String>)
    ensures
        check_view(r) == section_check(place@, section_view(section), names_view(names@)),
{
    if let Some(section) = section {
        if let Some(mapping) = yaml::as_yaml_mapping(section) {
            if let Some(key) = find_unknown_key(mapping, names) {
                let place = text::join3("invalid coordinator configuration: ", place, key.as_str());
                let place = text::join2(place.as_str(), ": unknown field `");
                return Err(text::join3(place.as_str(), key.as_str(), "`"));
            }
        }
    }
    Ok(())
}

/// The value under a key of a section.
fn section_entry<'a>(section: Option<&'a serde_yaml::Value>, key: &str) -> (r: Option<
    &'a serde_yaml::Value,
>)
    ensures
        section_view(r) == entry_in(section_view(section), key@),
{
    match section {
        Some(section) => match yaml::as_yaml_mapping(section) {
            Some(mapping) => yaml::get_entry(mapping, key),
            None => None,
        },
        None => None,
    }
}

proof fn step_keys_check_stops(steps: Seq<YamlView>, upto: nat, more: nat)
    requires
        upto <= more,
        step_keys_check(steps, upto) is Err,
    ensures
        step_keys_check(steps, more) == step_keys_check(steps, upto),
    decreases more,
{
    if upto < more {
        step_keys_check_stops(steps, upto, (more - 1) as nat);
    }
}

/// Checks the keys of the steps that a pipeline section lists.
fn check_step_keys(pipeline: Option<&serde_yaml::Value>) -> (r: Result<(), String>)
    ensures
        check_view(r) == step_keys_check(
            listed_steps(section_view(pipeline)),
            listed_steps(section_view(pipeline)).len(),
        ),
{
    let steps = match section_entry(pipeline, "steps") {
        Some(steps) => match yaml::as_yaml_sequence(steps) {
            Some(steps) => steps,
            None => {
                return Ok(());
            },
        },
        None => {
            return Ok(());
        },
    };
    let names = vec!["type", "params"];
    let ghost views = yaml::values_of(steps@);
    proof {
        assert(names_view(names@) =~= step_keys());
    }
    let mut i: usize = 0;
    while i < steps.len()
        invariant
            names_view(names@) == step_keys(),
            views == yaml::values_of(steps@),
            views == listed_steps(section_view(pipeline)),
            i <= steps.len(),
            step_keys_check(views, i as nat) is Ok,
        decreases steps.len() - i,
    {
        proof {
            assert(views[i as int] == yaml::yaml_of(steps@[i as int]));
            if step_keys_check(views, (i + 1) as nat) is Err {
                step_keys_check_stops(views, (i + 1) as nat, views.len());
            }
        }
        let place = text::join3("pipeline.steps[", text::decimal(i as u64).as_str(), "].");
        match check_section(place.as_str(), Some(&steps[i]), &names) {
            Ok(()) => {},
            Err(error) => {
                return Err(error);
            },
        }
        i += 1;
    }
    Ok(())
}

/// Checks the keys of a coordinator configuration.
pub fn check_keys(root: &serde_yaml::Value) -> (r: Result<(), String>)
    ensures
        check_view(r) == keys_check(yaml::yaml_of(*root)),
{
    let root_names = vec!["log_level", "server", "gateway", "pipeline"];
    let server_names = vec![
        "listen_addr",
        "metrics_port",
        "read_timeout",
        "write_timeout",
        "shutdown_timeout",
        "max_request_body_size",
    ];
    let gateway_names = vec![
        "address",
        "max_idle_conns_per_host",
        "idle_conn_timeout",
        "timeout",
        "epp_tls",
        "worker_tls",
    ];
    let tls_names = vec!["ca_file", "cert_file", "key_file", "server_name", "verify"];
    let pipeline_names = vec!["kv_connector", "ec_connector", "use_openai_format", "steps"];
    proof {
        assert(names_view(root_names@) =~= root_keys());
        assert(names_view(server_names@) =~= server_keys());
        assert(names_view(gateway_names@) =~= gateway_keys());
        assert(names_view(tls_names@) =~= tls_keys());
        assert(names_view(pipeline_names@) =~= pipeline_keys());
    }
    let server = section_entry(Some(root), "server");
    let gateway = section_entry(Some(root), "gateway");
    let pipeline = section_entry(Some(root), "pipeline");
    match check_section("", Some(root), &root_names) {
        Ok(()) => {},
        Err(error) => {
            return Err(error);
        },
    }
    match check_section("server.", server, &server_names) {
        Ok(()) => {},
        Err(error) => {
            return Err(error);
        },
    }
    match check_section("gateway.", gateway, &gateway_names) {
        Ok(()) => {},
        Err(error) => {
            return Err(error);
        },
    }
    match check_section("gateway.epp_tls.", section_entry(gateway, "epp_tls"), &tls_names) {
        Ok(()) => {},
        Err(error) => {
            return Err(error);
        },
    }
    match check_section("gateway.worker_tls.", section_entry(gateway, "worker_tls"), &tls_names) {
        Ok(()) => {},
        Err(error) => {
            return Err(error);
        },
    }
    match check_section("pipeline.", pipeline, &pipeline_names) {
        Ok(()) => {},
        Err(error) => {
            return Err(error);
        },
    }
    check_step_keys(pipeline)
}

/// A duration that is accepted is positive and fits its type.
pub proof fn accepted_durations_are_positive(path: Seq<char>, value: Seq<char>)
    ensures
        millis_read(path, value) matches Ok(millis) ==> 0 < millis <= u64::MAX,
        seconds_read(path, value) matches Ok(seconds) ==> 0 < seconds <= u64::MAX,
{
}

/// A configuration with the keys of both kinds is refused, whatever else it
/// holds, and one with none of the coordinator's is native.
pub proof fn mixed_roots_are_refused(root: YamlView, entries: Seq<(YamlView, YamlView)>)
    requires
        yaml::bare(root) == YamlView::Mapping(entries),
    ensures
        has_key_of(entries, coordinator_roots()) && has_key_of(entries, native_roots())
            <==> source_of(root) is Err,
        !has_key_of(entries, coordinator_roots()) ==> source_of(root) == Ok::<
            SourceView,
            Seq<char>,
        >(SourceView::Native),
{
}

proof fn checked_steps(steps: Seq<CoordinatorStep>, upto: nat, i: int)
    requires
        steps_check(steps, upto) is Ok,
        0 <= i < upto,
    ensures
        step_types().contains(steps[i].step_type@),
        params_check(i as nat, steps[i].step_type@, yaml::entries_of(steps[i].params)) is Ok,
    decreases upto,
{
    if i < upto - 1 {
        checked_steps(steps, (upto - 1) as nat, i);
    }
}

/// A pipeline that is accepted describes a topology, ends with decode, has a
/// render step where it takes tokens in, and names only connectors there are,
/// also in its steps.
pub proof fn accepted_pipelines_can_run(pipeline: CoordinatorPipeline)
    requires
        pipeline_check(pipeline) is Ok,
    ensures
        topology_read(pipeline) is Ok,
        stages_of(pipeline.steps@, true).len() > 0,
        stages_of(pipeline.steps@, true).last() == "decode"@,
        pipeline.use_openai_format || first_step(pipeline.steps@, "render"@) is Some,
        is_kv_connector(pipeline.kv_connector@),
        is_ec_connector(pipeline.ec_connector@),
        forall|i: int|
            0 <= i < pipeline.steps@.len() ==> (text_in(
                yaml::lookup(
                    yaml::entries_of((#[trigger] pipeline.steps@[i]).params),
                    "kv_connector"@,
                ),
            ) matches Some(name) ==> is_kv_connector(name)),
        forall|i: int|
            0 <= i < pipeline.steps@.len() ==> (text_in(
                yaml::lookup(
                    yaml::entries_of((#[trigger] pipeline.steps@[i]).params),
                    "ec_connector"@,
                ),
            ) matches Some(name) ==> is_ec_connector(name)),
{
    let steps = pipeline.steps@;
    assert forall|i: int| 0 <= i < steps.len() implies params_check(
        i as nat,
        (#[trigger] steps[i]).step_type@,
        yaml::entries_of(steps[i].params),
    ) is Ok by {
        checked_steps(steps, steps.len(), i);
    }
}

/// Where a topology has a remote encode stage, its pipeline has one, and the
/// other way round.
pub proof fn encoding_topologies_have_an_encode_step(stages: Seq<Seq<char>>, topology: Topology)
    requires
        topology_of(stages) == Some(topology),
    ensures
        topology.encodes() <==> stages.contains("encode"@),
        stages.last() == "decode"@,
{
    reveal_strlit("encode");
    reveal_strlit("prefill");
    reveal_strlit("decode");
    assert("encode"@[0] != "decode"@[0]);
    assert("encode"@.len() != "prefill"@.len());
    let one = seq!["decode"@];
    let two = seq!["prefill"@, "decode"@];
    let two_more = seq!["encode"@, "decode"@];
    let three = seq!["encode"@, "prefill"@, "decode"@];
    assert(two_more[0] == "encode"@);
    assert(three[0] == "encode"@);
    assert(one.last() == "decode"@);
    assert(two.last() == "decode"@);
    assert(two_more.last() == "decode"@);
    assert(three.last() == "decode"@);
    if stages == one || stages == two {
        assert(!stages.contains("encode"@));
    }
}

} // verus!
