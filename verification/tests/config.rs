use llmd_coordinator::config::{
    apply_environment_overrides, check_keys, classify_config, duration_ms, duration_secs,
    infer_topology, normalize_listen_address, parse_duration, validate_coordinator, validate_tls,
    ConfigSource, CoordinatorConfig, CoordinatorGateway, CoordinatorPipeline, CoordinatorServer,
    CoordinatorStep, Environment, TlsSettings, MIB,
};
use llmd_coordinator::state::Topology;
use llmd_coordinator::translate::{build_irr_filter, translate_coordinator, translate_to_text};
use serde_yaml::{Mapping, Value};

const BASE: &str = r#"
server:
  listen_addr: ":8181"
  read_timeout: 10s
  write_timeout: 2m
  shutdown_timeout: 25s
  max_request_body_size: 16
gateway:
  address: http://epp:9002
pipeline:
  use_openai_format: true
  steps:
    - type: render
      params: { address: http://render:8080 }
    - type: encode
      params: { max_parallel: 4 }
    - type: prefill
    - type: decode
"#;

fn text(section: &Value, key: &str) -> Option<String> {
    section.get(key).and_then(Value::as_str).map(str::to_owned)
}

fn tls(section: &Value, key: &str) -> Option<TlsSettings> {
    let found = section.get(key)?;
    let mut tls = TlsSettings::default();
    tls.ca_file = text(found, "ca_file");
    tls.cert_file = text(found, "cert_file");
    tls.key_file = text(found, "key_file");
    tls.server_name = text(found, "server_name");
    tls.verify = found.get("verify").and_then(Value::as_bool).unwrap_or(true);
    Some(tls)
}

/// The configuration that a checked root holds.
fn typed(root: &Value) -> CoordinatorConfig {
    let mut server = CoordinatorServer::default();
    let section = &root["server"];
    if let Some(value) = text(section, "listen_addr") {
        server.listen_addr = value;
    }
    if let Some(value) = text(section, "read_timeout") {
        server.read_timeout = value;
    }
    if let Some(value) = text(section, "write_timeout") {
        server.write_timeout = value;
    }
    if let Some(value) = text(section, "shutdown_timeout") {
        server.shutdown_timeout = value;
    }
    if let Some(value) = section.get("max_request_body_size").and_then(Value::as_u64) {
        server.max_request_body_size = usize::try_from(value).unwrap();
    }
    if let Some(value) = section.get("metrics_port").and_then(Value::as_i64) {
        server.metrics_port = Some(i32::try_from(value).unwrap());
    }
    let section = &root["gateway"];
    let mut gateway = CoordinatorGateway::new(text(section, "address").unwrap());
    if let Some(value) = text(section, "timeout") {
        gateway.timeout = value;
    }
    if let Some(value) = text(section, "idle_conn_timeout") {
        gateway.idle_conn_timeout = value;
    }
    if let Some(value) = section.get("max_idle_conns_per_host").and_then(Value::as_u64) {
        gateway.max_idle_conns_per_host = usize::try_from(value).unwrap();
    }
    gateway.epp_tls = tls(section, "epp_tls");
    gateway.worker_tls = tls(section, "worker_tls");
    let section = &root["pipeline"];
    let steps = section["steps"]
        .as_sequence()
        .unwrap()
        .iter()
        .map(|step| CoordinatorStep {
            step_type: text(step, "type").unwrap(),
            params: step.get("params").and_then(Value::as_mapping).cloned().unwrap_or_default(),
        })
        .collect();
    let mut pipeline = CoordinatorPipeline::new(steps);
    if let Some(value) = text(section, "kv_connector") {
        pipeline.kv_connector = value;
    }
    if let Some(value) = text(section, "ec_connector") {
        pipeline.ec_connector = value;
    }
    if let Some(value) = section.get("use_openai_format").and_then(Value::as_bool) {
        pipeline.use_openai_format = value;
    }
    CoordinatorConfig { log_level: None, server, gateway, pipeline }
}

fn coordinator(input: &str) -> Result<CoordinatorConfig, String> {
    match classify_config(input)? {
        ConfigSource::Coordinator(root) => {
            check_keys(&root)?;
            Ok(typed(&root))
        }
        ConfigSource::Native => panic!("a coordinator configuration"),
    }
}

fn parse_config_yaml(input: &str) -> Result<Value, String> {
    translate_coordinator(&coordinator(input)?).map(Value::Mapping)
}

#[test]
fn translates_coordinator_config() {
    let config = parse_config_yaml(BASE).unwrap();
    assert_eq!(config["listeners"][0]["address"].as_str(), Some("0.0.0.0:8181"));
    assert_eq!(config["listeners"][0]["downstream_read_timeout_ms"].as_u64(), Some(10_000));
    assert_eq!(config["body_limits"]["max_request_bytes"].as_u64(), Some((16 * MIB) as u64));
    assert_eq!(config["shutdown_timeout_secs"].as_u64(), Some(25));
    assert_eq!(config["admin"]["address"].as_str(), Some("127.0.0.1:9090"));
    let filter = &config["filter_chains"][0]["filters"][0];
    assert_eq!(filter["filter"].as_str(), Some("llmd_prepare"));
    assert_eq!(filter["topology"].as_str(), Some("e-p-d"));
    assert_eq!(filter["use_openai_format"].as_bool(), Some(true));
    assert_eq!(filter["max_body_bytes"].as_u64(), Some((16 * MIB) as u64));
    assert_eq!(filter["render_url"].as_str(), Some("http://render:8080"));
    let irr = &config["filter_chains"][0]["filters"][1];
    assert_eq!(irr["filter"].as_str(), Some("iterative_request_router"));
    assert_eq!(irr["initial_step"].as_str(), Some("encode-0"));
    let steps = irr["steps"].as_sequence().unwrap();
    assert_eq!(steps.len(), 3);
    assert_eq!(steps[0]["fan_out"]["max_concurrency"].as_u64(), Some(4));
    assert_eq!(steps[0]["filters"][0]["filter"].as_str(), Some("llmd_stage"));
    assert_eq!(steps[0]["filters"][1]["target"].as_str(), Some("http://epp:9002"));
}

#[test]
fn leaves_native_config_unchanged() {
    let config = classify_config(
        "listeners: [{ name: web, address: '127.0.0.1:8080', filter_chains: [main] }]\n\
         filter_chains: [{ name: main, filters: [] }]",
    )
    .unwrap();
    assert!(matches!(config, ConfigSource::Native));
}

#[test]
fn rejects_mixed_schema() {
    let error = parse_config_yaml(
        "server: {}\ngateway: { address: x }\npipeline: { steps: [] }\nlisteners: []",
    )
    .unwrap_err();
    assert!(error.contains("cannot mix"));
}

#[test]
fn rejects_what_is_no_configuration() {
    assert_eq!(classify_config("[1]").unwrap_err(), "configuration root must be a mapping");
    assert!(classify_config("a: [").unwrap_err().starts_with("invalid YAML: "));
}

#[test]
fn rejects_sglang_and_unknown_fields() {
    let sglang = BASE.replace("pipeline:\n", "pipeline:\n  kv_connector: kv-sglang\n");
    assert!(parse_config_yaml(&sglang).unwrap_err().contains("unsupported"));
    let unknown = BASE.replace("  listen_addr", "  mystery: true\n  listen_addr");
    assert!(parse_config_yaml(&unknown).unwrap_err().contains("unknown field"));
}

#[test]
fn unknown_keys_are_named_with_their_place() {
    let complaint = |from: &str, to: &str| parse_config_yaml(&BASE.replace(from, to)).unwrap_err();
    assert_eq!(
        complaint("  listen_addr", "  mystery: true\n  listen_addr"),
        "invalid coordinator configuration: server.mystery: unknown field `mystery`"
    );
    assert_eq!(
        complaint("gateway:\n", "other: 1\ngateway:\n"),
        "invalid coordinator configuration: other: unknown field `other`"
    );
    assert_eq!(
        complaint("gateway:\n", "gateway:\n  worker_tls: { x: 1 }\n"),
        "invalid coordinator configuration: gateway.worker_tls.x: unknown field `x`"
    );
    assert_eq!(
        complaint("    - type: prefill\n", "    - type: prefill\n      when: now\n"),
        "invalid coordinator configuration: pipeline.steps[2].when: unknown field `when`"
    );
}

#[test]
fn tokens_in_requires_render() {
    let yaml = r#"
server: {}
gateway: { address: http://epp:9002 }
pipeline:
  use_openai_format: false
  steps: [{ type: prefill }, { type: decode }]
"#;
    assert!(parse_config_yaml(yaml).unwrap_err().contains("requires a render"));
}

#[test]
fn accepts_all_four_topologies() {
    for steps in [
        "    - type: decode\n",
        "    - type: prefill\n    - type: decode\n",
        "    - type: encode\n    - type: decode\n",
        "    - type: encode\n    - type: prefill\n    - type: decode\n",
    ] {
        let yaml = format!(
            "server: {{}}\ngateway: {{ address: 'http://epp:9002' }}\npipeline:\n  steps:\n{steps}"
        );
        parse_config_yaml(&yaml).unwrap_or_else(|error| panic!("topology should parse: {error}"));
    }
}

#[test]
fn validates_tls_pairs() {
    let yaml = BASE.replace(
        "  address: http://epp:9002",
        "  address: https://epp:9002\n  epp_tls: { cert_file: client.pem }",
    );
    let error = parse_config_yaml(&yaml).unwrap_err();
    assert!(error.contains("unsupported by the local PoC transport"));
}

#[test]
fn preserves_step_level_overrides() {
    let yaml = BASE.replace(
        "    - type: prefill\n",
        "    - type: prefill\n      params:\n        use_openai_format: false\n        kv_connector: kv-nixl\n        ec_connector: ec-nixl\n",
    );
    let config = parse_config_yaml(&yaml).unwrap();
    let steps = config["filter_chains"][0]["filters"][1]["steps"].as_sequence().unwrap();
    let stage = &steps[1]["filters"][0];
    assert_eq!(stage["use_openai_format"].as_bool(), Some(false));
    assert_eq!(stage["kv_connector"].as_str(), Some("kv-nixl"));
    assert_eq!(stage["ec_connector"].as_str(), Some("ec-nixl"));
}

#[test]
fn conditional_decode_routes_only_412_to_next_stage() {
    let yaml = BASE.replace(
        "    - type: encode\n",
        "    - type: conditional-decode\n    - type: encode\n",
    );
    let config = parse_config_yaml(&yaml).unwrap();
    let steps = config["filter_chains"][0]["filters"][1]["steps"].as_sequence().unwrap();
    assert_eq!(steps[0]["on_result"][0]["status"][0].as_u64(), Some(412));
    assert_eq!(steps[0]["on_result"][0]["next"].as_str(), Some("encode-1"));
    assert_eq!(steps[0]["on_result"][1]["done"].as_bool(), Some(true));
}

#[test]
fn the_translation_is_exact() {
    let yaml = r#"
server: { metrics_port: 0, max_request_body_size: 1, listen_addr: " host:1 " }
gateway: { address: 'http://epp:9002', timeout: 3m }
pipeline:
  steps:
    - type: replace-media-urls
      params: { download_timeout: 5s, max_download_size: 7, allow_private_networks: true, allowed_domains: [a.b] }
    - type: render
      params: { timeout: 250ms, max_total_tokens: 9 }
    - type: decode
      params: { kv_connector: kv-nixl }
"#;
    let expected = r#"
body_limits: { max_request_bytes: 1048576, max_response_bytes: 1048576 }
listeners:
  - name: llmd-coordinator
    address: host:1
    downstream_read_timeout_ms: 30000
    filter_chains: [llmd-coordinator]
filter_chains:
  - name: llmd-coordinator
    filters:
      - filter: llmd_prepare
        topology: epd
        use_openai_format: true
        kv_connector: kv-shared-storage
        ec_connector: ec-shared-storage
        max_body_bytes: 1048576
        render_timeout_ms: 250
        max_total_tokens: 9
        download_timeout_ms: 5000
        max_download_bytes: 7
        allow_private_networks: true
        allowed_domains: [a.b]
      - filter: iterative_request_router
        initial_step: decode-0
        max_iterations: 1
        timeout_ms: 120000
        step_timeout_ms: 180000
        max_response_bytes: 1048576
        steps:
          - name: decode-0
            filters:
              - { filter: llmd_stage, phase: decode, max_body_bytes: 1048576, kv_connector: kv-nixl }
              - filter: ext_proc
                target: http://epp:9002
                message_timeout_ms: 180000
                lifecycle_timeout_ms: 180000
                status_on_error: 503
                processing_mode:
                  request_body_mode: full_duplex_streamed
                  response_header_mode: skip
              - filter: endpoint_selector
                source_header: x-gateway-destination-endpoint
                required: true
                status_on_required_failure: 503
                strip_header: true
            on_result: [{ default: true, done: true }]
shutdown_timeout_secs: 25
"#;
    let expected: Value = serde_yaml::from_str(expected).unwrap();
    assert_eq!(parse_config_yaml(yaml).unwrap(), expected);
    let text = translate_to_text(&coordinator(yaml).unwrap()).unwrap();
    assert_eq!(serde_yaml::from_str::<Value>(&text).unwrap(), expected);
    assert!(text.starts_with("body_limits:\n  max_request_bytes: 1048576\n"));
}

#[test]
fn durations_have_units() {
    assert_eq!(parse_duration("p", " 5ms "), Ok(5));
    assert_eq!(parse_duration("p", "+2s"), Ok(2_000));
    assert_eq!(parse_duration("p", "3m"), Ok(180_000));
    assert_eq!(parse_duration("p", "1h"), Ok(3_600_000));
    assert_eq!(parse_duration("p", "5"), Err("p must use an ms, s, m, or h suffix".to_owned()));
    assert_eq!(parse_duration("p", " 1.5s "), Err("p has invalid duration '1.5s'".to_owned()));
    assert_eq!(
        parse_duration("p", "18446744073709551615s"),
        Err("p exceeds supported duration".to_owned())
    );
    assert_eq!(duration_ms("p", "0s"), Err("p must be greater than zero".to_owned()));
    assert_eq!(duration_ms("p", "7ms"), Ok(7));
    assert_eq!(duration_secs("p", "999ms"), Err("p must be at least one second".to_owned()));
    assert_eq!(duration_secs("p", "1999ms"), Ok(1));
}

#[test]
fn listen_addresses_are_normalized() {
    assert_eq!(normalize_listen_address(" :8080 "), Ok("0.0.0.0:8080".to_owned()));
    assert_eq!(normalize_listen_address("h:1"), Ok("h:1".to_owned()));
    assert_eq!(
        normalize_listen_address(":70000"),
        Err("server.listen_addr has invalid port: :70000".to_owned())
    );
    assert_eq!(
        normalize_listen_address("  "),
        Err("server.listen_addr must not be empty".to_owned())
    );
}

fn environment(format: Option<&str>, size: Option<&str>, port: Option<&str>) -> Environment {
    Environment {
        use_openai_format: format.map(str::to_owned),
        max_request_body_size: size.map(str::to_owned),
        metrics_port: port.map(str::to_owned),
    }
}

#[test]
fn the_environment_decides_over_the_file() {
    let mut config = coordinator(BASE).unwrap();
    apply_environment_overrides(&mut config, &environment(None, None, None)).unwrap();
    assert_eq!(config.server.max_request_body_size, 16);
    apply_environment_overrides(&mut config, &environment(Some("false"), Some("3"), Some("-1"))).unwrap();
    assert!(!config.pipeline.use_openai_format);
    assert_eq!(config.server.max_request_body_size, 3);
    assert_eq!(config.server.metrics_port, Some(-1));
    let mut complaint = |environment: Environment| {
        apply_environment_overrides(&mut config, &environment).unwrap_err()
    };
    assert_eq!(
        complaint(environment(Some("TRUE"), None, None)),
        "COORDINATOR_PIPELINE_USE_OPENAI_FORMAT must be 'true' or 'false'"
    );
    assert_eq!(
        complaint(environment(None, Some("1 "), None)),
        "COORDINATOR_SERVER_MAX_REQUEST_BODY_SIZE must be an integer number of MiB"
    );
    assert_eq!(
        complaint(environment(None, None, Some("2147483648"))),
        "COORDINATOR_SERVER_METRICS_PORT must be an integer"
    );
}

#[test]
fn overrides_stop_at_the_first_that_cannot_be_read() {
    let apply = |openai, size, port| {
        let mut config = coordinator(BASE).unwrap();
        apply_environment_overrides(&mut config, &environment(openai, size, port)).unwrap_err();
        (
            config.pipeline.use_openai_format,
            config.server.max_request_body_size,
            config.server.metrics_port,
        )
    };
    assert_eq!(apply(Some("no"), Some("3"), Some("7")), (true, 16, Some(9090)));
    assert_eq!(apply(Some("false"), Some("x"), Some("7")), (false, 16, Some(9090)));
    assert_eq!(apply(Some("false"), Some("3"), Some("x")), (false, 3, Some(9090)));
}

#[test]
fn each_complaint_about_a_configuration() {
    let complaint = |change: fn(&mut CoordinatorConfig)| {
        let mut config = coordinator(BASE).unwrap();
        change(&mut config);
        validate_coordinator(&config).unwrap_err()
    };
    assert_eq!(complaint(|c| c.gateway.address = " ".to_owned()), "gateway.address must not be empty");
    assert_eq!(complaint(|c| c.gateway.timeout = "0s".to_owned()), "gateway.timeout must be greater than zero");
    assert_eq!(
        complaint(|c| c.gateway.idle_conn_timeout = "x".to_owned()),
        "gateway.idle_conn_timeout must use an ms, s, m, or h suffix"
    );
    assert_eq!(
        complaint(|c| c.gateway.max_idle_conns_per_host = 0),
        "gateway.max_idle_conns_per_host must be greater than zero"
    );
    assert_eq!(
        complaint(|c| c.server.max_request_body_size = 65),
        "server.max_request_body_size must be between 1 and 64 MiB"
    );
    assert_eq!(
        complaint(|c| c.pipeline.ec_connector = "x".to_owned()),
        "pipeline.ec_connector 'x' is unsupported; expected ec-nixl or ec-shared-storage"
    );
    assert_eq!(complaint(|c| c.pipeline.steps.clear()), "pipeline.steps must not be empty");
    assert_eq!(
        complaint(|c| c.pipeline.steps[1].step_type = "x".to_owned()),
        "pipeline.steps[1].type 'x' is unsupported"
    );
    assert_eq!(
        complaint(|c| {
            c.pipeline.steps.pop();
        }),
        "pipeline step sequence [\"encode\", \"prefill\"] does not describe EPD, P/D, E/PD, or E/P/D"
    );
}

#[test]
fn step_parameters_are_checked() {
    let complaint = |step: &str| {
        parse_config_yaml(&BASE.replace("    - type: prefill\n", step)).unwrap_err()
    };
    assert_eq!(
        complaint("    - type: prefill\n      params: { max_parallel: 1 }\n"),
        "pipeline.steps[2].params.max_parallel is unsupported"
    );
    assert_eq!(
        complaint("    - type: prefill\n      params: { kv_connector: kv-sglang }\n"),
        "pipeline.steps[2].params.kv_connector 'kv-sglang' is unsupported"
    );
    assert_eq!(
        complaint("    - type: prefill\n      params: { ec_connector: ec-other }\n"),
        "pipeline.steps[2].params.ec_connector 'ec-other' is unsupported"
    );
}

#[test]
fn a_conditional_stage_comes_first() {
    let error = parse_config_yaml(&BASE.replace(
        "    - type: prefill\n",
        "    - type: conditional-decode\n    - type: prefill\n",
    ))
    .unwrap_err();
    assert_eq!(
        error,
        "pipeline step sequence [\"encode\", \"conditional-decode\", \"prefill\", \"decode\"] \
does not describe EPD, P/D, E/PD, or E/P/D"
    );
}

#[test]
fn ports_are_checked() {
    let mut config = coordinator(BASE).unwrap();
    config.server.metrics_port = Some(65_536);
    assert_eq!(
        translate_coordinator(&config).unwrap_err(),
        "server.metrics_port must be a valid TCP port or non-positive to disable"
    );
    config.server.metrics_port = None;
    assert!(translate_coordinator(&config).unwrap().get("admin").is_none());
}

#[test]
fn settings_of_steps_are_durations_too() {
    let error = parse_config_yaml(&BASE.replace("http://render:8080 }", "http://render:8080, timeout: 0s }"))
        .unwrap_err();
    assert_eq!(error, "pipeline.render.timeout must be greater than zero");
}

#[test]
fn tls_that_sets_nothing_is_accepted() {
    assert!(validate_tls("p", None).is_ok());
    assert!(validate_tls("p", Some(&TlsSettings::default())).is_ok());
    let mut unchecked = TlsSettings::default();
    unchecked.verify = false;
    assert_eq!(
        validate_tls("p", Some(&unchecked)).unwrap_err(),
        "p is unsupported by the local PoC transport"
    );
}

#[test]
fn topologies_follow_the_stages() {
    let step = |name: &str| CoordinatorStep { step_type: name.to_owned(), params: Mapping::new() };
    let pipeline = CoordinatorPipeline::new(vec![step("encode"), step("render"), step("decode")]);
    assert_eq!(infer_topology(&pipeline), Ok(Topology::EncodePrefillDecode));
    let wrong = CoordinatorPipeline::new(vec![step("decode"), step("encode")]);
    assert!(infer_topology(&wrong).is_err());
}

#[test]
fn a_router_needs_a_stage() {
    let gateway = CoordinatorGateway::new("a".to_owned());
    let empty = CoordinatorPipeline::new(Vec::new());
    assert_eq!(
        build_irr_filter(&empty, &gateway, 1, 1).unwrap_err(),
        "pipeline has no orchestration stage"
    );
}
