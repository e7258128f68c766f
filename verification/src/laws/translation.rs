//! What the native configuration says that a coordinator configuration stands
//! for, setting by setting.
#[allow(unused_imports)]
use crate::config::{
    self, CoordinatorConfig, CoordinatorGateway, CoordinatorPipeline, CoordinatorStep,
};
#[allow(unused_imports)]
use crate::text;
#[allow(unused_imports)]
use crate::translate::{self, RouterLimits, StageView};
#[allow(unused_imports)]
use crate::yaml::{self, YamlView};
use vstd::prelude::*;

verus! {

proof fn prepare_keys_differ()
    ensures
        "filter"@ != "topology"@,
        "filter"@ != "use_openai_format"@,
        "filter"@ != "kv_connector"@,
        "filter"@ != "ec_connector"@,
        "filter"@ != "max_body_bytes"@,
        "filter"@ != "render_url"@,
        "filter"@ != "render_timeout_ms"@,
        "filter"@ != "max_total_tokens"@,
        "filter"@ != "max_total_placeholder_tokens"@,
        "filter"@ != "download_timeout_ms"@,
        "filter"@ != "max_concurrent_downloads"@,
        "filter"@ != "max_multimodal_entries"@,
        "filter"@ != "max_download_bytes"@,
        "filter"@ != "allow_private_networks"@,
        "filter"@ != "allowed_domains"@,
        "topology"@ != "use_openai_format"@,
        "topology"@ != "kv_connector"@,
        "topology"@ != "ec_connector"@,
        "topology"@ != "max_body_bytes"@,
        "topology"@ != "render_url"@,
        "topology"@ != "render_timeout_ms"@,
        "topology"@ != "max_total_tokens"@,
        "topology"@ != "max_total_placeholder_tokens"@,
        "topology"@ != "download_timeout_ms"@,
        "topology"@ != "max_concurrent_downloads"@,
        "topology"@ != "max_multimodal_entries"@,
        "topology"@ != "max_download_bytes"@,
        "topology"@ != "allow_private_networks"@,
        "topology"@ != "allowed_domains"@,
        "use_openai_format"@ != "kv_connector"@,
        "use_openai_format"@ != "ec_connector"@,
        "use_openai_format"@ != "max_body_bytes"@,
        "use_openai_format"@ != "render_url"@,
        "use_openai_format"@ != "render_timeout_ms"@,
        "use_openai_format"@ != "max_total_tokens"@,
        "use_openai_format"@ != "max_total_placeholder_tokens"@,
        "use_openai_format"@ != "download_timeout_ms"@,
        "use_openai_format"@ != "max_concurrent_downloads"@,
        "use_openai_format"@ != "max_multimodal_entries"@,
        "use_openai_format"@ != "max_download_bytes"@,
        "use_openai_format"@ != "allow_private_networks"@,
        "use_openai_format"@ != "allowed_domains"@,
        "kv_connector"@ != "ec_connector"@,
        "kv_connector"@ != "max_body_bytes"@,
        "kv_connector"@ != "render_url"@,
        "kv_connector"@ != "render_timeout_ms"@,
        "kv_connector"@ != "max_total_tokens"@,
        "kv_connector"@ != "max_total_placeholder_tokens"@,
        "kv_connector"@ != "download_timeout_ms"@,
        "kv_connector"@ != "max_concurrent_downloads"@,
        "kv_connector"@ != "max_multimodal_entries"@,
        "kv_connector"@ != "max_download_bytes"@,
        "kv_connector"@ != "allow_private_networks"@,
        "kv_connector"@ != "allowed_domains"@,
        "ec_connector"@ != "max_body_bytes"@,
        "ec_connector"@ != "render_url"@,
        "ec_connector"@ != "render_timeout_ms"@,
        "ec_connector"@ != "max_total_tokens"@,
        "ec_connector"@ != "max_total_placeholder_tokens"@,
        "ec_connector"@ != "download_timeout_ms"@,
        "ec_connector"@ != "max_concurrent_downloads"@,
        "ec_connector"@ != "max_multimodal_entries"@,
        "ec_connector"@ != "max_download_bytes"@,
        "ec_connector"@ != "allow_private_networks"@,
        "ec_connector"@ != "allowed_domains"@,
        "max_body_bytes"@ != "render_url"@,
        "max_body_bytes"@ != "render_timeout_ms"@,
        "max_body_bytes"@ != "max_total_tokens"@,
        "max_body_bytes"@ != "max_total_placeholder_tokens"@,
        "max_body_bytes"@ != "download_timeout_ms"@,
        "max_body_bytes"@ != "max_concurrent_downloads"@,
        "max_body_bytes"@ != "max_multimodal_entries"@,
        "max_body_bytes"@ != "max_download_bytes"@,
        "max_body_bytes"@ != "allow_private_networks"@,
        "max_body_bytes"@ != "allowed_domains"@,
        "render_url"@ != "render_timeout_ms"@,
        "render_url"@ != "max_total_tokens"@,
        "render_url"@ != "max_total_placeholder_tokens"@,
        "render_url"@ != "download_timeout_ms"@,
        "render_url"@ != "max_concurrent_downloads"@,
        "render_url"@ != "max_multimodal_entries"@,
        "render_url"@ != "max_download_bytes"@,
        "render_url"@ != "allow_private_networks"@,
        "render_url"@ != "allowed_domains"@,
        "render_timeout_ms"@ != "max_total_tokens"@,
        "render_timeout_ms"@ != "max_total_placeholder_tokens"@,
        "render_timeout_ms"@ != "download_timeout_ms"@,
        "render_timeout_ms"@ != "max_concurrent_downloads"@,
        "render_timeout_ms"@ != "max_multimodal_entries"@,
        "render_timeout_ms"@ != "max_download_bytes"@,
        "render_timeout_ms"@ != "allow_private_networks"@,
        "render_timeout_ms"@ != "allowed_domains"@,
        "max_total_tokens"@ != "max_total_placeholder_tokens"@,
        "max_total_tokens"@ != "download_timeout_ms"@,
        "max_total_tokens"@ != "max_concurrent_downloads"@,
        "max_total_tokens"@ != "max_multimodal_entries"@,
        "max_total_tokens"@ != "max_download_bytes"@,
        "max_total_tokens"@ != "allow_private_networks"@,
        "max_total_tokens"@ != "allowed_domains"@,
        "max_total_placeholder_tokens"@ != "download_timeout_ms"@,
        "max_total_placeholder_tokens"@ != "max_concurrent_downloads"@,
        "max_total_placeholder_tokens"@ != "max_multimodal_entries"@,
        "max_total_placeholder_tokens"@ != "max_download_bytes"@,
        "max_total_placeholder_tokens"@ != "allow_private_networks"@,
        "max_total_placeholder_tokens"@ != "allowed_domains"@,
        "download_timeout_ms"@ != "max_concurrent_downloads"@,
        "download_timeout_ms"@ != "max_multimodal_entries"@,
        "download_timeout_ms"@ != "max_download_bytes"@,
        "download_timeout_ms"@ != "allow_private_networks"@,
        "download_timeout_ms"@ != "allowed_domains"@,
        "max_concurrent_downloads"@ != "max_multimodal_entries"@,
        "max_concurrent_downloads"@ != "max_download_bytes"@,
        "max_concurrent_downloads"@ != "allow_private_networks"@,
        "max_concurrent_downloads"@ != "allowed_domains"@,
        "max_multimodal_entries"@ != "max_download_bytes"@,
        "max_multimodal_entries"@ != "allow_private_networks"@,
        "max_multimodal_entries"@ != "allowed_domains"@,
        "max_download_bytes"@ != "allow_private_networks"@,
        "max_download_bytes"@ != "allowed_domains"@,
        "allow_private_networks"@ != "allowed_domains"@,
{
    reveal_strlit("filter");
    reveal_strlit("topology");
    reveal_strlit("use_openai_format");
    reveal_strlit("kv_connector");
    reveal_strlit("ec_connector");
    reveal_strlit("max_body_bytes");
    reveal_strlit("render_url");
    reveal_strlit("render_timeout_ms");
    reveal_strlit("max_total_tokens");
    reveal_strlit("max_total_placeholder_tokens");
    reveal_strlit("download_timeout_ms");
    reveal_strlit("max_concurrent_downloads");
    reveal_strlit("max_multimodal_entries");
    reveal_strlit("max_download_bytes");
    reveal_strlit("allow_private_networks");
    reveal_strlit("allowed_domains");
    assert("filter"@.len() != "topology"@.len());
    assert("filter"@.len() != "use_openai_format"@.len());
    assert("filter"@.len() != "kv_connector"@.len());
    assert("filter"@.len() != "ec_connector"@.len());
    assert("filter"@.len() != "max_body_bytes"@.len());
    assert("filter"@.len() != "render_url"@.len());
    assert("filter"@.len() != "render_timeout_ms"@.len());
    assert("filter"@.len() != "max_total_tokens"@.len());
    assert("filter"@.len() != "max_total_placeholder_tokens"@.len());
    assert("filter"@.len() != "download_timeout_ms"@.len());
    assert("filter"@.len() != "max_concurrent_downloads"@.len());
    assert("filter"@.len() != "max_multimodal_entries"@.len());
    assert("filter"@.len() != "max_download_bytes"@.len());
    assert("filter"@.len() != "allow_private_networks"@.len());
    assert("filter"@.len() != "allowed_domains"@.len());
    assert("topology"@.len() != "use_openai_format"@.len());
    assert("topology"@.len() != "kv_connector"@.len());
    assert("topology"@.len() != "ec_connector"@.len());
    assert("topology"@.len() != "max_body_bytes"@.len());
    assert("topology"@.len() != "render_url"@.len());
    assert("topology"@.len() != "render_timeout_ms"@.len());
    assert("topology"@.len() != "max_total_tokens"@.len());
    assert("topology"@.len() != "max_total_placeholder_tokens"@.len());
    assert("topology"@.len() != "download_timeout_ms"@.len());
    assert("topology"@.len() != "max_concurrent_downloads"@.len());
    assert("topology"@.len() != "max_multimodal_entries"@.len());
    assert("topology"@.len() != "max_download_bytes"@.len());
    assert("topology"@.len() != "allow_private_networks"@.len());
    assert("topology"@.len() != "allowed_domains"@.len());
    assert("use_openai_format"@.len() != "kv_connector"@.len());
    assert("use_openai_format"@.len() != "ec_connector"@.len());
    assert("use_openai_format"@.len() != "max_body_bytes"@.len());
    assert("use_openai_format"@.len() != "render_url"@.len());
    assert("use_openai_format"@[0] != "render_timeout_ms"@[0]);
    assert("use_openai_format"@.len() != "max_total_tokens"@.len());
    assert("use_openai_format"@.len() != "max_total_placeholder_tokens"@.len());
    assert("use_openai_format"@.len() != "download_timeout_ms"@.len());
    assert("use_openai_format"@.len() != "max_concurrent_downloads"@.len());
    assert("use_openai_format"@.len() != "max_multimodal_entries"@.len());
    assert("use_openai_format"@.len() != "max_download_bytes"@.len());
    assert("use_openai_format"@.len() != "allow_private_networks"@.len());
    assert("use_openai_format"@.len() != "allowed_domains"@.len());
    assert("kv_connector"@[0] != "ec_connector"@[0]);
    assert("kv_connector"@.len() != "max_body_bytes"@.len());
    assert("kv_connector"@.len() != "render_url"@.len());
    assert("kv_connector"@.len() != "render_timeout_ms"@.len());
    assert("kv_connector"@.len() != "max_total_tokens"@.len());
    assert("kv_connector"@.len() != "max_total_placeholder_tokens"@.len());
    assert("kv_connector"@.len() != "download_timeout_ms"@.len());
    assert("kv_connector"@.len() != "max_concurrent_downloads"@.len());
    assert("kv_connector"@.len() != "max_multimodal_entries"@.len());
    assert("kv_connector"@.len() != "max_download_bytes"@.len());
    assert("kv_connector"@.len() != "allow_private_networks"@.len());
    assert("kv_connector"@.len() != "allowed_domains"@.len());
    assert("ec_connector"@.len() != "max_body_bytes"@.len());
    assert("ec_connector"@.len() != "render_url"@.len());
    assert("ec_connector"@.len() != "render_timeout_ms"@.len());
    assert("ec_connector"@.len() != "max_total_tokens"@.len());
    assert("ec_connector"@.len() != "max_total_placeholder_tokens"@.len());
    assert("ec_connector"@.len() != "download_timeout_ms"@.len());
    assert("ec_connector"@.len() != "max_concurrent_downloads"@.len());
    assert("ec_connector"@.len() != "max_multimodal_entries"@.len());
    assert("ec_connector"@.len() != "max_download_bytes"@.len());
    assert("ec_connector"@.len() != "allow_private_networks"@.len());
    assert("ec_connector"@.len() != "allowed_domains"@.len());
    assert("max_body_bytes"@.len() != "render_url"@.len());
    assert("max_body_bytes"@.len() != "render_timeout_ms"@.len());
    assert("max_body_bytes"@.len() != "max_total_tokens"@.len());
    assert("max_body_bytes"@.len() != "max_total_placeholder_tokens"@.len());
    assert("max_body_bytes"@.len() != "download_timeout_ms"@.len());
    assert("max_body_bytes"@.len() != "max_concurrent_downloads"@.len());
    assert("max_body_bytes"@.len() != "max_multimodal_entries"@.len());
    assert("max_body_bytes"@.len() != "max_download_bytes"@.len());
    assert("max_body_bytes"@.len() != "allow_private_networks"@.len());
    assert("max_body_bytes"@.len() != "allowed_domains"@.len());
    assert("render_url"@.len() != "render_timeout_ms"@.len());
    assert("render_url"@.len() != "max_total_tokens"@.len());
    assert("render_url"@.len() != "max_total_placeholder_tokens"@.len());
    assert("render_url"@.len() != "download_timeout_ms"@.len());
    assert("render_url"@.len() != "max_concurrent_downloads"@.len());
    assert("render_url"@.len() != "max_multimodal_entries"@.len());
    assert("render_url"@.len() != "max_download_bytes"@.len());
    assert("render_url"@.len() != "allow_private_networks"@.len());
    assert("render_url"@.len() != "allowed_domains"@.len());
    assert("render_timeout_ms"@.len() != "max_total_tokens"@.len());
    assert("render_timeout_ms"@.len() != "max_total_placeholder_tokens"@.len());
    assert("render_timeout_ms"@.len() != "download_timeout_ms"@.len());
    assert("render_timeout_ms"@.len() != "max_concurrent_downloads"@.len());
    assert("render_timeout_ms"@.len() != "max_multimodal_entries"@.len());
    assert("render_timeout_ms"@.len() != "max_download_bytes"@.len());
    assert("render_timeout_ms"@.len() != "allow_private_networks"@.len());
    assert("render_timeout_ms"@.len() != "allowed_domains"@.len());
    assert("max_total_tokens"@.len() != "max_total_placeholder_tokens"@.len());
    assert("max_total_tokens"@.len() != "download_timeout_ms"@.len());
    assert("max_total_tokens"@.len() != "max_concurrent_downloads"@.len());
    assert("max_total_tokens"@.len() != "max_multimodal_entries"@.len());
    assert("max_total_tokens"@.len() != "max_download_bytes"@.len());
    assert("max_total_tokens"@.len() != "allow_private_networks"@.len());
    assert("max_total_tokens"@.len() != "allowed_domains"@.len());
    assert("max_total_placeholder_tokens"@.len() != "download_timeout_ms"@.len());
    assert("max_total_placeholder_tokens"@.len() != "max_concurrent_downloads"@.len());
    assert("max_total_placeholder_tokens"@.len() != "max_multimodal_entries"@.len());
    assert("max_total_placeholder_tokens"@.len() != "max_download_bytes"@.len());
    assert("max_total_placeholder_tokens"@.len() != "allow_private_networks"@.len());
    assert("max_total_placeholder_tokens"@.len() != "allowed_domains"@.len());
    assert("download_timeout_ms"@.len() != "max_concurrent_downloads"@.len());
    assert("download_timeout_ms"@.len() != "max_multimodal_entries"@.len());
    assert("download_timeout_ms"@.len() != "max_download_bytes"@.len());
    assert("download_timeout_ms"@.len() != "allow_private_networks"@.len());
    assert("download_timeout_ms"@.len() != "allowed_domains"@.len());
    assert("max_concurrent_downloads"@.len() != "max_multimodal_entries"@.len());
    assert("max_concurrent_downloads"@.len() != "max_download_bytes"@.len());
    assert("max_concurrent_downloads"@.len() != "allow_private_networks"@.len());
    assert("max_concurrent_downloads"@.len() != "allowed_domains"@.len());
    assert("max_multimodal_entries"@.len() != "max_download_bytes"@.len());
    assert("max_multimodal_entries"@[0] != "allow_private_networks"@[0]);
    assert("max_multimodal_entries"@.len() != "allowed_domains"@.len());
    assert("max_download_bytes"@.len() != "allow_private_networks"@.len());
    assert("max_download_bytes"@.len() != "allowed_domains"@.len());
    assert("allow_private_networks"@.len() != "allowed_domains"@.len());
}

proof fn root_keys_differ()
    ensures
        "body_limits"@ != "listeners"@,
        "body_limits"@ != "filter_chains"@,
        "body_limits"@ != "shutdown_timeout_secs"@,
        "body_limits"@ != "admin"@,
        "listeners"@ != "filter_chains"@,
        "listeners"@ != "shutdown_timeout_secs"@,
        "listeners"@ != "admin"@,
        "filter_chains"@ != "shutdown_timeout_secs"@,
        "filter_chains"@ != "admin"@,
        "shutdown_timeout_secs"@ != "admin"@,
{
    reveal_strlit("body_limits");
    reveal_strlit("listeners");
    reveal_strlit("filter_chains");
    reveal_strlit("shutdown_timeout_secs");
    reveal_strlit("admin");
    assert("body_limits"@.len() != "listeners"@.len());
    assert("body_limits"@.len() != "filter_chains"@.len());
    assert("body_limits"@.len() != "shutdown_timeout_secs"@.len());
    assert("body_limits"@.len() != "admin"@.len());
    assert("listeners"@.len() != "filter_chains"@.len());
    assert("listeners"@.len() != "shutdown_timeout_secs"@.len());
    assert("listeners"@.len() != "admin"@.len());
    assert("filter_chains"@.len() != "shutdown_timeout_secs"@.len());
    assert("filter_chains"@.len() != "admin"@.len());
    assert("shutdown_timeout_secs"@.len() != "admin"@.len());
}

proof fn listener_keys_differ()
    ensures
        "name"@ != "address"@,
        "name"@ != "downstream_read_timeout_ms"@,
        "name"@ != "filter_chains"@,
        "name"@ != "filters"@,
        "name"@ != "max_request_bytes"@,
        "name"@ != "max_response_bytes"@,
        "address"@ != "downstream_read_timeout_ms"@,
        "address"@ != "filter_chains"@,
        "address"@ != "filters"@,
        "address"@ != "max_request_bytes"@,
        "address"@ != "max_response_bytes"@,
        "downstream_read_timeout_ms"@ != "filter_chains"@,
        "downstream_read_timeout_ms"@ != "filters"@,
        "downstream_read_timeout_ms"@ != "max_request_bytes"@,
        "downstream_read_timeout_ms"@ != "max_response_bytes"@,
        "filter_chains"@ != "filters"@,
        "filter_chains"@ != "max_request_bytes"@,
        "filter_chains"@ != "max_response_bytes"@,
        "filters"@ != "max_request_bytes"@,
        "filters"@ != "max_response_bytes"@,
        "max_request_bytes"@ != "max_response_bytes"@,
{
    reveal_strlit("name");
    reveal_strlit("address");
    reveal_strlit("downstream_read_timeout_ms");
    reveal_strlit("filter_chains");
    reveal_strlit("filters");
    reveal_strlit("max_request_bytes");
    reveal_strlit("max_response_bytes");
    assert("name"@.len() != "address"@.len());
    assert("name"@.len() != "downstream_read_timeout_ms"@.len());
    assert("name"@.len() != "filter_chains"@.len());
    assert("name"@.len() != "filters"@.len());
    assert("name"@.len() != "max_request_bytes"@.len());
    assert("name"@.len() != "max_response_bytes"@.len());
    assert("address"@.len() != "downstream_read_timeout_ms"@.len());
    assert("address"@.len() != "filter_chains"@.len());
    assert("address"@[0] != "filters"@[0]);
    assert("address"@.len() != "max_request_bytes"@.len());
    assert("address"@.len() != "max_response_bytes"@.len());
    assert("downstream_read_timeout_ms"@.len() != "filter_chains"@.len());
    assert("downstream_read_timeout_ms"@.len() != "filters"@.len());
    assert("downstream_read_timeout_ms"@.len() != "max_request_bytes"@.len());
    assert("downstream_read_timeout_ms"@.len() != "max_response_bytes"@.len());
    assert("filter_chains"@.len() != "filters"@.len());
    assert("filter_chains"@.len() != "max_request_bytes"@.len());
    assert("filter_chains"@.len() != "max_response_bytes"@.len());
    assert("filters"@.len() != "max_request_bytes"@.len());
    assert("filters"@.len() != "max_response_bytes"@.len());
    assert("max_request_bytes"@.len() != "max_response_bytes"@.len());
}

proof fn router_keys_differ()
    ensures
        "filter"@ != "initial_step"@,
        "filter"@ != "max_iterations"@,
        "filter"@ != "timeout_ms"@,
        "filter"@ != "step_timeout_ms"@,
        "filter"@ != "max_response_bytes"@,
        "filter"@ != "steps"@,
        "initial_step"@ != "max_iterations"@,
        "initial_step"@ != "timeout_ms"@,
        "initial_step"@ != "step_timeout_ms"@,
        "initial_step"@ != "max_response_bytes"@,
        "initial_step"@ != "steps"@,
        "max_iterations"@ != "timeout_ms"@,
        "max_iterations"@ != "step_timeout_ms"@,
        "max_iterations"@ != "max_response_bytes"@,
        "max_iterations"@ != "steps"@,
        "timeout_ms"@ != "step_timeout_ms"@,
        "timeout_ms"@ != "max_response_bytes"@,
        "timeout_ms"@ != "steps"@,
        "step_timeout_ms"@ != "max_response_bytes"@,
        "step_timeout_ms"@ != "steps"@,
        "max_response_bytes"@ != "steps"@,
{
    reveal_strlit("filter");
    reveal_strlit("initial_step");
    reveal_strlit("max_iterations");
    reveal_strlit("timeout_ms");
    reveal_strlit("step_timeout_ms");
    reveal_strlit("max_response_bytes");
    reveal_strlit("steps");
    assert("filter"@.len() != "initial_step"@.len());
    assert("filter"@.len() != "max_iterations"@.len());
    assert("filter"@.len() != "timeout_ms"@.len());
    assert("filter"@.len() != "step_timeout_ms"@.len());
    assert("filter"@.len() != "max_response_bytes"@.len());
    assert("filter"@.len() != "steps"@.len());
    assert("initial_step"@.len() != "max_iterations"@.len());
    assert("initial_step"@.len() != "timeout_ms"@.len());
    assert("initial_step"@.len() != "step_timeout_ms"@.len());
    assert("initial_step"@.len() != "max_response_bytes"@.len());
    assert("initial_step"@.len() != "steps"@.len());
    assert("max_iterations"@.len() != "timeout_ms"@.len());
    assert("max_iterations"@.len() != "step_timeout_ms"@.len());
    assert("max_iterations"@.len() != "max_response_bytes"@.len());
    assert("max_iterations"@.len() != "steps"@.len());
    assert("timeout_ms"@.len() != "step_timeout_ms"@.len());
    assert("timeout_ms"@.len() != "max_response_bytes"@.len());
    assert("timeout_ms"@.len() != "steps"@.len());
    assert("step_timeout_ms"@.len() != "max_response_bytes"@.len());
    assert("step_timeout_ms"@.len() != "steps"@.len());
    assert("max_response_bytes"@.len() != "steps"@.len());
}

proof fn step_keys_differ()
    ensures
        "name"@ != "filters"@,
        "name"@ != "on_result"@,
        "name"@ != "fan_out"@,
        "filters"@ != "on_result"@,
        "filters"@ != "fan_out"@,
        "on_result"@ != "fan_out"@,
{
    reveal_strlit("name");
    reveal_strlit("filters");
    reveal_strlit("on_result");
    reveal_strlit("fan_out");
    assert("name"@.len() != "filters"@.len());
    assert("name"@.len() != "on_result"@.len());
    assert("name"@.len() != "fan_out"@.len());
    assert("filters"@.len() != "on_result"@.len());
    assert("filters"@[1] != "fan_out"@[1]);
    assert("on_result"@.len() != "fan_out"@.len());
}

proof fn stage_keys_differ()
    ensures
        "filter"@ != "phase"@,
        "filter"@ != "max_body_bytes"@,
        "filter"@ != "use_openai_format"@,
        "filter"@ != "kv_connector"@,
        "filter"@ != "ec_connector"@,
        "phase"@ != "max_body_bytes"@,
        "phase"@ != "use_openai_format"@,
        "phase"@ != "kv_connector"@,
        "phase"@ != "ec_connector"@,
        "max_body_bytes"@ != "use_openai_format"@,
        "max_body_bytes"@ != "kv_connector"@,
        "max_body_bytes"@ != "ec_connector"@,
        "use_openai_format"@ != "kv_connector"@,
        "use_openai_format"@ != "ec_connector"@,
        "kv_connector"@ != "ec_connector"@,
{
    reveal_strlit("filter");
    reveal_strlit("phase");
    reveal_strlit("max_body_bytes");
    reveal_strlit("use_openai_format");
    reveal_strlit("kv_connector");
    reveal_strlit("ec_connector");
    assert("filter"@.len() != "phase"@.len());
    assert("filter"@.len() != "max_body_bytes"@.len());
    assert("filter"@.len() != "use_openai_format"@.len());
    assert("filter"@.len() != "kv_connector"@.len());
    assert("filter"@.len() != "ec_connector"@.len());
    assert("phase"@.len() != "max_body_bytes"@.len());
    assert("phase"@.len() != "use_openai_format"@.len());
    assert("phase"@.len() != "kv_connector"@.len());
    assert("phase"@.len() != "ec_connector"@.len());
    assert("max_body_bytes"@.len() != "use_openai_format"@.len());
    assert("max_body_bytes"@.len() != "kv_connector"@.len());
    assert("max_body_bytes"@.len() != "ec_connector"@.len());
    assert("use_openai_format"@.len() != "kv_connector"@.len());
    assert("use_openai_format"@.len() != "ec_connector"@.len());
    assert("kv_connector"@[0] != "ec_connector"@[0]);
}

proof fn scheduler_keys_differ()
    ensures
        "filter"@ != "target"@,
        "filter"@ != "message_timeout_ms"@,
        "filter"@ != "lifecycle_timeout_ms"@,
        "filter"@ != "status_on_error"@,
        "filter"@ != "processing_mode"@,
        "filter"@ != "request_body_mode"@,
        "filter"@ != "response_header_mode"@,
        "target"@ != "message_timeout_ms"@,
        "target"@ != "lifecycle_timeout_ms"@,
        "target"@ != "status_on_error"@,
        "target"@ != "processing_mode"@,
        "target"@ != "request_body_mode"@,
        "target"@ != "response_header_mode"@,
        "message_timeout_ms"@ != "lifecycle_timeout_ms"@,
        "message_timeout_ms"@ != "status_on_error"@,
        "message_timeout_ms"@ != "processing_mode"@,
        "message_timeout_ms"@ != "request_body_mode"@,
        "message_timeout_ms"@ != "response_header_mode"@,
        "lifecycle_timeout_ms"@ != "status_on_error"@,
        "lifecycle_timeout_ms"@ != "processing_mode"@,
        "lifecycle_timeout_ms"@ != "request_body_mode"@,
        "lifecycle_timeout_ms"@ != "response_header_mode"@,
        "status_on_error"@ != "processing_mode"@,
        "status_on_error"@ != "request_body_mode"@,
        "status_on_error"@ != "response_header_mode"@,
        "processing_mode"@ != "request_body_mode"@,
        "processing_mode"@ != "response_header_mode"@,
        "request_body_mode"@ != "response_header_mode"@,
{
    reveal_strlit("filter");
    reveal_strlit("target");
    reveal_strlit("message_timeout_ms");
    reveal_strlit("lifecycle_timeout_ms");
    reveal_strlit("status_on_error");
    reveal_strlit("processing_mode");
    reveal_strlit("request_body_mode");
    reveal_strlit("response_header_mode");
    assert("filter"@[0] != "target"@[0]);
    assert("filter"@.len() != "message_timeout_ms"@.len());
    assert("filter"@.len() != "lifecycle_timeout_ms"@.len());
    assert("filter"@.len() != "status_on_error"@.len());
    assert("filter"@.len() != "processing_mode"@.len());
    assert("filter"@.len() != "request_body_mode"@.len());
    assert("filter"@.len() != "response_header_mode"@.len());
    assert("target"@.len() != "message_timeout_ms"@.len());
    assert("target"@.len() != "lifecycle_timeout_ms"@.len());
    assert("target"@.len() != "status_on_error"@.len());
    assert("target"@.len() != "processing_mode"@.len());
    assert("target"@.len() != "request_body_mode"@.len());
    assert("target"@.len() != "response_header_mode"@.len());
    assert("message_timeout_ms"@.len() != "lifecycle_timeout_ms"@.len());
    assert("message_timeout_ms"@.len() != "status_on_error"@.len());
    assert("message_timeout_ms"@.len() != "processing_mode"@.len());
    assert("message_timeout_ms"@.len() != "request_body_mode"@.len());
    assert("message_timeout_ms"@.len() != "response_header_mode"@.len());
    assert("lifecycle_timeout_ms"@.len() != "status_on_error"@.len());
    assert("lifecycle_timeout_ms"@.len() != "processing_mode"@.len());
    assert("lifecycle_timeout_ms"@.len() != "request_body_mode"@.len());
    assert("lifecycle_timeout_ms"@[0] != "response_header_mode"@[0]);
    assert("status_on_error"@[0] != "processing_mode"@[0]);
    assert("status_on_error"@.len() != "request_body_mode"@.len());
    assert("status_on_error"@.len() != "response_header_mode"@.len());
    assert("processing_mode"@.len() != "request_body_mode"@.len());
    assert("processing_mode"@.len() != "response_header_mode"@.len());
    assert("request_body_mode"@.len() != "response_header_mode"@.len());
}

proof fn selector_keys_differ()
    ensures
        "filter"@ != "source_header"@,
        "filter"@ != "required"@,
        "filter"@ != "status_on_required_failure"@,
        "filter"@ != "strip_header"@,
        "source_header"@ != "required"@,
        "source_header"@ != "status_on_required_failure"@,
        "source_header"@ != "strip_header"@,
        "required"@ != "status_on_required_failure"@,
        "required"@ != "strip_header"@,
        "status_on_required_failure"@ != "strip_header"@,
{
    reveal_strlit("filter");
    reveal_strlit("source_header");
    reveal_strlit("required");
    reveal_strlit("status_on_required_failure");
    reveal_strlit("strip_header");
    assert("filter"@.len() != "source_header"@.len());
    assert("filter"@.len() != "required"@.len());
    assert("filter"@.len() != "status_on_required_failure"@.len());
    assert("filter"@.len() != "strip_header"@.len());
    assert("source_header"@.len() != "required"@.len());
    assert("source_header"@.len() != "status_on_required_failure"@.len());
    assert("source_header"@.len() != "strip_header"@.len());
    assert("required"@.len() != "status_on_required_failure"@.len());
    assert("required"@.len() != "strip_header"@.len());
    assert("status_on_required_failure"@.len() != "strip_header"@.len());
}

proof fn move_keys_differ()
    ensures
        "default"@ != "done"@,
        "default"@ != "next"@,
        "default"@ != "status"@,
        "done"@ != "next"@,
        "done"@ != "status"@,
        "next"@ != "status"@,
{
    reveal_strlit("default");
    reveal_strlit("done");
    reveal_strlit("next");
    reveal_strlit("status");
    assert("default"@.len() != "done"@.len());
    assert("default"@.len() != "next"@.len());
    assert("default"@.len() != "status"@.len());
    assert("done"@[0] != "next"@[0]);
    assert("done"@.len() != "status"@.len());
    assert("next"@.len() != "status"@.len());
}

proof fn fan_out_keys_differ()
    ensures
        "max_concurrency"@ != "max_requests"@,
{
    reveal_strlit("max_concurrency");
    reveal_strlit("max_requests");
    assert("max_concurrency"@.len() != "max_requests"@.len());
}

proof fn step_types_differ()
    ensures
        "replace-media-urls"@ != "render"@,
        "replace-media-urls"@ != "conditional-decode"@,
        "replace-media-urls"@ != "conditional_decode"@,
        "replace-media-urls"@ != "encode"@,
        "replace-media-urls"@ != "prefill"@,
        "replace-media-urls"@ != "decode"@,
        "render"@ != "conditional-decode"@,
        "render"@ != "conditional_decode"@,
        "render"@ != "encode"@,
        "render"@ != "prefill"@,
        "render"@ != "decode"@,
        "conditional-decode"@ != "conditional_decode"@,
        "conditional-decode"@ != "encode"@,
        "conditional-decode"@ != "prefill"@,
        "conditional-decode"@ != "decode"@,
        "conditional_decode"@ != "encode"@,
        "conditional_decode"@ != "prefill"@,
        "conditional_decode"@ != "decode"@,
        "encode"@ != "prefill"@,
        "encode"@ != "decode"@,
        "prefill"@ != "decode"@,
{
    reveal_strlit("replace-media-urls");
    reveal_strlit("render");
    reveal_strlit("conditional-decode");
    reveal_strlit("conditional_decode");
    reveal_strlit("encode");
    reveal_strlit("prefill");
    reveal_strlit("decode");
    assert("replace-media-urls"@.len() != "render"@.len());
    assert("replace-media-urls"@[0] != "conditional-decode"@[0]);
    assert("replace-media-urls"@[0] != "conditional_decode"@[0]);
    assert("replace-media-urls"@.len() != "encode"@.len());
    assert("replace-media-urls"@.len() != "prefill"@.len());
    assert("replace-media-urls"@.len() != "decode"@.len());
    assert("render"@.len() != "conditional-decode"@.len());
    assert("render"@.len() != "conditional_decode"@.len());
    assert("render"@[0] != "encode"@[0]);
    assert("render"@.len() != "prefill"@.len());
    assert("render"@[0] != "decode"@[0]);
    assert("conditional-decode"@[11] != "conditional_decode"@[11]);
    assert("conditional-decode"@.len() != "encode"@.len());
    assert("conditional-decode"@.len() != "prefill"@.len());
    assert("conditional-decode"@.len() != "decode"@.len());
    assert("conditional_decode"@.len() != "encode"@.len());
    assert("conditional_decode"@.len() != "prefill"@.len());
    assert("conditional_decode"@.len() != "decode"@.len());
    assert("encode"@.len() != "prefill"@.len());
    assert("encode"@[0] != "decode"@[0]);
    assert("prefill"@.len() != "decode"@.len());
}

/// What stands under a text key of a mapping, where there is a mapping that has
/// it.
pub open spec fn inside(value: Option<YamlView>, key: Seq<char>) -> Option<YamlView> {
    match value {
        Some(YamlView::Mapping(entries)) => yaml::lookup(entries, key),
        _ => None,
    }
}

/// The value at a place of a sequence, where there is a sequence that long.
pub open spec fn item(value: Option<YamlView>, at: int) -> Option<YamlView> {
    match value {
        Some(YamlView::Sequence(values)) => if 0 <= at < values.len() {
            Some(values[at])
        } else {
            None
        },
        _ => None,
    }
}

/// Whether a value is a sequence of so many values.
pub open spec fn has_items(value: Option<YamlView>, count: nat) -> bool {
    value matches Some(YamlView::Sequence(values)) && values.len() == count
}

/// A text as a value that is there.
pub open spec fn text_value(text: Seq<char>) -> Option<YamlView> {
    Some(YamlView::Text(text))
}

/// A number as a value that is there.
pub open spec fn number(n: int) -> Option<YamlView> {
    Some(YamlView::Whole(n))
}

/// A truth value as a value that is there.
pub open spec fn truth(b: bool) -> Option<YamlView> {
    Some(YamlView::Bool(b))
}

/// The translation of a configuration as one value.
pub open spec fn root_of(source: CoordinatorConfig) -> Option<YamlView> {
    match translate::translated(source) {
        Ok(entries) => Some(YamlView::Mapping(entries)),
        Err(_) => None,
    }
}

/// A filter of the only filter chain of a translation.
pub open spec fn filter_at(source: CoordinatorConfig, at: int) -> Option<YamlView> {
    item(inside(item(inside(root_of(source), "filter_chains"@), 0), "filters"@), at)
}

/// Rows that were set read back, each under its key, the last of a key where
/// there are several.
broadcast proof fn rows_read_back(rows: Seq<(Seq<char>, YamlView)>, key: Seq<char>)
    requires
        rows.len() <= 8,
    ensures
        #[trigger] yaml::lookup(yaml::built(rows), key) == if rows.len() > 7 && key == rows[7].0 {
            Some(rows[7].1)
        } else if rows.len() > 6 && key == rows[6].0 {
            Some(rows[6].1)
        } else if rows.len() > 5 && key == rows[5].0 {
            Some(rows[5].1)
        } else if rows.len() > 4 && key == rows[4].0 {
            Some(rows[4].1)
        } else if rows.len() > 3 && key == rows[3].0 {
            Some(rows[3].1)
        } else if rows.len() > 2 && key == rows[2].0 {
            Some(rows[2].1)
        } else if rows.len() > 1 && key == rows[1].0 {
            Some(rows[1].1)
        } else if rows.len() > 0 && key == rows[0].0 {
            Some(rows[0].1)
        } else {
            None
        },
    decreases rows.len(),
{
    if rows.len() > 0 {
        let head = rows.drop_last();
        rows_read_back(head, key);
        yaml::set_keys_read_back(yaml::built(head), rows.last().0, rows.last().1, key);
        assert(forall|i: int| 0 <= i < head.len() ==> head[i] == rows[i]);
    }
}

/// An entry that was set reads back, and the others are as before.
broadcast proof fn entries_read_back(
    entries: Seq<(YamlView, YamlView)>,
    set: Seq<char>,
    value: YamlView,
    key: Seq<char>,
)
    ensures
        #[trigger] yaml::lookup(yaml::put(entries, set, value), key) == if key == set {
            Some(value)
        } else {
            yaml::lookup(entries, key)
        },
{
    yaml::set_keys_read_back(entries, set, value, key);
}

broadcast group reading {
    rows_read_back,
    entries_read_back,
}

/// The two filters of a translation's only chain are those that the pipeline's
/// settings make.
proof fn chain_holds(source: CoordinatorConfig)
    requires
        translate::translated(source) is Ok,
    ensures
        ({
            let max = translate::max_bytes_of(source.server);
            let topology = config::topology_read(source.pipeline);
            let write = config::millis_read(
                "server.write_timeout"@,
                source.server.write_timeout@,
            );
            let prepare = translate::prepare_filter(source.pipeline, topology->Ok_0, max);
            let router = translate::router_filter(
                source.pipeline,
                source.gateway,
                write->Ok_0,
                max,
            );
            &&& topology is Ok
            &&& write is Ok
            &&& prepare is Ok
            &&& router is Ok
            &&& filter_at(source, 0) == Some(YamlView::Mapping(prepare->Ok_0))
            &&& filter_at(source, 1) == Some(YamlView::Mapping(router->Ok_0))
            &&& has_items(inside(root_of(source), "filter_chains"@), 1)
            &&& has_items(
                inside(item(inside(root_of(source), "filter_chains"@), 0), "filters"@),
                2,
            )
        }),
{
    broadcast use reading;

    root_keys_differ();
    listener_keys_differ();
}

/// The filter that prepares requests, as one value.
pub open spec fn prepare_of(source: CoordinatorConfig) -> Option<YamlView> {
    match translate::prepare_filter(
        source.pipeline,
        config::topology_read(source.pipeline)->Ok_0,
        translate::max_bytes_of(source.server),
    ) {
        Ok(entries) => Some(YamlView::Mapping(entries)),
        Err(_) => None,
    }
}

proof fn first_filter_prepares(source: CoordinatorConfig)
    requires
        translate::translated(source) is Ok,
    ensures
        filter_at(source, 0) == prepare_of(source),
        prepare_of(source) is Some,
        config::topology_read(source.pipeline) is Ok,
{
    chain_holds(source);
}

proof fn prepared_by_pipeline(source: CoordinatorConfig)
    requires
        prepare_of(source) is Some,
    ensures
        ({
            let prepare = prepare_of(source);
            &&& inside(prepare, "filter"@) == text_value("llmd_prepare"@)
            &&& inside(prepare, "kv_connector"@) == text_value(source.pipeline.kv_connector@)
            &&& inside(prepare, "ec_connector"@) == text_value(source.pipeline.ec_connector@)
            &&& inside(prepare, "use_openai_format"@) == truth(source.pipeline.use_openai_format)
            &&& inside(prepare, "max_body_bytes"@) == number(
                source.server.max_request_body_size * 1_048_576,
            )
        }),
{
    broadcast use reading;

    prepare_keys_differ();
}

/// In the translation of every accepted configuration, the filter that prepares
/// requests has the pipeline's own connectors and format, and the body limit of
/// the server in bytes.
pub proof fn preparation_has_the_pipelines_settings(source: CoordinatorConfig)
    requires
        translate::translated(source) is Ok,
    ensures
        ({
            let prepare = filter_at(source, 0);
            &&& inside(prepare, "filter"@) == text_value("llmd_prepare"@)
            &&& inside(prepare, "kv_connector"@) == text_value(source.pipeline.kv_connector@)
            &&& inside(prepare, "ec_connector"@) == text_value(source.pipeline.ec_connector@)
            &&& inside(prepare, "use_openai_format"@) == truth(source.pipeline.use_openai_format)
            &&& inside(prepare, "max_body_bytes"@) == number(
                source.server.max_request_body_size * 1_048_576,
            )
        }),
{
    first_filter_prepares(source);
    prepared_by_pipeline(source);
}

proof fn topology_is_labelled(source: CoordinatorConfig)
    requires
        prepare_of(source) is Some,
    ensures
        inside(prepare_of(source), "topology"@) == text_value(
            config::topology_read(source.pipeline)->Ok_0.label(),
        ),
{
    broadcast use reading;

    prepare_keys_differ();
}

/// In the translation of every accepted configuration, the filter that prepares
/// requests has the name of the topology that the stages of the pipeline describe:
/// which of encode and prefill run apart from decode.
pub proof fn preparation_has_the_pipelines_topology(source: CoordinatorConfig)
    requires
        translate::translated(source) is Ok,
    ensures
        ({
            let topology = inside(filter_at(source, 0), "topology"@);
            let stages = config::stages_of(source.pipeline.steps@, false);
            ||| stages == seq!["decode"@] && topology == text_value("epd"@)
            ||| stages == seq!["prefill"@, "decode"@] && topology == text_value("p-d"@)
            ||| stages == seq!["encode"@, "decode"@] && topology == text_value("e-pd"@)
            ||| stages == seq!["encode"@, "prefill"@, "decode"@] && topology == text_value("e-p-d"@)
        }),
{
    first_filter_prepares(source);
    topology_is_labelled(source);
}

/// Whether the step at a place is the first of its type.
pub open spec fn is_first(steps: Seq<CoordinatorStep>, at: int, step_type: Seq<char>) -> bool {
    &&& 0 <= at < steps.len()
    &&& steps[at].step_type@ == step_type
    &&& forall|j: int| 0 <= j < at ==> (#[trigger] steps[j]).step_type@ != step_type
}

/// Whether no step is of a type.
pub open spec fn has_none(steps: Seq<CoordinatorStep>, step_type: Seq<char>) -> bool {
    forall|j: int| 0 <= j < steps.len() ==> (#[trigger] steps[j]).step_type@ != step_type
}

/// The first step of a type is the one with none of its type before it.
pub proof fn first_steps_are_found(steps: Seq<CoordinatorStep>, at: int, step_type: Seq<char>)
    ensures
        is_first(steps, at, step_type) ==> config::first_step(steps, step_type) == Some(steps[at]),
        has_none(steps, step_type) ==> config::first_step(steps, step_type) is None,
    decreases steps.len(),
{
    if steps.len() > 0 && steps[0].step_type@ != step_type {
        let rest = steps.skip(1);
        first_steps_are_found(rest, at - 1, step_type);
        if is_first(steps, at, step_type) {
            assert(at > 0);
            assert(rest[at - 1] == steps[at]);
            assert forall|j: int| 0 <= j < at - 1 implies (#[trigger] rest[j]).step_type@
                != step_type by {
                assert(rest[j] == steps[j + 1]);
            }
        }
        if has_none(steps, step_type) {
            assert forall|j: int| 0 <= j < rest.len() implies (#[trigger] rest[j]).step_type@
                != step_type by {
                assert(rest[j] == steps[j + 1]);
            }
        }
    }
}

/// Whether a setting is the text that a parameter is, and not there where the
/// parameter is not.
pub open spec fn follows_text(setting: Option<YamlView>, parameter: Option<YamlView>) -> bool {
    &&& parameter is None ==> setting is None
    &&& parameter matches Some(YamlView::Text(text)) ==> setting == text_value(text)
}

/// Whether a setting is the number that a parameter is, and not there where the
/// parameter is not.
pub open spec fn follows_number(setting: Option<YamlView>, parameter: Option<YamlView>) -> bool {
    &&& parameter is None ==> setting is None
    &&& parameter matches Some(YamlView::Whole(n)) ==> (0 <= n <= u64::MAX ==> setting
        == parameter)
}

/// Whether a setting is the truth value that a parameter is, and not there where
/// the parameter is not.
pub open spec fn follows_truth(setting: Option<YamlView>, parameter: Option<YamlView>) -> bool {
    &&& parameter is None ==> setting is None
    &&& parameter matches Some(YamlView::Bool(b)) ==> setting == truth(b)
}

/// Whether a setting is the time that a parameter states, in milliseconds, and
/// not there where the parameter is not.
pub open spec fn follows_time(setting: Option<YamlView>, parameter: Option<YamlView>) -> bool {
    &&& parameter is None ==> setting is None
    &&& parameter matches Some(YamlView::Text(text)) ==> (exists|path: Seq<char>| #[trigger]
        config::millis_read(path, text) matches Ok(millis) && setting == number(millis as int))
}

proof fn prepared_by_render_step(source: CoordinatorConfig, at: int)
    requires
        prepare_of(source) is Some,
        is_first(source.pipeline.steps@, at, "render"@),
    ensures
        ({
            let prepare = prepare_of(source);
            let params = yaml::entries_of(source.pipeline.steps@[at].params);
            &&& follows_text(inside(prepare, "render_url"@), yaml::lookup(params, "address"@))
            &&& follows_time(
                inside(prepare, "render_timeout_ms"@),
                yaml::lookup(params, "timeout"@),
            )
            &&& follows_number(
                inside(prepare, "max_total_tokens"@),
                yaml::lookup(params, "max_total_tokens"@),
            )
            &&& follows_number(
                inside(prepare, "max_total_placeholder_tokens"@),
                yaml::lookup(params, "max_total_placeholder_tokens"@),
            )
        }),
{
    broadcast use reading;

    prepare_keys_differ();
    first_steps_are_found(source.pipeline.steps@, at, "render"@);
    let params = yaml::entries_of(source.pipeline.steps@[at].params);
    if let Some(YamlView::Text(text)) = yaml::lookup(params, "timeout"@) {
        assert(config::millis_read("pipeline.render.timeout"@, text) is Ok);
    }
}

/// The filter that prepares requests has the address of the render service, its
/// timeout and the limits on tokens as the first render step of the pipeline
/// states them, and none of these that the step does not state.
pub proof fn preparation_has_the_render_settings(source: CoordinatorConfig, at: int)
    requires
        translate::translated(source) is Ok,
        is_first(source.pipeline.steps@, at, "render"@),
    ensures
        ({
            let prepare = filter_at(source, 0);
            let params = yaml::entries_of(source.pipeline.steps@[at].params);
            &&& follows_text(inside(prepare, "render_url"@), yaml::lookup(params, "address"@))
            &&& follows_time(
                inside(prepare, "render_timeout_ms"@),
                yaml::lookup(params, "timeout"@),
            )
            &&& follows_number(
                inside(prepare, "max_total_tokens"@),
                yaml::lookup(params, "max_total_tokens"@),
            )
            &&& follows_number(
                inside(prepare, "max_total_placeholder_tokens"@),
                yaml::lookup(params, "max_total_placeholder_tokens"@),
            )
        }),
{
    first_filter_prepares(source);
    prepared_by_render_step(source, at);
}

proof fn prepared_by_media_step(source: CoordinatorConfig, at: int)
    requires
        prepare_of(source) is Some,
        is_first(source.pipeline.steps@, at, "replace-media-urls"@),
    ensures
        ({
            let prepare = prepare_of(source);
            let params = yaml::entries_of(source.pipeline.steps@[at].params);
            &&& follows_time(
                inside(prepare, "download_timeout_ms"@),
                yaml::lookup(params, "download_timeout"@),
            )
            &&& follows_number(
                inside(prepare, "max_concurrent_downloads"@),
                yaml::lookup(params, "max_concurrent_downloads"@),
            )
            &&& follows_number(
                inside(prepare, "max_multimodal_entries"@),
                yaml::lookup(params, "max_multimodal_entries"@),
            )
            &&& follows_number(
                inside(prepare, "max_download_bytes"@),
                yaml::lookup(params, "max_download_size"@),
            )
            &&& follows_truth(
                inside(prepare, "allow_private_networks"@),
                yaml::lookup(params, "allow_private_networks"@),
            )
            &&& inside(prepare, "allowed_domains"@) == yaml::lookup(params, "allowed_domains"@)
        }),
{
    broadcast use reading;

    prepare_keys_differ();
    first_steps_are_found(source.pipeline.steps@, at, "replace-media-urls"@);
    let params = yaml::entries_of(source.pipeline.steps@[at].params);
    if let Some(YamlView::Text(text)) = yaml::lookup(params, "download_timeout"@) {
        assert(config::millis_read("pipeline.replace-media-urls.download_timeout"@, text) is Ok);
    }
}

/// The filter that prepares requests has the limits and permissions for media as
/// the first step that replaces media URLs states them, and none of these that
/// the step does not state.
pub proof fn preparation_has_the_media_settings(source: CoordinatorConfig, at: int)
    requires
        translate::translated(source) is Ok,
        is_first(source.pipeline.steps@, at, "replace-media-urls"@),
    ensures
        ({
            let prepare = filter_at(source, 0);
            let params = yaml::entries_of(source.pipeline.steps@[at].params);
            &&& follows_time(
                inside(prepare, "download_timeout_ms"@),
                yaml::lookup(params, "download_timeout"@),
            )
            &&& follows_number(
                inside(prepare, "max_concurrent_downloads"@),
                yaml::lookup(params, "max_concurrent_downloads"@),
            )
            &&& follows_number(
                inside(prepare, "max_multimodal_entries"@),
                yaml::lookup(params, "max_multimodal_entries"@),
            )
            &&& follows_number(
                inside(prepare, "max_download_bytes"@),
                yaml::lookup(params, "max_download_size"@),
            )
            &&& follows_truth(
                inside(prepare, "allow_private_networks"@),
                yaml::lookup(params, "allow_private_networks"@),
            )
            &&& inside(prepare, "allowed_domains"@) == yaml::lookup(params, "allowed_domains"@)
        }),
{
    first_filter_prepares(source);
    prepared_by_media_step(source, at);
}

proof fn prepared_without_steps(source: CoordinatorConfig)
    requires
        prepare_of(source) is Some,
    ensures
        ({
            let prepare = prepare_of(source);
            let steps = source.pipeline.steps@;
            &&& has_none(steps, "render"@) ==> inside(prepare, "render_url"@) is None && inside(
                prepare,
                "render_timeout_ms"@,
            ) is None && inside(prepare, "max_total_tokens"@) is None && inside(
                prepare,
                "max_total_placeholder_tokens"@,
            ) is None
            &&& has_none(steps, "replace-media-urls"@) ==> inside(
                prepare,
                "download_timeout_ms"@,
            ) is None && inside(prepare, "max_concurrent_downloads"@) is None && inside(
                prepare,
                "max_multimodal_entries"@,
            ) is None && inside(prepare, "max_download_bytes"@) is None && inside(
                prepare,
                "allow_private_networks"@,
            ) is None && inside(prepare, "allowed_domains"@) is None
        }),
{
    broadcast use reading;

    prepare_keys_differ();
    first_steps_are_found(source.pipeline.steps@, 0, "render"@);
    first_steps_are_found(source.pipeline.steps@, 0, "replace-media-urls"@);
}

/// Without a render step nothing of rendering is set, and without a step that
/// replaces media URLs nothing of media.
pub proof fn preparation_has_no_settings_of_its_own(source: CoordinatorConfig)
    requires
        translate::translated(source) is Ok,
    ensures
        ({
            let prepare = filter_at(source, 0);
            let steps = source.pipeline.steps@;
            &&& has_none(steps, "render"@) ==> inside(prepare, "render_url"@) is None && inside(
                prepare,
                "render_timeout_ms"@,
            ) is None && inside(prepare, "max_total_tokens"@) is None && inside(
                prepare,
                "max_total_placeholder_tokens"@,
            ) is None
            &&& has_none(steps, "replace-media-urls"@) ==> inside(
                prepare,
                "download_timeout_ms"@,
            ) is None && inside(prepare, "max_concurrent_downloads"@) is None && inside(
                prepare,
                "max_multimodal_entries"@,
            ) is None && inside(prepare, "max_download_bytes"@) is None && inside(
                prepare,
                "allow_private_networks"@,
            ) is None && inside(prepare, "allowed_domains"@) is None
        }),
{
    first_filter_prepares(source);
    prepared_without_steps(source);
}

/// The translation listens where the server does, on one listener that leads to
/// the only filter chain, with the server's read timeout; it limits bodies both
/// ways to the server's limit in bytes and has the server's shutdown time in
/// seconds.
pub proof fn the_translation_serves_as_the_server_does(source: CoordinatorConfig)
    requires
        translate::translated(source) is Ok,
    ensures
        ({
            let root = root_of(source);
            let listener = item(inside(root, "listeners"@), 0);
            let chain = item(inside(root, "filter_chains"@), 0);
            let bytes = source.server.max_request_body_size * 1_048_576;
            &&& has_items(inside(root, "listeners"@), 1)
            &&& config::listen_read(source.server.listen_addr@) matches Ok(address) && inside(
                listener,
                "address"@,
            ) == text_value(address)
            &&& config::millis_read("server.read_timeout"@, source.server.read_timeout@) matches Ok(
                millis,
            ) && inside(listener, "downstream_read_timeout_ms"@) == number(millis as int)
            &&& inside(listener, "name"@) == text_value("llmd-coordinator"@)
            &&& has_items(inside(listener, "filter_chains"@), 1)
            &&& item(inside(listener, "filter_chains"@), 0) == inside(chain, "name"@)
            &&& inside(chain, "name"@) == text_value("llmd-coordinator"@)
            &&& inside(inside(root, "body_limits"@), "max_request_bytes"@) == number(bytes)
            &&& inside(inside(root, "body_limits"@), "max_response_bytes"@) == number(bytes)
            &&& config::seconds_read(
                "server.shutdown_timeout"@,
                source.server.shutdown_timeout@,
            ) matches Ok(seconds) && inside(root, "shutdown_timeout_secs"@) == number(
                seconds as int,
            )
        }),
{
    broadcast use reading;

    root_keys_differ();
    listener_keys_differ();
}

/// The administration address is on the local host at the metrics port, where
/// that is positive; one that is not, or none, sets no address, and one beyond
/// the ports there are is refused.
pub proof fn metrics_are_served_locally(source: CoordinatorConfig)
    ensures
        translate::translated(source) is Ok ==> ({
            let admin = inside(root_of(source), "admin"@);
            match source.server.metrics_port {
                Some(port) => if port > 0 {
                    port <= 65535 && inside(admin, "address"@) == text_value(
                        "127.0.0.1:"@ + text::decimal_text(port as nat),
                    )
                } else {
                    admin is None
                },
                None => admin is None,
            }
        }),
        source.server.metrics_port matches Some(port) && port > 65535 ==> translate::translated(
            source,
        ) is Err,
{
    broadcast use reading;

    root_keys_differ();
}

/// Whether a step is one that a worker carries out.
pub open spec fn is_worker_step(step: CoordinatorStep) -> bool {
    ||| step.step_type@ == "conditional-decode"@
    ||| step.step_type@ == "encode"@
    ||| step.step_type@ == "prefill"@
    ||| step.step_type@ == "decode"@
}

/// The steps of a pipeline that workers carry out, in order.
pub open spec fn worker_steps(pipeline: CoordinatorPipeline) -> Seq<CoordinatorStep> {
    pipeline.steps@.filter(|step: CoordinatorStep| is_worker_step(step))
}

/// The phase that a step's filter is told.
pub open spec fn phase_text(step: CoordinatorStep) -> Seq<char> {
    if step.step_type@ == "conditional-decode"@ {
        "conditional_decode"@
    } else {
        step.step_type@
    }
}

/// The name of a worker step at its place.
pub open spec fn step_name(pipeline: CoordinatorPipeline, at: int) -> Seq<char> {
    phase_text(worker_steps(pipeline)[at]) + "-"@ + text::decimal_text(at as nat)
}

proof fn stages_are_worker_steps(steps: Seq<CoordinatorStep>)
    ensures
        ({
            let found = steps.filter(|step: CoordinatorStep| is_worker_step(step));
            let stages = translate::stage_list(steps);
            &&& stages.len() == found.len()
            &&& forall|i: int|
                0 <= i < stages.len() ==> (#[trigger] stages[i]).phase == phase_text(found[i])
                    && stages[i].params == yaml::entries_of(found[i].params) && is_worker_step(
                    found[i],
                )
        }),
    decreases steps.len(),
{
    reveal(Seq::filter);
    step_types_differ();
    if steps.len() > 0 {
        stages_are_worker_steps(steps.drop_last());
    }
}

/// The router of a translation has one step for each worker step of the
/// pipeline, begins with the first, and may take as many turns as there are
/// steps. It has the server's write timeout for a request as a whole, the
/// gateway's for each step, and the server's body limit for answers.
pub proof fn the_router_has_a_step_for_each_stage(source: CoordinatorConfig)
    requires
        translate::translated(source) is Ok,
    ensures
        ({
            let router = filter_at(source, 1);
            let count = worker_steps(source.pipeline).len();
            &&& inside(router, "filter"@) == text_value("iterative_request_router"@)
            &&& count > 0
            &&& has_items(inside(router, "steps"@), count)
            &&& inside(router, "initial_step"@) == text_value(step_name(source.pipeline, 0))
            &&& inside(router, "max_iterations"@) == number(count as int)
            &&& config::millis_read("server.write_timeout"@, source.server.write_timeout@)
                matches Ok(millis) && inside(router, "timeout_ms"@) == number(millis as int)
            &&& config::millis_read("gateway.timeout"@, source.gateway.timeout@) matches Ok(millis)
                && inside(router, "step_timeout_ms"@) == number(millis as int)
            &&& inside(router, "max_response_bytes"@) == number(
                source.server.max_request_body_size * 1_048_576,
            )
        }),
{
    broadcast use reading;

    chain_holds(source);
    router_keys_differ();
    stages_are_worker_steps(source.pipeline.steps@);
    let stages = translate::stage_list(source.pipeline.steps@);
    assert(stages[0].phase == phase_text(worker_steps(source.pipeline)[0]));
}

/// The step of a router for the worker step at a place.
pub open spec fn router_step_at(source: CoordinatorConfig, at: int) -> Option<YamlView> {
    item(inside(filter_at(source, 1), "steps"@), at)
}

proof fn step_holds(source: CoordinatorConfig, at: int)
    requires
        translate::translated(source) is Ok,
        0 <= at < worker_steps(source.pipeline).len(),
    ensures
        ({
            let stages = translate::stage_list(source.pipeline.steps@);
            let timeout = config::millis_read("gateway.timeout"@, source.gateway.timeout@);
            let write = config::millis_read(
                "server.write_timeout"@,
                source.server.write_timeout@,
            );
            let limits = RouterLimits {
                address: source.gateway.address@,
                timeout_ms: timeout->Ok_0,
                write_timeout_ms: write->Ok_0,
                max_body_bytes: translate::max_bytes_of(source.server),
            };
            &&& stages.len() == worker_steps(source.pipeline).len()
            &&& router_step_at(source, at) == Some(
                translate::router_step(stages, at as nat, limits),
            )
            &&& stages[at].phase == phase_text(worker_steps(source.pipeline)[at])
            &&& stages[at].params == yaml::entries_of(worker_steps(source.pipeline)[at].params)
            &&& at + 1 < stages.len() ==> stages[at + 1].phase == phase_text(
                worker_steps(source.pipeline)[at + 1],
            )
            &&& timeout is Ok
            &&& write is Ok
        }),
{
    broadcast use reading;

    chain_holds(source);
    router_keys_differ();
    stages_are_worker_steps(source.pipeline.steps@);
}

/// Each step of the router has the name of its stage and three filters: the
/// first makes the stage's request, with its phase, the server's body limit and
/// exactly the settings that the pipeline's step states for itself.
pub proof fn each_step_makes_its_stages_request(source: CoordinatorConfig, at: int)
    requires
        translate::translated(source) is Ok,
        0 <= at < worker_steps(source.pipeline).len(),
    ensures
        ({
            let step = router_step_at(source, at);
            let stage = item(inside(step, "filters"@), 0);
            let params = yaml::entries_of(worker_steps(source.pipeline)[at].params);
            &&& inside(step, "name"@) == text_value(step_name(source.pipeline, at))
            &&& has_items(inside(step, "filters"@), 3)
            &&& inside(stage, "filter"@) == text_value("llmd_stage"@)
            &&& inside(stage, "phase"@) == text_value(
                phase_text(worker_steps(source.pipeline)[at]),
            )
            &&& inside(stage, "max_body_bytes"@) == number(
                source.server.max_request_body_size * 1_048_576,
            )
            &&& inside(stage, "use_openai_format"@) == yaml::lookup(params, "use_openai_format"@)
            &&& inside(stage, "kv_connector"@) == yaml::lookup(params, "kv_connector"@)
            &&& inside(stage, "ec_connector"@) == yaml::lookup(params, "ec_connector"@)
        }),
{
    broadcast use reading;

    step_holds(source, at);
    step_keys_differ();
    stage_keys_differ();
}

/// The second filter of each step asks the scheduler at the gateway's address for
/// a worker, with the gateway's timeout for a message and the longer of the two
/// timeouts for the whole; it answers with 503 where the scheduler fails.
pub proof fn each_step_asks_the_scheduler(source: CoordinatorConfig, at: int)
    requires
        translate::translated(source) is Ok,
        0 <= at < worker_steps(source.pipeline).len(),
    ensures
        ({
            let asked = item(inside(router_step_at(source, at), "filters"@), 1);
            let timeout = config::millis_read("gateway.timeout"@, source.gateway.timeout@)->Ok_0;
            let write = config::millis_read(
                "server.write_timeout"@,
                source.server.write_timeout@,
            )->Ok_0;
            &&& inside(asked, "filter"@) == text_value("ext_proc"@)
            &&& inside(asked, "target"@) == text_value(source.gateway.address@)
            &&& inside(asked, "message_timeout_ms"@) == number(timeout as int)
            &&& inside(asked, "lifecycle_timeout_ms"@) matches Some(YamlView::Whole(whole)) && whole
                >= timeout && whole >= write && (whole == timeout || whole == write)
            &&& inside(asked, "status_on_error"@) == number(503)
            &&& inside(inside(asked, "processing_mode"@), "request_body_mode"@) == text_value(
                "full_duplex_streamed"@,
            )
            &&& inside(inside(asked, "processing_mode"@), "response_header_mode"@) == text_value(
                "skip"@,
            )
        }),
{
    broadcast use reading;

    step_holds(source, at);
    step_keys_differ();
    scheduler_keys_differ();
}

/// The third filter of each step sends the request to the worker that the
/// scheduler named, takes the name out of the request, and answers with 503 where
/// it named none.
pub proof fn each_step_selects_a_worker(source: CoordinatorConfig, at: int)
    requires
        translate::translated(source) is Ok,
        0 <= at < worker_steps(source.pipeline).len(),
    ensures
        ({
            let selector = item(inside(router_step_at(source, at), "filters"@), 2);
            &&& inside(selector, "filter"@) == text_value("endpoint_selector"@)
            &&& inside(selector, "source_header"@) == text_value("x-gateway-destination-endpoint"@)
            &&& inside(selector, "required"@) == truth(true)
            &&& inside(selector, "status_on_required_failure"@) == number(503)
            &&& inside(selector, "strip_header"@) == truth(true)
        }),
{
    broadcast use reading;

    step_holds(source, at);
    step_keys_differ();
    selector_keys_differ();
}

/// A conditional step leads on to the next only where its worker answers with
/// 412 and else ends the request; any other step leads on to the next in any
/// case, and the last ends the request.
pub proof fn each_step_leads_on(source: CoordinatorConfig, at: int)
    requires
        translate::translated(source) is Ok,
        0 <= at < worker_steps(source.pipeline).len(),
    ensures
        ({
            let moves = inside(router_step_at(source, at), "on_result"@);
            let steps = worker_steps(source.pipeline);
            if at + 1 == steps.len() {
                &&& has_items(moves, 1)
                &&& inside(item(moves, 0), "default"@) == truth(true)
                &&& inside(item(moves, 0), "done"@) == truth(true)
                &&& inside(item(moves, 0), "next"@) is None
            } else if steps[at].step_type@ == "conditional-decode"@ {
                &&& has_items(moves, 2)
                &&& has_items(inside(item(moves, 0), "status"@), 1)
                &&& item(inside(item(moves, 0), "status"@), 0) == number(412)
                &&& inside(item(moves, 0), "next"@) == text_value(
                    step_name(source.pipeline, at + 1),
                )
                &&& inside(item(moves, 0), "default"@) is None
                &&& inside(item(moves, 1), "default"@) == truth(true)
                &&& inside(item(moves, 1), "done"@) == truth(true)
                &&& inside(item(moves, 1), "next"@) is None
            } else {
                &&& has_items(moves, 1)
                &&& inside(item(moves, 0), "default"@) == truth(true)
                &&& inside(item(moves, 0), "next"@) == text_value(
                    step_name(source.pipeline, at + 1),
                )
                &&& inside(item(moves, 0), "done"@) is None
            }
        }),
{
    broadcast use reading;

    step_holds(source, at);
    step_keys_differ();
    move_keys_differ();
    step_types_differ();
    stages_are_worker_steps(source.pipeline.steps@);
}

/// An encode step fans out, over as many requests at a time as the step states,
/// or eight, and 128 in all; no other step does.
pub proof fn only_encode_steps_fan_out(source: CoordinatorConfig, at: int)
    requires
        translate::translated(source) is Ok,
        0 <= at < worker_steps(source.pipeline).len(),
    ensures
        ({
            let spread = inside(router_step_at(source, at), "fan_out"@);
            let step = worker_steps(source.pipeline)[at];
            let stated = yaml::lookup(yaml::entries_of(step.params), "max_parallel"@);
            &&& step.step_type@ != "encode"@ ==> spread is None
            &&& step.step_type@ == "encode"@ ==> inside(spread, "max_requests"@) == number(128)
            &&& step.step_type@ == "encode"@ && stated is None ==> inside(
                spread,
                "max_concurrency"@,
            ) == number(8)
            &&& step.step_type@ == "encode"@ ==> (stated matches Some(YamlView::Whole(n)) ==> (0
                <= n <= u64::MAX ==> inside(spread, "max_concurrency"@) == stated))
        }),
{
    broadcast use reading;

    step_holds(source, at);
    step_keys_differ();
    fan_out_keys_differ();
    step_types_differ();
}

proof fn prepared_with_nothing_else(source: CoordinatorConfig, key: Seq<char>)
    requires
        prepare_of(source) is Some,
        key != "filter"@ && key != "topology"@ && key != "use_openai_format"@ && key
            != "kv_connector"@ && key != "ec_connector"@ && key != "max_body_bytes"@,
        key != "render_url"@ && key != "render_timeout_ms"@ && key != "max_total_tokens"@ && key
            != "max_total_placeholder_tokens"@,
        key != "download_timeout_ms"@ && key != "max_concurrent_downloads"@ && key
            != "max_multimodal_entries"@ && key != "max_download_bytes"@ && key
            != "allow_private_networks"@ && key != "allowed_domains"@,
    ensures
        inside(prepare_of(source), key) is None,
{
    broadcast use reading;

}

/// The filter that prepares requests has no setting but those of the pipeline, of
/// rendering and of media.
pub proof fn preparation_has_no_other_settings(source: CoordinatorConfig, key: Seq<char>)
    requires
        translate::translated(source) is Ok,
        key != "filter"@ && key != "topology"@ && key != "use_openai_format"@ && key
            != "kv_connector"@ && key != "ec_connector"@ && key != "max_body_bytes"@,
        key != "render_url"@ && key != "render_timeout_ms"@ && key != "max_total_tokens"@ && key
            != "max_total_placeholder_tokens"@,
        key != "download_timeout_ms"@ && key != "max_concurrent_downloads"@ && key
            != "max_multimodal_entries"@ && key != "max_download_bytes"@ && key
            != "allow_private_networks"@ && key != "allowed_domains"@,
    ensures
        inside(filter_at(source, 0), key) is None,
{
    first_filter_prepares(source);
    prepared_with_nothing_else(source, key);
}

/// A translation has no key but those of its limits, its listener, its filter
/// chain, its shutdown time and its administration address.
pub proof fn the_translation_sets_nothing_else(source: CoordinatorConfig, key: Seq<char>)
    requires
        translate::translated(source) is Ok,
    ensures
        ({
            let root = root_of(source);
            let listener = item(inside(root, "listeners"@), 0);
            let chain = item(inside(root, "filter_chains"@), 0);
            let limits = inside(root, "body_limits"@);
            &&& inside(root, key) is Some ==> key == "body_limits"@ || key == "listeners"@ || key
                == "filter_chains"@ || key == "shutdown_timeout_secs"@ || key == "admin"@
            &&& inside(listener, key) is Some ==> key == "name"@ || key == "address"@ || key
                == "downstream_read_timeout_ms"@ || key == "filter_chains"@
            &&& inside(chain, key) is Some ==> key == "name"@ || key == "filters"@
            &&& inside(limits, key) is Some ==> key == "max_request_bytes"@ || key
                == "max_response_bytes"@
        }),
{
    broadcast use reading;

    root_keys_differ();
    listener_keys_differ();
}

/// The router and each of its steps have no key but those of the stages.
pub proof fn the_router_sets_nothing_else(source: CoordinatorConfig, at: int, key: Seq<char>)
    requires
        translate::translated(source) is Ok,
        0 <= at < worker_steps(source.pipeline).len(),
    ensures
        ({
            let step = router_step_at(source, at);
            let stage = item(inside(step, "filters"@), 0);
            &&& inside(step, key) is Some ==> key == "name"@ || key == "filters"@ || key
                == "on_result"@ || key == "fan_out"@
            &&& inside(stage, key) is Some ==> key == "filter"@ || key == "phase"@ || key
                == "max_body_bytes"@ || key == "use_openai_format"@ || key == "kv_connector"@ || key
                == "ec_connector"@
        }),
{
    broadcast use reading;

    step_holds(source, at);
    step_keys_differ();
    stage_keys_differ();
}

} // verus!
