//! The native configuration that a coordinator configuration stands for.
use crate::config::{
    self, CoordinatorConfig, CoordinatorGateway, CoordinatorPipeline, CoordinatorServer,
    CoordinatorStep, MIB,
};
#[allow(unused_imports)]
use crate::filter;
use crate::state::Topology;
use crate::text;
use crate::yaml::{self, YamlView};
use vstd::prelude::*;

verus! {

/// The number that a value is, if it is an integer that is not negative.
pub open spec fn whole_in(value: Option<YamlView>) -> Option<nat> {
    match value {
        Some(value) => match yaml::bare(value) {
            YamlView::Whole(n) if 0 <= n <= u64::MAX => Some(n as nat),
            _ => None,
        },
        None => None,
    }
}

/// The truth value that a value is, if it is one.
pub open spec fn bool_in(value: Option<YamlView>) -> Option<bool> {
    match value {
        Some(value) => match yaml::bare(value) {
            YamlView::Bool(b) => Some(b),
            _ => None,
        },
        None => None,
    }
}

/// Entries with a text under a parameter's name carried over to `key`.
pub open spec fn with_text(
    entries: Seq<(YamlView, YamlView)>,
    params: Seq<(YamlView, YamlView)>,
    name: Seq<char>,
    key: Seq<char>,
) -> Seq<(YamlView, YamlView)> {
    match config::text_in(yaml::lookup(params, name)) {
        Some(text) => yaml::put(entries, key, yaml::words(text)),
        None => entries,
    }
}

/// Entries with a number under a parameter's name carried over to `key`.
pub open spec fn with_whole(
    entries: Seq<(YamlView, YamlView)>,
    params: Seq<(YamlView, YamlView)>,
    name: Seq<char>,
    key: Seq<char>,
) -> Seq<(YamlView, YamlView)> {
    match whole_in(yaml::lookup(params, name)) {
        Some(n) => yaml::put(entries, key, YamlView::Whole(n as int)),
        None => entries,
    }
}

/// Entries with a truth value under a parameter's name carried over.
pub open spec fn with_bool(
    entries: Seq<(YamlView, YamlView)>,
    params: Seq<(YamlView, YamlView)>,
    name: Seq<char>,
) -> Seq<(YamlView, YamlView)> {
    match bool_in(yaml::lookup(params, name)) {
        Some(b) => yaml::put(entries, name, YamlView::Bool(b)),
        None => entries,
    }
}

/// Entries with whatever stands under a parameter's name carried over.
pub open spec fn with_any(
    entries: Seq<(YamlView, YamlView)>,
    params: Seq<(YamlView, YamlView)>,
    name: Seq<char>,
) -> Seq<(YamlView, YamlView)> {
    match yaml::lookup(params, name) {
        Some(value) => yaml::put(entries, name, value),
        None => entries,
    }
}

/// Entries with a duration under a parameter's name carried over to `key`, in
/// milliseconds.
pub open spec fn with_millis(
    entries: Seq<(YamlView, YamlView)>,
    params: Seq<(YamlView, YamlView)>,
    name: Seq<char>,
    key: Seq<char>,
    path: Seq<char>,
) -> Result<Seq<(YamlView, YamlView)>, Seq<char>> {
    match config::text_in(yaml::lookup(params, name)) {
        Some(text) => match config::millis_read(path, text) {
            Ok(millis) => Ok(yaml::put(entries, key, YamlView::Whole(millis as int))),
            Err(error) => Err(error),
        },
        None => Ok(entries),
    }
}

/// The settings of preparation with those of a render step.
pub open spec fn with_render(
    entries: Seq<(YamlView, YamlView)>,
    params: Seq<(YamlView, YamlView)>,
) -> Result<Seq<(YamlView, YamlView)>, Seq<char>> {
    let located = with_text(entries, params, "address"@, "render_url"@);
    match with_millis(
        located,
        params,
        "timeout"@,
        "render_timeout_ms"@,
        "pipeline.render.timeout"@,
    ) {
        Ok(timed) => Ok(
            with_whole(
                with_whole(timed, params, "max_total_tokens"@, "max_total_tokens"@),
                params,
                "max_total_placeholder_tokens"@,
                "max_total_placeholder_tokens"@,
            ),
        ),
        Err(error) => Err(error),
    }
}

/// The settings of preparation with those of a step that fetches media.
pub open spec fn with_media(
    entries: Seq<(YamlView, YamlView)>,
    params: Seq<(YamlView, YamlView)>,
) -> Result<Seq<(YamlView, YamlView)>, Seq<char>> {
    match with_millis(
        entries,
        params,
        "download_timeout"@,
        "download_timeout_ms"@,
        "pipeline.replace-media-urls.download_timeout"@,
    ) {
        Ok(timed) => {
            let limited = with_whole(
                with_whole(
                    with_whole(
                        timed,
                        params,
                        "max_concurrent_downloads"@,
                        "max_concurrent_downloads"@,
                    ),
                    params,
                    "max_multimodal_entries"@,
                    "max_multimodal_entries"@,
                ),
                params,
                "max_download_size"@,
                "max_download_bytes"@,
            );
            Ok(
                with_any(
                    with_bool(limited, params, "allow_private_networks"@),
                    params,
                    "allowed_domains"@,
                ),
            )
        },
        Err(error) => Err(error),
    }
}

/// What entries or an error text hold.
pub open spec fn entries_result(r: Result<serde_yaml::Mapping, String>) -> Result<
    Seq<(YamlView, YamlView)>,
    Seq<char>,
> {
    match r {
        Ok(mapping) => Ok(yaml::entries_of(mapping)),
        Err(error) => Err(error@),
    }
}

/// Carries a text over.
fn carry_text(
    entries: &mut serde_yaml::Mapping,
    params: &serde_yaml::Mapping,
    name: &str,
    key: &str,
)
    ensures
        yaml::entries_of(*final(entries)) == with_text(
            yaml::entries_of(*old(entries)),
            yaml::entries_of(*params),
            name@,
            key@,
        ),
{
    if let Some(text) = config::text_entry(params, name) {
        yaml::put_entry(entries, key, yaml::yaml_words(text));
    }
}

/// Carries a number over.
fn carry_whole(
    entries: &mut serde_yaml::Mapping,
    params: &serde_yaml::Mapping,
    name: &str,
    key: &str,
)
    ensures
        yaml::entries_of(*final(entries)) == with_whole(
            yaml::entries_of(*old(entries)),
            yaml::entries_of(*params),
            name@,
            key@,
        ),
{
    if let Some(value) = yaml::get_entry(params, name) {
        if let Some(n) = yaml::as_yaml_whole(value) {
            yaml::put_entry(entries, key, yaml::yaml_whole(n));
        }
    }
}

/// Carries a truth value over.
fn carry_bool(entries: &mut serde_yaml::Mapping, params: &serde_yaml::Mapping, name: &str)
    ensures
        yaml::entries_of(*final(entries)) == with_bool(
            yaml::entries_of(*old(entries)),
            yaml::entries_of(*params),
            name@,
        ),
{
    if let Some(value) = yaml::get_entry(params, name) {
        if let Some(b) = yaml::as_yaml_bool(value) {
            yaml::put_entry(entries, name, yaml::yaml_bool(b));
        }
    }
}

/// Carries whatever stands under a name over.
fn carry_any(entries: &mut serde_yaml::Mapping, params: &serde_yaml::Mapping, name: &str)
    ensures
        yaml::entries_of(*final(entries)) == with_any(
            yaml::entries_of(*old(entries)),
            yaml::entries_of(*params),
            name@,
        ),
{
    if let Some(value) = yaml::get_entry(params, name) {
        yaml::put_entry(entries, name, yaml::copy_yaml(value));
    }
}

/// Carries a duration over.
fn carry_millis(
    entries: &mut serde_yaml::Mapping,
    params: &serde_yaml::Mapping,
    name: &str,
    key: &str,
    path: &str,
) -> (r: Result<(), String>)
    ensures
        match with_millis(
            yaml::entries_of(*old(entries)),
            yaml::entries_of(*params),
            name@,
            key@,
            path@,
        ) {
            Ok(carried) => r is Ok && yaml::entries_of(*final(entries)) == carried,
            Err(error) => config::check_view(r) == Err::<(), Seq<char>>(error),
        },
{
    if let Some(text) = config::text_entry(params, name) {
        match config::duration_ms(path, text) {
            Ok(millis) => {
                yaml::put_entry(entries, key, yaml::yaml_whole(millis));
            },
            Err(error) => {
                return Err(error);
            },
        }
    }
    Ok(())
}

/// The settings of preparation that do not come from a step.
pub open spec fn prepare_base(
    pipeline: CoordinatorPipeline,
    topology: Topology,
    max_body_bytes: nat,
) -> Seq<(YamlView, YamlView)> {
    yaml::built(
        seq![
            ("filter"@, yaml::words("llmd_prepare"@)),
            ("topology"@, yaml::words(topology.label())),
            ("use_openai_format"@, YamlView::Bool(pipeline.use_openai_format)),
            ("kv_connector"@, yaml::words(pipeline.kv_connector@)),
            ("ec_connector"@, yaml::words(pipeline.ec_connector@)),
            ("max_body_bytes"@, YamlView::Whole(max_body_bytes as int)),
        ],
    )
}

/// The filter that prepares requests.
pub open spec fn prepare_filter(
    pipeline: CoordinatorPipeline,
    topology: Topology,
    max_body_bytes: nat,
) -> Result<Seq<(YamlView, YamlView)>, Seq<char>> {
    let base = prepare_base(pipeline, topology, max_body_bytes);
    let rendered = match config::first_step(pipeline.steps@, "render"@) {
        Some(step) => with_render(base, yaml::entries_of(step.params)),
        None => Ok(base),
    };
    match rendered {
        Err(error) => Err(error),
        Ok(entries) => match config::first_step(pipeline.steps@, "replace-media-urls"@) {
            Some(step) => with_media(entries, yaml::entries_of(step.params)),
            None => Ok(entries),
        },
    }
}

/// Builds the filter that prepares requests.
fn build_prepare_filter(
    pipeline: &CoordinatorPipeline,
    topology: Topology,
    max_body_bytes: usize,
) -> (r: Result<serde_yaml::Mapping, String>)
    ensures
        entries_result(r) == prepare_filter(*pipeline, topology, max_body_bytes as nat),
{
    let rows = vec![
        ("filter", yaml::yaml_words("llmd_prepare")),
        ("topology", yaml::yaml_words(topology.name())),
        ("use_openai_format", yaml::yaml_bool(pipeline.use_openai_format)),
        ("kv_connector", yaml::yaml_words(pipeline.kv_connector.as_str())),
        ("ec_connector", yaml::yaml_words(pipeline.ec_connector.as_str())),
        ("max_body_bytes", yaml::yaml_whole(max_body_bytes as u64)),
    ];
    let mut entries = yaml::build_entries(&rows);
    proof {
        assert(yaml::rows_view(rows@) =~= seq![
            ("filter"@, yaml::words("llmd_prepare"@)),
            ("topology"@, yaml::words(topology.label())),
            ("use_openai_format"@, YamlView::Bool(pipeline.use_openai_format)),
            ("kv_connector"@, yaml::words(pipeline.kv_connector@)),
            ("ec_connector"@, yaml::words(pipeline.ec_connector@)),
            ("max_body_bytes"@, YamlView::Whole(max_body_bytes as int)),
        ]);
    }
    if let Some(step) = config::find_step(&pipeline.steps, "render") {
        carry_text(&mut entries, &step.params, "address", "render_url");
        match carry_millis(
            &mut entries,
            &step.params,
            "timeout",
            "render_timeout_ms",
            "pipeline.render.timeout",
        ) {
            Ok(()) => {},
            Err(error) => {
                return Err(error);
            },
        }
        carry_whole(&mut entries, &step.params, "max_total_tokens", "max_total_tokens");
        carry_whole(
            &mut entries,
            &step.params,
            "max_total_placeholder_tokens",
            "max_total_placeholder_tokens",
        );
    }
    if let Some(step) = config::find_step(&pipeline.steps, "replace-media-urls") {
        match carry_millis(
            &mut entries,
            &step.params,
            "download_timeout",
            "download_timeout_ms",
            "pipeline.replace-media-urls.download_timeout",
        ) {
            Ok(()) => {},
            Err(error) => {
                return Err(error);
            },
        }
        carry_whole(
            &mut entries,
            &step.params,
            "max_concurrent_downloads",
            "max_concurrent_downloads",
        );
        carry_whole(
            &mut entries,
            &step.params,
            "max_multimodal_entries",
            "max_multimodal_entries",
        );
        carry_whole(&mut entries, &step.params, "max_download_size", "max_download_bytes");
        carry_bool(&mut entries, &step.params, "allow_private_networks");
        carry_any(&mut entries, &step.params, "allowed_domains");
    }
    Ok(entries)
}

/// The phase of a step, if it is a worker stage.
pub open spec fn phase_of(step_type: Seq<char>) -> Option<Seq<char>> {
    if step_type == "conditional-decode"@ {
        Some("conditional_decode"@)
    } else if step_type == "encode"@ {
        Some("encode"@)
    } else if step_type == "prefill"@ {
        Some("prefill"@)
    } else if step_type == "decode"@ {
        Some("decode"@)
    } else {
        None
    }
}

/// A worker stage: its phase and its parameters.
pub struct StageView {
    pub phase: Seq<char>,
    pub params: Seq<(YamlView, YamlView)>,
}

/// The worker stages of some steps, in order.
pub open spec fn stage_list(steps: Seq<CoordinatorStep>) -> Seq<StageView>
    decreases steps.len(),
{
    if steps.len() == 0 {
        Seq::empty()
    } else {
        let before = stage_list(steps.drop_last());
        match phase_of(steps.last().step_type@) {
            Some(phase) => before.push(
                StageView { phase, params: yaml::entries_of(steps.last().params) },
            ),
            None => before,
        }
    }
}

/// The name of a stage.
pub open spec fn stage_name(phase: Seq<char>, index: nat) -> Seq<char> {
    phase + "-"@ + text::decimal_text(index)
}

/// The name of the stage after another, if there is one.
pub open spec fn next_name(stages: Seq<StageView>, index: nat) -> Option<Seq<char>> {
    if index + 1 < stages.len() {
        Some(stage_name(stages[index as int + 1].phase, index + 1))
    } else {
        None
    }
}

/// The filter that makes the request of a stage.
pub open spec fn stage_filter(stage: StageView, max_body_bytes: nat) -> YamlView {
    let base = yaml::built(
        seq![
            ("filter"@, yaml::words("llmd_stage"@)),
            ("phase"@, yaml::words(stage.phase)),
            ("max_body_bytes"@, YamlView::Whole(max_body_bytes as int)),
        ],
    );
    YamlView::Mapping(
        with_any(
            with_any(
                with_any(base, stage.params, "use_openai_format"@),
                stage.params,
                "kv_connector"@,
            ),
            stage.params,
            "ec_connector"@,
        ),
    )
}

/// The greater of two numbers.
pub open spec fn greater(a: nat, b: nat) -> nat {
    if a >= b {
        a
    } else {
        b
    }
}

/// The filter that asks the scheduler for a worker.
pub open spec fn scheduler_filter(
    address: Seq<char>,
    timeout_ms: nat,
    write_timeout_ms: nat,
) -> YamlView {
    yaml::table(
        seq![
            ("filter"@, yaml::words("ext_proc"@)),
            ("target"@, yaml::words(address)),
            ("message_timeout_ms"@, YamlView::Whole(timeout_ms as int)),
            (
                "lifecycle_timeout_ms"@,
                YamlView::Whole(greater(write_timeout_ms, timeout_ms) as int),
            ),
            ("status_on_error"@, YamlView::Whole(503)),
            (
                "processing_mode"@,
                yaml::table(
                    seq![
                        ("request_body_mode"@, yaml::words("full_duplex_streamed"@)),
                        ("response_header_mode"@, yaml::words("skip"@)),
                    ],
                ),
            ),
        ],
    )
}

/// The filter that sends a request to the worker that the scheduler chose.
pub open spec fn selector_filter() -> YamlView {
    yaml::table(
        seq![
            ("filter"@, yaml::words("endpoint_selector"@)),
            ("source_header"@, yaml::words("x-gateway-destination-endpoint"@)),
            ("required"@, YamlView::Bool(true)),
            ("status_on_required_failure"@, YamlView::Whole(503)),
            ("strip_header"@, YamlView::Bool(true)),
        ],
    )
}

/// The transition that ends the request.
pub open spec fn done_transition() -> YamlView {
    yaml::table(seq![("default"@, YamlView::Bool(true)), ("done"@, YamlView::Bool(true))])
}

/// What follows a stage. The conditional stage goes on only where its worker
/// says that the precondition failed; any other goes on to the next stage.
pub open spec fn transitions(phase: Seq<char>, next: Option<Seq<char>>) -> Seq<YamlView> {
    match next {
        Some(next) => if phase == "conditional_decode"@ {
            seq![
                yaml::table(
                    seq![
                        ("status"@, YamlView::Sequence(seq![YamlView::Whole(412)])),
                        ("next"@, yaml::words(next)),
                    ],
                ),
                done_transition(),
            ]
        } else {
            seq![
                yaml::table(
                    seq![("default"@, YamlView::Bool(true)), ("next"@, yaml::words(next))],
                ),
            ]
        },
        None => seq![done_transition()],
    }
}

/// How many encode requests run at a time.
pub open spec fn max_parallel(params: Seq<(YamlView, YamlView)>) -> nat {
    match whole_in(yaml::lookup(params, "max_parallel"@)) {
        Some(n) => n,
        None => 8,
    }
}

/// How the encode stage fans out.
pub open spec fn fan_out(params: Seq<(YamlView, YamlView)>) -> YamlView {
    yaml::table(
        seq![
            ("max_concurrency"@, YamlView::Whole(max_parallel(params) as int)),
            ("max_requests"@, YamlView::Whole(128)),
        ],
    )
}

/// The times and limits that the stages share.
pub struct RouterLimits {
    pub address: Seq<char>,
    pub timeout_ms: nat,
    pub write_timeout_ms: nat,
    pub max_body_bytes: nat,
}

/// The router's step for a stage.
pub open spec fn router_step(
    stages: Seq<StageView>,
    index: nat,
    limits: RouterLimits,
) -> YamlView {
    let stage = stages[index as int];
    let base = yaml::built(
        seq![
            ("name"@, yaml::words(stage_name(stage.phase, index))),
            (
                "filters"@,
                YamlView::Sequence(
                    seq![
                        stage_filter(stage, limits.max_body_bytes),
                        scheduler_filter(
                            limits.address,
                            limits.timeout_ms,
                            limits.write_timeout_ms,
                        ),
                        selector_filter(),
                    ],
                ),
            ),
            (
                "on_result"@,
                YamlView::Sequence(transitions(stage.phase, next_name(stages, index))),
            ),
        ],
    );
    YamlView::Mapping(
        if stage.phase == "encode"@ {
            yaml::put(base, "fan_out"@, fan_out(stage.params))
        } else {
            base
        },
    )
}

/// The router's steps, one for each stage.
pub open spec fn router_steps(stages: Seq<StageView>, limits: RouterLimits) -> Seq<YamlView> {
    Seq::new(stages.len(), |i: int| router_step(stages, i as nat, limits))
}

/// The filter that leads a request through the stages.
pub open spec fn router_filter(
    pipeline: CoordinatorPipeline,
    gateway: CoordinatorGateway,
    write_timeout_ms: nat,
    max_body_bytes: nat,
) -> Result<Seq<(YamlView, YamlView)>, Seq<char>> {
    let stages = stage_list(pipeline.steps@);
    match config::millis_read("gateway.timeout"@, gateway.timeout@) {
        Err(error) => Err(error),
        Ok(timeout_ms) => if stages.len() == 0 {
            Err("pipeline has no orchestration stage"@)
        } else {
            let limits = RouterLimits {
                address: gateway.address@,
                timeout_ms,
                write_timeout_ms,
                max_body_bytes,
            };
            Ok(
                yaml::built(
                    seq![
                        ("filter"@, yaml::words("iterative_request_router"@)),
                        ("initial_step"@, yaml::words(stage_name(stages[0].phase, 0))),
                        ("max_iterations"@, YamlView::Whole(stages.len() as int)),
                        ("timeout_ms"@, YamlView::Whole(write_timeout_ms as int)),
                        ("step_timeout_ms"@, YamlView::Whole(timeout_ms as int)),
                        ("max_response_bytes"@, YamlView::Whole(max_body_bytes as int)),
                        ("steps"@, YamlView::Sequence(router_steps(stages, limits))),
                    ],
                ),
            )
        },
    }
}

/// What some worker stages are.
pub open spec fn stages_view(
    stages: Seq<(&'static str, usize)>,
    steps: Seq<CoordinatorStep>,
) -> Seq<StageView> {
    stages.map_values(
        |stage: (&'static str, usize)|
            StageView {
                phase: stage.0@,
                params: yaml::entries_of(steps[stage.1 as int].params),
            },
    )
}

/// The phase of a step, if it is a worker stage.
fn find_phase(step_type: &str) -> (r: Option<&'static str>)
    ensures
        match r {
            Some(phase) => phase_of(step_type@) == Some(phase@),
            None => phase_of(step_type@) is None,
        },
{
    if text::same(step_type, "conditional-decode") {
        Some("conditional_decode")
    } else if text::same(step_type, "encode") {
        Some("encode")
    } else if text::same(step_type, "prefill") {
        Some("prefill")
    } else if text::same(step_type, "decode") {
        Some("decode")
    } else {
        None
    }
}

/// The worker stages of some steps, in order, with the place of each.
fn find_stages(steps: &Vec<CoordinatorStep>) -> (r: Vec<(&'static str, usize)>)
    ensures
        r@.len() <= steps@.len(),
        forall|i: int| 0 <= i < r@.len() ==> (#[trigger] r@[i]).1 < steps@.len(),
        stages_view(r@, steps@) == stage_list(steps@),
{
    let mut r: Vec<(&'static str, usize)> = Vec::new();
    let mut i: usize = 0;
    proof {
        assert(stages_view(r@, steps@) =~= Seq::empty());
        assert(steps@.take(0) =~= Seq::empty());
    }
    while i < steps.len()
        invariant
            i <= steps.len(),
            r@.len() <= i,
            forall|j: int| 0 <= j < r@.len() ==> (#[trigger] r@[j]).1 < steps@.len(),
            stages_view(r@, steps@) == stage_list(steps@.take(i as int)),
        decreases steps.len() - i,
    {
        proof {
            assert(steps@.take(i + 1).drop_last() =~= steps@.take(i as int));
            assert(steps@.take(i + 1).last() == steps@[i as int]);
        }
        if let Some(phase) = find_phase(steps[i].step_type.as_str()) {
            let ghost held = r@;
            r.push((phase, i));
            proof {
                assert(stages_view(r@, steps@) =~= stages_view(held, steps@).push(
                    StageView { phase: phase@, params: yaml::entries_of(steps@[i as int].params) },
                ));
            }
        }
        i += 1;
    }
    proof {
        assert(steps@.take(i as int) =~= steps@);
    }
    r
}

/// The name of a stage.
fn name_stage(phase: &str, index: usize) -> (r: String)
    ensures
        r@ == stage_name(phase@, index as nat),
{
    text::join3(phase, "-", text::decimal(index as u64).as_str())
}

/// Builds a mapping of some rows.
fn build_table(rows: &Vec<(&'static str, serde_yaml::Value)>) -> (r: serde_yaml::Value)
    ensures
        yaml::yaml_of(r) == yaml::table(yaml::rows_view(rows@)),
{
    yaml::yaml_mapping(yaml::build_entries(rows))
}

/// Builds the filter that makes the request of a stage.
fn build_stage_filter(
    phase: &'static str,
    params: &serde_yaml::Mapping,
    max_body_bytes: usize,
) -> (r: serde_yaml::Value)
    ensures
        yaml::yaml_of(r) == stage_filter(
            StageView { phase: phase@, params: yaml::entries_of(*params) },
            max_body_bytes as nat,
        ),
{
    let rows = vec![
        ("filter", yaml::yaml_words("llmd_stage")),
        ("phase", yaml::yaml_words(phase)),
        ("max_body_bytes", yaml::yaml_whole(max_body_bytes as u64)),
    ];
    proof {
        assert(yaml::rows_view(rows@) =~= seq![
            ("filter"@, yaml::words("llmd_stage"@)),
            ("phase"@, yaml::words(phase@)),
            ("max_body_bytes"@, YamlView::Whole(max_body_bytes as int)),
        ]);
    }
    let mut entries = yaml::build_entries(&rows);
    carry_any(&mut entries, params, "use_openai_format");
    carry_any(&mut entries, params, "kv_connector");
    carry_any(&mut entries, params, "ec_connector");
    yaml::yaml_mapping(entries)
}

/// Builds the filter that asks the scheduler for a worker.
fn build_scheduler_filter(address: &str, timeout_ms: u64, write_timeout_ms: u64) -> (r:
    serde_yaml::Value)
    ensures
        yaml::yaml_of(r) == scheduler_filter(
            address@,
            timeout_ms as nat,
            write_timeout_ms as nat,
        ),
{
    let mode_rows = vec![
        ("request_body_mode", yaml::yaml_words("full_duplex_streamed")),
        ("response_header_mode", yaml::yaml_words("skip")),
    ];
    proof {
        assert(yaml::rows_view(mode_rows@) =~= seq![
            ("request_body_mode"@, yaml::words("full_duplex_streamed"@)),
            ("response_header_mode"@, yaml::words("skip"@)),
        ]);
    }
    let lifecycle: u64 = if write_timeout_ms >= timeout_ms {
        write_timeout_ms
    } else {
        timeout_ms
    };
    let rows = vec![
        ("filter", yaml::yaml_words("ext_proc")),
        ("target", yaml::yaml_words(address)),
        ("message_timeout_ms", yaml::yaml_whole(timeout_ms)),
        ("lifecycle_timeout_ms", yaml::yaml_whole(lifecycle)),
        ("status_on_error", yaml::yaml_whole(503)),
        ("processing_mode", build_table(&mode_rows)),
    ];
    proof {
        assert(yaml::rows_view(rows@) =~= seq![
            ("filter"@, yaml::words("ext_proc"@)),
            ("target"@, yaml::words(address@)),
            ("message_timeout_ms"@, YamlView::Whole(timeout_ms as int)),
            ("lifecycle_timeout_ms"@, YamlView::Whole(lifecycle as int)),
            ("status_on_error"@, YamlView::Whole(503)),
            ("processing_mode"@, yaml::table(yaml::rows_view(mode_rows@))),
        ]);
    }
    build_table(&rows)
}

/// Builds the filter that sends a request to the worker that the scheduler
/// chose.
fn build_selector_filter() -> (r: serde_yaml::Value)
    ensures
        yaml::yaml_of(r) == selector_filter(),
{
    let rows = vec![
        ("filter", yaml::yaml_words("endpoint_selector")),
        ("source_header", yaml::yaml_words("x-gateway-destination-endpoint")),
        ("required", yaml::yaml_bool(true)),
        ("status_on_required_failure", yaml::yaml_whole(503)),
        ("strip_header", yaml::yaml_bool(true)),
    ];
    proof {
        assert(yaml::rows_view(rows@) =~= seq![
            ("filter"@, yaml::words("endpoint_selector"@)),
            ("source_header"@, yaml::words("x-gateway-destination-endpoint"@)),
            ("required"@, YamlView::Bool(true)),
            ("status_on_required_failure"@, YamlView::Whole(503)),
            ("strip_header"@, YamlView::Bool(true)),
        ]);
    }
    build_table(&rows)
}

/// Builds the transition that ends the request.
fn build_done_transition() -> (r: serde_yaml::Value)
    ensures
        yaml::yaml_of(r) == done_transition(),
{
    let rows = vec![("default", yaml::yaml_bool(true)), ("done", yaml::yaml_bool(true))];
    proof {
        assert(yaml::rows_view(rows@) =~= seq![
            ("default"@, YamlView::Bool(true)),
            ("done"@, YamlView::Bool(true)),
        ]);
    }
    build_table(&rows)
}

/// Builds what follows a stage.
fn build_transitions(phase: &str, next: Option<&str>) -> (r: Vec<serde_yaml::Value>)
    ensures
        yaml::values_of(r@) == transitions(
            phase@,
            match next {
                Some(next) => Some(next@),
                None => None,
            },
        ),
{
    let mut r: Vec<serde_yaml::Value> = Vec::new();
    match next {
        Some(next) => {
            if text::same(phase, "conditional_decode") {
                let statuses = vec![yaml::yaml_whole(412)];
                proof {
                    assert(yaml::values_of(statuses@) =~= seq![YamlView::Whole(412)]);
                }
                let rows = vec![
                    ("status", yaml::yaml_sequence(statuses)),
                    ("next", yaml::yaml_words(next)),
                ];
                proof {
                    assert(yaml::rows_view(rows@) =~= seq![
                        ("status"@, YamlView::Sequence(seq![YamlView::Whole(412)])),
                        ("next"@, yaml::words(next@)),
                    ]);
                }
                r.push(build_table(&rows));
                r.push(build_done_transition());
            } else {
                let rows = vec![
                    ("default", yaml::yaml_bool(true)),
                    ("next", yaml::yaml_words(next)),
                ];
                proof {
                    assert(yaml::rows_view(rows@) =~= seq![
                        ("default"@, YamlView::Bool(true)),
                        ("next"@, yaml::words(next@)),
                    ]);
                }
                r.push(build_table(&rows));
            }
            proof {
                assert(yaml::values_of(r@) =~= transitions(phase@, Some(next@)));
            }
        },
        None => {
            r.push(build_done_transition());
            proof {
                assert(yaml::values_of(r@) =~= transitions(phase@, None));
            }
        },
    }
    r
}

/// Builds how the encode stage fans out.
fn build_fan_out(params: &serde_yaml::Mapping) -> (r: serde_yaml::Value)
    ensures
        yaml::yaml_of(r) == fan_out(yaml::entries_of(*params)),
{
    let limit = match yaml::get_entry(params, "max_parallel") {
        Some(value) => yaml::as_yaml_whole(value),
        None => None,
    };
    let limit: u64 = match limit {
        Some(limit) => limit,
        None => 8,
    };
    let rows = vec![
        ("max_concurrency", yaml::yaml_whole(limit)),
        ("max_requests", yaml::yaml_whole(128)),
    ];
    proof {
        assert(limit == max_parallel(yaml::entries_of(*params)));
        assert(yaml::rows_view(rows@) =~= seq![
            ("max_concurrency"@, YamlView::Whole(limit as int)),
            ("max_requests"@, YamlView::Whole(128)),
        ]);
    }
    build_table(&rows)
}

/// Builds the router's step for a stage.
fn build_router_step(
    stages: &Vec<(&'static str, usize)>,
    steps: &Vec<CoordinatorStep>,
    index: usize,
    address: &str,
    timeout_ms: u64,
    write_timeout_ms: u64,
    max_body_bytes: usize,
) -> (r: serde_yaml::Value)
    requires
        index < stages@.len(),
        stages@.len() <= steps@.len(),
        forall|i: int| 0 <= i < stages@.len() ==> (#[trigger] stages@[i]).1 < steps@.len(),
    ensures
        yaml::yaml_of(r) == router_step(
            stages_view(stages@, steps@),
            index as nat,
            RouterLimits {
                address: address@,
                timeout_ms: timeout_ms as nat,
                write_timeout_ms: write_timeout_ms as nat,
                max_body_bytes: max_body_bytes as nat,
            },
        ),
{
    let phase = stages[index].0;
    let params = &steps[stages[index].1].params;
    let ghost views = stages_view(stages@, steps@);
    proof {
        assert(views[index as int] == (StageView {
            phase: phase@,
            params: yaml::entries_of(*params),
        }));
    }
    let next = if stages.len() - index > 1 {
        proof {
            assert(views[index + 1].phase == stages@[index + 1].0@);
        }
        Some(name_stage(stages[index + 1].0, index + 1))
    } else {
        None
    };
    let filters = vec![
        build_stage_filter(phase, params, max_body_bytes),
        build_scheduler_filter(address, timeout_ms, write_timeout_ms),
        build_selector_filter(),
    ];
    let moves = match &next {
        Some(next) => build_transitions(phase, Some(next.as_str())),
        None => build_transitions(phase, None),
    };
    let ghost filter_views = yaml::values_of(filters@);
    let ghost move_views = yaml::values_of(moves@);
    let name = name_stage(phase, index);
    let rows = vec![
        ("name", yaml::yaml_words(name.as_str())),
        ("filters", yaml::yaml_sequence(filters)),
        ("on_result", yaml::yaml_sequence(moves)),
    ];
    proof {
        assert(filter_views =~= seq![
            stage_filter(views[index as int], max_body_bytes as nat),
            scheduler_filter(address@, timeout_ms as nat, write_timeout_ms as nat),
            selector_filter(),
        ]);
        assert(move_views == transitions(phase@, next_name(views, index as nat)));
        assert(yaml::rows_view(rows@) =~= seq![
            ("name"@, yaml::words(stage_name(phase@, index as nat))),
            ("filters"@, YamlView::Sequence(filter_views)),
            ("on_result"@, YamlView::Sequence(move_views)),
        ]);
    }
    let mut entries = yaml::build_entries(&rows);
    if text::same(phase, "encode") {
        yaml::put_entry(&mut entries, "fan_out", build_fan_out(params));
    }
    yaml::yaml_mapping(entries)
}

/// Builds the filter that leads a request through the stages.
pub fn build_irr_filter(
    pipeline: &CoordinatorPipeline,
    gateway: &CoordinatorGateway,
    write_timeout_ms: u64,
    max_body_bytes: usize,
) -> (r: Result<serde_yaml::Mapping, String>)
    ensures
        entries_result(r) == router_filter(
            *pipeline,
            *gateway,
            write_timeout_ms as nat,
            max_body_bytes as nat,
        ),
{
    let stages = find_stages(&pipeline.steps);
    let ghost views = stages_view(stages@, pipeline.steps@);
    let timeout_ms: u64 = match config::duration_ms("gateway.timeout", gateway.timeout.as_str()) {
        Ok(timeout_ms) => timeout_ms,
        Err(error) => {
            return Err(error);
        },
    };
    if stages.len() == 0 {
        return Err("pipeline has no orchestration stage".to_owned());
    }
    let ghost limits = RouterLimits {
        address: gateway.address@,
        timeout_ms: timeout_ms as nat,
        write_timeout_ms: write_timeout_ms as nat,
        max_body_bytes: max_body_bytes as nat,
    };
    let mut steps: Vec<serde_yaml::Value> = Vec::new();
    let mut i: usize = 0;
    while i < stages.len()
        invariant
            views == stages_view(stages@, pipeline.steps@),
            limits == (RouterLimits {
                address: gateway.address@,
                timeout_ms: timeout_ms as nat,
                write_timeout_ms: write_timeout_ms as nat,
                max_body_bytes: max_body_bytes as nat,
            }),
            stages@.len() <= pipeline.steps@.len(),
            forall|j: int|
                0 <= j < stages@.len() ==> (#[trigger] stages@[j]).1 < pipeline.steps@.len(),
            i <= stages.len(),
            steps@.len() == i,
            forall|j: int|
                0 <= j < i ==> yaml::yaml_of(#[trigger] steps@[j]) == router_step(
                    views,
                    j as nat,
                    limits,
                ),
        decreases stages.len() - i,
    {
        steps.push(
            build_router_step(
                &stages,
                &pipeline.steps,
                i,
                gateway.address.as_str(),
                timeout_ms,
                write_timeout_ms,
                max_body_bytes,
            ),
        );
        i += 1;
    }
    let ghost step_views = yaml::values_of(steps@);
    let rows = vec![
        ("filter", yaml::yaml_words("iterative_request_router")),
        ("initial_step", yaml::yaml_words(name_stage(stages[0].0, 0).as_str())),
        ("max_iterations", yaml::yaml_whole(stages.len() as u64)),
        ("timeout_ms", yaml::yaml_whole(write_timeout_ms)),
        ("step_timeout_ms", yaml::yaml_whole(timeout_ms)),
        ("max_response_bytes", yaml::yaml_whole(max_body_bytes as u64)),
        ("steps", yaml::yaml_sequence(steps)),
    ];
    proof {
        assert(views[0].phase == stages@[0].0@);
        assert(step_views =~= router_steps(views, limits));
        assert(yaml::rows_view(rows@) =~= seq![
            ("filter"@, yaml::words("iterative_request_router"@)),
            ("initial_step"@, yaml::words(stage_name(views[0].phase, 0))),
            ("max_iterations"@, YamlView::Whole(views.len() as int)),
            ("timeout_ms"@, YamlView::Whole(write_timeout_ms as int)),
            ("step_timeout_ms"@, YamlView::Whole(timeout_ms as int)),
            ("max_response_bytes"@, YamlView::Whole(max_body_bytes as int)),
            ("steps"@, YamlView::Sequence(step_views)),
        ]);
    }
    Ok(yaml::build_entries(&rows))
}

/// The listener that requests come in at.
pub open spec fn listener(address: Seq<char>, read_timeout_ms: nat) -> YamlView {
    yaml::table(
        seq![
            ("name"@, yaml::words("llmd-coordinator"@)),
            ("address"@, yaml::words(address)),
            ("downstream_read_timeout_ms"@, YamlView::Whole(read_timeout_ms as int)),
            ("filter_chains"@, YamlView::Sequence(seq![yaml::words("llmd-coordinator"@)])),
        ],
    )
}

/// The filters that a request goes through.
pub open spec fn filter_chain(
    prepare: Seq<(YamlView, YamlView)>,
    router: Seq<(YamlView, YamlView)>,
) -> YamlView {
    yaml::table(
        seq![
            ("name"@, yaml::words("llmd-coordinator"@)),
            (
                "filters"@,
                YamlView::Sequence(seq![YamlView::Mapping(prepare), YamlView::Mapping(router)]),
            ),
        ],
    )
}

/// The limits on bodies.
pub open spec fn body_limits(max_bytes: nat) -> YamlView {
    yaml::table(
        seq![
            ("max_request_bytes"@, YamlView::Whole(max_bytes as int)),
            ("max_response_bytes"@, YamlView::Whole(max_bytes as int)),
        ],
    )
}

/// The native configuration without its administration address.
pub open spec fn native_base(
    address: Seq<char>,
    read_timeout_ms: nat,
    shutdown_timeout_secs: nat,
    max_bytes: nat,
    prepare: Seq<(YamlView, YamlView)>,
    router: Seq<(YamlView, YamlView)>,
) -> Seq<(YamlView, YamlView)> {
    yaml::built(
        seq![
            ("body_limits"@, body_limits(max_bytes)),
            ("listeners"@, YamlView::Sequence(seq![listener(address, read_timeout_ms)])),
            ("filter_chains"@, YamlView::Sequence(seq![filter_chain(prepare, router)])),
            ("shutdown_timeout_secs"@, YamlView::Whole(shutdown_timeout_secs as int)),
        ],
    )
}

/// The native configuration with the administration address of a port. A port
/// that is not positive is none.
pub open spec fn with_admin(entries: Seq<(YamlView, YamlView)>, port: Option<i32>) -> Result<
    Seq<(YamlView, YamlView)>,
    Seq<char>,
> {
    match port {
        Some(port) if port > 0 => if port > u16::MAX {
            Err("server.metrics_port must be a valid TCP port or non-positive to disable"@)
        } else {
            Ok(
                yaml::put(
                    entries,
                    "admin"@,
                    yaml::table(
                        seq![
                            (
                                "address"@,
                                yaml::words("127.0.0.1:"@ + text::decimal_text(port as nat)),
                            ),
                        ],
                    ),
                ),
            )
        },
        _ => Ok(entries),
    }
}

/// The largest request in bytes.
pub open spec fn max_bytes_of(server: CoordinatorServer) -> nat {
    (server.max_request_body_size * MIB) as nat
}

/// The native configuration that a checked coordinator configuration stands
/// for, or the first thing that is wrong with it.
pub open spec fn native_of(source: CoordinatorConfig) -> Result<
    Seq<(YamlView, YamlView)>,
    Seq<char>,
> {
    let max_bytes = max_bytes_of(source.server);
    let read = config::millis_read("server.read_timeout"@, source.server.read_timeout@);
    let write = config::millis_read("server.write_timeout"@, source.server.write_timeout@);
    let shutdown = config::seconds_read("server.shutdown_timeout"@, source.server.shutdown_timeout@);
    let address = config::listen_read(source.server.listen_addr@);
    let topology = config::topology_read(source.pipeline);
    if read is Err {
        Err(read->Err_0)
    } else if write is Err {
        Err(write->Err_0)
    } else if shutdown is Err {
        Err(shutdown->Err_0)
    } else if address is Err {
        Err(address->Err_0)
    } else if topology is Err {
        Err(topology->Err_0)
    } else {
        match prepare_filter(source.pipeline, topology->Ok_0, max_bytes) {
            Err(error) => Err(error),
            Ok(prepare) => match router_filter(
                source.pipeline,
                source.gateway,
                write->Ok_0,
                max_bytes,
            ) {
                Err(error) => Err(error),
                Ok(router) => with_admin(
                    native_base(
                        address->Ok_0,
                        read->Ok_0,
                        shutdown->Ok_0,
                        max_bytes,
                        prepare,
                        router,
                    ),
                    source.server.metrics_port,
                ),
            },
        }
    }
}

/// The native configuration that a coordinator configuration stands for, or
/// the first thing that is wrong with it.
pub open spec fn translated(source: CoordinatorConfig) -> Result<
    Seq<(YamlView, YamlView)>,
    Seq<char>,
> {
    match config::coordinator_check(source) {
        Err(error) => Err(error),
        Ok(()) => native_of(source),
    }
}

/// Builds the native configuration without its administration address.
fn build_native_base(
    address: &str,
    read_timeout_ms: u64,
    shutdown_timeout_secs: u64,
    max_bytes: usize,
    prepare: serde_yaml::Mapping,
    router: serde_yaml::Mapping,
) -> (r: serde_yaml::Mapping)
    ensures
        yaml::entries_of(r) == native_base(
            address@,
            read_timeout_ms as nat,
            shutdown_timeout_secs as nat,
            max_bytes as nat,
            yaml::entries_of(prepare),
            yaml::entries_of(router),
        ),
{
    let limit_rows = vec![
        ("max_request_bytes", yaml::yaml_whole(max_bytes as u64)),
        ("max_response_bytes", yaml::yaml_whole(max_bytes as u64)),
    ];
    proof {
        assert(yaml::rows_view(limit_rows@) =~= seq![
            ("max_request_bytes"@, YamlView::Whole(max_bytes as int)),
            ("max_response_bytes"@, YamlView::Whole(max_bytes as int)),
        ]);
    }
    let chain_names = vec![yaml::yaml_words("llmd-coordinator")];
    proof {
        assert(yaml::values_of(chain_names@) =~= seq![yaml::words("llmd-coordinator"@)]);
    }
    let listener_rows = vec![
        ("name", yaml::yaml_words("llmd-coordinator")),
        ("address", yaml::yaml_words(address)),
        ("downstream_read_timeout_ms", yaml::yaml_whole(read_timeout_ms)),
        ("filter_chains", yaml::yaml_sequence(chain_names)),
    ];
    proof {
        assert(yaml::rows_view(listener_rows@) =~= seq![
            ("name"@, yaml::words("llmd-coordinator"@)),
            ("address"@, yaml::words(address@)),
            ("downstream_read_timeout_ms"@, YamlView::Whole(read_timeout_ms as int)),
            ("filter_chains"@, YamlView::Sequence(seq![yaml::words("llmd-coordinator"@)])),
        ]);
    }
    let filters = vec![yaml::yaml_mapping(prepare), yaml::yaml_mapping(router)];
    proof {
        assert(yaml::values_of(filters@) =~= seq![
            YamlView::Mapping(yaml::entries_of(prepare)),
            YamlView::Mapping(yaml::entries_of(router)),
        ]);
    }
    let chain_rows = vec![
        ("name", yaml::yaml_words("llmd-coordinator")),
        ("filters", yaml::yaml_sequence(filters)),
    ];
    proof {
        assert(yaml::rows_view(chain_rows@) =~= seq![
            ("name"@, yaml::words("llmd-coordinator"@)),
            (
                "filters"@,
                YamlView::Sequence(
                    seq![
                        YamlView::Mapping(yaml::entries_of(prepare)),
                        YamlView::Mapping(yaml::entries_of(router)),
                    ],
                ),
            ),
        ]);
    }
    let listeners = vec![build_table(&listener_rows)];
    let chains = vec![build_table(&chain_rows)];
    proof {
        assert(yaml::values_of(listeners@) =~= seq![listener(address@, read_timeout_ms as nat)]);
        assert(yaml::values_of(chains@) =~= seq![
            filter_chain(yaml::entries_of(prepare), yaml::entries_of(router)),
        ]);
    }
    let rows = vec![
        ("body_limits", build_table(&limit_rows)),
        ("listeners", yaml::yaml_sequence(listeners)),
        ("filter_chains", yaml::yaml_sequence(chains)),
        ("shutdown_timeout_secs", yaml::yaml_whole(shutdown_timeout_secs)),
    ];
    proof {
        assert(yaml::rows_view(rows@) =~= seq![
            ("body_limits"@, body_limits(max_bytes as nat)),
            (
                "listeners"@,
                YamlView::Sequence(seq![listener(address@, read_timeout_ms as nat)]),
            ),
            (
                "filter_chains"@,
                YamlView::Sequence(
                    seq![filter_chain(yaml::entries_of(prepare), yaml::entries_of(router))],
                ),
            ),
            ("shutdown_timeout_secs"@, YamlView::Whole(shutdown_timeout_secs as int)),
        ]);
    }
    yaml::build_entries(&rows)
}

/// Checks a coordinator configuration and builds the native configuration that
/// it stands for.
pub fn translate_coordinator(source: &CoordinatorConfig) -> (r: Result<
    serde_yaml::Mapping,
    String,
>)
    ensures
        entries_result(r) == translated(*source),
{
    match config::validate_coordinator(source) {
        Ok(()) => {},
        Err(error) => {
            return Err(error);
        },
    }
    let read: u64 = match config::duration_ms(
        "server.read_timeout",
        source.server.read_timeout.as_str(),
    ) {
        Ok(read) => read,
        Err(error) => {
            return Err(error);
        },
    };
    let write: u64 = match config::duration_ms(
        "server.write_timeout",
        source.server.write_timeout.as_str(),
    ) {
        Ok(write) => write,
        Err(error) => {
            return Err(error);
        },
    };
    let shutdown: u64 = match config::duration_secs(
        "server.shutdown_timeout",
        source.server.shutdown_timeout.as_str(),
    ) {
        Ok(shutdown) => shutdown,
        Err(error) => {
            return Err(error);
        },
    };
    let max_bytes: usize = source.server.max_request_body_size * MIB;
    let address = match config::normalize_listen_address(source.server.listen_addr.as_str()) {
        Ok(address) => address,
        Err(error) => {
            return Err(error);
        },
    };
    let topology = match config::infer_topology(&source.pipeline) {
        Ok(topology) => topology,
        Err(error) => {
            return Err(error);
        },
    };
    let prepare = match build_prepare_filter(&source.pipeline, topology, max_bytes) {
        Ok(prepare) => prepare,
        Err(error) => {
            return Err(error);
        },
    };
    let router = match build_irr_filter(&source.pipeline, &source.gateway, write, max_bytes) {
        Ok(router) => router,
        Err(error) => {
            return Err(error);
        },
    };
    let mut native = build_native_base(
        address.as_str(),
        read,
        shutdown,
        max_bytes,
        prepare,
        router,
    );
    if let Some(port) = source.server.metrics_port {
        if port > 0 {
            if port > u16::MAX as i32 {
                return Err(
                    "server.metrics_port must be a valid TCP port or non-positive to disable".to_owned(),
                );
            }
            let place = text::join2("127.0.0.1:", text::decimal(port as u64).as_str());
            let rows = vec![("address", yaml::yaml_words(place.as_str()))];
            proof {
                assert(yaml::rows_view(rows@) =~= seq![("address"@, yaml::words(place@))]);
            }
            yaml::put_entry(&mut native, "admin", build_table(&rows));
        }
    }
    Ok(native)
}

/// The text of the native configuration that a coordinator configuration
/// stands for.
pub fn translate_to_text(source: &CoordinatorConfig) -> (r: Result<String, String>)
    ensures
        yaml::text_result(r) == match translated(*source) {
            Err(error) => Err(error),
            Ok(native) => match yaml::yaml_written(YamlView::Mapping(native)) {
                Ok(text) => Ok(text),
                Err(error) => Err("failed to translate coordinator configuration: "@ + error),
            },
        },
{
    match translate_coordinator(source) {
        Ok(native) => match yaml::write_yaml(&yaml::yaml_mapping(native)) {
            Ok(text) => Ok(text),
            Err(error) => Err(
                text::join2("failed to translate coordinator configuration: ", error.as_str()),
            ),
        },
        Err(error) => Err(error),
    }
}

proof fn lemma_stage_literals()
    ensures
        "decode"@ != "conditional-decode"@,
        "decode"@ != "encode"@,
        "decode"@ != "prefill"@,
        "encode"@ != "conditional-decode"@,
        "prefill"@ != "conditional-decode"@,
        "prefill"@ != "encode"@,
        "decode"@ != "conditional_decode"@,
        "encode"@ != "conditional_decode"@,
        "prefill"@ != "conditional_decode"@,
{
    reveal_strlit("decode");
    reveal_strlit("encode");
    reveal_strlit("prefill");
    reveal_strlit("conditional-decode");
    reveal_strlit("conditional_decode");
    assert("decode"@[0] != "encode"@[0]);
    assert("decode"@.len() != "prefill"@.len());
    assert("prefill"@.len() != "encode"@.len());
    assert("decode"@.len() != "conditional-decode"@.len());
    assert("prefill"@.len() != "conditional-decode"@.len());
    assert("encode"@.len() != "conditional-decode"@.len());
    assert("decode"@.len() != "conditional_decode"@.len());
    assert("prefill"@.len() != "conditional_decode"@.len());
    assert("encode"@.len() != "conditional_decode"@.len());
}

proof fn stages_agree(steps: Seq<CoordinatorStep>)
    ensures
        stage_list(steps).len() == config::stages_of(steps, true).len(),
        forall|i: int|
            0 <= i < stage_list(steps).len() ==> phase_of(
                config::stages_of(steps, true)[i],
            ) == Some((#[trigger] stage_list(steps)[i]).phase),
    decreases steps.len(),
{
    if steps.len() > 0 {
        lemma_stage_literals();
        stages_agree(steps.drop_last());
    }
}

/// In an accepted pipeline decode is the last stage and ends the request, and
/// only the first stage can be conditional.
pub proof fn decode_is_terminal(pipeline: CoordinatorPipeline)
    requires
        config::pipeline_check(pipeline) is Ok,
    ensures
        ({
            let stages = stage_list(pipeline.steps@);
            let last = (stages.len() - 1) as nat;
            &&& stages.len() > 0
            &&& stages[last as int].phase == "decode"@
            &&& transitions(stages[last as int].phase, next_name(stages, last)) == seq![
                done_transition(),
            ]
            &&& forall|i: int|
                0 < i < stages.len() ==> (#[trigger] stages[i]).phase != "conditional_decode"@
        }),
{
    lemma_stage_literals();
    stages_agree(pipeline.steps@);
    let steps = pipeline.steps@;
    let stages = stage_list(steps);
    let names = config::stages_of(steps, true);
    assert(names.last() == names[names.len() - 1]);
    assert forall|i: int| 0 < i < stages.len() implies (#[trigger] stages[i]).phase
        != "conditional_decode"@ by {
        assert(names[i] != "conditional-decode"@);
    }
}

/// Every stage but the last leads to the one after it: the conditional stage
/// where its precondition failed, any other in any case.
pub proof fn stages_follow_each_other(stages: Seq<StageView>, index: nat)
    requires
        index + 1 < stages.len(),
    ensures
        ({
            let next = yaml::words(stage_name(stages[index as int + 1].phase, index + 1));
            let moves = transitions(stages[index as int].phase, next_name(stages, index));
            if stages[index as int].phase == "conditional_decode"@ {
                moves == seq![
                    yaml::table(
                        seq![
                            ("status"@, YamlView::Sequence(seq![YamlView::Whole(412)])),
                            ("next"@, next),
                        ],
                    ),
                    done_transition(),
                ]
            } else {
                moves == seq![
                    yaml::table(seq![("default"@, YamlView::Bool(true)), ("next"@, next)]),
                ]
            }
        }),
{
}

/// The body limit of an accepted configuration is one that the filters accept.
pub proof fn accepted_body_limits_fit(source: CoordinatorConfig)
    requires
        config::coordinator_check(source) is Ok,
    ensures
        filter::is_body_limit(max_bytes_of(source.server)),
{
}

/// An accepted configuration has its stages, and its router begins with the
/// first of them.
pub proof fn accepted_configurations_have_a_router(source: CoordinatorConfig)
    requires
        config::coordinator_check(source) is Ok,
    ensures
        forall|write_timeout_ms: nat, max_body_bytes: nat| #[trigger]
            router_filter(source.pipeline, source.gateway, write_timeout_ms, max_body_bytes) is Ok,
        config::topology_read(source.pipeline) is Ok,
{
    decode_is_terminal(source.pipeline);
    config::accepted_pipelines_can_run(source.pipeline);
}

proof fn carried(
    entries: Seq<(YamlView, YamlView)>,
    params: Seq<(YamlView, YamlView)>,
    name: Seq<char>,
    key: Seq<char>,
)
    ensures
        key != name ==> yaml::lookup(with_any(entries, params, name), key) == yaml::lookup(
            entries,
            key,
        ),
        yaml::lookup(with_any(entries, params, name), name) == match yaml::lookup(params, name) {
            Some(value) => Some(value),
            None => yaml::lookup(entries, name),
        },
{
    if let Some(value) = yaml::lookup(params, name) {
        yaml::set_keys_read_back(entries, name, value, key);
    }
}

/// A stage's filter has the settings of its step, and no such setting where
/// the step has none.
pub proof fn stages_keep_the_settings_of_their_step(stage: StageView, max_body_bytes: nat)
    ensures
        ({
            let entries = stage_filter(stage, max_body_bytes)->Mapping_0;
            &&& yaml::lookup(entries, "use_openai_format"@) == yaml::lookup(
                stage.params,
                "use_openai_format"@,
            )
            &&& yaml::lookup(entries, "kv_connector"@) == yaml::lookup(
                stage.params,
                "kv_connector"@,
            )
            &&& yaml::lookup(entries, "ec_connector"@) == yaml::lookup(
                stage.params,
                "ec_connector"@,
            )
        }),
{
    reveal_strlit("filter");
    reveal_strlit("phase");
    reveal_strlit("max_body_bytes");
    reveal_strlit("use_openai_format");
    reveal_strlit("kv_connector");
    reveal_strlit("ec_connector");
    let format = "use_openai_format"@;
    let kv = "kv_connector"@;
    let ec = "ec_connector"@;
    assert(kv[0] != ec[0]);
    assert(format.len() != kv.len());
    assert(format.len() != ec.len());
    let rows = seq![
        ("filter"@, yaml::words("llmd_stage"@)),
        ("phase"@, yaml::words(stage.phase)),
        ("max_body_bytes"@, YamlView::Whole(max_body_bytes as int)),
    ];
    let base = yaml::built(rows);
    assert forall|key: Seq<char>|
        key != "filter"@ && key != "phase"@ && key != "max_body_bytes"@ implies #[trigger] yaml::lookup(
        base,
        key,
    ) is None by {
        let two = rows.drop_last();
        let one = two.drop_last();
        let zero = one.drop_last();
        assert(zero.len() == 0);
        assert(yaml::built(zero) == yaml::no_entries());
        assert(yaml::lookup(yaml::no_entries(), key) is None);
        assert(one.last() == rows[0]);
        assert(two.last() == rows[1]);
        assert(rows.last() == rows[2]);
        yaml::set_keys_read_back(yaml::built(zero), rows[0].0, rows[0].1, key);
        yaml::set_keys_read_back(yaml::built(one), rows[1].0, rows[1].1, key);
        yaml::set_keys_read_back(yaml::built(two), rows[2].0, rows[2].1, key);
    }
    assert("filter"@.len() != format.len() && "filter"@.len() != kv.len());
    assert("phase"@.len() != format.len() && "phase"@.len() != kv.len());
    assert("max_body_bytes"@.len() != format.len() && "max_body_bytes"@.len() != kv.len());
    let first = with_any(base, stage.params, format);
    let second = with_any(first, stage.params, kv);
    carried(base, stage.params, format, kv);
    carried(base, stage.params, format, ec);
    carried(first, stage.params, kv, format);
    carried(first, stage.params, kv, ec);
    carried(second, stage.params, ec, format);
    carried(second, stage.params, ec, kv);
}

proof fn decimal_is_digits(n: nat, i: int)
    requires
        0 <= i < text::decimal_text(n).len(),
    ensures
        text::decimal_text(n)[i] != '-',
    decreases n,
{
    if n >= 10 {
        let shorter = text::decimal_text(n / 10);
        if i < shorter.len() {
            decimal_is_digits(n / 10, i);
        } else {
            assert(n % 10 < 10);
        }
    }
}

#[verifier::spinoff_prover]
proof fn decimals_differ(a: nat, b: nat)
    requires
        text::decimal_text(a) == text::decimal_text(b),
    ensures
        a == b,
    decreases a,
{
    let ta = text::decimal_text(a);
    let tb = text::decimal_text(b);
    if a < 10 && b < 10 {
        assert(ta[0] == text::digit_char(a));
        assert(tb[0] == text::digit_char(b));
        assert(text::digit_char(a) as u32 == '0' as u32 + a);
        assert(text::digit_char(b) as u32 == '0' as u32 + b);
    } else if a >= 10 && b >= 10 {
        let sa = text::decimal_text(a / 10);
        let sb = text::decimal_text(b / 10);
        assert(ta.drop_last() =~= sa);
        assert(tb.drop_last() =~= sb);
        assert(ta.last() == text::digit_char(a % 10));
        assert(tb.last() == text::digit_char(b % 10));
        assert(text::digit_char(a % 10) as u32 == '0' as u32 + a % 10);
        assert(text::digit_char(b % 10) as u32 == '0' as u32 + b % 10);
        decimals_differ(a / 10, b / 10);
        assert(a == (a / 10) * 10 + a % 10);
        assert(b == (b / 10) * 10 + b % 10);
    } else if a >= 10 {
        decimal_has_a_digit(a / 10);
        assert(ta.len() == text::decimal_text(a / 10).len() + 1);
        assert(tb.len() == 1);
    } else {
        decimal_has_a_digit(b / 10);
        assert(tb.len() == text::decimal_text(b / 10).len() + 1);
        assert(ta.len() == 1);
    }
}

proof fn decimal_has_a_digit(n: nat)
    ensures
        text::decimal_text(n).len() > 0,
{
}

/// No two stages have the same name, whatever their phases are.
pub proof fn stage_names_are_unique(phase: Seq<char>, i: nat, other: Seq<char>, j: nat)
    requires
        i != j,
    ensures
        stage_name(phase, i) != stage_name(other, j),
{
    let a = stage_name(phase, i);
    let b = stage_name(other, j);
    reveal_strlit("-");
    if a == b {
        let na = text::decimal_text(i);
        let nb = text::decimal_text(j);
        assert(a.skip(phase.len() as int + 1) =~= na);
        assert(b.skip(other.len() as int + 1) =~= nb);
        if phase.len() < other.len() {
            let at = other.len() - phase.len() - 1;
            assert(b[other.len() as int] == '-');
            assert(a[other.len() as int] == na[at]);
            decimal_is_digits(i, at);
        } else if phase.len() > other.len() {
            let at = phase.len() - other.len() - 1;
            assert(a[phase.len() as int] == '-');
            assert(b[phase.len() as int] == nb[at]);
            decimal_is_digits(j, at);
        } else {
            decimals_differ(i, j);
        }
    }
}

} // verus!
