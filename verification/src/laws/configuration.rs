//! Which coordinator configurations are accepted, and what their settings mean.
#[allow(unused_imports)]
use crate::codec;
#[allow(unused_imports)]
use crate::config::{
    self, CoordinatorConfig, CoordinatorPipeline, CoordinatorStep, SourceView, TlsSettings,
};
#[allow(unused_imports)]
use crate::state::Topology;
#[allow(unused_imports)]
use crate::text;
#[allow(unused_imports)]
use crate::translate;
#[allow(unused_imports)]
use crate::yaml::{self, YamlView};
use vstd::prelude::*;

verus! {

proof fn step_types_differ()
    ensures
        "conditional-decode"@ != "encode"@,
        "conditional-decode"@ != "prefill"@,
        "conditional-decode"@ != "decode"@,
        "encode"@ != "prefill"@,
        "encode"@ != "decode"@,
        "prefill"@ != "decode"@,
{
    reveal_strlit("conditional-decode");
    reveal_strlit("encode");
    reveal_strlit("prefill");
    reveal_strlit("decode");
    assert("conditional-decode"@.len() != "encode"@.len());
    assert("conditional-decode"@.len() != "prefill"@.len());
    assert("conditional-decode"@.len() != "decode"@.len());
    assert("encode"@.len() != "prefill"@.len());
    assert("encode"@[0] != "decode"@[0]);
    assert("prefill"@.len() != "decode"@.len());
}

proof fn contents_of_short_rows(names: Seq<Seq<char>>, key: Seq<char>)
    requires
        names.len() <= 10,
    ensures
        names.contains(key) <==> ({
            ||| names.len() > 0 && names[0] == key
            ||| names.len() > 1 && names[1] == key
            ||| names.len() > 2 && names[2] == key
            ||| names.len() > 3 && names[3] == key
            ||| names.len() > 4 && names[4] == key
            ||| names.len() > 5 && names[5] == key
            ||| names.len() > 6 && names[6] == key
            ||| names.len() > 7 && names[7] == key
            ||| names.len() > 8 && names[8] == key
            ||| names.len() > 9 && names[9] == key
        }),
{
}

/// The worker stages of some steps are those of the first steps and then those
/// of the others.
pub proof fn stages_come_in_order(
    steps: Seq<CoordinatorStep>,
    more: Seq<CoordinatorStep>,
    conditional: bool,
)
    ensures
        config::stages_of(steps + more, conditional) == config::stages_of(steps, conditional)
            + config::stages_of(more, conditional),
    decreases more.len(),
{
    if more.len() == 0 {
        assert(steps + more =~= steps);
        assert(config::stages_of(steps, conditional) + config::stages_of(more, conditional)
            =~= config::stages_of(steps, conditional));
    } else {
        stages_come_in_order(steps, more.drop_last(), conditional);
        assert((steps + more).drop_last() =~= steps + more.drop_last());
        assert((steps + more).last() == more.last());
        assert(config::stages_of(steps + more, conditional) =~= config::stages_of(
            steps,
            conditional,
        ) + config::stages_of(more, conditional));
    }
}

/// A step is a stage where its type is `encode`, `prefill` or `decode`, and where
/// conditional stages count also where it is `conditional-decode`.
pub proof fn stages_are_told_by_type(step: CoordinatorStep, conditional: bool)
    ensures
        config::stages_of(seq![step], conditional) == if step.step_type@ == "encode"@
            || step.step_type@ == "prefill"@ || step.step_type@ == "decode"@ || (conditional
            && step.step_type@ == "conditional-decode"@) {
            seq![step.step_type@]
        } else {
            Seq::empty()
        },
{
    let one = seq![step];
    assert(one.drop_last() =~= Seq::empty());
    assert(one.last() == step);
    assert(config::stages_of(one.drop_last(), conditional) =~= Seq::empty());
}

/// Four rows of stages describe a topology, each its own, and no other does.
pub proof fn four_rows_of_stages_are_topologies(stages: Seq<Seq<char>>)
    ensures
        config::topology_of(stages) == Some(Topology::Combined) <==> stages == seq!["decode"@],
        config::topology_of(stages) == Some(Topology::PrefillDecode) <==> stages == seq![
            "prefill"@,
            "decode"@,
        ],
        config::topology_of(stages) == Some(Topology::EncodePrefillDecode) <==> stages == seq![
            "encode"@,
            "decode"@,
        ],
        config::topology_of(stages) == Some(Topology::FullyDisaggregated) <==> stages == seq![
            "encode"@,
            "prefill"@,
            "decode"@,
        ],
{
    step_types_differ();
    let one = seq!["decode"@];
    let two = seq!["prefill"@, "decode"@];
    let two_more = seq!["encode"@, "decode"@];
    let three = seq!["encode"@, "prefill"@, "decode"@];
    assert(one.len() == 1 && two.len() == 2 && two_more.len() == 2 && three.len() == 3);
    assert(two[0] == "prefill"@ && two_more[0] == "encode"@);
}

proof fn all_stay(stages: Seq<Seq<char>>, pred: spec_fn(Seq<char>) -> bool)
    requires
        forall|i: int| 0 <= i < stages.len() ==> pred(#[trigger] stages[i]),
    ensures
        stages.filter(pred) == stages,
    decreases stages.len(),
{
    reveal(Seq::filter);
    if stages.len() > 0 {
        let head = stages.drop_last();
        assert forall|i: int| 0 <= i < head.len() implies pred(#[trigger] head[i]) by {
            assert(head[i] == stages[i]);
        }
        all_stay(head, pred);
        assert(stages[stages.len() - 1] == stages.last());
        assert(head.push(stages.last()) =~= stages);
    } else {
        assert(stages.filter(pred) =~= stages);
    }
}

proof fn stages_without_conditional(steps: Seq<CoordinatorStep>)
    ensures
        config::stages_of(steps, false) == config::stages_of(steps, true).filter(
            |stage: Seq<char>| stage != "conditional-decode"@,
        ),
    decreases steps.len(),
{
    let pred = |stage: Seq<char>| stage != "conditional-decode"@;
    reveal(Seq::filter);
    step_types_differ();
    if steps.len() > 0 {
        stages_without_conditional(steps.drop_last());
        let before = config::stages_of(steps.drop_last(), true);
        let last = steps.last().step_type@;
        assert(before.push(last).drop_last() =~= before);
        assert(before.push(last).last() == last);
    }
    assert(config::stages_of(steps, false) =~= config::stages_of(steps, true).filter(pred));
}

/// The stages of a pipeline that can run are one of the four rows that describe
/// a topology, with nothing before them or a conditional stage.
pub proof fn pipelines_that_run_have_their_stages(steps: Seq<CoordinatorStep>)
    ensures
        config::can_run(steps) <==> ({
            let stages = config::stages_of(steps, true);
            let row = config::stages_of(steps, false);
            &&& row == seq!["decode"@] || row == seq!["prefill"@, "decode"@] || row == seq![
                "encode"@,
                "decode"@,
            ] || row == seq!["encode"@, "prefill"@, "decode"@]
            &&& stages == row || stages == seq!["conditional-decode"@] + row
        }),
{
    step_types_differ();
    let stages = config::stages_of(steps, true);
    let row = config::stages_of(steps, false);
    let pred = |stage: Seq<char>| stage != "conditional-decode"@;
    stages_without_conditional(steps);
    let one = seq!["decode"@];
    let two = seq!["prefill"@, "decode"@];
    let two_more = seq!["encode"@, "decode"@];
    let three = seq!["encode"@, "prefill"@, "decode"@];
    assert(one.len() == 1 && two.len() == 2 && two_more.len() == 2 && three.len() == 3);
    assert(one[0] == "decode"@ && two[0] == "prefill"@ && two[1] == "decode"@);
    assert(two_more[0] == "encode"@ && two_more[1] == "decode"@);
    assert(three[0] == "encode"@ && three[1] == "prefill"@ && three[2] == "decode"@);
    if config::can_run(steps) {
        if stages[0] == "conditional-decode"@ {
            let rest = stages.skip(1);
            assert(stages =~= seq!["conditional-decode"@] + rest);
            assert forall|i: int| 0 <= i < rest.len() implies pred(#[trigger] rest[i]) by {
                assert(rest[i] == stages[i + 1]);
            }
            all_stay(rest, pred);
            Seq::filter_distributes_over_add(seq!["conditional-decode"@], rest, pred);
            assert(seq!["conditional-decode"@].filter(pred) =~= Seq::empty()) by {
                reveal(Seq::filter);
                let alone = seq!["conditional-decode"@];
                assert(alone.drop_last() =~= Seq::empty());
                assert(alone.last() == "conditional-decode"@);
                assert(alone.drop_last().filter(pred) =~= Seq::empty());
            }
            assert(row =~= rest);
        } else {
            assert forall|i: int| 0 <= i < stages.len() implies pred(#[trigger] stages[i]) by {}
            all_stay(stages, pred);
            assert(row == stages);
        }
    } else if stages == seq!["conditional-decode"@] + row {
        assert forall|i: int| 0 < i < stages.len() implies #[trigger] stages[i]
            != "conditional-decode"@ by {
            assert(stages[i] == row[i - 1]);
        }
    }
}

/// Whether a text is a number in digits alone.
pub open spec fn is_count(digits: Seq<char>) -> bool {
    text::all_digits(digits)
}

proof fn untrimmed(t: Seq<char>)
    requires
        t.len() > 0 ==> !text::white(t[0]) && !text::white(t.last()),
    ensures
        text::trimmed(t) == t,
{
}

/// A duration of so many milliseconds, seconds, minutes or hours is that many
/// times one, a thousand, sixty thousand or three million six hundred thousand
/// milliseconds, where that fits 64 bits; a longer one is refused.
pub proof fn durations_have_units(path: Seq<char>, digits: Seq<char>)
    requires
        is_count(digits),
        text::digits_value(digits) <= u64::MAX,
    ensures
        ({
            let n = text::digits_value(digits);
            &&& config::duration_read(path, digits + "ms"@) == Ok::<nat, Seq<char>>(n)
            &&& config::duration_read(path, digits + "s"@) == if n * 1_000 <= u64::MAX {
                Ok::<nat, Seq<char>>(n * 1_000)
            } else {
                Err(path + " exceeds supported duration"@)
            }
            &&& config::duration_read(path, digits + "m"@) == if n * 60_000 <= u64::MAX {
                Ok::<nat, Seq<char>>(n * 60_000)
            } else {
                Err(path + " exceeds supported duration"@)
            }
            &&& config::duration_read(path, digits + "h"@) == if n * 3_600_000 <= u64::MAX {
                Ok::<nat, Seq<char>>(n * 3_600_000)
            } else {
                Err(path + " exceeds supported duration"@)
            }
        }),
{
    reveal_strlit("ms");
    reveal_strlit("s");
    reveal_strlit("m");
    reveal_strlit("h");
    let k = digits.len() as int;
    assert(text::is_digit(digits[0]));
    assert(text::is_digit(digits[k - 1]));
    let ms = digits + "ms"@;
    let s = digits + "s"@;
    let m = digits + "m"@;
    let h = digits + "h"@;
    untrimmed(ms);
    untrimmed(s);
    untrimmed(m);
    untrimmed(h);
    assert(ms.subrange(k, k + 2) =~= "ms"@);
    assert(ms.take(k) =~= digits);
    assert(s.subrange(k, k + 1) =~= "s"@);
    assert(s.take(k) =~= digits);
    assert(s.subrange(k - 1, k + 1)[0] == digits[k - 1]);
    assert(m.subrange(k, k + 1) =~= "m"@);
    assert(m.take(k) =~= digits);
    assert(m.subrange(k - 1, k + 1)[1] == 'm');
    assert(m.subrange(k, k + 1)[0] == 'm');
    assert(h.subrange(k, k + 1) =~= "h"@);
    assert(h.take(k) =~= digits);
    assert(h.subrange(k - 1, k + 1)[1] == 'h');
    assert(h.subrange(k, k + 1)[0] == 'h');
    let n = text::digits_value(digits);
    times_unit(n, config::duration_parts(ms), 1);
    times_unit(n, config::duration_parts(s), 1_000);
    times_unit(n, config::duration_parts(m), 60_000);
    times_unit(n, config::duration_parts(h), 3_600_000);
}

proof fn times_unit(n: nat, parts: Option<(Seq<char>, nat)>, expected: nat)
    requires
        parts matches Some((_, unit)) && unit == expected,
    ensures
        parts matches Some((_, unit)) ==> n * unit == n * expected,
{
}

/// A duration that ends with none of the units is refused.
pub proof fn durations_need_a_unit(path: Seq<char>, value: Seq<char>)
    requires
        value.len() > 0,
        !text::white(value[0]),
        !text::white(value.last()),
        value.last() != 's' && value.last() != 'm' && value.last() != 'h',
    ensures
        config::duration_read(path, value) == Err::<nat, Seq<char>>(
            path + " must use an ms, s, m, or h suffix"@,
        ),
{
    reveal_strlit("ms");
    reveal_strlit("s");
    reveal_strlit("m");
    reveal_strlit("h");
    untrimmed(value);
    let k = value.len() as int;
    if k >= 2 {
        assert(value.subrange(k - 2, k)[1] == value.last());
    }
    assert(value.subrange(k - 1, k)[0] == value.last());
}

/// A timeout is a duration that is not zero, and a shutdown time one of at least
/// a second, in whole seconds.
pub proof fn timeouts_are_positive(path: Seq<char>, value: Seq<char>)
    ensures
        match config::duration_read(path, value) {
            Ok(millis) => {
                &&& config::millis_read(path, value) is Ok <==> millis > 0
                &&& millis > 0 ==> config::millis_read(path, value) == Ok::<nat, Seq<char>>(millis)
                &&& config::seconds_read(path, value) is Ok <==> millis >= 1_000
                &&& config::seconds_read(path, value) matches Ok(seconds) ==> seconds * 1_000
                    <= millis < (seconds + 1) * 1_000
            },
            Err(error) => {
                &&& config::millis_read(path, value) == Err::<nat, Seq<char>>(error)
                &&& config::seconds_read(path, value) == Err::<nat, Seq<char>>(error)
            },
        },
{
}

/// A port alone is listened to on every interface, where it is a port there is;
/// any other address is taken as it is, but for white space around it.
pub proof fn listen_addresses_are_completed(digits: Seq<char>, address: Seq<char>)
    ensures
        is_count(digits) && text::digits_value(digits) <= 65535 ==> config::listen_read(
            ":"@ + digits,
        ) == Ok::<Seq<char>, Seq<char>>("0.0.0.0:"@ + digits),
        is_count(digits) && text::digits_value(digits) > 65535 ==> config::listen_read(
            ":"@ + digits,
        ) is Err,
        text::trimmed(address).len() > 0 && text::trimmed(address)[0] != ':'
            ==> config::listen_read(address) == Ok::<Seq<char>, Seq<char>>(
            text::trimmed(address),
        ),
        text::trimmed(address).len() == 0 ==> config::listen_read(address) is Err,
{
    reveal_strlit(":");
    let whole = ":"@ + digits;
    if is_count(digits) {
        assert(text::is_digit(digits[digits.len() - 1]));
        assert(text::is_digit(digits[0]));
        untrimmed(whole);
        assert(whole.subrange(0, 1) =~= ":"@);
        assert(whole.skip(1) =~= digits);
    }
    let trimmed = text::trimmed(address);
    if trimmed.len() > 0 {
        assert(trimmed.subrange(0, 1)[0] == trimmed[0]);
    }
}

/// The environment sets a truth value by `true` or `false` and by nothing else,
/// a size by digits, and a port by digits with or without a minus sign.
pub proof fn the_environment_is_read_exactly(value: Seq<char>)
    ensures
        config::env_bool(Some("true"@)) == Ok::<Option<bool>, Seq<char>>(Some(true)),
        config::env_bool(Some("false"@)) == Ok::<Option<bool>, Seq<char>>(Some(false)),
        value != "true"@ && value != "false"@ ==> config::env_bool(Some(value)) is Err,
        config::env_bool(None) == Ok::<Option<bool>, Seq<char>>(None),
        config::env_size(None) == Ok::<Option<usize>, Seq<char>>(None),
        config::env_port(None) == Ok::<Option<i32>, Seq<char>>(None),
        is_count(value) ==> config::env_size(Some(value)) == if text::digits_value(value)
            <= usize::MAX {
            Ok::<Option<usize>, Seq<char>>(Some(text::digits_value(value) as usize))
        } else {
            Err("COORDINATOR_SERVER_MAX_REQUEST_BODY_SIZE must be an integer number of MiB"@)
        },
        is_count(value) && text::digits_value(value) <= i32::MAX ==> config::env_port(Some(value))
            == Ok::<Option<i32>, Seq<char>>(Some(text::digits_value(value) as i32)),
        is_count(value) && text::digits_value(value) <= i32::MAX ==> config::env_port(
            Some(seq!['-'] + value),
        ) == Ok::<Option<i32>, Seq<char>>(Some((0 - text::digits_value(value)) as i32)),
{
    reveal_strlit("true");
    reveal_strlit("false");
    assert("true"@.len() != "false"@.len());
    if is_count(value) {
        assert(text::is_digit(value[0]));
        let negative = seq!['-'] + value;
        assert(negative[0] == '-');
        assert(negative.skip(1) =~= value);
    }
}

/// The parameters that a step of a type can have.
pub open spec fn may_have(step_type: Seq<char>, key: Seq<char>) -> bool {
    if step_type == "replace-media-urls"@ {
        key == "download_timeout"@ || key == "max_concurrent_downloads"@ || key
            == "max_multimodal_entries"@ || key == "max_download_size"@ || key
            == "allow_private_networks"@ || key == "allowed_domains"@
    } else if step_type == "render"@ {
        key == "address"@ || key == "timeout"@ || key == "max_idle_conns_per_host"@ || key
            == "idle_conn_timeout"@ || key == "max_total_tokens"@ || key
            == "max_total_placeholder_tokens"@
    } else if step_type == "conditional-decode"@ {
        key == "use_openai_format"@
    } else if step_type == "encode"@ {
        key == "max_parallel"@ || key == "use_openai_format"@ || key == "ec_connector"@
    } else if step_type == "prefill"@ {
        key == "use_openai_format"@ || key == "ec_connector"@ || key == "kv_connector"@
    } else if step_type == "decode"@ {
        key == "use_openai_format"@ || key == "kv_connector"@
    } else {
        false
    }
}

proof fn known_parameters(step_type: Seq<char>, key: Seq<char>)
    ensures
        config::step_params(step_type).contains(key) <==> may_have(step_type, key),
{
    let names = config::step_params(step_type);
    contents_of_short_rows(names, key);
}

/// Whether each text key of a mapping is one of some.
pub open spec fn only_keys(
    entries: Seq<(YamlView, YamlView)>,
    known: spec_fn(Seq<char>) -> bool,
) -> bool {
    forall|i: int|
        0 <= i < entries.len() ==> (yaml::bare(#[trigger] entries[i].0) matches YamlView::Text(key)
            ==> known(key))
}

proof fn unknown_keys_are_found(entries: Seq<(YamlView, YamlView)>, names: Seq<Seq<char>>)
    ensures
        config::unknown_key(entries, names) is None <==> only_keys(
            entries,
            |key: Seq<char>| names.contains(key),
        ),
    decreases entries.len(),
{
    let known = |key: Seq<char>| names.contains(key);
    if entries.len() > 0 {
        let rest = entries.skip(1);
        unknown_keys_are_found(rest, names);
        if only_keys(entries, known) {
            assert forall|i: int| 0 <= i < rest.len() implies (yaml::bare(#[trigger] rest[i].0)
                matches YamlView::Text(key) ==> known(key)) by {
                assert(rest[i] == entries[i + 1]);
            }
            assert(yaml::bare(entries[0].0) matches YamlView::Text(key) ==> known(key));
        }
        if config::unknown_key(entries, names) is None {
            assert forall|i: int| 0 <= i < entries.len() implies (yaml::bare(
                #[trigger] entries[i].0,
            ) matches YamlView::Text(key) ==> known(key)) by {
                if i > 0 {
                    assert(rest[i - 1] == entries[i]);
                }
            }
        }
    }
}

/// The parameters of a step are accepted exactly where each is one that a step of
/// its type can have, and a connector that is named is one that there is.
pub proof fn parameters_are_accepted_where_known(
    index: nat,
    step_type: Seq<char>,
    params: Seq<(YamlView, YamlView)>,
)
    ensures
        config::params_check(index, step_type, params) is Ok <==> {
            &&& only_keys(params, |key: Seq<char>| may_have(step_type, key))
            &&& config::text_in(yaml::lookup(params, "ec_connector"@)) matches Some(name) ==> name
                == "ec-nixl"@ || name == "ec-shared-storage"@
            &&& config::text_in(yaml::lookup(params, "kv_connector"@)) matches Some(name) ==> name
                == "kv-nixl"@ || name == "kv-shared-storage"@
        },
{
    let names = config::step_params(step_type);
    unknown_keys_are_found(params, names);
    assert forall|key: Seq<char>| names.contains(key) <==> #[trigger] may_have(step_type, key) by {
        known_parameters(step_type, key);
    }
    let by_row = |key: Seq<char>| names.contains(key);
    let by_name = |key: Seq<char>| may_have(step_type, key);
    assert forall|key: Seq<char>| #[trigger] by_row(key) == by_name(key) by {
        known_parameters(step_type, key);
    }
    assert(only_keys(params, by_row) == only_keys(params, by_name)) by {
        if only_keys(params, by_row) {
            assert(only_keys(params, by_name));
        }
        if only_keys(params, by_name) {
            assert forall|i: int| 0 <= i < params.len() implies (yaml::bare(#[trigger] params[i].0)
                matches YamlView::Text(key) ==> by_row(key)) by {
                if let YamlView::Text(key) = yaml::bare(params[i].0) {
                    assert(by_row(key) == by_name(key));
                }
            }
        }
    }
}

proof fn checked_up_to(steps: Seq<CoordinatorStep>, upto: nat)
    requires
        upto <= steps.len(),
    ensures
        config::steps_check(steps, upto) is Ok <==> forall|i: int|
            0 <= i < upto ==> step_is_known(i as nat, #[trigger] steps[i]),
    decreases upto,
{
    if upto > 0 {
        checked_up_to(steps, (upto - 1) as nat);
        let step = steps[upto - 1];
        contents_of_short_rows(config::step_types(), step.step_type@);
        assert(config::steps_check(steps, upto) is Ok <==> config::steps_check(
            steps,
            (upto - 1) as nat,
        ) is Ok && step_is_known((upto - 1) as nat, step));
    }
}

/// Whether a step is of one of the six types, with parameters that are accepted.
pub open spec fn step_is_known(index: nat, step: CoordinatorStep) -> bool {
    &&& step.step_type@ == "replace-media-urls"@ || step.step_type@ == "render"@
        || step.step_type@ == "conditional-decode"@ || step.step_type@ == "encode"@
        || step.step_type@ == "prefill"@ || step.step_type@ == "decode"@
    &&& config::params_check(index, step.step_type@, yaml::entries_of(step.params)) is Ok
}

proof fn found_steps_are_there(steps: Seq<CoordinatorStep>, step_type: Seq<char>)
    ensures
        config::first_step(steps, step_type) is Some <==> exists|i: int|
            0 <= i < steps.len() && (#[trigger] steps[i]).step_type@ == step_type,
    decreases steps.len(),
{
    if steps.len() > 0 && steps[0].step_type@ != step_type {
        let rest = steps.skip(1);
        found_steps_are_there(rest, step_type);
        if exists|i: int| 0 <= i < steps.len() && (#[trigger] steps[i]).step_type@ == step_type {
            let i = choose|i: int|
                0 <= i < steps.len() && (#[trigger] steps[i]).step_type@ == step_type;
            assert(rest[i - 1] == steps[i]);
        }
        if exists|i: int| 0 <= i < rest.len() && (#[trigger] rest[i]).step_type@ == step_type {
            let i = choose|i: int|
                0 <= i < rest.len() && (#[trigger] rest[i]).step_type@ == step_type;
            assert(rest[i] == steps[i + 1]);
        }
    } else if steps.len() > 0 {
        assert(steps[0].step_type@ == step_type);
    }
}

/// A pipeline is accepted exactly where it names connectors that there are, has
/// steps, each of them known, has a render step where it takes tokens in, and its
/// stages can run.
pub proof fn pipelines_are_accepted_where_they_can_run(pipeline: CoordinatorPipeline)
    ensures
        config::pipeline_check(pipeline) is Ok <==> {
            let steps = pipeline.steps@;
            &&& pipeline.kv_connector@ == "kv-nixl"@ || pipeline.kv_connector@
                == "kv-shared-storage"@
            &&& pipeline.ec_connector@ == "ec-nixl"@ || pipeline.ec_connector@
                == "ec-shared-storage"@
            &&& steps.len() > 0
            &&& forall|i: int| 0 <= i < steps.len() ==> step_is_known(i as nat, #[trigger] steps[i])
            &&& pipeline.use_openai_format || exists|i: int|
                0 <= i < steps.len() && (#[trigger] steps[i]).step_type@ == "render"@
            &&& config::can_run(steps)
        },
{
    checked_up_to(pipeline.steps@, pipeline.steps@.len());
    found_steps_are_there(pipeline.steps@, "render"@);
}

/// A configuration is accepted exactly where the gateway has an address, timeouts
/// and connections, the body limit is between one and 64 mebibytes, nothing is set
/// of secured connections, and the pipeline is accepted.
pub proof fn configurations_are_accepted_exactly(config: CoordinatorConfig)
    ensures
        config::coordinator_check(config) is Ok <==> {
            &&& text::trimmed(config.gateway.address@).len() > 0
            &&& config::millis_read("gateway.timeout"@, config.gateway.timeout@) is Ok
            &&& config::millis_read(
                "gateway.idle_conn_timeout"@,
                config.gateway.idle_conn_timeout@,
            ) is Ok
            &&& config.gateway.max_idle_conns_per_host > 0
            &&& 1 <= config.server.max_request_body_size <= 64
            &&& config.gateway.epp_tls matches Some(tls) ==> sets_nothing(tls)
            &&& config.gateway.worker_tls matches Some(tls) ==> sets_nothing(tls)
            &&& config::pipeline_check(config.pipeline) is Ok
        },
{
}

/// Whether nothing is set of a secured connection.
pub open spec fn sets_nothing(tls: TlsSettings) -> bool {
    &&& tls.ca_file is None
    &&& tls.cert_file is None
    &&& tls.key_file is None
    &&& tls.server_name is None
    &&& tls.verify
}

/// A configuration is refused for nothing but what is wrong with it: one that is
/// accepted is translated where its server's times, address and metrics port are
/// fit for use and the times of its steps are.
pub proof fn accepted_configurations_are_translated(source: CoordinatorConfig)
    requires
        config::coordinator_check(source) is Ok,
        config::millis_read("server.read_timeout"@, source.server.read_timeout@) is Ok,
        config::millis_read("server.write_timeout"@, source.server.write_timeout@) is Ok,
        config::seconds_read("server.shutdown_timeout"@, source.server.shutdown_timeout@) is Ok,
        config::listen_read(source.server.listen_addr@) is Ok,
        source.server.metrics_port matches Some(port) ==> port <= 65535,
        config::first_step(source.pipeline.steps@, "render"@) matches Some(step) ==> (
        config::text_in(yaml::lookup(yaml::entries_of(step.params), "timeout"@)) matches Some(value)
            ==> config::millis_read("pipeline.render.timeout"@, value) is Ok),
        config::first_step(source.pipeline.steps@, "replace-media-urls"@) matches Some(step) ==> (
        config::text_in(yaml::lookup(yaml::entries_of(step.params), "download_timeout"@)) matches Some(
            value,
        ) ==> config::millis_read("pipeline.replace-media-urls.download_timeout"@, value) is Ok),
    ensures
        translate::translated(source) is Ok,
{
    translate::accepted_configurations_have_a_router(source);
}

/// Whether a mapping has a key that marks a coordinator configuration.
pub open spec fn is_marked_coordinator(entries: Seq<(YamlView, YamlView)>) -> bool {
    exists|i: int|
        0 <= i < entries.len() && (yaml::bare(#[trigger] entries[i].0) matches YamlView::Text(key)
            && (key == "server"@ || key == "gateway"@ || key == "pipeline"@))
}

/// Whether a mapping has a key that marks a native configuration.
pub open spec fn is_marked_native(entries: Seq<(YamlView, YamlView)>) -> bool {
    exists|i: int|
        0 <= i < entries.len() && (yaml::bare(#[trigger] entries[i].0) matches YamlView::Text(key)
            && (key == "admin"@ || key == "body_limits"@ || key == "clusters"@ || key
            == "filter_chains"@ || key == "insecure_options"@ || key == "listeners"@ || key
            == "metrics"@ || key == "runtime"@ || key == "shutdown_timeout_secs"@ || key
            == "telemetry"@))
}

/// A configuration is a coordinator's where it has one of the three keys that
/// mark one, and native where it has none; one that also has one of the ten keys
/// that mark a native one is refused, and so is one that is no mapping.
pub proof fn configurations_are_told_by_their_keys(root: YamlView)
    ensures
        match yaml::bare(root) {
            YamlView::Mapping(entries) => if !is_marked_coordinator(entries) {
                config::source_of(root) == Ok::<SourceView, Seq<char>>(SourceView::Native)
            } else if is_marked_native(entries) {
                config::source_of(root) is Err
            } else {
                config::source_of(root) == Ok::<SourceView, Seq<char>>(
                    SourceView::Coordinator(root),
                )
            },
            _ => config::source_of(root) is Err,
        },
{
    if let YamlView::Mapping(entries) = yaml::bare(root) {
        assert forall|key: Seq<char>| #[trigger] config::coordinator_roots().contains(key) <==> (key
            == "server"@ || key == "gateway"@ || key == "pipeline"@) by {
            contents_of_short_rows(config::coordinator_roots(), key);
        }
        assert forall|key: Seq<char>| #[trigger] config::native_roots().contains(key) <==> (key
            == "admin"@ || key == "body_limits"@ || key == "clusters"@ || key == "filter_chains"@
            || key == "insecure_options"@ || key == "listeners"@ || key == "metrics"@ || key
            == "runtime"@ || key == "shutdown_timeout_secs"@ || key == "telemetry"@) by {
            contents_of_short_rows(config::native_roots(), key);
        }
        if is_marked_coordinator(entries) {
            let i = choose|i: int|
                0 <= i < entries.len() && (yaml::bare(#[trigger] entries[i].0) matches YamlView::Text(
                    key,
                ) && (key == "server"@ || key == "gateway"@ || key == "pipeline"@));
            assert(config::coordinator_roots().contains(yaml::bare(entries[i].0)->Text_0));
        }
        if is_marked_native(entries) {
            let i = choose|i: int|
                0 <= i < entries.len() && (yaml::bare(#[trigger] entries[i].0) matches YamlView::Text(
                    key,
                ) && (key == "admin"@ || key == "body_limits"@ || key == "clusters"@ || key
                    == "filter_chains"@ || key == "insecure_options"@ || key == "listeners"@ || key
                    == "metrics"@ || key == "runtime"@ || key == "shutdown_timeout_secs"@ || key
                    == "telemetry"@));
            assert(config::native_roots().contains(yaml::bare(entries[i].0)->Text_0));
        }
    }
}

/// Whether a section of a configuration, where it is a mapping, has only keys of
/// some.
pub open spec fn section_has_only(
    section: Option<YamlView>,
    known: spec_fn(Seq<char>) -> bool,
) -> bool {
    section matches Some(value) ==> (yaml::bare(value) matches YamlView::Mapping(entries)
        ==> only_keys(entries, known))
}

proof fn section_is_checked(
    place: Seq<char>,
    section: Option<YamlView>,
    names: Seq<Seq<char>>,
    known: spec_fn(Seq<char>) -> bool,
)
    requires
        forall|key: Seq<char>| #[trigger] names.contains(key) <==> known(key),
    ensures
        config::section_check(place, section, names) is Ok <==> section_has_only(section, known),
{
    if let Some(value) = section {
        if let YamlView::Mapping(entries) = yaml::bare(value) {
            unknown_keys_are_found(entries, names);
            let by_row = |key: Seq<char>| names.contains(key);
            if only_keys(entries, known) {
                assert forall|i: int| 0 <= i < entries.len() implies (yaml::bare(
                    #[trigger] entries[i].0,
                ) matches YamlView::Text(key) ==> by_row(key)) by {
                    if let YamlView::Text(key) = yaml::bare(entries[i].0) {
                        assert(names.contains(key));
                    }
                }
            }
        }
    }
}

proof fn steps_are_checked(steps: Seq<YamlView>, upto: nat)
    requires
        upto <= steps.len(),
    ensures
        config::step_keys_check(steps, upto) is Ok <==> forall|i: int|
            0 <= i < upto ==> section_has_only(
                Some(#[trigger] steps[i]),
                |key: Seq<char>| key == "type"@ || key == "params"@,
            ),
    decreases upto,
{
    if upto > 0 {
        let known = |key: Seq<char>| key == "type"@ || key == "params"@;
        steps_are_checked(steps, (upto - 1) as nat);
        assert forall|key: Seq<char>| #[trigger] config::step_keys().contains(key) <==> known(
            key,
        ) by {
            contents_of_short_rows(config::step_keys(), key);
        }
        section_is_checked(
            "pipeline.steps["@ + text::decimal_text((upto - 1) as nat) + "]."@,
            Some(steps[upto - 1]),
            config::step_keys(),
            known,
        );
        assert(config::step_keys_check(steps, upto) is Ok <==> config::step_keys_check(
            steps,
            (upto - 1) as nat,
        ) is Ok && section_has_only(Some(steps[upto - 1]), known));
    }
}

/// The keys of a configuration are accepted exactly where each section of it has
/// only keys that the section can have.
pub proof fn keys_are_accepted_where_known(root: YamlView)
    ensures
        config::keys_check(root) is Ok <==> ({
            let server = config::entry_in(Some(root), "server"@);
            let gateway = config::entry_in(Some(root), "gateway"@);
            let pipeline = config::entry_in(Some(root), "pipeline"@);
            let of_tls = |key: Seq<char>|
                key == "ca_file"@ || key == "cert_file"@ || key == "key_file"@ || key
                    == "server_name"@ || key == "verify"@;
            &&& section_has_only(
                Some(root),
                |key: Seq<char>|
                    key == "log_level"@ || key == "server"@ || key == "gateway"@ || key
                        == "pipeline"@,
            )
            &&& section_has_only(
                server,
                |key: Seq<char>|
                    key == "listen_addr"@ || key == "metrics_port"@ || key == "read_timeout"@ || key
                        == "write_timeout"@ || key == "shutdown_timeout"@ || key
                        == "max_request_body_size"@,
            )
            &&& section_has_only(
                gateway,
                |key: Seq<char>|
                    key == "address"@ || key == "max_idle_conns_per_host"@ || key
                        == "idle_conn_timeout"@ || key == "timeout"@ || key == "epp_tls"@ || key
                        == "worker_tls"@,
            )
            &&& section_has_only(config::entry_in(gateway, "epp_tls"@), of_tls)
            &&& section_has_only(config::entry_in(gateway, "worker_tls"@), of_tls)
            &&& section_has_only(
                pipeline,
                |key: Seq<char>|
                    key == "kv_connector"@ || key == "ec_connector"@ || key == "use_openai_format"@
                        || key == "steps"@,
            )
            &&& forall|i: int|
                0 <= i < config::listed_steps(pipeline).len() ==> section_has_only(
                    Some(#[trigger] config::listed_steps(pipeline)[i]),
                    |key: Seq<char>| key == "type"@ || key == "params"@,
                )
        }),
{
    let server = config::entry_in(Some(root), "server"@);
    let gateway = config::entry_in(Some(root), "gateway"@);
    let pipeline = config::entry_in(Some(root), "pipeline"@);
    let of_tls = |key: Seq<char>|
        key == "ca_file"@ || key == "cert_file"@ || key == "key_file"@ || key == "server_name"@
            || key == "verify"@;
    let of_root = |key: Seq<char>|
        key == "log_level"@ || key == "server"@ || key == "gateway"@ || key == "pipeline"@;
    let of_server = |key: Seq<char>|
        key == "listen_addr"@ || key == "metrics_port"@ || key == "read_timeout"@ || key
            == "write_timeout"@ || key == "shutdown_timeout"@ || key == "max_request_body_size"@;
    let of_gateway = |key: Seq<char>|
        key == "address"@ || key == "max_idle_conns_per_host"@ || key == "idle_conn_timeout"@ || key
            == "timeout"@ || key == "epp_tls"@ || key == "worker_tls"@;
    let of_pipeline = |key: Seq<char>|
        key == "kv_connector"@ || key == "ec_connector"@ || key == "use_openai_format"@ || key
            == "steps"@;
    assert forall|key: Seq<char>| #[trigger] config::tls_keys().contains(key) <==> of_tls(key) by {
        contents_of_short_rows(config::tls_keys(), key);
    }
    assert forall|key: Seq<char>| #[trigger] config::root_keys().contains(key) <==> of_root(
        key,
    ) by {
        contents_of_short_rows(config::root_keys(), key);
    }
    assert forall|key: Seq<char>| #[trigger] config::server_keys().contains(key) <==> of_server(
        key,
    ) by {
        contents_of_short_rows(config::server_keys(), key);
    }
    assert forall|key: Seq<char>| #[trigger] config::gateway_keys().contains(key) <==> of_gateway(
        key,
    ) by {
        contents_of_short_rows(config::gateway_keys(), key);
    }
    assert forall|key: Seq<char>| #[trigger] config::pipeline_keys().contains(key) <==> of_pipeline(
        key,
    ) by {
        contents_of_short_rows(config::pipeline_keys(), key);
    }
    section_is_checked(""@, Some(root), config::root_keys(), of_root);
    section_is_checked("server."@, server, config::server_keys(), of_server);
    section_is_checked("gateway."@, gateway, config::gateway_keys(), of_gateway);
    section_is_checked(
        "gateway.epp_tls."@,
        config::entry_in(gateway, "epp_tls"@),
        config::tls_keys(),
        of_tls,
    );
    section_is_checked(
        "gateway.worker_tls."@,
        config::entry_in(gateway, "worker_tls"@),
        config::tls_keys(),
        of_tls,
    );
    section_is_checked("pipeline."@, pipeline, config::pipeline_keys(), of_pipeline);
    let steps = config::listed_steps(pipeline);
    steps_are_checked(steps, steps.len());
}

/// What the environment sets decides over what was set before, and what it does
/// not set is left.
pub proof fn overrides_decide(held: bool, set: bool, error: Seq<char>)
    ensures
        config::overridden(held, Ok(Some(set))) == set,
        config::overridden(held, Ok(None)) == held,
        config::overridden(held, Err(error)) == held,
{
}

/// A complaint about the stages of a pipeline lists them all, in quotes, in order
/// and with commas between.
pub proof fn complaints_list_the_stages(stages: Seq<Seq<char>>, more: Seq<char>)
    ensures
        config::quoted_names(seq![more]) == codec::quoted(more),
        stages.len() > 0 ==> config::quoted_names(stages.push(more)) == config::quoted_names(stages)
            + ", "@ + codec::quoted(more),
        config::sequence_complaint(stages) == "pipeline step sequence ["@ + config::quoted_names(
            stages,
        ) + "] does not describe EPD, P/D, E/PD, or E/P/D"@,
{
    assert(stages.push(more).drop_last() =~= stages);
    assert(stages.push(more).last() == more);
}

/// The environment sets a size only by digits, and a port only by digits, each
/// with at most one sign before them and with nothing around them.
pub proof fn the_environment_holds_bare_numbers(value: Seq<char>)
    ensures
        config::env_size(Some(value)) is Ok ==> is_count(value) || (value.len() > 0 && value[0]
            == '+' && is_count(value.skip(1))),
        config::env_port(Some(value)) is Ok ==> is_count(value) || (value.len() > 0 && (value[0]
            == '+' || value[0] == '-') && is_count(value.skip(1))),
        config::env_size(Some(value)) matches Err(error) ==> error
            == "COORDINATOR_SERVER_MAX_REQUEST_BODY_SIZE must be an integer number of MiB"@,
        config::env_port(Some(value)) matches Err(error) ==> error
            == "COORDINATOR_SERVER_METRICS_PORT must be an integer"@,
        config::env_bool(Some(value)) matches Err(error) ==> error
            == "COORDINATOR_PIPELINE_USE_OPENAI_FORMAT must be 'true' or 'false'"@,
{
}

/// A duration that has a unit and is refused is quoted without the space around
/// it, unless it is too long.
pub proof fn refused_durations_are_quoted(
    path: Seq<char>,
    before: Seq<char>,
    value: Seq<char>,
    after: Seq<char>,
)
    requires
        crate::laws::texts::all_white(before),
        crate::laws::texts::all_white(after),
        value.len() > 0,
        !text::white(value[0]),
        value.last() == 's' || value.last() == 'm' || value.last() == 'h',
    ensures
        config::duration_read(path, before + value + after) matches Err(error) ==> {
            ||| error == path + " exceeds supported duration"@
            ||| error == path + " has invalid duration '"@ + value + "'"@
        },
        !text::is_digit(value[0]) && value[0] != '+' ==> config::duration_read(
            path,
            before + value + after,
        ) == Err::<nat, Seq<char>>(path + " has invalid duration '"@ + value + "'"@),
{
    reveal_strlit("ms");
    reveal_strlit("s");
    reveal_strlit("m");
    reveal_strlit("h");
    crate::laws::texts::visible_characters_are_not_white(value.last());
    crate::laws::texts::space_around_is_trimmed(before, value, after);
    let k = value.len() as int;
    assert(value.subrange(k - 1, k) =~= seq![value.last()]);
    assert("s"@ =~= seq!['s']);
    assert("m"@ =~= seq!['m']);
    assert("h"@ =~= seq!['h']);
    if let Some((number, _)) = config::duration_parts(value) {
        assert(number.len() > 0 ==> number[0] == value[0]);
    }
}

/// What is wrong with the parameters of a step is said with their place: which
/// of them is unknown, or which connector there is none of.
pub proof fn refused_parameters_are_named(
    index: nat,
    step_type: Seq<char>,
    params: Seq<(YamlView, YamlView)>,
)
    ensures
        ({
            let place = "pipeline.steps["@ + text::decimal_text(index) + "].params."@;
            let ec = config::text_in(yaml::lookup(params, "ec_connector"@));
            let kv = config::text_in(yaml::lookup(params, "kv_connector"@));
            config::params_check(index, step_type, params) matches Err(error) ==> {
                ||| exists|i: int|
                    0 <= i < params.len() && (yaml::bare(#[trigger] params[i].0) matches YamlView::Text(
                        key,
                    ) && !may_have(step_type, key) && error == place + key + " is unsupported"@)
                ||| ec matches Some(name) && name != "ec-nixl"@ && name != "ec-shared-storage"@
                    && error == place + "ec_connector '"@ + name + "' is unsupported"@
                ||| kv matches Some(name) && name != "kv-nixl"@ && name != "kv-shared-storage"@
                    && error == place + "kv_connector '"@ + name + "' is unsupported"@
            }
        }),
{
    let names = config::step_params(step_type);
    if config::unknown_key(params, names) is Some {
        let i = unknown_key_is_at(params, names);
        known_parameters(step_type, config::unknown_key(params, names)->0);
        assert(yaml::bare(params[i].0) == YamlView::Text(config::unknown_key(params, names)->0));
    }
}

proof fn unknown_key_is_at(entries: Seq<(YamlView, YamlView)>, names: Seq<Seq<char>>) -> (i: int)
    requires
        config::unknown_key(entries, names) is Some,
    ensures
        0 <= i < entries.len(),
        yaml::bare(entries[i].0) == YamlView::Text(config::unknown_key(entries, names)->0),
        !names.contains(config::unknown_key(entries, names)->0),
    decreases entries.len(),
{
    match yaml::bare(entries[0].0) {
        YamlView::Text(key) if !names.contains(key) => 0,
        _ => {
            let rest = entries.skip(1);
            let j = unknown_key_is_at(rest, names);
            assert(rest[j] == entries[j + 1]);
            j + 1
        },
    }
}

/// Whether a complaint names, at a place, a key of a section that is none of some.
pub open spec fn names_unknown_key(
    error: Seq<char>,
    place: Seq<char>,
    section: Option<YamlView>,
    known: spec_fn(Seq<char>) -> bool,
) -> bool {
    section matches Some(value) && (yaml::bare(value) matches YamlView::Mapping(entries) && exists|
        i: int,
    |
        0 <= i < entries.len() && (yaml::bare(#[trigger] entries[i].0) matches YamlView::Text(key)
            && !known(key) && error == "invalid coordinator configuration: "@ + place + key
            + ": unknown field `"@ + key + "`"@))
}

proof fn section_complains(
    place: Seq<char>,
    section: Option<YamlView>,
    names: Seq<Seq<char>>,
    known: spec_fn(Seq<char>) -> bool,
)
    requires
        forall|key: Seq<char>| #[trigger] names.contains(key) <==> known(key),
        config::section_check(place, section, names) is Err,
    ensures
        names_unknown_key(
            config::section_check(place, section, names)->Err_0,
            place,
            section,
            known,
        ),
{
    let entries = yaml::bare(section->0)->Mapping_0;
    let i = unknown_key_is_at(entries, names);
    assert(yaml::bare(entries[i].0) == YamlView::Text(config::unknown_key(entries, names)->0));
}

/// A configuration with a key that its section cannot have is refused with the
/// place and the name of such a key, the sections being looked at in order.
pub proof fn unknown_keys_are_named(root: YamlView)
    ensures
        ({
            let server = config::entry_in(Some(root), "server"@);
            let gateway = config::entry_in(Some(root), "gateway"@);
            let epp = config::entry_in(gateway, "epp_tls"@);
            let worker = config::entry_in(gateway, "worker_tls"@);
            let pipeline = config::entry_in(Some(root), "pipeline"@);
            let of_tls = |key: Seq<char>|
                key == "ca_file"@ || key == "cert_file"@ || key == "key_file"@ || key
                    == "server_name"@ || key == "verify"@;
            let of_root = |key: Seq<char>|
                key == "log_level"@ || key == "server"@ || key == "gateway"@ || key == "pipeline"@;
            let of_server = |key: Seq<char>|
                key == "listen_addr"@ || key == "metrics_port"@ || key == "read_timeout"@ || key
                    == "write_timeout"@ || key == "shutdown_timeout"@ || key
                    == "max_request_body_size"@;
            let of_gateway = |key: Seq<char>|
                key == "address"@ || key == "max_idle_conns_per_host"@ || key
                    == "idle_conn_timeout"@ || key == "timeout"@ || key == "epp_tls"@ || key
                    == "worker_tls"@;
            let of_pipeline = |key: Seq<char>|
                key == "kv_connector"@ || key == "ec_connector"@ || key == "use_openai_format"@
                    || key == "steps"@;
            config::keys_check(root) matches Err(error) ==> {
                if !section_has_only(Some(root), of_root) {
                    names_unknown_key(error, ""@, Some(root), of_root)
                } else if !section_has_only(server, of_server) {
                    names_unknown_key(error, "server."@, server, of_server)
                } else if !section_has_only(gateway, of_gateway) {
                    names_unknown_key(error, "gateway."@, gateway, of_gateway)
                } else if !section_has_only(epp, of_tls) {
                    names_unknown_key(error, "gateway.epp_tls."@, epp, of_tls)
                } else if !section_has_only(worker, of_tls) {
                    names_unknown_key(error, "gateway.worker_tls."@, worker, of_tls)
                } else if !section_has_only(pipeline, of_pipeline) {
                    names_unknown_key(error, "pipeline."@, pipeline, of_pipeline)
                } else {
                    exists|i: int|
                        0 <= i < config::listed_steps(pipeline).len() && names_unknown_key(
                            error,
                            "pipeline.steps["@ + text::decimal_text(i as nat) + "]."@,
                            Some(#[trigger] config::listed_steps(pipeline)[i]),
                            |key: Seq<char>| key == "type"@ || key == "params"@,
                        )
                }
            }
        }),
{
    let server = config::entry_in(Some(root), "server"@);
    let gateway = config::entry_in(Some(root), "gateway"@);
    let epp = config::entry_in(gateway, "epp_tls"@);
    let worker = config::entry_in(gateway, "worker_tls"@);
    let pipeline = config::entry_in(Some(root), "pipeline"@);
    let of_tls = |key: Seq<char>|
        key == "ca_file"@ || key == "cert_file"@ || key == "key_file"@ || key == "server_name"@
            || key == "verify"@;
    let of_root = |key: Seq<char>|
        key == "log_level"@ || key == "server"@ || key == "gateway"@ || key == "pipeline"@;
    let of_server = |key: Seq<char>|
        key == "listen_addr"@ || key == "metrics_port"@ || key == "read_timeout"@ || key
            == "write_timeout"@ || key == "shutdown_timeout"@ || key == "max_request_body_size"@;
    let of_gateway = |key: Seq<char>|
        key == "address"@ || key == "max_idle_conns_per_host"@ || key == "idle_conn_timeout"@ || key
            == "timeout"@ || key == "epp_tls"@ || key == "worker_tls"@;
    let of_pipeline = |key: Seq<char>|
        key == "kv_connector"@ || key == "ec_connector"@ || key == "use_openai_format"@ || key
            == "steps"@;
    assert forall|key: Seq<char>| #[trigger] config::tls_keys().contains(key) <==> of_tls(key) by {
        contents_of_short_rows(config::tls_keys(), key);
    }
    assert forall|key: Seq<char>| #[trigger] config::root_keys().contains(key) <==> of_root(
        key,
    ) by {
        contents_of_short_rows(config::root_keys(), key);
    }
    assert forall|key: Seq<char>| #[trigger] config::server_keys().contains(key) <==> of_server(
        key,
    ) by {
        contents_of_short_rows(config::server_keys(), key);
    }
    assert forall|key: Seq<char>| #[trigger] config::gateway_keys().contains(key) <==> of_gateway(
        key,
    ) by {
        contents_of_short_rows(config::gateway_keys(), key);
    }
    assert forall|key: Seq<char>| #[trigger] config::pipeline_keys().contains(key) <==> of_pipeline(
        key,
    ) by {
        contents_of_short_rows(config::pipeline_keys(), key);
    }
    complaint_of(""@, Some(root), config::root_keys(), of_root);
    complaint_of("server."@, server, config::server_keys(), of_server);
    complaint_of("gateway."@, gateway, config::gateway_keys(), of_gateway);
    complaint_of("gateway.epp_tls."@, epp, config::tls_keys(), of_tls);
    complaint_of("gateway.worker_tls."@, worker, config::tls_keys(), of_tls);
    complaint_of("pipeline."@, pipeline, config::pipeline_keys(), of_pipeline);
    let steps = config::listed_steps(pipeline);
    if config::step_keys_check(steps, steps.len()) is Err {
        step_complains(steps, steps.len());
    }
}

proof fn complaint_of(
    place: Seq<char>,
    section: Option<YamlView>,
    names: Seq<Seq<char>>,
    known: spec_fn(Seq<char>) -> bool,
)
    requires
        forall|key: Seq<char>| #[trigger] names.contains(key) <==> known(key),
    ensures
        config::section_check(place, section, names) is Ok <==> section_has_only(section, known),
        config::section_check(place, section, names) matches Err(error) ==> names_unknown_key(
            error,
            place,
            section,
            known,
        ),
{
    section_is_checked(place, section, names, known);
    if config::section_check(place, section, names) is Err {
        section_complains(place, section, names, known);
    }
}

proof fn step_complains(steps: Seq<YamlView>, upto: nat)
    requires
        upto <= steps.len(),
        config::step_keys_check(steps, upto) is Err,
    ensures
        exists|i: int|
            0 <= i < upto && names_unknown_key(
                config::step_keys_check(steps, upto)->Err_0,
                "pipeline.steps["@ + text::decimal_text(i as nat) + "]."@,
                Some(#[trigger] steps[i]),
                |key: Seq<char>| key == "type"@ || key == "params"@,
            ),
    decreases upto,
{
    let last = (upto - 1) as nat;
    if config::step_keys_check(steps, last) is Err {
        step_complains(steps, last);
    } else {
        let known = |key: Seq<char>| key == "type"@ || key == "params"@;
        assert forall|key: Seq<char>| #[trigger] config::step_keys().contains(key) <==> known(
            key,
        ) by {
            contents_of_short_rows(config::step_keys(), key);
        }
        section_complains(
            "pipeline.steps["@ + text::decimal_text(last) + "]."@,
            Some(steps[last as int]),
            config::step_keys(),
            known,
        );
        assert(steps[last as int] == steps[upto - 1]);
    }
}

} // verus!
