//! Which monitors are accepted, when they are asked, and what is shown of them once the
//! monitoring has stopped.
use super::batch::{batch_fault, checkpoint_tree, CheckpointView};
use super::config::{
    config_fault, config_tree, definition_tree, definitions_of, discoveries_of, discovery_fault, item_fault, monitors_fault,
    reservations, single_fault,
};
use super::discovery::{enrolled, enrollment, next_epoch, rejected, settled, DiscoveryBatchView, DiscoveryStateView};
use super::engine::{closed_down, halted, is_fatal, EngineView};
use super::rule::{rule_tree, rule_valid, verdict};
use super::schedule::{clocked, counted, later_by, tick_period, RunnerView};
use super::state::{begun, fresh_checkpoint, published, request_params, SnapshotView, StateView};
use super::{
    BatchView, Coverage, DefinitionView, DiscoveryView, Fault, Freshness, MonitorsConfig, ObservationBatch, RuleOperator,
    RuleView, SampleView, TargetHealth,
};
use crate::faults::earliest_none;
use crate::json::laws::group_members;
use crate::json::{encoded_size, is_exact, is_number, member, resolved, Tree};
use crate::protocol::is_id;
use crate::recovery::incidents::Fault as IncidentFault;
use crate::text::{byte_len, less, less_irreflexive, less_total, less_transitive, starts_with};
use vstd::prelude::*;

verus! {

broadcast use group_members;

// Configurations.

/// What an accepted rule is: a pointer into the observed value, a value that can be compared,
/// and one of the orderings only for numbers.
pub proof fn accepted_rules_can_be_decided(r: RuleView, i: int)
    requires
        rule_valid(r),
    ensures
        byte_len(r.pointer) <= 1024,
        r.pointer.len() > 0 ==> r.pointer[0] == '/',
        0 <= i < r.pointer.len() && r.pointer[i] == '~' ==> i + 1 < r.pointer.len() && (r.pointer[i + 1] == '0' || r.pointer[i
            + 1] == '1'),
        r.operator == RuleOperator::Gt || r.operator == RuleOperator::Ge || r.operator == RuleOperator::Lt || r.operator
            == RuleOperator::Le ==> is_number(r.value),
        r.value is Bool || r.value is Text || is_exact(r.value),
        r.value is Text ==> byte_len(r.value->Text_0) <= 4096,
        !(r.value is Null) && !(r.value is Array) && !(r.value is Object),
{
    if !(r.value is Unsigned) && !(r.value is Negative) && !(r.value is Real) {
        crate::json::laws::only_numbers_are_exact(r.value);
    }
}

/// Why one monitor is refused. An accepted one has identifiers throughout, a contract that is
/// not the host's own, parameters that leave the observation's own fields alone, and periods
/// and counts within bounds.
pub proof fn accepted_monitors_are_within_limits(monitors: Seq<DefinitionView>, i: int, j: int)
    requires
        0 <= i < monitors.len(),
        item_fault(monitors, i) is None,
    ensures
        ({
            let d = monitors[i];
            &&& is_id(d.id) && is_id(d.target_id) && is_id(d.source_id) && is_id(d.extension_id) && is_id(d.contract) && is_id(
                d.method,
            )
            &&& d.view_role is Some ==> is_id(d.view_role->0)
            &&& d.version > 0
            &&& d.contract != "recuvora"@ && !starts_with(d.contract, "recuvora."@)
            &&& d.params is Object && encoded_size(d.params) <= 16384
            &&& member(d.params, "target_id"@) is None && member(d.params, "source_id"@) is None && member(
                d.params,
                "cursor"@,
            ) is None && member(d.params, "generation"@) is None
            &&& 10 <= d.interval_ms <= 3600000
            &&& 1 <= d.timeout_ms <= 30000
            &&& 10 <= d.stale_after_ms <= 86400000
            &&& 10 <= d.startup_grace_ms <= 86400000
            &&& 1 <= d.rule.failure_samples <= 1000
            &&& 1 <= d.rule.success_samples <= 1000
            &&& rule_valid(d.rule)
            &&& 0 <= j < i ==> monitors[j].id != d.id
        }),
{
}

/// A monitor that meets all of this is accepted.
pub proof fn monitors_within_limits_are_accepted(monitors: Seq<DefinitionView>, i: int)
    requires
        0 <= i < monitors.len(),
        forall|j: int| 0 <= j < i ==> (#[trigger] monitors[j]).id != monitors[i].id,
        ({
            let d = monitors[i];
            &&& is_id(d.id) && is_id(d.target_id) && is_id(d.source_id) && is_id(d.extension_id) && is_id(d.contract) && is_id(
                d.method,
            )
            &&& d.view_role is Some ==> is_id(d.view_role->0)
            &&& d.version > 0
            &&& d.contract != "recuvora"@ && !starts_with(d.contract, "recuvora."@)
            &&& d.params is Object && encoded_size(d.params) <= 16384
            &&& member(d.params, "target_id"@) is None && member(d.params, "source_id"@) is None && member(
                d.params,
                "cursor"@,
            ) is None && member(d.params, "generation"@) is None
            &&& 10 <= d.interval_ms <= 3600000
            &&& 1 <= d.timeout_ms <= 30000
            &&& 10 <= d.stale_after_ms <= 86400000
            &&& 10 <= d.startup_grace_ms <= 86400000
            &&& 1 <= d.rule.failure_samples <= 1000
            &&& 1 <= d.rule.success_samples <= 1000
            &&& rule_valid(d.rule)
        }),
    ensures
        item_fault(monitors, i) is None,
{
}

/// An accepted configuration is of the known form and of bounded size, every monitor in it is
/// accepted, none uses an identifier that belongs to a discovery, and every discovery is
/// accepted.
pub proof fn accepted_configurations_are_bounded(c: MonitorsConfig, i: int)
    requires
        config_fault(c) is None,
    ensures
        ({
            let monitors = definitions_of(c.monitors@);
            let discoveries = discoveries_of(c.discoveries@);
            &&& c.schema_version == 1
            &&& monitors.len() <= 64 && discoveries.len() <= 8
            &&& encoded_size(config_tree(c.schema_version, monitors, discoveries)) <= 262144
            &&& 0 <= i < monitors.len() ==> item_fault(monitors, i) is None && !starts_with(monitors[i].id, "discovery."@)
            &&& 0 <= i < discoveries.len() ==> discovery_fault(monitors, discoveries, i) is None
        }),
{
    let monitors = definitions_of(c.monitors@);
    let discoveries = discoveries_of(c.discoveries@);
    let f = |k: int| item_fault(monitors, k);
    let g = |k: int| discovery_fault(monitors, discoveries, k);
    earliest_none(monitors.len(), f);
    earliest_none(discoveries.len(), g);
    if 0 <= i < monitors.len() {
        assert(f(i) is None);
    }
    if 0 <= i < discoveries.len() {
        assert(g(i) is None);
    }
}

/// An accepted discovery asks a contract that is not the host's own, within bounds, and has a
/// place for everything that it may find: with all reservations before it and the configured
/// monitors there are at most 64. Its template is an accepted monitor that lacks the
/// parameter, and shares its identifier with no discovery before it.
pub proof fn accepted_discoveries_have_places(
    monitors: Seq<DefinitionView>,
    discoveries: Seq<DiscoveryView>,
    i: int,
    j: int,
)
    requires
        0 <= i < discoveries.len(),
        discovery_fault(monitors, discoveries, i) is None,
    ensures
        ({
            let d = discoveries[i];
            &&& is_id(d.id) && is_id(d.extension_id) && is_id(d.contract) && is_id(d.method) && is_id(d.parameter)
            &&& d.version > 0
            &&& d.contract != "recuvora"@ && !starts_with(d.contract, "recuvora."@)
            &&& 1 <= d.max_targets <= 64
            &&& 10 <= d.interval_ms <= 3600000
            &&& 1 <= d.timeout_ms <= 30000
            &&& d.parameter != "target_id"@ && d.parameter != "source_id"@ && d.parameter != "cursor"@ && d.parameter
                != "generation"@
            &&& d.params is Object && encoded_size(d.params) <= 16384
            &&& monitors.len() + reservations(discoveries, (i + 1) as nat) <= 64
            &&& member(d.template.params, d.parameter) is None
            &&& single_fault(d.template) is None
            &&& !starts_with(d.template.id, "discovery."@)
            &&& 0 <= j < i ==> discoveries[j].id != d.id && discoveries[j].template.id != d.template.id
        }),
{
}

/// Each discovery reserves what it may find, on top of those before it.
pub proof fn discoveries_reserve_their_targets(discoveries: Seq<DiscoveryView>, n: nat)
    requires
        n < discoveries.len(),
    ensures
        reservations(discoveries, 0) == 0,
        reservations(discoveries, n + 1) == reservations(discoveries, n) + discoveries[n as int].max_targets,
{
}

/// A single monitor is accepted if it is one that a configuration would accept, and its
/// identifier belongs to no discovery.
pub proof fn single_monitors_are_accepted_alike(d: DefinitionView)
    ensures
        single_fault(d) is None ==> item_fault(seq![d], 0) is None && !starts_with(d.id, "discovery."@),
        single_fault(d) is Some ==> single_fault(d)->0 is Configuration,
{
    let list = seq![d];
    let f = |k: int| item_fault(list, k);
    earliest_none(list.len(), f);
    if single_fault(d) is None {
        assert(f(0) is None);
        assert(list[0] == d);
    } else if monitors_fault(1, list, Seq::empty()) is Some {
        if crate::faults::earliest(list.len(), f) is Some {
            let k = crate::faults::earliest_item(list.len(), f);
            assert(f(k) == item_fault(list, k));
        }
    }
}

/// A found target is observed by a monitor of its own: its identifiers end in the key, the
/// key is its parameter, and all else is the template's.
pub proof fn found_targets_get_their_own_monitor(d: DiscoveryView, key: Seq<char>, other: Seq<char>)
    requires
        d.template.params is Object,
    ensures
        ({
            let m = enrolled(d, key);
            &&& m.id == d.template.id + "."@ + key
            &&& m.target_id == d.template.target_id + "."@ + key
            &&& m.source_id == d.template.source_id + "."@ + key
            &&& member(m.params, d.parameter) == Some(Tree::Text(key))
            &&& other != d.parameter ==> member(m.params, other) == member(d.template.params, other)
            &&& m.extension_id == d.template.extension_id && m.contract == d.template.contract && m.version
                == d.template.version && m.method == d.template.method && m.rule == d.template.rule
            &&& m.interval_ms == d.template.interval_ms && m.timeout_ms == d.template.timeout_ms && m.stale_after_ms
                == d.template.stale_after_ms && m.startup_grace_ms == d.template.startup_grace_ms
            &&& m.view_role == d.template.view_role
        }),
{
}

/// What is written of a monitor says what it asks, how often, and by which rule it decides.
pub proof fn monitors_are_written_whole(d: DefinitionView)
    ensures
        ({
            let t = definition_tree(d);
            &&& member(t, "id"@) == Some(Tree::Text(d.id))
            &&& member(t, "target_id"@) == Some(Tree::Text(d.target_id))
            &&& member(t, "source_id"@) == Some(Tree::Text(d.source_id))
            &&& member(t, "extension_id"@) == Some(Tree::Text(d.extension_id))
            &&& member(t, "contract"@) == Some(Tree::Text(d.contract))
            &&& member(t, "version"@) == Some(Tree::Unsigned(d.version as u64))
            &&& member(t, "method"@) == Some(Tree::Text(d.method))
            &&& member(t, "params"@) == Some(d.params)
            &&& member(t, "interval_ms"@) == Some(Tree::Unsigned(d.interval_ms))
            &&& member(t, "timeout_ms"@) == Some(Tree::Unsigned(d.timeout_ms))
            &&& member(t, "stale_after_ms"@) == Some(Tree::Unsigned(d.stale_after_ms))
            &&& member(t, "startup_grace_ms"@) == Some(Tree::Unsigned(d.startup_grace_ms))
            &&& member(t, "rule"@) == Some(rule_tree(d.rule))
        }),
{
    reveal_strlit("id");
    reveal_strlit("target_id");
    reveal_strlit("source_id");
    reveal_strlit("view_role");
    reveal_strlit("extension_id");
    reveal_strlit("contract");
    reveal_strlit("version");
    reveal_strlit("method");
    reveal_strlit("params");
    reveal_strlit("interval_ms");
    reveal_strlit("timeout_ms");
    reveal_strlit("stale_after_ms");
    reveal_strlit("startup_grace_ms");
    reveal_strlit("rule");
    assert("id"@.len() == 2 && "target_id"@.len() == 9 && "source_id"@.len() == 9 && "view_role"@.len() == 9
        && "extension_id"@.len() == 12 && "contract"@.len() == 8 && "version"@.len() == 7
        && "method"@.len() == 6 && "params"@.len() == 6 && "interval_ms"@.len() == 11
        && "timeout_ms"@.len() == 10 && "stale_after_ms"@.len() == 14 && "startup_grace_ms"@.len() == 16
        && "rule"@.len() == 4 && "target_id"@[0] == 't' && "source_id"@[0] == 's' && "view_role"@[0] == 'v'
        && "method"@[0] == 'm' && "params"@[0] == 'p');
}

/// What is written of a rule names its operator.
pub proof fn rules_are_written_whole(r: RuleView)
    ensures
        ({
            let t = rule_tree(r);
            &&& member(t, "pointer"@) == Some(Tree::Text(r.pointer))
            &&& member(t, "value"@) == Some(r.value)
            &&& member(t, "failure_samples"@) == Some(Tree::Unsigned(r.failure_samples as u64))
            &&& member(t, "success_samples"@) == Some(Tree::Unsigned(r.success_samples as u64))
            &&& member(t, "operator"@) == Some(
                Tree::Text(
                    match r.operator {
                        RuleOperator::Eq => "eq"@,
                        RuleOperator::Ne => "ne"@,
                        RuleOperator::Gt => "gt"@,
                        RuleOperator::Ge => "ge"@,
                        RuleOperator::Lt => "lt"@,
                        RuleOperator::Le => "le"@,
                    },
                ),
            )
        }),
{
    reveal_strlit("pointer");
    reveal_strlit("operator");
    reveal_strlit("value");
    reveal_strlit("failure_samples");
    reveal_strlit("success_samples");
    assert("pointer"@.len() == 7 && "operator"@.len() == 8 && "value"@.len() == 5
        && "failure_samples"@.len() == 15 && "success_samples"@.len() == 15 && "failure_samples"@[0] == 'f'
        && "success_samples"@[0] == 's');
}

/// What is kept of a monitor between runs is read back as it was.
pub proof fn checkpoints_are_written_whole(c: CheckpointView)
    ensures
        ({
            let t = checkpoint_tree(c);
            &&& member(t, "binding"@) == Some(Tree::Text(c.binding))
            &&& c.generation is Some ==> member(t, "generation"@) == Some(Tree::Text(c.generation->0))
            &&& c.generation is None ==> member(t, "generation"@) == Some(Tree::Null)
            &&& c.cursor is Some ==> member(t, "cursor"@) == Some(Tree::Text(c.cursor->0))
            &&& c.cursor is None ==> member(t, "cursor"@) == Some(Tree::Null)
            &&& c.last_sequence is Some ==> member(t, "last_sequence"@) == Some(Tree::Unsigned(c.last_sequence->0))
            &&& c.last_sequence is None ==> member(t, "last_sequence"@) == Some(Tree::Null)
        }),
{
    reveal_strlit("binding");
    reveal_strlit("generation");
    reveal_strlit("cursor");
    reveal_strlit("last_sequence");
    reveal_strlit("recent_ids");
    reveal_strlit("retired_generations");
    assert("binding"@.len() == 7 && "generation"@.len() == 10 && "cursor"@.len() == 6
        && "last_sequence"@.len() == 13 && "recent_ids"@.len() == 10 && "retired_generations"@.len() == 19
        && "generation"@[0] == 'g' && "recent_ids"@[0] == 'r');
}

// Batches.

/// An accepted batch is in order: of two samples that follow each other the later one has the
/// larger sequence, or is the same sample again; samples are nested at most 24 levels deep,
/// and carry at most 128 KiB together.
pub proof fn accepted_batches_are_in_order(
    target_id: Seq<char>,
    source_id: Seq<char>,
    c: CheckpointView,
    b: BatchView,
    i: int,
)
    requires
        batch_fault(target_id, source_id, c, b) is None,
    ensures
        0 <= i < b.samples.len() ==> {
            let s = b.samples[i];
            &&& 0 < s.sequence <= 9007199254740992
            &&& s.age_ms <= 9007199254740992
            &&& s.evidence is Object
            &&& is_id(s.id)
            &&& encoded_size(s.value) <= 4096 && encoded_size(s.evidence) <= 4096
            &&& crate::json::depth(s.value) <= 24 && crate::json::depth(s.evidence) <= 24
            &&& c.generation == Some(b.generation) && c.last_sequence is Some && s.sequence > c.last_sequence->0
                ==> !c.recent_ids.contains(s.id)
        },
        0 <= i < b.samples.len() - 1 ==> b.samples[i].sequence < b.samples[i + 1].sequence || (b.samples[i].sequence
            == b.samples[i + 1].sequence && b.samples[i].id == b.samples[i + 1].id),
        super::batch::evidence_bytes(b.samples, b.samples.len()) <= 131072,
{
    let f = |k: int| super::batch::sample_fault(c, b, k);
    earliest_none(b.samples.len(), f);
    if 0 <= i < b.samples.len() {
        assert(f(i) is None);
        assert(!(crate::json::depth(b.samples[i].value) > 24 || crate::json::depth(b.samples[i].evidence) > 24));
    }
    if 0 <= i < b.samples.len() - 1 {
        assert(super::batch::in_order(b.samples[i], b.samples[i + 1]));
    }
}

/// A sample counts with its value and its evidence.
pub proof fn evidence_is_counted(samples: Seq<SampleView>, n: nat)
    requires
        n < samples.len(),
    ensures
        super::batch::evidence_bytes(samples, 0) == 0,
        super::batch::evidence_bytes(samples, n + 1) == super::batch::evidence_bytes(samples, n) + encoded_size(
            samples[n as int].value,
        ) + encoded_size(samples[n as int].evidence),
{
}

// Calls.

/// A monitor is looked at as often as its shortest period asks, and at least four times a
/// second.
pub proof fn monitors_are_looked_at_often(d: DefinitionView)
    ensures
        tick_period(d) <= d.interval_ms && tick_period(d) <= d.stale_after_ms && tick_period(d) <= d.startup_grace_ms
            && tick_period(d) <= 250,
        tick_period(d) == d.interval_ms || tick_period(d) == d.stale_after_ms || tick_period(d) == d.startup_grace_ms
            || tick_period(d) == 250,
{
}

/// A moment that many milliseconds later, at most the last one.
pub proof fn moments_are_later_by_milliseconds(now: u64, millis: u64)
    ensures
        now + millis * 1000000 <= u64::MAX ==> later_by(now, millis) == now + millis * 1000000,
        now + millis * 1000000 > u64::MAX ==> later_by(now, millis) == u64::MAX,
        later_by(now, millis) >= now,
{
}

/// A call is cut off exactly if the target is gone or has come anew since it began; a reply
/// to such a call, or one after its deadline, counts as nothing but a failure.
pub proof fn calls_end_with_their_target(
    r: RunnerView,
    current: Option<u64>,
    pending: bool,
    now: u64,
    reply: Result<ObservationBatch, Fault>,
)
    ensures
        r.call is None ==> !clocked(r, current, pending, now).2 && clocked(r, current, pending, now).0.observed == current,
        r.call is Some ==> (clocked(r, current, pending, now).2 <==> current is None || current != r.call->0.epoch),
        clocked(r, current, pending, now).2 ==> clocked(r, current, pending, now).0.state.view.coverage
            == Coverage::Unavailable,
        r.call is None && r.observed is Some && current != r.observed ==> clocked(
            r,
            current,
            pending,
            now,
        ).0.state.view.coverage == Coverage::Unavailable,
        r.call is None && current is None && !pending ==> clocked(r, current, pending, now).0.state.view.coverage
            == Coverage::Unavailable,
        clocked(r, current, pending, now).0.call == r.call && clocked(r, current, pending, now).0.next_poll == r.next_poll,
        r.call is Some && (current is None || current != r.call->0.epoch) ==> counted(r.call->0, current, reply) is Err,
        r.call is Some && r.call->0.timed_out ==> counted(r.call->0, current, reply) is Err,
        r.call is Some && current is Some && current == r.call->0.epoch && !r.call->0.timed_out ==> match reply {
            Ok(b) => counted(r.call->0, current, reply) == Ok::<BatchView, Fault>(b@),
            Err(f) => counted(r.call->0, current, reply) == Err::<BatchView, Fault>(f),
        },
{
}

// Discoveries.

/// A target that is not named in an incomplete inventory stays as it was, present or absent.
pub proof fn partial_inventories_remove_nothing(previous: u64)
    ensures
        next_epoch(previous, false, false) == Some(previous),
{
}

/// A settled inventory is shown as what it was: complete only if it says so and has no error,
/// with its error, or with a remark that it was partial.
pub proof fn inventories_are_shown_as_received(
    s: DiscoveryStateView,
    b: DiscoveryBatchView,
    additions: Seq<Seq<char>>,
    wall_ms: u64,
    accepting: bool,
)
    requires
        settled(s, b, additions, wall_ms, accepting).1 is None,
    ensures
        ({
            let v = settled(s, b, additions, wall_ms, accepting).0.view;
            &&& v.complete <==> b.complete && b.error is None
            &&& b.error is Some ==> v.last_error == b.error
            &&& b.error is None && b.complete ==> v.last_error is None
            &&& b.error is None && !b.complete ==> v.last_error is Some
            &&& v.last_received_at_ms == Some(wall_ms)
            &&& v.running == accepting
        }),
        forall|k: Seq<char>|
            additions.contains(k) || s.targets.contains_key(k) <==> #[trigger] settled(
                s,
                b,
                additions,
                wall_ms,
                accepting,
            ).0.targets.contains_key(k),
        additions.len() > 0 && s.sequence < u64::MAX ==> settled(s, b, additions, wall_ms, accepting).0.sequence == s.sequence
            + 1,
        additions.len() == 0 ==> settled(s, b, additions, wall_ms, accepting).0.sequence == s.sequence,
{
}

/// A refused inventory is shown as incomplete, with the reason, and changes no target.
pub proof fn refused_inventories_change_nothing(s: DiscoveryStateView, message: Seq<char>, accepting: bool)
    ensures
        rejected(s, message, accepting).targets == s.targets,
        rejected(s, message, accepting).sequence == s.sequence,
        !rejected(s, message, accepting).view.complete,
        message.len() <= 500 ==> rejected(s, message, accepting).view.last_error == Some(message),
        rejected(s, message, accepting).view.last_received_at_ms == s.view.last_received_at_ms,
{
}

/// What is written of an inventory is the next in its own sequence and raises no signal.
pub proof fn inventories_are_written_in_sequence(s: DiscoveryStateView, known: Seq<Seq<char>>, wall_ms: u64)
    ensures
        enrollment(s, known, wall_ms) is Err <==> s.sequence == u64::MAX,
        enrollment(s, known, wall_ms) is Ok ==> {
            let c = enrollment(s, known, wall_ms)->Ok_0;
            &&& c.monitor_id == "discovery."@ + s.config.id
            &&& c.sequence == s.sequence + 1
            &&& c.signals.len() == 0
            &&& c.now_ms == wall_ms
            &&& member(c.checkpoint, "binding"@) == Some(Tree::Text(s.binding))
        },
{
    reveal_strlit("schema_version");
    reveal_strlit("binding");
    reveal_strlit("keys");
    assert("schema_version"@.len() == 14 && "binding"@.len() == 7 && "keys"@.len() == 4);
}

// The engine.

/// Once the monitoring has stopped nothing is shown as running or as healthy, and the reason
/// is shown everywhere; it takes nothing more.
pub proof fn stopped_monitoring_shows_no_verdict(e: EngineView, error: Option<Seq<char>>, id: Seq<char>)
    ensures
        !closed_down(e, error).accepting,
        error is Some ==> closed_down(e, error).error == error,
        error is None ==> closed_down(e, error).error == e.error,
        e.views.contains_key(id) ==> {
            let v = closed_down(e, error).views[id];
            &&& closed_down(e, error).views.contains_key(id)
            &&& !v.running && v.health == TargetHealth::Unknown
            &&& error is Some ==> v.last_error == error
            &&& error is None ==> v.last_error == e.views[id].last_error
        },
        e.discoveries.contains_key(id) ==> closed_down(e, error).discoveries.contains_key(id) && !closed_down(
            e,
            error,
        ).discoveries[id].running,
{
}

/// Which failures of the incident store stop the monitoring: those after which it can no
/// longer be relied on.
pub proof fn lost_stores_stop_the_monitoring(f: IncidentFault)
    ensures
        is_fatal(f) <==> f is Io || f is Unavailable || f is Corrupt || f is Capacity,
        f is Conflict || f is Invalid || f is NotFound ==> !is_fatal(f),
{
}

/// Texts and truth values are ordered too: texts by their characters, and false before true.
pub proof fn rules_order_texts_and_truth_values(r: RuleView, value: Tree)
    requires
        resolved(value, r.pointer) is Some,
    ensures
        ({
            let seen = resolved(value, r.pointer)->0;
            &&& seen is Bool && r.value is Bool ==> {
                let a: int = if seen->Bool_0 { 1 } else { 0 };
                let b: int = if r.value->Bool_0 { 1 } else { 0 };
                verdict(r, value) == Ok::<bool, Fault>(
                    match r.operator {
                        RuleOperator::Eq => a == b,
                        RuleOperator::Ne => a != b,
                        RuleOperator::Gt => a > b,
                        RuleOperator::Ge => a >= b,
                        RuleOperator::Lt => a < b,
                        RuleOperator::Le => a <= b,
                    },
                )
            }
            &&& seen is Text && r.value is Text && byte_len(seen->Text_0) <= 4096 ==> {
                let a = seen->Text_0;
                let b = r.value->Text_0;
                verdict(r, value) == Ok::<bool, Fault>(
                    match r.operator {
                        RuleOperator::Eq => a == b,
                        RuleOperator::Ne => a != b,
                        RuleOperator::Gt => less(b, a),
                        RuleOperator::Ge => !less(a, b),
                        RuleOperator::Lt => less(a, b),
                        RuleOperator::Le => !less(b, a),
                    },
                )
            }
            &&& seen is Text && r.value is Text && byte_len(seen->Text_0) > 4096 ==> verdict(r, value) is Err
        }),
{
    let seen = resolved(value, r.pointer)->0;
    if seen is Text && r.value is Text {
        let a = seen->Text_0;
        let b = r.value->Text_0;
        less_irreflexive(a);
        less_irreflexive(b);
        less_total(a, b);
        if less(a, b) && less(b, a) {
            less_transitive(a, b, a);
        }
    }
}

/// A monitor that is published once the monitoring has stopped shows no verdict either.
pub proof fn late_publications_show_no_verdict(v: SnapshotView, error: Option<Seq<char>>)
    ensures
        published(v, true, error) == v,
        !published(v, false, error).running,
        published(v, false, error).health == TargetHealth::Unknown,
        error is Some ==> published(v, false, error).last_error == error,
        error is None ==> published(v, false, error).last_error == v.last_error,
        halted(v, error) == published(v, false, error),
{
}

/// A monitor begins with nothing known of its target: nothing was received, nothing is
/// counted, and it goes on where its checkpoint ends.
pub proof fn monitors_begin_without_a_verdict(d: DefinitionView, c: CheckpointView, sequence: u64, now: u64)
    ensures
        ({
            let s = begun(d, c, sequence, now);
            &&& s.config == d && s.checkpoint == c && s.committed_checkpoint == c && s.commit_sequence == sequence && s.started
                == now
            &&& s.view.id == d.id && s.view.target_id == d.target_id && s.view.source_id == d.source_id
            &&& s.view.health == TargetHealth::Unknown && s.view.freshness == Freshness::Missing && s.view.coverage
                == Coverage::Unknown
            &&& s.view.consecutive_failures == 0 && s.view.consecutive_successes == 0
            &&& s.view.last_value is None && s.view.last_error is None && s.view.last_received_at_ms is None
            &&& s.view.generation == c.generation && s.view.cursor == c.cursor
            &&& s.view.running
            &&& s.last_sample is None && s.coverage_problem is None
        }),
        fresh_checkpoint(d).generation is None && fresh_checkpoint(d).cursor is None && fresh_checkpoint(
            d,
        ).last_sequence is None && fresh_checkpoint(d).recent_ids.len() == 0 && fresh_checkpoint(
            d,
        ).retired_generations.len() == 0,
{
}

/// A request asks for the monitor's own target and source, from where the last batch ended,
/// with all of the configured parameters.
pub proof fn requests_go_on_from_the_checkpoint(s: StateView, key: Seq<char>)
    requires
        s.config.params is Object,
    ensures
        member(request_params(s), "target_id"@) == Some(Tree::Text(s.config.target_id)),
        member(request_params(s), "source_id"@) == Some(Tree::Text(s.config.source_id)),
        s.checkpoint.cursor is Some ==> member(request_params(s), "cursor"@) == Some(Tree::Text(s.checkpoint.cursor->0)),
        s.checkpoint.cursor is None ==> member(request_params(s), "cursor"@) == Some(Tree::Null),
        s.checkpoint.generation is Some ==> member(request_params(s), "generation"@) == Some(
            Tree::Text(s.checkpoint.generation->0),
        ),
        s.checkpoint.generation is None ==> member(request_params(s), "generation"@) == Some(Tree::Null),
        key != "target_id"@ && key != "source_id"@ && key != "cursor"@ && key != "generation"@ ==> member(
            request_params(s),
            key,
        ) == member(s.config.params, key),
{
    reveal_strlit("target_id");
    reveal_strlit("source_id");
    reveal_strlit("cursor");
    reveal_strlit("generation");
    assert("target_id"@.len() == 9 && "source_id"@.len() == 9 && "cursor"@.len() == 6
        && "generation"@.len() == 10 && "target_id"@[0] == 't' && "source_id"@[0] == 's');
}

} // verus!
