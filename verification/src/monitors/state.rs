//! What one monitor believes, and the signals that change it.
use super::batch::{
    batch_fault, checkpoint_tree, CheckpointView, SourceCheckpoint,
};
use super::rule::{rule_tree, verdict};
use super::{
    copied_opt, BatchCoverage, BatchView, Coverage, DefinitionView, Fault, Freshness, MonitorDefinition, MonitorError,
    ObservationBatch, ObservationRequest, ObservationSample, SampleView, TargetHealth, MAX_SAMPLES,
};
use crate::json::values::{empty_object, object, opt_json, text_or_null, text_value, with};
use crate::json::{encoded, group_json, trees, with_member, Json, Tree};
use crate::recovery::incidents::{
    signals_of, CommitView, IncidentKind, IncidentSignal, MonitorCommit, SignalCondition, SignalView,
};
use crate::text::{clip, clipped, copied, listed, opt, same, texts};
use vstd::prelude::*;

verus! {

broadcast use group_json;

/// What readers see of a monitor.
pub struct MonitorSnapshot {
    pub id: String,
    pub target_id: String,
    pub source_id: String,
    pub view_role: Option<String>,
    pub extension_id: String,
    pub contract: String,
    pub version: u32,
    pub method: String,
    pub health: TargetHealth,
    pub freshness: Freshness,
    pub coverage: Coverage,
    pub running: bool,
    pub last_received_at_ms: Option<u64>,
    pub last_sample_id: Option<String>,
    pub last_value: Option<Json>,
    pub sample_age_ms: Option<u64>,
    pub consecutive_failures: u32,
    pub consecutive_successes: u32,
    pub generation: Option<String>,
    pub cursor: Option<String>,
    pub last_error: Option<String>,
    pub interval_ms: u64,
}

pub struct SnapshotView {
    pub id: Seq<char>,
    pub target_id: Seq<char>,
    pub source_id: Seq<char>,
    pub view_role: Option<Seq<char>>,
    pub extension_id: Seq<char>,
    pub contract: Seq<char>,
    pub version: u32,
    pub method: Seq<char>,
    pub health: TargetHealth,
    pub freshness: Freshness,
    pub coverage: Coverage,
    pub running: bool,
    pub last_received_at_ms: Option<u64>,
    pub last_sample_id: Option<Seq<char>>,
    pub last_value: Option<Tree>,
    pub sample_age_ms: Option<u64>,
    pub consecutive_failures: u32,
    pub consecutive_successes: u32,
    pub generation: Option<Seq<char>>,
    pub cursor: Option<Seq<char>>,
    pub last_error: Option<Seq<char>>,
    pub interval_ms: u64,
}

pub open spec fn opt_tree(value: Option<Json>) -> Option<Tree> {
    match value {
        Some(v) => Some(v@),
        None => None,
    }
}

impl View for MonitorSnapshot {
    type V = SnapshotView;

    open spec fn view(&self) -> SnapshotView {
        SnapshotView {
            id: self.id@,
            target_id: self.target_id@,
            source_id: self.source_id@,
            view_role: opt(self.view_role),
            extension_id: self.extension_id@,
            contract: self.contract@,
            version: self.version,
            method: self.method@,
            health: self.health,
            freshness: self.freshness,
            coverage: self.coverage,
            running: self.running,
            last_received_at_ms: self.last_received_at_ms,
            last_sample_id: opt(self.last_sample_id),
            last_value: opt_tree(self.last_value),
            sample_age_ms: self.sample_age_ms,
            consecutive_failures: self.consecutive_failures,
            consecutive_successes: self.consecutive_successes,
            generation: opt(self.generation),
            cursor: opt(self.cursor),
            last_error: opt(self.last_error),
            interval_ms: self.interval_ms,
        }
    }
}

impl Clone for MonitorSnapshot {
    fn clone(&self) -> (r: Self)
        ensures
            r@ == self@,
    {
        MonitorSnapshot {
            id: self.id.clone(),
            target_id: self.target_id.clone(),
            source_id: self.source_id.clone(),
            view_role: copied_opt(&self.view_role),
            extension_id: self.extension_id.clone(),
            contract: self.contract.clone(),
            version: self.version,
            method: self.method.clone(),
            health: self.health,
            freshness: self.freshness,
            coverage: self.coverage,
            running: self.running,
            last_received_at_ms: self.last_received_at_ms,
            last_sample_id: copied_opt(&self.last_sample_id),
            last_value: match &self.last_value {
                Some(value) => Some(value.copy()),
                None => None,
            },
            sample_age_ms: self.sample_age_ms,
            consecutive_failures: self.consecutive_failures,
            consecutive_successes: self.consecutive_successes,
            generation: copied_opt(&self.generation),
            cursor: copied_opt(&self.cursor),
            last_error: copied_opt(&self.last_error),
            interval_ms: self.interval_ms,
        }
    }
}

/// One monitor at work. Moments are nanoseconds of a clock that never runs backwards.
pub struct MonitorState {
    pub config: MonitorDefinition,
    pub checkpoint: SourceCheckpoint,
    pub committed_checkpoint: SourceCheckpoint,
    pub commit_sequence: u64,
    pub view: MonitorSnapshot,
    pub started: u64,
    /// When the current sample came in, and its age in milliseconds at that moment.
    pub last_sample: Option<(u64, u64)>,
    pub coverage_problem: Option<String>,
}

pub struct StateView {
    pub config: DefinitionView,
    pub checkpoint: CheckpointView,
    pub committed_checkpoint: CheckpointView,
    pub commit_sequence: u64,
    pub view: SnapshotView,
    pub started: u64,
    pub last_sample: Option<(u64, u64)>,
    pub coverage_problem: Option<Seq<char>>,
}

impl View for MonitorState {
    type V = StateView;

    open spec fn view(&self) -> StateView {
        StateView {
            config: self.config@,
            checkpoint: self.checkpoint@,
            committed_checkpoint: self.committed_checkpoint@,
            commit_sequence: self.commit_sequence,
            view: self.view@,
            started: self.started,
            last_sample: self.last_sample,
            coverage_problem: opt(self.coverage_problem),
        }
    }
}

/// Whole milliseconds from one moment to a later one.
pub open spec fn elapsed_ms(then: u64, now: u64) -> u64 {
    if now > then { ((now - then) / 1000000) as u64 } else { 0 }
}

pub open spec fn grown(age: u64, more: u64) -> u64 {
    if age + more <= u64::MAX { (age + more) as u64 } else { u64::MAX }
}

pub open spec fn capped(n: u32, limit: u32) -> u32 {
    if n < limit { (n + 1) as u32 } else { limit }
}

/// What identifies a monitor's source; a stored checkpoint belongs to one binding.
pub open spec fn binding_tree(d: DefinitionView) -> Tree {
    Tree::Array(
        seq![
            Tree::Text(d.target_id),
            Tree::Text(d.source_id),
            Tree::Text(d.extension_id),
            Tree::Text(d.contract),
            Tree::Unsigned(d.version as u64),
            Tree::Text(d.method),
            d.params,
        ],
    )
}

pub open spec fn fresh_checkpoint(d: DefinitionView) -> CheckpointView {
    CheckpointView {
        binding: encoded(binding_tree(d)),
        generation: None,
        cursor: None,
        last_sequence: None,
        recent_ids: Seq::empty(),
        retired_generations: Seq::empty(),
    }
}

pub open spec fn first_snapshot(d: DefinitionView, c: CheckpointView) -> SnapshotView {
    SnapshotView {
        id: d.id,
        target_id: d.target_id,
        source_id: d.source_id,
        view_role: d.view_role,
        extension_id: d.extension_id,
        contract: d.contract,
        version: d.version,
        method: d.method,
        health: TargetHealth::Unknown,
        freshness: Freshness::Missing,
        coverage: Coverage::Unknown,
        running: true,
        last_received_at_ms: None,
        last_sample_id: None,
        last_value: None,
        sample_age_ms: None,
        consecutive_failures: 0,
        consecutive_successes: 0,
        generation: c.generation,
        cursor: c.cursor,
        last_error: None,
        interval_ms: d.interval_ms,
    }
}

/// A monitor that has observed nothing yet in this run.
pub open spec fn begun(d: DefinitionView, c: CheckpointView, commit_sequence: u64, now: u64) -> StateView {
    StateView {
        config: d,
        checkpoint: c,
        committed_checkpoint: c,
        commit_sequence,
        view: first_snapshot(d, c),
        started: now,
        last_sample: None,
        coverage_problem: None,
    }
}

pub open spec fn identity_changed(id: Seq<char>) -> Fault {
    Fault::Configuration("monitor "@ + id + " changed source identity; use a new monitor ID"@)
}

/// Parameters of the next observation call.
pub open spec fn request_params(s: StateView) -> Tree {
    let t = with_member(s.config.params, "target_id"@, Tree::Text(s.config.target_id));
    let t = with_member(t, "source_id"@, Tree::Text(s.config.source_id));
    let t = with_member(t, "cursor"@, text_or_null(s.checkpoint.cursor));
    with_member(t, "generation"@, text_or_null(s.checkpoint.generation))
}

pub open spec fn signal_of(
    s: StateView,
    kind: IncidentKind,
    condition: SignalCondition,
    summary: Seq<char>,
    evidence: Tree,
) -> SignalView {
    SignalView {
        monitor_id: s.config.id,
        target_id: s.config.target_id,
        rule_id: s.config.id,
        kind,
        condition,
        summary,
        evidence: with_member(evidence, "rule"@, rule_tree(s.config.rule)),
    }
}

pub open spec fn value_tree(value: Option<Tree>) -> Tree {
    match value {
        Some(v) => v,
        None => Tree::Null,
    }
}

/// What is known when a reason is recorded.
pub open spec fn state_evidence(s: StateView, reason: Seq<char>) -> Tree {
    let t = with_member(empty_object(), "reason"@, Tree::Text(reason));
    let t = with_member(t, "source_id"@, Tree::Text(s.config.source_id));
    let t = with_member(t, "generation"@, text_or_null(s.checkpoint.generation));
    let t = with_member(t, "cursor"@, text_or_null(s.checkpoint.cursor));
    let t = with_member(t, "sample_id"@, text_or_null(s.view.last_sample_id));
    with_member(t, "value"@, value_tree(s.view.last_value))
}

/// What one sample shows.
pub open spec fn sample_evidence(s: StateView, generation: Seq<char>, sample: SampleView, age: u64) -> Tree {
    let t = with_member(empty_object(), "source_id"@, Tree::Text(s.config.source_id));
    let t = with_member(t, "generation"@, Tree::Text(generation));
    let t = with_member(t, "sample_id"@, Tree::Text(sample.id));
    let t = with_member(t, "sequence"@, Tree::Unsigned(sample.sequence));
    let t = with_member(t, "age_ms"@, Tree::Unsigned(age));
    let t = with_member(t, "value"@, sample.value);
    with_member(t, "source_evidence"@, sample.evidence)
}

/// The state without a verdict on the target.
pub open spec fn unknown(s: StateView) -> StateView {
    StateView {
        view: SnapshotView { health: TargetHealth::Unknown, consecutive_failures: 0, consecutive_successes: 0, ..s.view },
        ..s
    }
}

/// The state and signals after coverage is lost for a reason.
pub open spec fn coverage_failed(s: StateView, reason: Seq<char>, coverage: Coverage) -> (StateView, Seq<SignalView>) {
    let reason = clipped(reason, 500);
    let target_changed = s.view.health != TargetHealth::Unknown;
    let changed = s.coverage_problem != Some(reason);
    let u = unknown(s);
    let next = StateView {
        view: SnapshotView { coverage, last_error: Some(reason), ..u.view },
        coverage_problem: Some(reason),
        ..u
    };
    let first = if changed {
        seq![signal_of(next, IncidentKind::Coverage, SignalCondition::Active, reason, state_evidence(next, reason))]
    } else {
        Seq::empty()
    };
    let second = if changed || target_changed {
        seq![
            signal_of(
                next,
                IncidentKind::Target,
                SignalCondition::Unknown,
                "target lacks current complete evidence"@,
                state_evidence(next, reason),
            ),
        ]
    } else {
        Seq::empty()
    };
    (next, first + second)
}

/// The state and signals after time has passed without a new observation.
pub open spec fn ticked(s: StateView, now: u64) -> (StateView, Seq<SignalView>) {
    match s.last_sample {
        Some((received, age)) => {
            let age = grown(age, elapsed_ms(received, now));
            let aged = StateView { view: SnapshotView { sample_age_ms: Some(age), ..s.view }, ..s };
            if age >= s.config.stale_after_ms {
                let stale = StateView { view: SnapshotView { freshness: Freshness::Stale, ..aged.view }, ..aged };
                if s.view.health != TargetHealth::Unknown || s.coverage_problem != Some("sample is stale"@) {
                    coverage_failed(stale, "sample is stale"@, s.view.coverage)
                } else {
                    (stale, Seq::empty())
                }
            } else {
                (aged, Seq::empty())
            }
        },
        None => if elapsed_ms(s.started, now) >= s.config.startup_grace_ms && s.coverage_problem != Some(
            "no fresh sample after startup grace"@,
        ) {
            coverage_failed(s, "no fresh sample after startup grace"@, s.view.coverage)
        } else {
            (s, Seq::empty())
        },
    }
}

/// The signals without the target clearances at the end that later evidence takes back.
pub open spec fn revoked(signals: Seq<SignalView>) -> Seq<SignalView>
    decreases signals.len(),
{
    if signals.len() == 0 {
        signals
    } else if signals.last().kind == IncidentKind::Target {
        if signals.last().condition == SignalCondition::Clear { revoked(signals.drop_last()) } else { signals }
    } else {
        revoked(signals.drop_last()).push(signals.last())
    }
}

/// The signals that do not concern coverage.
pub open spec fn target_only(signals: Seq<SignalView>) -> Seq<SignalView>
    decreases signals.len(),
{
    if signals.len() == 0 {
        signals
    } else if signals.last().kind == IncidentKind::Coverage {
        target_only(signals.drop_last())
    } else {
        target_only(signals.drop_last()).push(signals.last())
    }
}

pub open spec fn changes_generation(s: StateView, b: BatchView) -> bool {
    s.checkpoint.generation is Some && s.checkpoint.generation->0 != b.generation
}

/// A batch that can clear conditions.
pub open spec fn is_complete(s: StateView, b: BatchView) -> bool {
    b.coverage == BatchCoverage::Complete && !b.has_more && b.error is None && !changes_generation(s, b)
}

pub open spec fn pushed<T>(list: Seq<T>, item: T, limit: nat) -> Seq<T> {
    let longer = list.push(item);
    if longer.len() > limit { longer.drop_first() } else { longer }
}

/// The old generation retired, the new one current.
pub open spec fn switched(s: StateView, b: BatchView) -> StateView {
    if changes_generation(s, b) {
        let u = unknown(s);
        StateView {
            checkpoint: CheckpointView {
                retired_generations: pushed(s.checkpoint.retired_generations, s.checkpoint.generation->0, 16),
                last_sequence: None,
                recent_ids: Seq::empty(),
                generation: Some(b.generation),
                ..s.checkpoint
            },
            last_sample: None,
            view: SnapshotView { freshness: Freshness::Missing, ..u.view },
            ..u
        }
    } else {
        StateView { checkpoint: CheckpointView { generation: Some(b.generation), ..s.checkpoint }, ..s }
    }
}

pub open spec fn partial_reason(s: StateView, b: BatchView) -> Seq<char> {
    if changes_generation(s, b) {
        "source generation changed; continuity lost"@
    } else {
        match b.error {
            Some(e) => e,
            None => "observation coverage is partial"@,
        }
    }
}

/// A batch being taken in, sample by sample.
pub struct Intake {
    pub s: StateView,
    pub signals: Seq<SignalView>,
    pub fresh: bool,
    pub problem: Option<Seq<char>>,
}

/// A sample that was taken in before.
pub open spec fn seen(c: CheckpointView, sample: SampleView) -> bool {
    (c.last_sequence is Some && sample.sequence <= c.last_sequence->0) || c.recent_ids.contains(sample.id)
}

pub open spec fn marked(s: StateView, sample: SampleView) -> StateView {
    StateView {
        checkpoint: CheckpointView {
            last_sequence: Some(sample.sequence),
            recent_ids: pushed(s.checkpoint.recent_ids, sample.id, MAX_SAMPLES as nat),
            ..s.checkpoint
        },
        ..s
    }
}

/// The current sample replaced.
pub open spec fn sampled(s: StateView, sample: SampleView, age: u64, freshness: Freshness, now: u64) -> StateView {
    StateView {
        last_sample: Some((now, age)),
        view: SnapshotView {
            freshness,
            sample_age_ms: Some(age),
            last_sample_id: Some(sample.id),
            last_value: Some(sample.value),
            ..s.view
        },
        ..s
    }
}

pub open spec fn stale_intake(a: Intake, sample: SampleView, age: u64, now: u64) -> Intake {
    let u = unknown(a.s);
    Intake {
        s: if u.last_sample is None { sampled(u, sample, age, Freshness::Stale, now) } else { u },
        signals: revoked(a.signals),
        problem: Some("batch contains stale samples"@),
        ..a
    }
}

pub open spec fn healthy_intake(a: Intake, evidence: Tree) -> Intake {
    let successes = capped(a.s.view.consecutive_successes, a.s.config.rule.success_samples);
    let counted = StateView {
        view: SnapshotView { consecutive_failures: 0, consecutive_successes: successes, ..a.s.view },
        ..a.s
    };
    if successes >= a.s.config.rule.success_samples {
        Intake {
            s: StateView { view: SnapshotView { health: TargetHealth::Healthy, ..counted.view }, ..counted },
            signals: a.signals.push(
                signal_of(
                    counted,
                    IncidentKind::Target,
                    SignalCondition::Clear,
                    "fresh samples satisfy healthy rule"@,
                    evidence,
                ),
            ),
            ..a
        }
    } else {
        Intake { s: counted, ..a }
    }
}

pub open spec fn unhealthy_intake(a: Intake, evidence: Tree) -> Intake {
    let failures = capped(a.s.view.consecutive_failures, a.s.config.rule.failure_samples);
    let counted = StateView {
        view: SnapshotView { consecutive_successes: 0, consecutive_failures: failures, ..a.s.view },
        ..a.s
    };
    if failures >= a.s.config.rule.failure_samples {
        Intake {
            s: StateView { view: SnapshotView { health: TargetHealth::Unhealthy, ..counted.view }, ..counted },
            signals: a.signals.push(
                signal_of(
                    counted,
                    IncidentKind::Target,
                    SignalCondition::Active,
                    "fresh samples violate healthy rule"@,
                    evidence,
                ),
            ),
            ..a
        }
    } else {
        let health = if a.s.view.health == TargetHealth::Healthy { TargetHealth::Unknown } else { a.s.view.health };
        Intake {
            s: StateView { view: SnapshotView { health, ..counted.view }, ..counted },
            signals: revoked(a.signals).push(
                signal_of(
                    counted,
                    IncidentKind::Target,
                    SignalCondition::Unknown,
                    "unhealthy samples below fault threshold"@,
                    evidence,
                ),
            ),
            ..a
        }
    }
}

/// The intake after one more sample.
pub open spec fn absorbed(
    a: Intake,
    sample: SampleView,
    generation: Seq<char>,
    complete: bool,
    waited: u64,
    now: u64,
) -> Intake {
    if seen(a.s.checkpoint, sample) {
        a
    } else {
        let m = Intake { s: marked(a.s, sample), ..a };
        let age = grown(sample.age_ms, waited);
        if age >= a.s.config.stale_after_ms {
            stale_intake(m, sample, age, now)
        } else {
            match verdict(a.s.config.rule, sample.value) {
                Err(fault) => Intake {
                    s: unknown(m.s),
                    signals: revoked(m.signals),
                    problem: Some(super::fault_message(fault)),
                    ..m
                },
                Ok(healthy) => {
                    let f = Intake { s: sampled(m.s, sample, age, Freshness::Fresh, now), fresh: true, ..m };
                    let evidence = sample_evidence(f.s, generation, sample, age);
                    if healthy && complete {
                        healthy_intake(f, evidence)
                    } else if !healthy {
                        unhealthy_intake(f, evidence)
                    } else {
                        Intake {
                            s: StateView { view: SnapshotView { consecutive_successes: 0, ..f.s.view }, ..f.s },
                            ..f
                        }
                    }
                },
            }
        }
    }
}

/// The intake after the first `n` samples of a batch.
pub open spec fn intake(a: Intake, b: BatchView, n: nat, complete: bool, waited: u64, now: u64) -> Intake
    decreases n,
{
    if n == 0 {
        a
    } else {
        absorbed(intake(a, b, (n - 1) as nat, complete, waited, now), b.samples[n - 1], b.generation, complete, waited, now)
    }
}

/// The state and signals once all samples are in.
pub open spec fn concluded(a: Intake, b: BatchView, complete: bool) -> (StateView, Seq<SignalView>) {
    let s = StateView {
        checkpoint: CheckpointView { cursor: Some(b.next_cursor), ..a.s.checkpoint },
        view: SnapshotView {
            cursor: Some(b.next_cursor),
            generation: a.s.checkpoint.generation,
            consecutive_failures: if b.samples.len() == 0 { 0 } else { a.s.view.consecutive_failures },
            consecutive_successes: if b.samples.len() == 0 { 0 } else { a.s.view.consecutive_successes },
            ..a.s.view
        },
        ..a.s
    };
    match a.problem {
        Some(problem) => {
            let (next, more) = coverage_failed(s, problem, Coverage::Partial);
            (next, revoked(a.signals) + more)
        },
        None => if complete && a.fresh {
            let next = StateView {
                coverage_problem: None,
                view: SnapshotView { last_error: None, ..s.view },
                ..s
            };
            (
                next,
                target_only(a.signals).push(
                    signal_of(
                        next,
                        IncidentKind::Coverage,
                        SignalCondition::Clear,
                        "fresh complete observation restored coverage"@,
                        state_evidence(next, "fresh complete observation"@),
                    ),
                ),
            )
        } else {
            (s, a.signals)
        },
    }
}

pub open spec fn received(s: StateView, wall_ms: u64) -> StateView {
    StateView { view: SnapshotView { last_received_at_ms: Some(wall_ms), ..s.view }, ..s }
}

/// The intake before the first sample of a sound batch.
pub open spec fn opened(s: StateView, b: BatchView) -> Intake {
    let complete = is_complete(s, b);
    let w = switched(s, b);
    let covered = StateView {
        view: SnapshotView { coverage: if complete { Coverage::Complete } else { Coverage::Partial }, ..w.view },
        ..w
    };
    if complete {
        Intake { s: covered, signals: Seq::empty(), fresh: false, problem: None }
    } else {
        let (failed, signals) = coverage_failed(covered, partial_reason(s, b), Coverage::Partial);
        Intake { s: failed, signals, fresh: false, problem: None }
    }
}

/// The state after a batch, and its signals or why it was refused.
pub open spec fn accepted(s: StateView, b: BatchView, waited: u64, now: u64, wall_ms: u64) -> (
    StateView,
    Result<Seq<SignalView>, Fault>,
) {
    match batch_fault(s.config.target_id, s.config.source_id, s.checkpoint, b) {
        Some(fault) => (s, Err(fault)),
        None => {
            let r = received(s, wall_ms);
            if changes_generation(s, b) && s.checkpoint.retired_generations.contains(b.generation) {
                (r, Err(Fault::Observation("retired source generation replayed"@)))
            } else {
                let complete = is_complete(s, b);
                let (next, signals) = concluded(
                    intake(opened(r, b), b, b.samples.len(), complete, waited, now),
                    b,
                    complete,
                );
                (next, Ok(signals))
            }
        },
    }
}

/// The commit that makes a change durable, where there is a change.
pub open spec fn commit_of(s: StateView, signals: Seq<SignalView>, wall_ms: u64) -> Result<Option<CommitView>, Fault> {
    if signals.len() == 0 && s.checkpoint == s.committed_checkpoint {
        Ok(None)
    } else if s.commit_sequence == u64::MAX {
        Err(Fault::Runtime("monitor sequence exhausted"@))
    } else {
        Ok(
            Some(
                CommitView {
                    monitor_id: s.config.id,
                    sequence: (s.commit_sequence + 1) as u64,
                    checkpoint: checkpoint_tree(s.checkpoint),
                    signals,
                    now_ms: wall_ms,
                },
            ),
        )
    }
}

/// What is published: a stopped engine shows no verdict.
pub open spec fn published(view: SnapshotView, accepting: bool, error: Option<Seq<char>>) -> SnapshotView {
    if accepting {
        view
    } else {
        SnapshotView {
            running: false,
            health: TargetHealth::Unknown,
            last_error: if error is Some { error } else { view.last_error },
            ..view
        }
    }
}

// Executable steps.

fn elapsed(then: u64, now: u64) -> (r: u64)
    ensures
        r == elapsed_ms(then, now),
{
    if now > then { (now - then) / 1000000 } else { 0 }
}

fn grow(age: u64, more: u64) -> (r: u64)
    ensures
        r == grown(age, more),
{
    if age <= u64::MAX - more { age + more } else { u64::MAX }
}

fn count(n: u32, limit: u32) -> (r: u32)
    ensures
        r == capped(n, limit),
{
    if n < limit { n + 1 } else { limit }
}

pub fn binding(d: &MonitorDefinition) -> (r: String)
    ensures
        r@ == encoded(binding_tree(d@)),
{
    let mut items: Vec<Json> = Vec::new();
    items.push(text_value(&d.target_id));
    items.push(text_value(&d.source_id));
    items.push(text_value(&d.extension_id));
    items.push(text_value(&d.contract));
    items.push(Json::Unsigned(d.version as u64));
    items.push(text_value(&d.method));
    items.push(d.params.copy());
    assert(trees(items@) =~= binding_tree(d@)->Array_0);
    Json::Array(items).render()
}

impl SourceCheckpoint {
    /// The checkpoint of a source never read.
    pub fn new(d: &MonitorDefinition) -> (r: SourceCheckpoint)
        ensures
            r@ == fresh_checkpoint(d@),
    {
        let r = SourceCheckpoint {
            binding: binding(d),
            generation: None,
            cursor: None,
            last_sequence: None,
            recent_ids: Vec::new(),
            retired_generations: Vec::new(),
        };
        assert(r@.recent_ids =~= Seq::<Seq<char>>::empty());
        assert(r@.retired_generations =~= Seq::<Seq<char>>::empty());
        r
    }
}

/// Takes the trailing target clearances back.
pub fn revoke_pending_clears(signals: &mut Vec<IncidentSignal>)
    ensures
        signals_of(final(signals)@) == revoked(signals_of(old(signals)@)),
{
    let ghost before = signals_of(signals@);
    let mut kept: Vec<IncidentSignal> = Vec::new();
    let mut done = false;
    assert(signals_of(kept@).reverse() =~= Seq::<SignalView>::empty());
    while !done && signals.len() > 0
        invariant
            !done ==> revoked(before) == revoked(signals_of(signals@)) + signals_of(kept@).reverse(),
            done ==> revoked(before) == signals_of(signals@) + signals_of(kept@).reverse(),
        decreases (if done { 0int } else { 1int }), signals.len(),
    {
        let last: usize = signals.len() - 1;
        let ghost now = signals_of(signals@);
        assert(now.last() == signals@[last as int]@);
        assert(now.drop_last() =~= signals_of(signals@.drop_last()));
        if signals[last].kind == IncidentKind::Target {
            if signals[last].condition == SignalCondition::Clear {
                let gone = signals.pop();
            } else {
                done = true;
            }
        } else {
            let item = signals.pop();
            if let Some(item) = item {
                let ghost held = signals_of(kept@);
                kept.push(item);
                assert(signals_of(kept@) =~= held.push(item@));
                assert(held.push(item@).reverse() =~= seq![item@] + held.reverse());
                assert(revoked(now) + held.reverse() =~= revoked(now.drop_last()) + (seq![item@] + held.reverse()));
            }
        }
    }
    let ghost rest = signals_of(signals@);
    let ghost tail = signals_of(kept@).reverse();
    assert(!done ==> revoked(rest) =~= rest);
    while kept.len() > 0
        invariant
            revoked(before) == signals_of(signals@) + signals_of(kept@).reverse(),
        decreases kept.len(),
    {
        let ghost held = signals_of(kept@);
        let ghost now = signals_of(signals@);
        let item = kept.pop();
        if let Some(item) = item {
            assert(held =~= signals_of(kept@).push(item@));
            assert(held.reverse() =~= seq![item@] + signals_of(kept@).reverse());
            signals.push(item);
            assert(signals_of(signals@) =~= now.push(item@));
            assert(now + held.reverse() =~= now.push(item@) + signals_of(kept@).reverse());
        }
    }
    assert(signals_of(kept@).reverse() =~= Seq::<SignalView>::empty());
    assert(revoked(before) =~= signals_of(signals@));
}

fn without_coverage(signals: Vec<IncidentSignal>) -> (r: Vec<IncidentSignal>)
    ensures
        signals_of(r@) == target_only(signals_of(signals@)),
{
    let ghost all = signals_of(signals@);
    let mut rest = signals;
    let mut r: Vec<IncidentSignal> = Vec::new();
    let ghost mut n: int = 0;
    assert(signals_of(r@) =~= target_only(all.subrange(0, 0)));
    while rest.len() > 0
        invariant
            0 <= n <= all.len(),
            signals_of(rest@) == all.subrange(n, all.len() as int),
            signals_of(r@) == target_only(all.subrange(0, n)),
        decreases rest.len(),
    {
        let ghost left = signals_of(rest@);
        let ghost kept = signals_of(r@);
        let ghost first = rest@[0];
        let item = rest.remove(0);
        proof {
            assert(left[0] == first@);
            assert(left.len() == rest@.len() + 1);
            assert(all.subrange(0, n + 1).drop_last() =~= all.subrange(0, n));
            assert(all.subrange(0, n + 1).last() == item@);
            assert(signals_of(rest@) =~= left.subrange(1, left.len() as int));
            assert(left.subrange(1, left.len() as int) =~= all.subrange(n + 1, all.len() as int));
        }
        match item.kind {
            IncidentKind::Coverage => {},
            IncidentKind::Target => {
                r.push(item);
                assert(signals_of(r@) =~= kept.push(item@));
            },
        }
        proof {
            n = n + 1;
        }
    }
    assert(all.subrange(0, n) =~= all);
    r
}

fn extend(signals: &mut Vec<IncidentSignal>, more: Vec<IncidentSignal>)
    ensures
        signals_of(final(signals)@) == signals_of(old(signals)@) + signals_of(more@),
{
    let mut more = more;
    let ghost before = signals_of(signals@);
    let ghost added = signals_of(more@);
    signals.append(&mut more);
    assert(signals_of(signals@) =~= before + added);
}

impl MonitorState {
    pub fn new(config: MonitorDefinition, checkpoint: SourceCheckpoint, commit_sequence: u64, now: u64) -> (r: Self)
        ensures
            r@ == begun(config@, checkpoint@, commit_sequence, now),
    {
        let view = MonitorSnapshot {
            id: config.id.clone(),
            target_id: config.target_id.clone(),
            source_id: config.source_id.clone(),
            view_role: copied_opt(&config.view_role),
            extension_id: config.extension_id.clone(),
            contract: config.contract.clone(),
            version: config.version,
            method: config.method.clone(),
            health: TargetHealth::Unknown,
            freshness: Freshness::Missing,
            coverage: Coverage::Unknown,
            running: true,
            last_received_at_ms: None,
            last_sample_id: None,
            last_value: None,
            sample_age_ms: None,
            consecutive_failures: 0,
            consecutive_successes: 0,
            generation: copied_opt(&checkpoint.generation),
            cursor: copied_opt(&checkpoint.cursor),
            last_error: None,
            interval_ms: config.interval_ms,
        };
        MonitorState {
            config,
            committed_checkpoint: checkpoint.clone(),
            checkpoint,
            commit_sequence,
            view,
            started: now,
            last_sample: None,
            coverage_problem: None,
        }
    }

    /// A monitor that goes on from its stored checkpoint and sequence number, if it has one.
    pub fn restore(config: MonitorDefinition, stored: Option<(SourceCheckpoint, u64)>, now: u64) -> (r: Result<
        Self,
        MonitorError,
    >)
        ensures
            ({
                let checkpoint = match stored {
                    Some((c, _)) => c@,
                    None => fresh_checkpoint(config@),
                };
                let sequence = match stored {
                    Some((_, n)) => n,
                    None => 0,
                };
                match r {
                    Ok(s) => checkpoint.binding == encoded(binding_tree(config@)) && s@ == begun(
                        config@,
                        checkpoint,
                        sequence,
                        now,
                    ),
                    Err(e) => checkpoint.binding != encoded(binding_tree(config@)) && e@ == identity_changed(config@.id),
                }
            }),
    {
        let (checkpoint, sequence): (SourceCheckpoint, u64) = match stored {
            Some((checkpoint, sequence)) => (checkpoint, sequence),
            None => (SourceCheckpoint::new(&config), 0),
        };
        if !same(&checkpoint.binding, &binding(&config)) {
            let text = crate::text::joined("monitor ", &config.id);
            return Err(
                MonitorError::Configuration(
                    crate::text::joined(&text, " changed source identity; use a new monitor ID"),
                ),
            );
        }
        Ok(MonitorState::new(config, checkpoint, sequence, now))
    }

    /// The next observation call.
    pub fn request(&self) -> (r: ObservationRequest)
        ensures
            r.extension_id@ == self@.config.extension_id,
            r.contract@ == self@.config.contract,
            r.version == self@.config.version,
            r.method@ == self@.config.method,
            r.params@ == request_params(self@),
            r.timeout_ms == self@.config.timeout_ms,
    {
        let t = with(self.config.params.copy(), "target_id", text_value(&self.config.target_id));
        let t = with(t, "source_id", text_value(&self.config.source_id));
        let t = with(t, "cursor", opt_json(&self.checkpoint.cursor));
        let params = with(t, "generation", opt_json(&self.checkpoint.generation));
        ObservationRequest {
            extension_id: self.config.extension_id.clone(),
            contract: self.config.contract.clone(),
            version: self.config.version,
            method: self.config.method.clone(),
            params,
            timeout_ms: self.config.timeout_ms,
        }
    }

    fn signal(&self, kind: IncidentKind, condition: SignalCondition, summary: &str, evidence: Json) -> (r: IncidentSignal)
        ensures
            r@ == signal_of(self@, kind, condition, summary@, evidence@),
    {
        IncidentSignal {
            monitor_id: self.config.id.clone(),
            target_id: self.config.target_id.clone(),
            rule_id: self.config.id.clone(),
            kind,
            condition,
            summary: copied(summary),
            evidence: with(evidence, "rule", self.config.rule.to_json()),
        }
    }

    fn evidence(&self, reason: &str) -> (r: Json)
        ensures
            r@ == state_evidence(self@, reason@),
    {
        let value = match &self.view.last_value {
            Some(value) => value.copy(),
            None => Json::Null,
        };
        let t = with(object(), "reason", text_value(reason));
        let t = with(t, "source_id", text_value(&self.config.source_id));
        let t = with(t, "generation", opt_json(&self.checkpoint.generation));
        let t = with(t, "cursor", opt_json(&self.checkpoint.cursor));
        let t = with(t, "sample_id", opt_json(&self.view.last_sample_id));
        with(t, "value", value)
    }

    fn observed(&self, generation: &str, sample: &ObservationSample, age: u64) -> (r: Json)
        ensures
            r@ == sample_evidence(self@, generation@, sample@, age),
    {
        let t = with(object(), "source_id", text_value(&self.config.source_id));
        let t = with(t, "generation", text_value(generation));
        let t = with(t, "sample_id", text_value(&sample.id));
        let t = with(t, "sequence", Json::Unsigned(sample.sequence));
        let t = with(t, "age_ms", Json::Unsigned(age));
        let t = with(t, "value", sample.value.copy());
        with(t, "source_evidence", sample.evidence.copy())
    }

    fn forget(&mut self)
        ensures
            final(self)@ == unknown(old(self)@),
    {
        self.view.health = TargetHealth::Unknown;
        self.view.consecutive_failures = 0;
        self.view.consecutive_successes = 0;
    }

    /// Records that the target is no longer covered, and why.
    pub fn coverage_failure(&mut self, reason: &str, coverage: Coverage) -> (r: Vec<IncidentSignal>)
        ensures
            final(self)@ == coverage_failed(old(self)@, reason@, coverage).0,
            signals_of(r@) == coverage_failed(old(self)@, reason@, coverage).1,
    {
        let reason = clip(reason, 500);
        let target_changed = self.view.health != TargetHealth::Unknown;
        self.forget();
        self.view.coverage = coverage;
        self.view.last_error = Some(reason.clone());
        let changed = match &self.coverage_problem {
            Some(problem) => !same(problem, &reason),
            None => true,
        };
        self.coverage_problem = Some(reason.clone());
        let mut signals: Vec<IncidentSignal> = Vec::new();
        assert(signals_of(signals@) =~= Seq::<SignalView>::empty());
        if changed {
            let ghost before = signals_of(signals@);
            let s = self.signal(IncidentKind::Coverage, SignalCondition::Active, &reason, self.evidence(&reason));
            signals.push(s);
            assert(signals_of(signals@) =~= before.push(s@));
        }
        if changed || target_changed {
            let ghost before = signals_of(signals@);
            let s = self.signal(
                IncidentKind::Target,
                SignalCondition::Unknown,
                "target lacks current complete evidence",
                self.evidence(&reason),
            );
            signals.push(s);
            assert(signals_of(signals@) =~= before.push(s@));
        }
        proof {
            let expected = coverage_failed(old(self)@, reason@, coverage).1;
            assert(signals_of(signals@) =~= expected);
        }
        signals
    }

    fn troubled(&self, reason: &str) -> (r: bool)
        ensures
            r == (self@.coverage_problem == Some(reason@)),
    {
        match &self.coverage_problem {
            Some(problem) => same(problem, reason),
            None => false,
        }
    }

    /// Lets time pass.
    pub fn tick(&mut self, now: u64) -> (r: Vec<IncidentSignal>)
        ensures
            final(self)@ == ticked(old(self)@, now).0,
            signals_of(r@) == ticked(old(self)@, now).1,
    {
        let none: Vec<IncidentSignal> = Vec::new();
        assert(signals_of(none@) =~= Seq::<SignalView>::empty());
        match self.last_sample {
            Some((received, age)) => {
                let age = grow(age, elapsed(received, now));
                self.view.sample_age_ms = Some(age);
                if age >= self.config.stale_after_ms {
                    self.view.freshness = Freshness::Stale;
                    if self.view.health != TargetHealth::Unknown || !self.troubled("sample is stale") {
                        return self.coverage_failure("sample is stale", self.view.coverage);
                    }
                }
                none
            },
            None => {
                if elapsed(self.started, now) >= self.config.startup_grace_ms && !self.troubled(
                    "no fresh sample after startup grace",
                ) {
                    return self.coverage_failure("no fresh sample after startup grace", self.view.coverage);
                }
                none
            },
        }
    }

    fn changes(&self, batch: &ObservationBatch) -> (r: bool)
        ensures
            r == changes_generation(self@, batch@),
    {
        match &self.checkpoint.generation {
            Some(generation) => !same(generation, &batch.generation),
            None => false,
        }
    }

    fn switch(&mut self, batch: &ObservationBatch, changed: bool)
        requires
            changed == changes_generation(old(self)@, batch@),
        ensures
            final(self)@ == switched(old(self)@, batch@),
    {
        if changed {
            let ghost before = texts(self.checkpoint.retired_generations@);
            let previous = self.checkpoint.generation.take();
            if let Some(previous) = previous {
                self.checkpoint.retired_generations.push(previous);
                assert(texts(self.checkpoint.retired_generations@) =~= before.push(previous@));
                if self.checkpoint.retired_generations.len() > 16 {
                    let ghost longer = texts(self.checkpoint.retired_generations@);
                    let gone = self.checkpoint.retired_generations.remove(0);
                    assert(texts(self.checkpoint.retired_generations@) =~= longer.drop_first());
                }
            }
            self.checkpoint.last_sequence = None;
            self.checkpoint.recent_ids = Vec::new();
            assert(texts(self.checkpoint.recent_ids@) =~= Seq::<Seq<char>>::empty());
            self.last_sample = None;
            self.view.freshness = Freshness::Missing;
            self.forget();
        }
        self.checkpoint.generation = Some(batch.generation.clone());
    }

    fn known(&self, sample: &ObservationSample) -> (r: bool)
        ensures
            r == seen(self@.checkpoint, sample@),
    {
        let past = match self.checkpoint.last_sequence {
            Some(last) => sample.sequence <= last,
            None => false,
        };
        past || listed(&self.checkpoint.recent_ids, &sample.id)
    }

    fn mark(&mut self, sample: &ObservationSample)
        ensures
            final(self)@ == marked(old(self)@, sample@),
    {
        let ghost before = texts(self.checkpoint.recent_ids@);
        self.checkpoint.last_sequence = Some(sample.sequence);
        self.checkpoint.recent_ids.push(sample.id.clone());
        assert(texts(self.checkpoint.recent_ids@) =~= before.push(sample.id@));
        if self.checkpoint.recent_ids.len() > MAX_SAMPLES {
            let ghost longer = texts(self.checkpoint.recent_ids@);
            let gone = self.checkpoint.recent_ids.remove(0);
            assert(texts(self.checkpoint.recent_ids@) =~= longer.drop_first());
        }
    }

    fn show(&mut self, sample: &ObservationSample, age: u64, freshness: Freshness, now: u64)
        ensures
            final(self)@ == sampled(old(self)@, sample@, age, freshness, now),
    {
        self.last_sample = Some((now, age));
        self.view.freshness = freshness;
        self.view.sample_age_ms = Some(age);
        self.view.last_sample_id = Some(sample.id.clone());
        self.view.last_value = Some(sample.value.copy());
    }

    fn succeed(&mut self, signals: &mut Vec<IncidentSignal>, evidence: Json, Ghost(a): Ghost<Intake>)
        requires
            a.s == old(self)@,
            a.signals == signals_of(old(signals)@),
        ensures
            healthy_intake(a, evidence@) == (Intake { s: final(self)@, signals: signals_of(final(signals)@), ..a }),
    {
        self.view.consecutive_failures = 0;
        self.view.consecutive_successes = count(self.view.consecutive_successes, self.config.rule.success_samples);
        if self.view.consecutive_successes >= self.config.rule.success_samples {
            let s = self.signal(
                IncidentKind::Target,
                SignalCondition::Clear,
                "fresh samples satisfy healthy rule",
                evidence,
            );
            self.view.health = TargetHealth::Healthy;
            signals.push(s);
            assert(signals_of(signals@) =~= a.signals.push(s@));
        }
    }

    fn fail(&mut self, signals: &mut Vec<IncidentSignal>, evidence: Json, Ghost(a): Ghost<Intake>)
        requires
            a.s == old(self)@,
            a.signals == signals_of(old(signals)@),
        ensures
            unhealthy_intake(a, evidence@) == (Intake { s: final(self)@, signals: signals_of(final(signals)@), ..a }),
    {
        self.view.consecutive_successes = 0;
        self.view.consecutive_failures = count(self.view.consecutive_failures, self.config.rule.failure_samples);
        if self.view.consecutive_failures >= self.config.rule.failure_samples {
            let s = self.signal(
                IncidentKind::Target,
                SignalCondition::Active,
                "fresh samples violate healthy rule",
                evidence,
            );
            self.view.health = TargetHealth::Unhealthy;
            signals.push(s);
            assert(signals_of(signals@) =~= a.signals.push(s@));
        } else {
            let s = self.signal(
                IncidentKind::Target,
                SignalCondition::Unknown,
                "unhealthy samples below fault threshold",
                evidence,
            );
            revoke_pending_clears(signals);
            if self.view.health == TargetHealth::Healthy {
                self.view.health = TargetHealth::Unknown;
            }
            let ghost before = signals_of(signals@);
            signals.push(s);
            assert(signals_of(signals@) =~= before.push(s@));
        }
    }

    /// Takes one sample in; tells whether it was fresh, and what was wrong with it.
    fn absorb(
        &mut self,
        sample: &ObservationSample,
        generation: &str,
        complete: bool,
        waited: u64,
        now: u64,
        signals: &mut Vec<IncidentSignal>,
        fresh: &mut bool,
        problem: &mut Option<String>,
    )
        ensures
            ({
                let a = Intake {
                    s: old(self)@,
                    signals: signals_of(old(signals)@),
                    fresh: *old(fresh),
                    problem: opt(*old(problem)),
                };
                absorbed(a, sample@, generation@, complete, waited, now) == (Intake {
                    s: final(self)@,
                    signals: signals_of(final(signals)@),
                    fresh: *final(fresh),
                    problem: opt(*final(problem)),
                })
            }),
    {
        if self.known(sample) {
            return;
        }
        self.mark(sample);
        let age = grow(sample.age_ms, waited);
        if age >= self.config.stale_after_ms {
            self.forget();
            revoke_pending_clears(signals);
            *problem = Some(copied("batch contains stale samples"));
            // Historical data can be retained in evidence, never refresh a current sample.
            if self.last_sample.is_none() {
                self.show(sample, age, Freshness::Stale, now);
            }
            return;
        }
        let healthy = match self.config.rule.evaluate(&sample.value) {
            Ok(healthy) => healthy,
            Err(error) => {
                *problem = Some(error.message());
                self.forget();
                revoke_pending_clears(signals);
                return;
            },
        };
        *fresh = true;
        self.show(sample, age, Freshness::Fresh, now);
        let evidence = self.observed(generation, sample, age);
        let ghost a = Intake { s: self@, signals: signals_of(signals@), fresh: *fresh, problem: opt(*problem) };
        if healthy && complete {
            self.succeed(signals, evidence, Ghost(a));
        } else if !healthy {
            self.fail(signals, evidence, Ghost(a));
        } else {
            self.view.consecutive_successes = 0;
        }
    }

    fn begin(&mut self, batch: &ObservationBatch, changed: bool, complete: bool) -> (r: Vec<IncidentSignal>)
        requires
            changed == changes_generation(old(self)@, batch@),
            complete == is_complete(old(self)@, batch@),
        ensures
            opened(old(self)@, batch@) == (Intake { s: final(self)@, signals: signals_of(r@), fresh: false, problem: None }),
    {
        self.switch(batch, changed);
        self.view.coverage = if complete { Coverage::Complete } else { Coverage::Partial };
        if complete {
            let none: Vec<IncidentSignal> = Vec::new();
            assert(signals_of(none@) =~= Seq::<SignalView>::empty());
            return none;
        }
        let reason = if changed {
            copied("source generation changed; continuity lost")
        } else {
            match &batch.error {
                Some(error) => error.clone(),
                None => copied("observation coverage is partial"),
            }
        };
        self.coverage_failure(&reason, Coverage::Partial)
    }

    fn conclude(
        &mut self,
        signals: Vec<IncidentSignal>,
        batch: &ObservationBatch,
        complete: bool,
        fresh: bool,
        problem: Option<String>,
    ) -> (r: Vec<IncidentSignal>)
        ensures
            ({
                let a = Intake { s: old(self)@, signals: signals_of(signals@), fresh, problem: opt(problem) };
                concluded(a, batch@, complete) == (final(self)@, signals_of(r@))
            }),
    {
        let mut signals = signals;
        assert(batch@.samples.len() == batch.samples@.len());
        if batch.samples.len() == 0 {
            self.view.consecutive_failures = 0;
            self.view.consecutive_successes = 0;
        }
        self.checkpoint.cursor = Some(batch.next_cursor.clone());
        self.view.cursor = copied_opt(&self.checkpoint.cursor);
        self.view.generation = copied_opt(&self.checkpoint.generation);
        if let Some(problem) = problem {
            revoke_pending_clears(&mut signals);
            let more = self.coverage_failure(&problem, Coverage::Partial);
            extend(&mut signals, more);
        } else if complete && fresh {
            self.coverage_problem = None;
            self.view.last_error = None;
            signals = without_coverage(signals);
            let ghost before = signals_of(signals@);
            let s = self.signal(
                IncidentKind::Coverage,
                SignalCondition::Clear,
                "fresh complete observation restored coverage",
                self.evidence("fresh complete observation"),
            );
            signals.push(s);
            assert(signals_of(signals@) =~= before.push(s@));
        }
        signals
    }

    /// Takes in a batch that arrived `waited` milliseconds after the call began.
    pub fn accept(&mut self, batch: ObservationBatch, waited: u64, now: u64, wall_ms: u64) -> (r: Result<
        Vec<IncidentSignal>,
        MonitorError,
    >)
        ensures
            final(self)@ == accepted(old(self)@, batch@, waited, now, wall_ms).0,
            match r {
                Ok(signals) => accepted(old(self)@, batch@, waited, now, wall_ms).1 == Ok::<Seq<SignalView>, Fault>(
                    signals_of(signals@),
                ),
                Err(e) => accepted(old(self)@, batch@, waited, now, wall_ms).1 == Err::<Seq<SignalView>, Fault>(e@),
            },
    {
        let ghost s0 = self@;
        let ghost b = batch@;
        if let Err(e) = batch.check(&self.config.target_id, &self.config.source_id, &self.checkpoint) {
            return Err(e);
        }
        self.view.last_received_at_ms = Some(wall_ms);
        let ghost r0 = self@;
        let changed = self.changes(&batch);
        if changed && listed(&self.checkpoint.retired_generations, &batch.generation) {
            return Err(MonitorError::Observation(copied("retired source generation replayed")));
        }
        let complete = batch.coverage == BatchCoverage::Complete && !batch.has_more && batch.error.is_none() && !changed;
        let mut signals = self.begin(&batch, changed, complete);
        let mut fresh = false;
        let mut problem: Option<String> = None;
        let ghost a0 = opened(r0, b);
        assert(a0 == (Intake { s: self@, signals: signals_of(signals@), fresh, problem: opt(problem) }));
        let mut i: usize = 0;
        while i < batch.samples.len()
            invariant
                i <= batch.samples.len(),
                b == batch@,
                intake(a0, b, i as nat, complete, waited, now) == (Intake {
                    s: self@,
                    signals: signals_of(signals@),
                    fresh,
                    problem: opt(problem),
                }),
            decreases batch.samples.len() - i,
        {
            assert(b.samples[i as int] == batch.samples@[i as int]@);
            self.absorb(&batch.samples[i], &batch.generation, complete, waited, now, &mut signals, &mut fresh, &mut problem);
            i = i + 1;
        }
        Ok(self.conclude(signals, &batch, complete, fresh, problem))
    }

    /// The commit that makes the state durable with its signals; none where nothing changed.
    pub fn plan_commit(&self, signals: Vec<IncidentSignal>, wall_ms: u64) -> (r: Result<Option<MonitorCommit>, MonitorError>)
        ensures
            match r {
                Ok(Some(c)) => commit_of(self@, signals_of(signals@), wall_ms) == Ok::<Option<CommitView>, Fault>(Some(c@)),
                Ok(None) => commit_of(self@, signals_of(signals@), wall_ms) == Ok::<Option<CommitView>, Fault>(None),
                Err(e) => commit_of(self@, signals_of(signals@), wall_ms) == Err::<Option<CommitView>, Fault>(e@),
            },
    {
        if signals.len() == 0 && self.checkpoint.equals(&self.committed_checkpoint) {
            return Ok(None);
        }
        if self.commit_sequence == u64::MAX {
            return Err(MonitorError::Runtime(copied("monitor sequence exhausted")));
        }
        Ok(
            Some(
                MonitorCommit {
                    monitor_id: self.config.id.clone(),
                    sequence: self.commit_sequence + 1,
                    checkpoint: self.checkpoint.to_json(),
                    signals,
                    now_ms: wall_ms,
                },
            ),
        )
    }

    /// Notes that a planned commit has become durable.
    pub fn committed(&mut self, sequence: u64)
        ensures
            final(self)@ == (StateView {
                commit_sequence: sequence,
                committed_checkpoint: old(self)@.checkpoint,
                ..old(self)@
            }),
    {
        self.commit_sequence = sequence;
        self.committed_checkpoint = self.checkpoint.clone();
    }

    /// The snapshot to publish.
    pub fn publish(&self, accepting: bool, error: &Option<String>) -> (r: MonitorSnapshot)
        ensures
            r@ == published(self@.view, accepting, opt(*error)),
    {
        let mut view = self.view.clone();
        if !accepting {
            view.running = false;
            view.health = TargetHealth::Unknown;
            if let Some(error) = error {
                view.last_error = Some(error.clone());
            }
        }
        view
    }
}

} // verus!
