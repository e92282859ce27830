//! What holds of monitoring whatever the sources say.
use super::batch::{batch_fault, sample_fault, CheckpointView};
use super::config::{is_key, keyed_id};
use super::discovery::{
    admission_fault, enrollment, expected, extended, inventory_checkpoint_tree, inventory_tree, joined_targets,
    known_after, lists, moved_targets, next_epoch, recorded, restored, settled, DiscoveryBatchView,
    DiscoveryStateView, InventoryView,
};
use super::engine::{closed_down, EngineView};
use super::schedule::{call_invalid, counted, ended, replied, Call, RunnerView};
use super::state::{
    absorbed, accepted, changes_generation, commit_of, coverage_failed, elapsed_ms, grown, intake, is_complete, opened,
    published, received, revoked, seen, target_only, ticked, Intake, SnapshotView, StateView,
};
use super::{
    BatchCoverage, BatchView, Coverage, DiscoveryView, Fault, Freshness, ObservationBatch, RuleOperator, RuleView, SampleView, TargetHealth,
    MAX_SAMPLES,
};
use super::rule::verdict;
use crate::json::laws::{at_scale, exact_numbers_are_small, fits_scale, numbers_compare_by_value};
use crate::json::{alike, alike_reflexive, encoded, resolved, Tree};
use crate::recovery::incidents::store::{committed, installation, planned, reservation, StoreView};
use crate::recovery::incidents::{EventView, IncidentKind, SignalCondition, SignalView};
use crate::text::{byte_len, clipped, less_irreflexive};
use vstd::arithmetic::power2::pow2;
use vstd::prelude::*;

verus! {

/// Losing coverage always leaves the target without a verdict and without counts.
pub proof fn lost_coverage_means_unknown(s: StateView, reason: Seq<char>, coverage: Coverage)
    ensures
        coverage_failed(s, reason, coverage).0.view.health == TargetHealth::Unknown,
        coverage_failed(s, reason, coverage).0.view.consecutive_failures == 0,
        coverage_failed(s, reason, coverage).0.view.consecutive_successes == 0,
        coverage_failed(s, reason, coverage).0.checkpoint == s.checkpoint,
        coverage_failed(s, reason, coverage).0.config == s.config,
{
}

/// Losing coverage for the same reason again says nothing new.
pub proof fn lost_coverage_is_said_once(s: StateView, reason: Seq<char>, c: Coverage, d: Coverage)
    ensures
        coverage_failed(coverage_failed(s, reason, c).0, reason, d).1.len() == 0,
{
}

/// A second look at the clocks at the same moment signals nothing.
pub proof fn ticks_signal_once(s: StateView, now: u64)
    ensures
        ticked(ticked(s, now).0, now).1.len() == 0,
{
    reveal_strlit("sample is stale");
    reveal_strlit("no fresh sample after startup grace");
    assert(clipped("sample is stale"@, 500) =~= "sample is stale"@);
    assert(clipped("no fresh sample after startup grace"@, 500) =~= "no fresh sample after startup grace"@);
}

/// Time alone never makes a target healthy or unhealthy, and never refreshes a sample.
pub proof fn time_only_removes_verdicts(s: StateView, now: u64)
    ensures
        ticked(s, now).0.view.health == s.view.health || ticked(s, now).0.view.health == TargetHealth::Unknown,
        ticked(s, now).0.view.freshness == s.view.freshness || ticked(s, now).0.view.freshness == Freshness::Stale,
        ticked(s, now).0.checkpoint == s.checkpoint,
{
}

/// Once a sample has aged past its limit, the next look leaves no verdict.
pub proof fn stale_samples_carry_no_verdict(s: StateView, now: u64)
    requires
        s.last_sample is Some,
        ({
            let (at, age) = s.last_sample->0;
            grown(age, elapsed_ms(at, now)) >= s.config.stale_after_ms
        }),
    ensures
        ticked(s, now).0.view.health == TargetHealth::Unknown,
        ticked(s, now).0.view.freshness == Freshness::Stale,
{
}

/// What an intake keeps when the batch cannot clear anything.
spec fn uncleared(a: Intake) -> bool {
    &&& a.s.view.health != TargetHealth::Healthy
    &&& a.s.view.coverage == Coverage::Partial
    &&& a.s.view.consecutive_successes == 0
    &&& forall|i: int| 0 <= i < a.signals.len() ==> (#[trigger] a.signals[i]).condition != SignalCondition::Clear
}

proof fn revoked_keeps(signals: Seq<SignalView>)
    ensures
        forall|i: int|
            0 <= i < revoked(signals).len() ==> signals.contains(#[trigger] revoked(signals)[i]),
    decreases signals.len(),
{
    if signals.len() > 0 {
        let front = signals.drop_last();
        revoked_keeps(front);
        assert forall|i: int| 0 <= i < revoked(signals).len() implies signals.contains(#[trigger] revoked(signals)[i]) by {
            let x = revoked(signals)[i];
            if signals.last().kind != IncidentKind::Target {
                if i < revoked(front).len() {
                    assert(revoked(front)[i] == x);
                    assert(front.contains(x));
                    let j = choose|j: int| 0 <= j < front.len() && front[j] == x;
                    assert(signals[j] == x);
                } else {
                    assert(signals[signals.len() - 1] == x);
                }
            } else if signals.last().condition == SignalCondition::Clear {
                assert(front.contains(x));
                let j = choose|j: int| 0 <= j < front.len() && front[j] == x;
                assert(signals[j] == x);
            }
        }
    }
}

proof fn uncleared_step(a: Intake, sample: SampleView, generation: Seq<char>, waited: u64, now: u64)
    requires
        uncleared(a),
    ensures
        uncleared(absorbed(a, sample, generation, false, waited, now)),
{
    revoked_keeps(a.signals);
    let r = revoked(a.signals);
    assert forall|i: int| 0 <= i < r.len() implies (#[trigger] r[i]).condition != SignalCondition::Clear by {
        assert(a.signals.contains(r[i]));
    }
}

proof fn uncleared_all(a: Intake, b: BatchView, n: nat, waited: u64, now: u64)
    requires
        uncleared(a),
    ensures
        uncleared(intake(a, b, n, false, waited, now)),
    decreases n,
{
    if n > 0 {
        uncleared_all(a, b, (n - 1) as nat, waited, now);
        uncleared_step(
            intake(a, b, (n - 1) as nat, false, waited, now),
            b.samples[n - 1],
            b.generation,
            waited,
            now,
        );
    }
}

/// Only a complete batch of the current generation makes a target healthy, counts a
/// success or clears a condition; any other leaves coverage partial.
pub proof fn only_complete_batches_clear(s: StateView, b: BatchView, waited: u64, now: u64, wall_ms: u64)
    requires
        accepted(s, b, waited, now, wall_ms).1 is Ok,
        !is_complete(s, b),
    ensures
        accepted(s, b, waited, now, wall_ms).0.view.health != TargetHealth::Healthy,
        accepted(s, b, waited, now, wall_ms).0.view.coverage == Coverage::Partial,
        accepted(s, b, waited, now, wall_ms).0.view.consecutive_successes == 0,
        forall|i: int|
            0 <= i < accepted(s, b, waited, now, wall_ms).1->Ok_0.len() ==> (#[trigger] accepted(
                s,
                b,
                waited,
                now,
                wall_ms,
            ).1->Ok_0[i]).condition != SignalCondition::Clear,
{
    let r = received(s, wall_ms);
    let a = opened(r, b);
    assert(uncleared(a));
    uncleared_all(a, b, b.samples.len(), waited, now);
    let end = intake(a, b, b.samples.len(), false, waited, now);
    revoked_keeps(end.signals);
    let kept = revoked(end.signals);
    assert forall|i: int| 0 <= i < kept.len() implies (#[trigger] kept[i]).condition != SignalCondition::Clear by {
        assert(end.signals.contains(kept[i]));
    }
}

/// Counts stay within the rule's thresholds, and source memory within its limits.
pub open spec fn bounded(s: StateView) -> bool {
    &&& s.view.consecutive_failures <= s.config.rule.failure_samples
    &&& s.view.consecutive_successes <= s.config.rule.success_samples
    &&& s.checkpoint.recent_ids.len() <= MAX_SAMPLES
    &&& s.checkpoint.retired_generations.len() <= 16
}

proof fn bounded_all(a: Intake, b: BatchView, n: nat, complete: bool, waited: u64, now: u64)
    requires
        bounded(a.s),
    ensures
        bounded(intake(a, b, n, complete, waited, now).s),
        intake(a, b, n, complete, waited, now).s.config == a.s.config,
    decreases n,
{
    if n > 0 {
        bounded_all(a, b, (n - 1) as nat, complete, waited, now);
    }
}

/// No batch makes a monitor's memory grow beyond its limits.
pub proof fn memory_stays_bounded(s: StateView, b: BatchView, waited: u64, now: u64, wall_ms: u64)
    requires
        bounded(s),
    ensures
        bounded(accepted(s, b, waited, now, wall_ms).0),
{
    let r = received(s, wall_ms);
    if accepted(s, b, waited, now, wall_ms).1 is Ok {
        bounded_all(opened(r, b), b, b.samples.len(), is_complete(s, b), waited, now);
    }
}

proof fn memory_of_samples(a: Intake, b: BatchView, n: nat, complete: bool, waited: u64, now: u64)
    requires
        n <= b.samples.len(),
        forall|i: int| 0 <= i < b.samples.len() ==> seen(a.s.checkpoint, #[trigger] b.samples[i]),
    ensures
        intake(a, b, n, complete, waited, now) == a,
    decreases n,
{
    if n > 0 {
        memory_of_samples(a, b, (n - 1) as nat, complete, waited, now);
        assert(seen(a.s.checkpoint, b.samples[n - 1]));
    }
}

/// Samples taken in before are never counted again: a complete batch that only repeats
/// them changes no verdict, no count and no last sample, and signals nothing. Only the
/// cursor moves on. A batch without samples ends both counts.
pub proof fn repeated_samples_count_once(s: StateView, b: BatchView, waited: u64, now: u64, wall_ms: u64)
    requires
        is_complete(s, b),
        batch_fault(s.config.target_id, s.config.source_id, s.checkpoint, b) is None,
        forall|i: int| 0 <= i < b.samples.len() ==> seen(s.checkpoint, #[trigger] b.samples[i]),
    ensures
        accepted(s, b, waited, now, wall_ms).1 == Ok::<Seq<SignalView>, Fault>(Seq::empty()),
        accepted(s, b, waited, now, wall_ms).0.view.health == s.view.health,
        accepted(s, b, waited, now, wall_ms).0.view.freshness == s.view.freshness,
        accepted(s, b, waited, now, wall_ms).0.view.coverage == Coverage::Complete,
        accepted(s, b, waited, now, wall_ms).0.view.last_sample_id == s.view.last_sample_id,
        accepted(s, b, waited, now, wall_ms).0.view.last_value == s.view.last_value,
        accepted(s, b, waited, now, wall_ms).0.view.sample_age_ms == s.view.sample_age_ms,
        accepted(s, b, waited, now, wall_ms).0.view.last_error == s.view.last_error,
        accepted(s, b, waited, now, wall_ms).0.view.cursor == Some(b.next_cursor),
        accepted(s, b, waited, now, wall_ms).0.view.consecutive_failures == if b.samples.len() == 0 {
            0
        } else {
            s.view.consecutive_failures
        },
        accepted(s, b, waited, now, wall_ms).0.view.consecutive_successes == if b.samples.len() == 0 {
            0
        } else {
            s.view.consecutive_successes
        },
        accepted(s, b, waited, now, wall_ms).0.last_sample == s.last_sample,
        accepted(s, b, waited, now, wall_ms).0.coverage_problem == s.coverage_problem,
        accepted(s, b, waited, now, wall_ms).0.checkpoint == (CheckpointView {
            generation: Some(b.generation),
            cursor: Some(b.next_cursor),
            ..s.checkpoint
        }),
{
    let r = received(s, wall_ms);
    let a = opened(r, b);
    assert(a.s.checkpoint.last_sequence == s.checkpoint.last_sequence);
    assert(a.s.checkpoint.recent_ids == s.checkpoint.recent_ids);
    memory_of_samples(a, b, b.samples.len(), true, waited, now);
}

spec fn not_before(later: Option<u64>, earlier: Option<u64>) -> bool {
    earlier is Some ==> later is Some && later->0 >= earlier->0
}

proof fn sequences_rise(a: Intake, b: BatchView, n: nat, complete: bool, waited: u64, now: u64)
    ensures
        not_before(intake(a, b, n, complete, waited, now).s.checkpoint.last_sequence, a.s.checkpoint.last_sequence),
        intake(a, b, n, complete, waited, now).s.checkpoint.generation == a.s.checkpoint.generation,
        intake(a, b, n, complete, waited, now).s.checkpoint.retired_generations == a.s.checkpoint.retired_generations,
    decreases n,
{
    if n > 0 {
        sequences_rise(a, b, (n - 1) as nat, complete, waited, now);
    }
}

/// Within a generation the sequence number last taken in never falls.
pub proof fn sequence_never_falls(s: StateView, b: BatchView, waited: u64, now: u64, wall_ms: u64)
    requires
        !changes_generation(s, b),
        s.checkpoint.last_sequence is Some,
    ensures
        accepted(s, b, waited, now, wall_ms).0.checkpoint.last_sequence is Some,
        accepted(s, b, waited, now, wall_ms).0.checkpoint.last_sequence->0 >= s.checkpoint.last_sequence->0,
{
    let r = received(s, wall_ms);
    sequences_rise(opened(r, b), b, b.samples.len(), is_complete(s, b), waited, now);
}

/// A generation once left is remembered as retired right after the change, and a
/// retired generation is refused.
pub proof fn generations_do_not_come_back(s: StateView, b: BatchView, waited: u64, now: u64, wall_ms: u64)
    requires
        changes_generation(s, b),
    ensures
        accepted(s, b, waited, now, wall_ms).1 is Ok ==> accepted(
            s,
            b,
            waited,
            now,
            wall_ms,
        ).0.checkpoint.retired_generations.contains(s.checkpoint.generation->0),
        s.checkpoint.retired_generations.contains(b.generation) ==> accepted(s, b, waited, now, wall_ms).1 is Err,
{
    let r = received(s, wall_ms);
    if accepted(s, b, waited, now, wall_ms).1 is Ok {
        let a = opened(r, b);
        let list = a.s.checkpoint.retired_generations;
        assert(list[list.len() - 1] == s.checkpoint.generation->0);
        sequences_rise(a, b, b.samples.len(), is_complete(s, b), waited, now);
    }
}

/// A refused batch leaves the checkpoint where it was.
pub proof fn refused_batches_move_nothing(s: StateView, b: BatchView, waited: u64, now: u64, wall_ms: u64)
    requires
        accepted(s, b, waited, now, wall_ms).1 is Err,
    ensures
        accepted(s, b, waited, now, wall_ms).0.checkpoint == s.checkpoint,
        accepted(s, b, waited, now, wall_ms).0.view.health == s.view.health,
{
}

/// A reply that came too late, or for a target whose presence changed meanwhile, is not
/// taken in: the checkpoint stays and the target has no verdict.
pub proof fn late_replies_do_not_count(
    r: RunnerView,
    call: Call,
    reply: Result<ObservationBatch, Fault>,
    current: Option<u64>,
    now: u64,
    wall_ms: u64,
)
    requires
        call.timed_out || call_invalid(call, current),
    ensures
        ended(r, call, reply, current, now, wall_ms).0.state.checkpoint == r.state.checkpoint,
        ended(r, call, reply, current, now, wall_ms).0.state.view.health == TargetHealth::Unknown,
{
    reveal(replied);
}

/// A stopped engine shows no verdict and nothing running.
pub proof fn stopped_engines_show_no_verdict(e: EngineView, error: Option<Seq<char>>, view: SnapshotView, id: Seq<char>)
    requires
        closed_down(e, error).views.contains_key(id),
    ensures
        closed_down(e, error).views[id].health == TargetHealth::Unknown,
        !closed_down(e, error).views[id].running,
        !closed_down(e, error).accepting,
        published(view, false, error).health == TargetHealth::Unknown,
        !published(view, false, error).running,
{
}

/// A presence epoch never falls; afterwards it is odd exactly if the target counts as
/// present, and it is never again the epoch of the unverified once an inventory decided.
pub proof fn presence_epochs(previous: u64, present: bool, complete: bool)
    requires
        next_epoch(previous, present, complete) is Some,
    ensures
        next_epoch(previous, present, complete)->0 >= previous,
        (next_epoch(previous, present, complete)->0 % 2 == 1) == expected(previous, present, complete),
        present || complete ==> next_epoch(previous, present, complete)->0 != 0,
        present ==> next_epoch(previous, present, complete)->0 % 2 == 1,
        complete && !present ==> next_epoch(previous, present, complete)->0 % 2 == 0,
        (previous % 2 == 1) != expected(previous, present, complete) ==> next_epoch(previous, present, complete)->0 > previous,
{
}

/// A partial inventory that does not list a target says nothing about it.
pub proof fn partial_inventories_say_nothing_of_absence(previous: u64)
    ensures
        next_epoch(previous, false, false) == Some(previous),
{
}

/// Targets once known stay known, and are never more than the configuration reserves.
pub proof fn known_targets_stay(s: DiscoveryStateView, b: DiscoveryBatchView, additions: Seq<Seq<char>>, key: Seq<char>)
    requires
        s.targets.contains_key(key),
    ensures
        moved_targets(joined_targets(s.targets, additions), b).contains_key(key),
{
}

/// An admitted inventory keeps the number of known targets within the reservation.
pub proof fn known_targets_stay_within_reservation(
    s: DiscoveryStateView,
    b: DiscoveryBatchView,
    additions: Seq<Seq<char>>,
    accepting: bool,
)
    requires
        admission_fault(s, b, accepting) is None,
        forall|k: Seq<char>| #[trigger]
            additions.contains(k) <==> (b.targets.to_set() - s.targets.dom()).contains(k),
    ensures
        moved_targets(joined_targets(s.targets, additions), b).dom() == known_after(s, b),
        moved_targets(joined_targets(s.targets, additions), b).dom().len() <= s.config.max_targets,
{
    assert(moved_targets(joined_targets(s.targets, additions), b).dom() =~= known_after(s, b));
}

/// Once the enrollment of an admitted inventory is written, the store holds every key it
/// adds. Before that it holds none of them, so nothing can be taken in.
pub proof fn enrollment_comes_first(
    store: StoreView,
    s: DiscoveryStateView,
    known: Seq<Seq<char>>,
    additions: Seq<Seq<char>>,
    wall_ms: u64,
    line: nat,
)
    requires
        lists(known, joined_targets(s.targets, additions).dom()),
        enrollment(s, known, wall_ms) is Ok,
        recorded(store, s),
        ({
            let event = EventView::Monitor { commit: enrollment(s, known, wall_ms)->Ok_0 };
            &&& planned(store, event) is Ok
            &&& reservation(store, line) is Ok
        }),
    ensures
        !recorded(store, extended(s, additions)),
        ({
            let event = EventView::Monitor { commit: enrollment(s, known, wall_ms)->Ok_0 };
            let entry = planned(store, event)->Ok_0->0;
            let writing = reservation(store, line)->Ok_0;
            &&& planned(store, event)->Ok_0 is Some
            &&& installation(writing, entry) is Ok
            &&& recorded(installation(writing, entry)->Ok_0, extended(s, additions))
        }),
{
    let commit = enrollment(s, known, wall_ms)->Ok_0;
    let event = EventView::Monitor { commit };
    let entry = planned(store, event)->Ok_0->0;
    let writing = reservation(store, line)->Ok_0;
    assert(committed(writing, commit, entry.sequence) == committed(store, commit, entry.sequence)) by {
        assert(writing.monitors == store.monitors && writing.records == store.records);
    }
    let after = installation(writing, entry)->Ok_0;
    let t = extended(s, additions);
    assert(after.monitors[commit.monitor_id].commit == commit);
    alike_reflexive(commit.checkpoint);
    assert(lists(known, t.targets.dom()));
    assert(commit.checkpoint == inventory_checkpoint_tree(
        InventoryView { schema_version: 1, binding: t.binding, keys: known },
    ));
}

/// What is restored from the store is what the store holds.
pub proof fn restored_inventories_are_recorded(store: StoreView, d: DiscoveryView, keys: Seq<Seq<char>>)
    requires
        lists(keys, keys.to_set()),
        store.monitors.contains_key("discovery."@ + d.id),
        alike(
            store.monitors["discovery."@ + d.id].commit.checkpoint,
            inventory_checkpoint_tree(InventoryView { schema_version: 1, binding: encoded(inventory_tree(d)), keys }),
        ),
    ensures
        recorded(store, restored(d, keys, store.monitors["discovery."@ + d.id].commit.sequence)),
{
    let s = restored(d, keys, store.monitors["discovery."@ + d.id].commit.sequence);
    assert(s.targets.dom() =~= keys.to_set());
    assert(lists(keys, s.targets.dom()));
}

/// A target is watched only when the store holds its key: after every inventory that is
/// taken in, the store holds exactly the keys of the targets.
pub proof fn watched_targets_are_recorded(
    store: StoreView,
    s: DiscoveryStateView,
    b: DiscoveryBatchView,
    additions: Seq<Seq<char>>,
    wall_ms: u64,
    accepting: bool,
)
    requires
        if additions.len() == 0 {
            recorded(store, s)
        } else {
            s.sequence < u64::MAX && recorded(store, extended(s, additions))
        },
    ensures
        recorded(store, settled(s, b, additions, wall_ms, accepting).0),
{
    let base = if additions.len() == 0 { s } else { extended(s, additions) };
    let after = settled(s, b, additions, wall_ms, accepting).0;
    assert(after.targets.dom() =~= base.targets.dom());
}

/// Discovered monitors of different templates or keys have different ids.
pub proof fn discovered_ids_differ(p: Seq<char>, q: Seq<char>, a: Seq<char>, b: Seq<char>)
    requires
        is_key(a),
        is_key(b),
        keyed_id(p, a) == keyed_id(q, b),
    ensures
        p == q,
        a == b,
{
    reveal_strlit(".");
    let x = keyed_id(p, a);
    assert(x.len() == p.len() + 1 + a.len());
    assert(x.len() == q.len() + 1 + b.len());
    assert(x[p.len() as int] == '.');
    assert(keyed_id(q, b)[q.len() as int] == '.');
    if p.len() < q.len() {
        let i = q.len() - p.len() - 1;
        assert(x[p.len() as int + 1 + i] == a[i]);
    } else if q.len() < p.len() {
        let i = p.len() - q.len() - 1;
        assert(keyed_id(q, b)[q.len() as int + 1 + i] == b[i]);
    }
    assert(p =~= x.subrange(0, p.len() as int));
    assert(q =~= x.subrange(0, q.len() as int));
    assert(a =~= x.subrange(p.len() as int + 1, x.len() as int));
    assert(b =~= x.subrange(q.len() as int + 1, x.len() as int));
}

/// A rule on numbers compares the observed number with the expected one as the numbers that
/// they denote: each operator holds exactly where its relation does.
pub proof fn rules_compare_numbers(r: RuleView, value: Tree, n: nat)
    requires
        resolved(value, r.pointer) is Some,
        fits_scale(resolved(value, r.pointer)->0, n),
        fits_scale(r.value, n),
    ensures
        ({
            let a = at_scale(resolved(value, r.pointer)->0, n);
            let e = at_scale(r.value, n);
            let limit = 9007199254740992 * pow2(n);
            if -limit <= a <= limit && -limit <= e <= limit {
                verdict(r, value) == Ok::<bool, Fault>(
                    match r.operator {
                        RuleOperator::Eq => a == e,
                        RuleOperator::Ne => a != e,
                        RuleOperator::Gt => a > e,
                        RuleOperator::Ge => a >= e,
                        RuleOperator::Lt => a < e,
                        RuleOperator::Le => a <= e,
                    },
                )
            } else {
                verdict(r, value) is Err
            }
        }),
{
    let seen = resolved(value, r.pointer)->0;
    numbers_compare_by_value(seen, r.value, n);
    exact_numbers_are_small(seen, n);
    exact_numbers_are_small(r.value, n);
}

/// Opposite operators give opposite verdicts, and no value is both below and above.
pub proof fn opposite_operators_disagree(r: RuleView, value: Tree)
    requires
        verdict(r, value) is Ok,
    ensures
        ({
            let with = |operator: RuleOperator| verdict(RuleView { operator, ..r }, value);
            &&& with(RuleOperator::Lt) is Ok && with(RuleOperator::Ge) is Ok
            &&& with(RuleOperator::Lt)->Ok_0 == !with(RuleOperator::Ge)->Ok_0
            &&& with(RuleOperator::Gt)->Ok_0 == !with(RuleOperator::Le)->Ok_0
            &&& with(RuleOperator::Eq)->Ok_0 == !with(RuleOperator::Ne)->Ok_0
            &&& !(with(RuleOperator::Lt)->Ok_0 && with(RuleOperator::Gt)->Ok_0)
            &&& with(RuleOperator::Eq)->Ok_0 == (with(RuleOperator::Le)->Ok_0 && with(RuleOperator::Ge)->Ok_0)
        }),
{
}

/// A rule on a text or a truth value is met by equal values exactly, and says nothing of a
/// value of another type or of a field that is missing.
pub proof fn rules_compare_like_with_like(r: RuleView, value: Tree)
    ensures
        resolved(value, r.pointer) is None ==> verdict(r, value) is Err,
        resolved(value, r.pointer) is Some ==> {
            let seen = resolved(value, r.pointer)->0;
            &&& seen is Null || seen is Array || seen is Object ==> verdict(r, value) is Err
            &&& (seen is Text) != (r.value is Text) ==> verdict(r, value) is Err
            &&& (seen is Bool) != (r.value is Bool) ==> verdict(r, value) is Err
            &&& seen is Bool && r.value is Bool && r.operator == RuleOperator::Eq ==> verdict(r, value) == Ok::<bool, Fault>(
                seen == r.value,
            )
            &&& seen is Text && r.value is Text && byte_len(seen->Text_0) <= 4096 && r.operator == RuleOperator::Eq
                ==> verdict(r, value) == Ok::<bool, Fault>(seen == r.value)
        },
{
    if resolved(value, r.pointer) is Some {
        let seen = resolved(value, r.pointer)->0;
        if seen is Text && r.value is Text {
            less_irreflexive(seen->Text_0);
        }
    }
}

/// A complete batch of one sample that was not seen before.
pub open spec fn one_new_sample(s: StateView, b: BatchView) -> bool {
    &&& b.samples.len() == 1
    &&& b.coverage == BatchCoverage::Complete && !b.has_more && b.error is None
    &&& s.checkpoint.generation is None || s.checkpoint.generation == Some(b.generation)
    &&& s.checkpoint.last_sequence is None || b.samples[0].sequence > s.checkpoint.last_sequence->0
    &&& !s.checkpoint.recent_ids.contains(b.samples[0].id)
    &&& batch_fault(s.config.target_id, s.config.source_id, s.checkpoint, b) is None
}

/// A signal about the monitored target.
pub open spec fn says(signal: SignalView, s: StateView, kind: IncidentKind, condition: SignalCondition) -> bool {
    &&& signal.monitor_id == s.config.id
    &&& signal.target_id == s.config.target_id
    &&& signal.rule_id == s.config.id
    &&& signal.kind == kind
    &&& signal.condition == condition
}

proof fn coverage_is_dropped(x: SignalView, y: Seq<SignalView>)
    ensures
        target_only(Seq::<SignalView>::empty()) == Seq::<SignalView>::empty(),
        x.kind == IncidentKind::Target ==> target_only(seq![x]) == seq![x],
        revoked(Seq::<SignalView>::empty()) == Seq::<SignalView>::empty(),
{
    let one = seq![x];
    assert(one.drop_last() =~= Seq::<SignalView>::empty());
    assert(target_only(one.drop_last()) =~= Seq::<SignalView>::empty());
    assert(target_only(one.drop_last()).push(x) =~= one);
}

/// A fresh sample that meets its rule counts as one success and ends the failures; the target
/// is healthy from the configured number of successes on, and only then is its fault cleared.
pub proof fn healthy_samples_count_towards_health(s: StateView, b: BatchView, waited: u64, now: u64, wall_ms: u64)
    requires
        one_new_sample(s, b),
        b.samples[0].age_ms + waited < s.config.stale_after_ms,
        verdict(s.config.rule, b.samples[0].value) == Ok::<bool, Fault>(true),
        s.view.consecutive_successes <= s.config.rule.success_samples,
    ensures
        ({
            let (next, result) = accepted(s, b, waited, now, wall_ms);
            let more = s.view.consecutive_successes + 1;
            let enough = more >= s.config.rule.success_samples;
            let signals = result->Ok_0;
            &&& result is Ok
            &&& next.view.consecutive_failures == 0
            &&& next.view.consecutive_successes == (if enough { s.config.rule.success_samples as int } else { more })
            &&& next.view.health == (if enough { TargetHealth::Healthy } else { s.view.health })
            &&& signals.len() == (if enough { 2nat } else { 1nat })
            &&& enough ==> says(signals[0], s, IncidentKind::Target, SignalCondition::Clear)
            &&& says(signals.last(), s, IncidentKind::Coverage, SignalCondition::Clear)
            &&& next.coverage_problem is None && next.view.last_error is None
        }),
{
    let r = received(s, wall_ms);
    let a = opened(r, b);
    reveal_with_fuel(intake, 2);
    let c = intake(a, b, 1, true, waited, now);
    assert(is_complete(s, b));
    assert(intake(a, b, 0, true, waited, now) == a);
    assert(c == absorbed(a, b.samples[0], b.generation, true, waited, now));
    if c.signals.len() > 0 {
        assert(c.signals =~= seq![c.signals[0]]);
        coverage_is_dropped(c.signals[0], c.signals);
    } else {
        assert(c.signals =~= Seq::<SignalView>::empty());
        coverage_is_dropped(arbitrary(), c.signals);
    }
}

/// A fresh sample that breaks its rule counts as one failure and ends the successes; from the
/// configured number of failures on the target is unhealthy and its fault is reported, before
/// that it is not healthy any more and what was known is doubted.
pub proof fn unhealthy_samples_count_towards_a_fault(s: StateView, b: BatchView, waited: u64, now: u64, wall_ms: u64)
    requires
        one_new_sample(s, b),
        b.samples[0].age_ms + waited < s.config.stale_after_ms,
        verdict(s.config.rule, b.samples[0].value) == Ok::<bool, Fault>(false),
        s.view.consecutive_failures <= s.config.rule.failure_samples,
    ensures
        ({
            let (next, result) = accepted(s, b, waited, now, wall_ms);
            let more = s.view.consecutive_failures + 1;
            let enough = more >= s.config.rule.failure_samples;
            let signals = result->Ok_0;
            &&& result is Ok
            &&& next.view.consecutive_successes == 0
            &&& next.view.consecutive_failures == (if enough { s.config.rule.failure_samples as int } else { more })
            &&& enough ==> next.view.health == TargetHealth::Unhealthy
            &&& !enough && s.view.health == TargetHealth::Healthy ==> next.view.health == TargetHealth::Unknown
            &&& !enough && s.view.health != TargetHealth::Healthy ==> next.view.health == s.view.health
            &&& signals.len() == 2
            &&& says(
                signals[0],
                s,
                IncidentKind::Target,
                if enough { SignalCondition::Active } else { SignalCondition::Unknown },
            )
            &&& says(signals[1], s, IncidentKind::Coverage, SignalCondition::Clear)
        }),
{
    let r = received(s, wall_ms);
    let a = opened(r, b);
    reveal_with_fuel(intake, 2);
    let c = intake(a, b, 1, true, waited, now);
    assert(is_complete(s, b));
    assert(intake(a, b, 0, true, waited, now) == a);
    assert(c == absorbed(a, b.samples[0], b.generation, true, waited, now));
    coverage_is_dropped(c.signals[0], c.signals);
    assert(a.signals =~= Seq::<SignalView>::empty());
    assert(c.signals =~= seq![c.signals[0]]);
}

/// A fresh sample is what is shown: its identity, its value and its age, as received now.
pub proof fn fresh_samples_are_shown(s: StateView, b: BatchView, waited: u64, now: u64, wall_ms: u64)
    requires
        one_new_sample(s, b),
        b.samples[0].age_ms + waited < s.config.stale_after_ms,
        verdict(s.config.rule, b.samples[0].value) is Ok,
    ensures
        ({
            let next = accepted(s, b, waited, now, wall_ms).0;
            let sample = b.samples[0];
            &&& next.view.freshness == Freshness::Fresh
            &&& next.view.coverage == Coverage::Complete
            &&& next.view.last_sample_id == Some(sample.id)
            &&& next.view.last_value == Some(sample.value)
            &&& next.view.sample_age_ms is Some && next.view.sample_age_ms->0 == sample.age_ms + waited
            &&& next.last_sample is Some && next.last_sample->0 == (now, (sample.age_ms + waited) as u64)
            &&& next.view.last_received_at_ms == Some(wall_ms)
            &&& next.view.cursor == Some(b.next_cursor) && next.checkpoint.cursor == Some(b.next_cursor)
            &&& next.view.generation == Some(b.generation) && next.checkpoint.generation == Some(b.generation)
            &&& next.checkpoint.last_sequence == Some(sample.sequence)
            &&& next.checkpoint.recent_ids.contains(sample.id)
            &&& next.config == s.config
        }),
{
    let r = received(s, wall_ms);
    let a = opened(r, b);
    reveal_with_fuel(intake, 2);
    let c = intake(a, b, 1, true, waited, now);
    assert(is_complete(s, b));
    assert(intake(a, b, 0, true, waited, now) == a);
    assert(c == absorbed(a, b.samples[0], b.generation, true, waited, now));
    let longer = s.checkpoint.recent_ids.push(b.samples[0].id);
    let kept = c.s.checkpoint.recent_ids;
    assert(kept[kept.len() - 1] == b.samples[0].id);
}

/// An overaged sample, or one that cannot be compared, leaves the target unknown: nothing is
/// counted, coverage is partial, and no fault is cleared or reported.
pub proof fn unusable_samples_give_no_verdict(s: StateView, b: BatchView, waited: u64, now: u64, wall_ms: u64)
    requires
        one_new_sample(s, b),
        b.samples[0].age_ms + waited >= s.config.stale_after_ms || verdict(s.config.rule, b.samples[0].value) is Err,
    ensures
        ({
            let (next, result) = accepted(s, b, waited, now, wall_ms);
            &&& result is Ok
            &&& next.view.health == TargetHealth::Unknown
            &&& next.view.consecutive_failures == 0 && next.view.consecutive_successes == 0
            &&& next.view.coverage == Coverage::Partial
            &&& next.coverage_problem is Some
            &&& forall|i: int|
                0 <= i < result->Ok_0.len() ==> (#[trigger] result->Ok_0[i]).condition != SignalCondition::Clear && (
                result->Ok_0[i].kind == IncidentKind::Target ==> result->Ok_0[i].condition == SignalCondition::Unknown)
        }),
{
    let r = received(s, wall_ms);
    let a = opened(r, b);
    reveal_with_fuel(intake, 2);
    let c = intake(a, b, 1, true, waited, now);
    assert(is_complete(s, b));
    assert(intake(a, b, 0, true, waited, now) == a);
    assert(c == absorbed(a, b.samples[0], b.generation, true, waited, now));
    coverage_is_dropped(arbitrary(), c.signals);
    assert(a.signals =~= Seq::<SignalView>::empty());
    assert(c.signals =~= Seq::<SignalView>::empty());
    assert(revoked(c.signals) =~= Seq::<SignalView>::empty());
}

/// A sample keeps its verdict until it reaches its age limit: before that a look at the clock
/// changes only the age shown. The age is the one received plus the time since.
pub proof fn samples_count_until_their_limit(s: StateView, now: u64)
    requires
        s.last_sample is Some,
        (s.last_sample->0).0 <= now,
        (s.last_sample->0).1 + (now - (s.last_sample->0).0) / 1000000 < s.config.stale_after_ms,
    ensures
        ticked(s, now).1.len() == 0,
        ticked(s, now).0.view.health == s.view.health,
        ticked(s, now).0.view.freshness == s.view.freshness,
        ticked(s, now).0.view.coverage == s.view.coverage,
        ticked(s, now).0.view.sample_age_ms is Some,
        ticked(s, now).0.view.sample_age_ms->0 == (s.last_sample->0).1 + (now - (s.last_sample->0).0) / 1000000,
        ticked(s, now).0.last_sample == s.last_sample,
        ticked(s, now).0.coverage_problem == s.coverage_problem,
{
}

/// From its age limit on a sample is stale: the target has no verdict, and what changed is
/// reported as lost coverage and an unknown target.
pub proof fn samples_end_at_their_limit(s: StateView, now: u64)
    requires
        s.last_sample is Some,
        (s.last_sample->0).0 <= now,
        (s.last_sample->0).1 + (now - (s.last_sample->0).0) / 1000000 >= s.config.stale_after_ms,
    ensures
        ticked(s, now).0.view.freshness == Freshness::Stale,
        s.view.health != TargetHealth::Unknown ==> ticked(s, now).0.view.health == TargetHealth::Unknown,
        s.view.health != TargetHealth::Unknown ==> ticked(s, now).1.len() > 0 && says(
            ticked(s, now).1.last(),
            s,
            IncidentKind::Target,
            SignalCondition::Unknown,
        ),
        forall|i: int| 0 <= i < ticked(s, now).1.len() ==> (#[trigger] ticked(s, now).1[i]).condition != SignalCondition::Clear,
{
}

/// Without a sample a monitor waits its grace out in silence, and then reports that coverage
/// is missing, once.
pub proof fn silence_counts_after_the_grace(s: StateView, now: u64)
    requires
        s.last_sample is None,
        s.started <= now,
    ensures
        (now - s.started) / 1000000 < s.config.startup_grace_ms ==> ticked(s, now) == (s, Seq::<SignalView>::empty()),
        (now - s.started) / 1000000 >= s.config.startup_grace_ms && s.coverage_problem is None ==> {
            let (next, signals) = ticked(s, now);
            &&& signals.len() == 2
            &&& says(signals[0], s, IncidentKind::Coverage, SignalCondition::Active)
            &&& says(signals[1], s, IncidentKind::Target, SignalCondition::Unknown)
            &&& next.view.health == TargetHealth::Unknown
            &&& next.coverage_problem == Some("no fresh sample after startup grace"@)
        },
{
    reveal_strlit("no fresh sample after startup grace");
    assert(clipped("no fresh sample after startup grace"@, 500) =~= "no fresh sample after startup grace"@);
}

/// Lost coverage is reported with its reason: a new reason as an active loss of coverage and an
/// unknown target, in this order; the same reason only where a verdict was lost.
pub proof fn lost_coverage_is_reported(s: StateView, reason: Seq<char>, coverage: Coverage)
    requires
        reason.len() <= 500,
    ensures
        ({
            let (next, signals) = coverage_failed(s, reason, coverage);
            &&& next.view.coverage == coverage
            &&& next.view.last_error == Some(reason) && next.coverage_problem == Some(reason)
            &&& s.coverage_problem != Some(reason) ==> {
                &&& signals.len() == 2
                &&& says(signals[0], s, IncidentKind::Coverage, SignalCondition::Active)
                &&& signals[0].summary == reason
                &&& says(signals[1], s, IncidentKind::Target, SignalCondition::Unknown)
            }
            &&& s.coverage_problem == Some(reason) && s.view.health != TargetHealth::Unknown ==> signals.len() == 1 && says(
                signals[0],
                s,
                IncidentKind::Target,
                SignalCondition::Unknown,
            )
            &&& s.coverage_problem == Some(reason) && s.view.health == TargetHealth::Unknown ==> signals.len() == 0
        }),
{
    assert(clipped(reason, 500) =~= reason);
}

/// A source that starts over takes its target's verdict along: what was seen of the old
/// generation is forgotten, the coverage is partial, and the reason says so.
pub proof fn new_generations_start_without_a_verdict(s: StateView, b: BatchView, waited: u64, now: u64, wall_ms: u64)
    requires
        s.checkpoint.generation is Some,
        s.checkpoint.generation->0 != b.generation,
        b.samples.len() == 0,
        accepted(s, b, waited, now, wall_ms).1 is Ok,
    ensures
        ({
            let next = accepted(s, b, waited, now, wall_ms).0;
            &&& next.view.health == TargetHealth::Unknown
            &&& next.view.freshness == Freshness::Missing
            &&& next.view.coverage == Coverage::Partial
            &&& next.last_sample is None
            &&& next.checkpoint.generation == Some(b.generation)
            &&& next.checkpoint.last_sequence is None
            &&& next.checkpoint.recent_ids.len() == 0
            &&& next.coverage_problem == Some("source generation changed; continuity lost"@)
        }),
{
    reveal_strlit("source generation changed; continuity lost");
    assert(clipped("source generation changed; continuity lost"@, 500) =~= "source generation changed; continuity lost"@);
    let r = received(s, wall_ms);
    assert(intake(opened(r, b), b, 0, false, waited, now) == opened(r, b));
}

/// A batch that is taken in answers its request: the target, the source and the cursor are
/// those asked for, each sample is identified, numbered and bounded, and numbers never fall.
pub proof fn accepted_batches_answer_their_request(target_id: Seq<char>, source_id: Seq<char>, c: CheckpointView, b: BatchView)
    requires
        batch_fault(target_id, source_id, c, b) is None,
    ensures
        b.schema_version == 1,
        b.target_id == target_id,
        b.source_id == source_id,
        b.cursor == c.cursor,
        b.next_cursor.len() > 0,
        b.samples.len() <= 32,
        forall|i: int, j: int|
            0 <= i < b.samples.len() && j == i + 1 && j < b.samples.len() ==> (#[trigger] b.samples[i]).sequence
                <= (#[trigger] b.samples[j]).sequence,
        forall|i: int|
            0 <= i < b.samples.len() ==> 1 <= (#[trigger] b.samples[i]).sequence <= 9007199254740992
                && b.samples[i].evidence is Object,
{
    assert forall|i: int| 0 <= i < b.samples.len() implies 1 <= (#[trigger] b.samples[i]).sequence <= 9007199254740992
        && b.samples[i].evidence is Object by {
        let fault = |i: int| sample_fault(c, b, i);
        crate::faults::earliest_none(b.samples.len(), fault);
        assert(fault(i) is None);
    }
}

/// A monitor writes exactly when it has something to say or has moved on: then its next number,
/// where it stands and what it signals, at the given time.
pub proof fn monitors_commit_what_changed(s: StateView, signals: Seq<SignalView>, wall_ms: u64)
    requires
        s.commit_sequence < u64::MAX,
    ensures
        commit_of(s, signals, wall_ms) is Ok,
        commit_of(s, signals, wall_ms)->Ok_0 is None <==> signals.len() == 0 && s.checkpoint == s.committed_checkpoint,
        commit_of(s, signals, wall_ms)->Ok_0 is Some ==> {
            let c = commit_of(s, signals, wall_ms)->Ok_0->0;
            &&& c.monitor_id == s.config.id
            &&& c.sequence == s.commit_sequence + 1
            &&& c.signals == signals
            &&& c.now_ms == wall_ms
        },
{
}

/// A reply in time, for a target that is still there, is taken in with the time that it took;
/// an error in its place is lost coverage, and a call that ended is over.
pub proof fn replies_in_time_are_taken_in(
    r: RunnerView,
    call: Call,
    reply: Result<ObservationBatch, Fault>,
    current: Option<u64>,
    now: u64,
    wall_ms: u64,
)
    requires
        !call.timed_out,
        call.epoch is Some,
        current == call.epoch,
        r.observed is None || r.observed == current,
        call.start <= now,
    ensures
        ({
            let (next, signals) = ended(r, call, reply, current, now, wall_ms);
            let waited = ((now - call.start) / 1000000) as u64;
            &&& next.call is None && next.observed == current && next.next_poll == r.next_poll
            &&& reply is Ok && accepted(r.state, reply->Ok_0@, waited, now, wall_ms).1 is Ok ==> {
                &&& next.state == accepted(r.state, reply->Ok_0@, waited, now, wall_ms).0
                &&& signals == accepted(r.state, reply->Ok_0@, waited, now, wall_ms).1->Ok_0
            }
            &&& reply is Err ==> next.state.view.coverage == Coverage::Unavailable && next.state.view.health
                == TargetHealth::Unknown && next.state.checkpoint == r.state.checkpoint
        }),
{
    let waited = ((now - call.start) / 1000000) as u64;
    let said = match reply {
        Ok(batch) => Ok(batch@),
        Err(fault) => Err(fault),
    };
    assert(elapsed_ms(call.start, now) == waited);
    assert(counted(call, current, reply) == said);
    let (next, signals) = ended(r, call, reply, current, now, wall_ms);
    let (state, told) = replied(r.state, said, waited, now, wall_ms);
    assert(next.state == state);
    assert(signals =~= told);
    reveal(replied);
}

/// The presence of a target moves on by single steps: a listed target is present, one missing
/// from a complete inventory is absent, and nothing else changes it. A target never verified
/// that a complete inventory lacks is absent without ever having been present.
pub proof fn presence_follows_the_inventory(previous: u64)
    requires
        previous < u64::MAX,
    ensures
        previous % 2 == 1 ==> next_epoch(previous, true, true) == Some(previous),
        previous % 2 == 1 ==> next_epoch(previous, true, false) == Some(previous),
        previous % 2 == 1 ==> next_epoch(previous, false, true) == Some((previous + 1) as u64),
        previous % 2 == 0 ==> next_epoch(previous, true, true) == Some((previous + 1) as u64),
        previous % 2 == 0 ==> next_epoch(previous, true, false) == Some((previous + 1) as u64),
        previous % 2 == 0 && previous > 0 ==> next_epoch(previous, false, true) == Some(previous),
        next_epoch(0, false, true) == Some(2u64),
{
}

/// An inventory is taken in exactly if it is of the known form, within its limits, names each
/// key once, and leaves the known targets within the reservation.
pub proof fn admitted_inventories(s: DiscoveryStateView, b: DiscoveryBatchView, accepting: bool)
    requires
        admission_fault(s, b, accepting) is None,
    ensures
        accepting,
        b.schema_version == 1,
        b.targets.len() <= 64,
        forall|i: int, j: int|
            0 <= i < j < b.targets.len() ==> #[trigger] b.targets[i] != #[trigger] b.targets[j],
        forall|i: int| 0 <= i < b.targets.len() ==> is_key(#[trigger] b.targets[i]),
        (s.targets.dom() + b.targets.to_set()).len() <= s.config.max_targets,
{
}

} // verus!
