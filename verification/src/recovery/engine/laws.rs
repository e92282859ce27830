//! What holds of every task.
use super::actor::{
    cancelled, end_state, first_snapshot, installed, next_task, oldest, released, replay_fault, runnable, sound, stepped,
    submitted, task_sound, transition_of, waiting_for, without, Cancellation, EngineView, Submission,
};
use super::{interruption, may_follow, spec_fault, terminal, Outcome, SnapshotView, SpecView, TaskState};
use vstd::prelude::*;

verus! {

/// A task in a final state takes no further step.
pub proof fn final_states_stay(s: TaskState, next: TaskState)
    requires
        terminal(s),
    ensures
        !may_follow(s, next),
{
}

/// Every interruption of an open task is a step it may take, except that a waiting task
/// has no deadline.
pub proof fn open_tasks_can_be_interrupted(s: TaskState, timeout: bool)
    requires
        !terminal(s),
        !(s is Queued && timeout),
    ensures
        may_follow(s, interruption(s, timeout)),
        terminal(interruption(s, timeout)),
{
}

/// Work that may have had effects is never reported as cancelled or timed out.
pub proof fn executed_work_becomes_unknown(s: TaskState, timeout: bool)
    requires
        s is Executing || s is Verifying,
    ensures
        interruption(s, timeout) is Unknown,
{
}

/// A task succeeds only after its execution and its verification.
pub proof fn success_needs_verification(s: TaskState)
    requires
        may_follow(s, TaskState::Succeeded),
    ensures
        s is Verifying,
{
}

/// A task that was not authorized never runs.
pub proof fn unauthorized_tasks_never_run(id: Seq<char>, s: SnapshotView, next: TaskState)
    requires
        task_sound(id, s),
        !s.spec.simulation_authorized,
    ensures
        s.state is Denied,
        !may_follow(s.state, next),
{
}

/// Every record that a journal accepts keeps the tasks sound, and never changes a task's
/// content.
pub proof fn replay_keeps_tasks_sound(e: EngineView, format: u32, sequence: u64, s: SnapshotView, line: u64)
    requires
        sound(e.records),
        replay_fault(e, format, sequence, s) is None,
    ensures
        sound(installed(e, s, line).records),
        e.records.contains_key(s.spec.id) ==> e.records[s.spec.id].spec == s.spec,
{
    let now = installed(e, s, line).records;
    if e.records.contains_key(s.spec.id) {
        assert(task_sound(s.spec.id, e.records[s.spec.id]));
    }
    assert forall|id: Seq<char>| #[trigger] now.contains_key(id) implies task_sound(id, now[id]) by {
        if id != s.spec.id {
            assert(e.records.contains_key(id));
        }
    }
}

/// Every planned step is one that a replay of the journal accepts.
pub proof fn planned_steps_replay(e: EngineView, id: Seq<char>, state: TaskState)
    requires
        sound(e.records),
        transition_of(e, id, state) is Ok,
        e.sequence < u64::MAX,
    ensures
        replay_fault(e, 1, (e.sequence + 1) as u64, transition_of(e, id, state)->Ok_0) is None,
{
    assert(task_sound(id, e.records[id]));
}

proof fn oldest_is_runnable(e: EngineView, from: int)
    requires
        0 <= from <= e.queue.len(),
    ensures
        match oldest(e, from) {
            Some(i) => from <= i < e.queue.len() && runnable(e, e.queue[i]) && forall|j: int|
                from <= j < i ==> !runnable(e, #[trigger] e.queue[j]),
            None => forall|j: int| from <= j < e.queue.len() ==> !runnable(e, #[trigger] e.queue[j]),
        },
    decreases e.queue.len() - from,
{
    if from < e.queue.len() && !runnable(e, e.queue[from]) {
        oldest_is_runnable(e, from + 1);
    }
}

/// The task that runs next touches no target that another one holds, and no older task
/// could run in its place.
pub proof fn targets_are_exclusive(e: EngineView)
    requires
        next_task(e) is Some,
    ensures
        e.active.len() < e.config.max_concurrency,
        0 <= next_task(e)->0 < e.queue.len(),
        !e.targets.contains(e.records[e.queue[next_task(e)->0]].spec.target),
        forall|j: int| 0 <= j < next_task(e)->0 ==> !runnable(e, #[trigger] e.queue[j]),
{
    oldest_is_runnable(e, 0);
}

/// An unknown outcome keeps its target blocked: no later task on it can run.
pub proof fn unknown_targets_stay_blocked(e: EngineView, id: Seq<char>, target: Seq<char>)
    requires
        e.targets.contains(target),
        e.records.contains_key(id),
        e.records[id].spec.target == target,
    ensures
        !runnable(e, id),
{
}

/// The course of a task: it is diagnosed, executed, verified and has then succeeded; a failure
/// may end it once it runs, a cancellation or a deadline only before its execution, and only an
/// execution or its verification may end unknown.
pub proof fn tasks_follow_their_course(s: TaskState, next: TaskState)
    ensures
        next is Queued || next is Denied ==> !may_follow(s, next),
        next is Diagnosing ==> (may_follow(s, next) <==> s is Queued),
        next is Executing ==> (may_follow(s, next) <==> s is Diagnosing),
        next is Verifying ==> (may_follow(s, next) <==> s is Executing),
        next is Succeeded ==> (may_follow(s, next) <==> s is Verifying),
        next is Failed ==> (may_follow(s, next) <==> s is Diagnosing || s is Executing || s is Verifying),
        next is Unknown ==> (may_follow(s, next) <==> s is Executing || s is Verifying),
        next is Canceled ==> (may_follow(s, next) <==> s is Queued || s is Diagnosing),
        next is TimedOut ==> (may_follow(s, next) <==> s is Diagnosing),
        terminal(s) <==> s is Succeeded || s is Failed || s is Denied || s is Canceled || s is TimedOut || s is Unknown,
{
}

/// What an interruption makes of a task tells a deadline from a cancellation.
pub proof fn interruptions_say_why(s: TaskState)
    requires
        s is Queued || s is Diagnosing,
    ensures
        interruption(s, true) is TimedOut,
        interruption(s, false) is Canceled,
{
}

/// How a task ends is how its work ended: only a reported success is one, and work that may have
/// had effects ends unknown when its receipt is missing, it ran out of time or was aborted.
pub proof fn tasks_end_as_their_work_ended(s: TaskState, outcome: Outcome)
    ensures
        end_state(s, outcome) is Succeeded <==> outcome is Succeeded,
        end_state(s, outcome) is Failed <==> outcome is Failed,
        !(outcome is Succeeded) && !(outcome is Failed) && (s is Executing || s is Verifying) ==> end_state(
            s,
            outcome,
        ) is Unknown,
        s is Diagnosing && outcome is TimedOut ==> end_state(s, outcome) is TimedOut,
        s is Diagnosing && (outcome is Aborted || outcome is MissingReceipt) ==> end_state(s, outcome) is Canceled,
{
}

/// A new task waits if it was authorized and is denied if not, at revision zero; every step
/// counts one revision and keeps its content.
pub proof fn tasks_begin_and_step(t: SpecView, s: SnapshotView, state: TaskState)
    requires
        s.revision < u64::MAX,
    ensures
        first_snapshot(t).spec == t,
        first_snapshot(t).revision == 0,
        first_snapshot(t).state is Queued <==> t.simulation_authorized,
        first_snapshot(t).state is Denied <==> !t.simulation_authorized,
        stepped(s, state).spec == s.spec,
        stepped(s, state).state == state,
        stepped(s, state).revision == s.revision + 1,
{
}

/// Nothing runs once as many tasks run as are allowed; before that the oldest waiting task with
/// a free target does, if there is one.
pub proof fn free_places_are_used(e: EngineView)
    ensures
        e.active.len() >= e.config.max_concurrency ==> next_task(e) is None,
        e.active.len() < e.config.max_concurrency ==> (next_task(e) is None <==> forall|j: int|
            0 <= j < e.queue.len() ==> !(e.records.contains_key(#[trigger] e.queue[j]) && !e.targets.contains(
                e.records[e.queue[j]].spec.target,
            ))),
{
    oldest_is_runnable(e, 0);
    assert forall|j: int| 0 <= j < e.queue.len() implies runnable(e, #[trigger] e.queue[j]) == (e.records.contains_key(
        e.queue[j],
    ) && !e.targets.contains(e.records[e.queue[j]].spec.target)) by {}
}

/// A list without an item holds all the others, in order, and the item no more.
pub proof fn removing_keeps_the_others(list: Seq<Seq<char>>, item: Seq<char>)
    ensures
        !without(list, item).contains(item),
        forall|x: Seq<char>| x != item ==> (#[trigger] without(list, item).contains(x) <==> list.contains(x)),
    decreases list.len(),
{
    if list.len() > 0 {
        let front = list.drop_last();
        removing_keeps_the_others(front, item);
        let was = without(front, item);
        let now = without(list, item);
        assert forall|x: Seq<char>| x != item implies (#[trigger] now.contains(x) <==> list.contains(x)) by {
            if list.contains(x) {
                let k = choose|k: int| 0 <= k < list.len() && list[k] == x;
                if k < front.len() {
                    assert(front[k] == x);
                    assert(was.contains(x));
                    let m = choose|m: int| 0 <= m < was.len() && was[m] == x;
                    assert(now[m] == x);
                } else {
                    assert(now[now.len() - 1] == x);
                }
            }
            if now.contains(x) {
                let m = choose|m: int| 0 <= m < now.len() && now[m] == x;
                if m < was.len() {
                    assert(was[m] == x);
                    assert(was.contains(x));
                    assert(front.contains(x));
                    let k = choose|k: int| 0 <= k < front.len() && front[k] == x;
                    assert(list[k] == x);
                } else {
                    assert(list[list.len() - 1] == x);
                }
            }
        }
        if now.contains(item) {
            let m = choose|m: int| 0 <= m < now.len() && now[m] == item;
            if m < was.len() {
                assert(was[m] == item);
            }
        }
    }
}

/// A journal is read strictly in order, and each record continues its task by one revision
/// along its course.
pub proof fn journals_are_read_in_order(e: EngineView, format: u32, sequence: u64, s: SnapshotView)
    requires
        replay_fault(e, format, sequence, s) is None,
    ensures
        format == 1,
        sequence == e.sequence + 1,
        e.records.contains_key(s.spec.id) ==> s.revision == e.records[s.spec.id].revision + 1 && may_follow(
            e.records[s.spec.id].state,
            s.state,
        ),
        !e.records.contains_key(s.spec.id) ==> s.revision == 0 && (s.state is Queued <==> s.spec.simulation_authorized),
        1 <= s.spec.timeout_ms <= 3600000,
        0 < s.spec.id.len() && 0 < s.spec.target.len(),
{
}

/// A task is taken in once: an accepted new one becomes the next entry of the journal, waiting
/// if it is authorized and denied if it is not; the same one again is answered with its state,
/// another one of the same name is refused, and so is one for which there is no room.
pub proof fn tasks_are_taken_in_once(e: EngineView, t: SpecView, r: Submission)
    requires
        submitted(e, t, r),
    ensures
        r is Append ==> {
            &&& spec_fault(t) is None
            &&& !e.records.contains_key(t.id)
            &&& e.records.dom().len() < e.config.max_tasks
            &&& t.simulation_authorized ==> e.queue.len() < e.config.max_queued
            &&& r->Append_0.sequence == e.sequence + 1 && r->Append_0.format == 1
            &&& r->Append_0.snapshot@.spec == t && r->Append_0.snapshot@.revision == 0
            &&& t.simulation_authorized ==> r->Append_0.snapshot@.state == TaskState::Queued
            &&& !t.simulation_authorized ==> r->Append_0.snapshot@.state == TaskState::Denied
        },
        r is Known ==> e.records.contains_key(t.id) && r->Known_0@ == e.records[t.id] && r->Known_0@.spec == t,
        spec_fault(t) is None && e.records.contains_key(t.id) && e.records[t.id].spec != t ==> r is Refused
            && r->Refused_0@ == super::Fault::Conflict,
        spec_fault(t) is None && !e.records.contains_key(t.id) && e.records.dom().len() >= e.config.max_tasks ==> r is Refused
            && r->Refused_0@ == super::Fault::Capacity,
        spec_fault(t) is None && !e.records.contains_key(t.id) && e.records.dom().len() < e.config.max_tasks && (
        e.queue.len() < e.config.max_queued || !t.simulation_authorized) ==> r is Append,
        spec_fault(t) is Some ==> r is Refused && Some(r->Refused_0@) == spec_fault(t),
{
}

/// A task that waits is cancelled at once and leaves the queue; one that runs is told to stop,
/// by up to 64 callers, and changes nothing yet; any other is only looked up.
pub proof fn cancellations_reach_the_task(e: EngineView, id: Seq<char>, r: Cancellation, after: EngineView)
    requires
        cancelled(e, id, r, after),
    ensures
        after.records == e.records && after.active == e.active && after.targets == e.targets && after.sequence == e.sequence,
        r is Abort <==> e.active.contains(id) && waiting_for(e, id) < 64,
        r is Refused <==> e.active.contains(id) && waiting_for(e, id) >= 64,
        r is Abort ==> waiting_for(after, id) == waiting_for(e, id) + 1 && after.queue == e.queue,
        r is Append <==> !e.active.contains(id) && e.records.contains_key(id) && e.records[id].state == TaskState::Queued,
        r is Append ==> {
            &&& r->Append_0.sequence == e.sequence + 1
            &&& r->Append_0.snapshot@.spec == e.records[id].spec
            &&& r->Append_0.snapshot@.state == TaskState::Canceled
            &&& after.queue == without(e.queue, id)
        },
        r is Answer ==> after == e && (r->Answer_0 is Some <==> e.records.contains_key(id)),
{
}

/// Once a task has ended its place is free again and nobody waits for it; its target is free
/// too, unless what became of it is unknown: then the target stays taken.
pub proof fn ended_tasks_free_their_place(e: EngineView, id: Seq<char>, other: Seq<char>)
    requires
        e.records.contains_key(id),
    ensures
        released(e, id).active == without(e.active, id),
        waiting_for(released(e, id), id) == 0,
        other != id ==> waiting_for(released(e, id), other) == waiting_for(e, other),
        e.records[id].state == TaskState::Unknown ==> released(e, id).targets == e.targets,
        e.records[id].state != TaskState::Unknown ==> !released(e, id).targets.contains(e.records[id].spec.target),
        other != e.records[id].spec.target ==> (released(e, id).targets.contains(other) <==> e.targets.contains(other)),
        released(e, id).records == e.records && released(e, id).queue == e.queue && released(e, id).sequence == e.sequence,
        !e.waiters.contains_key(id) ==> waiting_for(e, id) == 0,
        e.waiters.contains_key(id) ==> waiting_for(e, id) == e.waiters[id],
{
}

} // verus!
