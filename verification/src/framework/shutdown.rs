//! A whole shutdown: the steps that a runtime asks for, one after the other, until
//! nothing is left.
use super::runtime::{
    accepting, activated, add_fault, added, after_disposal, after_join, after_removal, after_stop, held, held_total, hook_fault, live_total,
    pending, resource_total, startup, stepped, task_fault, Hook, Runtime, RuntimeView, Step,
};
use super::state::{
    is_active, open_listeners, released, revoked, with_instance, without_listeners, without_services, InstanceState,
    InstanceView, ListenerView, SharedView,
};
use super::{Fault, KeyView, ModuleView, Phase};
use vstd::prelude::*;

verus! {

/// Whether an instance belongs to a module that was activated and is not gone.
pub open spec fn tended(r: RuntimeView, id: Seq<char>) -> bool {
    exists|k: int| 0 <= k < r.active.len() && r.entries[#[trigger] r.active[k]].metadata.instance == id
}

/// Whether an instance owns nothing and takes no work.
pub open spec fn bare(s: SharedView, id: Seq<char>) -> bool {
    &&& forall|i: int| 0 <= i < s.services.len() ==> (#[trigger] s.services[i]).1 != id
    &&& forall|i: int| 0 <= i < s.listeners.len() ==> (#[trigger] s.listeners[i]).owner != id
    &&& s.instances.contains_key(id) ==> !s.instances[id].accepting && s.instances[id].disposers == 0
        && s.instances[id].tasks == 0
}

/// What every runtime satisfies: modules have different instances and are active at
/// most once; only instances of active modules own anything or take work; and a module
/// in cleanup has handed over all that it owned.
pub open spec fn orderly(r: RuntimeView) -> bool {
    &&& r.entries.len() <= usize::MAX
    &&& r.active.no_duplicates()
    &&& forall|k: int| 0 <= k < r.active.len() ==> 0 <= #[trigger] r.active[k] < r.entries.len()
    &&& forall|i: int, j: int|
        0 <= i < j < r.entries.len() ==> (#[trigger] r.entries[i]).metadata.instance != (
        #[trigger] r.entries[j]).metadata.instance
    &&& forall|i: int|
        0 <= i < r.entries.len() ==> r.state.instances.contains_key((#[trigger] r.entries[i]).metadata.instance)
    &&& forall|id: Seq<char>| !tended(r, id) ==> #[trigger] bare(r.state, id)
    &&& forall|i: int|
        0 <= i < r.entries.len() && (#[trigger] r.entries[i]).cleanup is Some ==> r.active.contains(i) && bare(
            r.state,
            r.entries[i].metadata.instance,
        )
}

/// A runtime in which nothing is left.
pub open spec fn quiet(r: RuntimeView) -> bool {
    &&& r.active.len() == 0
    &&& r.state.services.len() == 0
    &&& r.state.listeners.len() == 0
    &&& forall|id: Seq<char>| #[trigger] bare(r.state, id)
    &&& forall|i: int| 0 <= i < r.entries.len() ==> (#[trigger] r.entries[i]).cleanup is None
}

/// Tasks of a module that are still to be joined.
pub open spec fn tasks_left(r: RuntimeView, index: int) -> nat {
    match r.entries[index].cleanup {
        Some(c) => c.tasks as nat,
        None => held(r.state, r.entries[index].metadata.instance).tasks as nat,
    }
}

/// Disposers of a module that are still to be called.
pub open spec fn disposers_left(r: RuntimeView, index: int) -> nat {
    match r.entries[index].cleanup {
        Some(c) => c.disposers as nat,
        None => held(r.state, r.entries[index].metadata.instance).disposers as nat,
    }
}

/// The runtime after its next step, where `stops` says how each stop hook ends and
/// `ends` how each task ends, counted from a module's first.
pub open spec fn answered(
    r: RuntimeView,
    stops: spec_fn(int) -> Hook,
    ends: spec_fn(int, nat) -> Option<Seq<char>>,
) -> RuntimeView {
    let (t, step) = stepped(r);
    match step {
        Step::Stop(i) => after_stop(t, i as int, stops(i as int)),
        Step::Join(i) => after_join(t, i as int, ends(i as int, tasks_left(t, i as int))),
        Step::Dispose(i, _) => after_disposal(t, i as int),
        Step::Remove(_) => after_removal(t),
        Step::Done => t,
    }
}

/// Whether another step is asked for.
pub open spec fn unfinished(r: RuntimeView) -> bool {
    r.active.len() > 0 && 0 <= r.active.last() < r.entries.len() <= usize::MAX
}

/// How far the module that is being shut down has come.
pub open spec fn stage(r: RuntimeView) -> nat {
    let e = r.entries[r.active.last()];
    if !e.stop_finished {
        2
    } else if e.cleanup is None {
        1
    } else {
        0
    }
}

/// The runtime after a whole shutdown in which no cleanup times out, and its steps.
pub open spec fn shut_down(
    r: RuntimeView,
    stops: spec_fn(int) -> Hook,
    ends: spec_fn(int, nat) -> Option<Seq<char>>,
) -> (RuntimeView, Seq<Step>)
    decreases r.active.len(), stage(r), tasks_left(r, r.active.last()), disposers_left(r, r.active.last()),
{
    if !unfinished(r) {
        (stepped(r).0, Seq::empty())
    } else {
        let (end, rest) = shut_down(answered(r, stops, ends), stops, ends);
        (end, seq![stepped(r).1] + rest)
    }
}

/// The joins of `n` tasks.
pub open spec fn joins(index: int, n: nat) -> Seq<Step> {
    Seq::new(n, |k: int| Step::Join(index as usize))
}

/// The calls of `n` disposers, the one that was registered last first.
pub open spec fn disposals(index: int, n: nat) -> Seq<Step> {
    Seq::new(n, |k: int| Step::Dispose(index as usize, (n - 1 - k) as usize))
}

/// The steps for one module: its stop hook unless it has ended, its tasks, its disposers,
/// the latest first, and its removal.
pub open spec fn module_steps(r: RuntimeView, index: int) -> Seq<Step> {
    (if r.entries[index].stop_finished { Seq::empty() } else { seq![Step::Stop(index as usize)] }) + joins(
        index,
        tasks_left(r, index),
    ) + disposals(index, disposers_left(r, index)) + seq![Step::Remove(index as usize)]
}

/// The steps for the first `n` active modules: the one that started last comes first.
pub open spec fn all_steps(r: RuntimeView, n: nat) -> Seq<Step>
    decreases n,
{
    if n == 0 { Seq::empty() } else { module_steps(r, r.active[n - 1]) + all_steps(r, (n - 1) as nat) }
}

pub open spec fn at_most_one(fault: Option<Fault>) -> Seq<Fault> {
    match fault {
        Some(f) => seq![f],
        None => Seq::empty(),
    }
}

/// What `n` tasks leave behind, the last one first.
pub open spec fn task_issues(id: Seq<char>, index: int, ends: spec_fn(int, nat) -> Option<Seq<char>>, n: nat) -> Seq<Fault>
    decreases n,
{
    if n == 0 {
        Seq::empty()
    } else {
        at_most_one(task_fault(id, ends(index, n))) + task_issues(id, index, ends, (n - 1) as nat)
    }
}

/// What one module leaves behind: at most one issue for its stop hook, and at most one
/// for each of its tasks.
pub open spec fn module_issues(
    r: RuntimeView,
    index: int,
    stops: spec_fn(int) -> Hook,
    ends: spec_fn(int, nat) -> Option<Seq<char>>,
) -> Seq<Fault> {
    let e = r.entries[index];
    let id = e.metadata.instance;
    (if e.stop_finished { Seq::empty() } else { at_most_one(hook_fault(id, Phase::Stop, stops(index))) }) + task_issues(
        id,
        index,
        ends,
        tasks_left(r, index),
    )
}

pub open spec fn all_issues(
    r: RuntimeView,
    stops: spec_fn(int) -> Hook,
    ends: spec_fn(int, nat) -> Option<Seq<char>>,
    n: nat,
) -> Seq<Fault>
    decreases n,
{
    if n == 0 {
        Seq::empty()
    } else {
        module_issues(r, r.active[n - 1], stops, ends) + all_issues(r, stops, ends, (n - 1) as nat)
    }
}

proof fn kept_services(services: Seq<(KeyView, Seq<char>)>, owner: Seq<char>)
    ensures
        forall|i: int|
            0 <= i < without_services(services, owner).len() ==> services.contains(
                #[trigger] without_services(services, owner)[i],
            ) && without_services(services, owner)[i].1 != owner,
    decreases services.len(),
{
    if services.len() > 0 {
        let front = services.drop_last();
        kept_services(front, owner);
        let all = without_services(services, owner);
        let some = without_services(front, owner);
        assert forall|i: int| 0 <= i < all.len() implies services.contains(#[trigger] all[i]) && all[i].1 != owner by {
            if i < some.len() {
                assert(all[i] == some[i]);
                let j = choose|j: int| 0 <= j < front.len() && front[j] == some[i];
                assert(services[j] == some[i]);
            } else {
                assert(services[services.len() - 1] == all[i]);
            }
        }
    }
}

proof fn kept_listeners(listeners: Seq<ListenerView>, owner: Seq<char>)
    ensures
        forall|i: int|
            0 <= i < without_listeners(listeners, owner).len() ==> listeners.contains(
                #[trigger] without_listeners(listeners, owner)[i],
            ) && without_listeners(listeners, owner)[i].owner != owner,
    decreases listeners.len(),
{
    if listeners.len() > 0 {
        let front = listeners.drop_last();
        kept_listeners(front, owner);
        let all = without_listeners(listeners, owner);
        let some = without_listeners(front, owner);
        assert forall|i: int| 0 <= i < all.len() implies listeners.contains(#[trigger] all[i]) && all[i].owner != owner by {
            if i < some.len() {
                assert(all[i] == some[i]);
                let j = choose|j: int| 0 <= j < front.len() && front[j] == some[i];
                assert(listeners[j] == some[i]);
            } else {
                assert(listeners[listeners.len() - 1] == all[i]);
            }
        }
    }
}

/// Taking from one instance gives nothing to another, and a released one has nothing.
proof fn taking_keeps_bare(s: SharedView, id: Seq<char>)
    ensures
        bare(released(s, id), id),
        forall|other: Seq<char>| bare(s, other) ==> #[trigger] bare(released(s, id), other),
        forall|other: Seq<char>| bare(s, other) ==> #[trigger] bare(revoked(s, id), other),
{
    kept_services(s.services, id);
    kept_listeners(s.listeners, id);
    assert forall|other: Seq<char>| bare(s, other) implies #[trigger] bare(released(s, id), other) by {
        let t = released(s, id);
        assert forall|i: int| 0 <= i < t.services.len() implies (#[trigger] t.services[i]).1 != other by {
            let j = choose|j: int| 0 <= j < s.services.len() && s.services[j] == t.services[i];
        }
        assert forall|i: int| 0 <= i < t.listeners.len() implies (#[trigger] t.listeners[i]).owner != other by {
            let j = choose|j: int| 0 <= j < s.listeners.len() && s.listeners[j] == t.listeners[i];
        }
    }
    assert forall|other: Seq<char>| bare(s, other) implies #[trigger] bare(revoked(s, id), other) by {
        let t = revoked(s, id);
        assert forall|i: int| 0 <= i < t.listeners.len() implies (#[trigger] t.listeners[i]).owner != other by {
            let j = choose|j: int| 0 <= j < s.listeners.len() && s.listeners[j] == t.listeners[i];
        }
    }
}

proof fn same_modules_are_tended(r: RuntimeView, t: RuntimeView, id: Seq<char>)
    requires
        t.active == r.active,
        forall|k: int| 0 <= k < r.active.len() ==> t.entries[#[trigger] r.active[k]].metadata == r.entries[r.active[k]].metadata,
        tended(r, id),
    ensures
        tended(t, id),
{
    let k = choose|k: int| 0 <= k < r.active.len() && r.entries[#[trigger] r.active[k]].metadata.instance == id;
    assert(t.entries[t.active[k]].metadata.instance == id);
}

/// Every step of a shutdown keeps the runtime orderly.
pub proof fn steps_keep_order(r: RuntimeView, stops: spec_fn(int) -> Hook, ends: spec_fn(int, nat) -> Option<Seq<char>>)
    requires
        orderly(r),
    ensures
        orderly(answered(r, stops, ends)),
{
    let t = answered(r, stops, ends);
    if r.active.len() == 0 {
        assert forall|id: Seq<char>| !tended(t, id) implies #[trigger] bare(t.state, id) by {
            assert(!tended(r, id));
        }
    } else {
        let n = (r.active.len() - 1) as int;
        let i = r.active[n];
        assert(i == r.active.last());
        let e = r.entries[i];
        let id = e.metadata.instance;
        taking_keeps_bare(r.state, id);
        assert(i as usize as int == i);
        assert forall|j: int| 0 <= j < r.entries.len() implies (#[trigger] t.entries[j]).metadata == r.entries[j].metadata by {}
        assert(t.entries.len() == r.entries.len());
        assert forall|x: int, y: int| 0 <= x < y < t.entries.len() implies (#[trigger] t.entries[x]).metadata.instance != (
        #[trigger] t.entries[y]).metadata.instance by {
            assert(r.entries[x].metadata.instance != r.entries[y].metadata.instance);
        }
        assert forall|j: int| 0 <= j < t.entries.len() implies t.state.instances.contains_key(
            (#[trigger] t.entries[j]).metadata.instance,
        ) by {
            assert(r.state.instances.contains_key(r.entries[j].metadata.instance));
        }
        assert forall|other: Seq<char>| bare(r.state, other) implies #[trigger] bare(t.state, other) by {}
        if stepped(r).1 is Remove {
            assert(t.active == r.active.drop_last());
            assert(bare(t.state, id));
            assert forall|other: Seq<char>| !tended(t, other) implies #[trigger] bare(t.state, other) by {
                if tended(r, other) {
                    let k = choose|k: int|
                        0 <= k < r.active.len() && r.entries[#[trigger] r.active[k]].metadata.instance == other;
                    if k < n {
                        assert(t.active[k] == r.active[k]);
                        assert(t.entries[t.active[k]].metadata.instance == other);
                    }
                }
            }
            assert forall|j: int| 0 <= j < t.entries.len() && (#[trigger] t.entries[j]).cleanup is Some implies t.active.contains(
                j,
            ) && bare(t.state, t.entries[j].metadata.instance) by {
                assert(j != i);
                assert(r.entries[j].cleanup is Some);
                let k = choose|k: int| 0 <= k < r.active.len() && r.active[k] == j;
                assert(t.active[k] == j);
            }
            assert forall|x: int, y: int| 0 <= x < t.active.len() && 0 <= y < t.active.len() && x != y implies t.active[x]
                != t.active[y] by {
                assert(r.active[x] != r.active[y]);
            }
        } else {
            assert(t.active == r.active);
            assert forall|other: Seq<char>| !tended(t, other) implies #[trigger] bare(t.state, other) by {
                if tended(r, other) {
                    same_modules_are_tended(r, t, other);
                }
            }
            assert forall|j: int| 0 <= j < t.entries.len() && (#[trigger] t.entries[j]).cleanup is Some implies t.active.contains(
                j,
            ) && bare(t.state, t.entries[j].metadata.instance) by {
                if j == i {
                    assert(r.active.contains(i));
                    assert(r.entries[i].cleanup is Some ==> bare(r.state, id));
                } else {
                    assert(r.entries[j].cleanup is Some);
                }
            }
        }
    }
}

/// Whether the first `n` active modules stand as they did.
spec fn untouched(r: RuntimeView, t: RuntimeView, n: nat) -> bool {
    &&& n <= r.active.len()
    &&& n <= t.active.len()
    &&& forall|k: int|
        0 <= k < n ==> t.active[k] == #[trigger] r.active[k] && t.entries[r.active[k]] == r.entries[r.active[k]]
            && tasks_left(t, r.active[k]) == tasks_left(r, r.active[k]) && disposers_left(t, r.active[k]) == disposers_left(
            r,
            r.active[k],
        )
}

proof fn untouched_modules_take_the_same_steps(
    r: RuntimeView,
    t: RuntimeView,
    stops: spec_fn(int) -> Hook,
    ends: spec_fn(int, nat) -> Option<Seq<char>>,
    n: nat,
)
    requires
        untouched(r, t, n),
    ensures
        all_steps(t, n) == all_steps(r, n),
        all_issues(t, stops, ends, n) == all_issues(r, stops, ends, n),
    decreases n,
{
    if n > 0 {
        untouched_modules_take_the_same_steps(r, t, stops, ends, (n - 1) as nat);
        assert(t.active[n - 1] == r.active[n - 1]);
    }
}

/// A step concerns the module that started last; all others stand as they did.
proof fn steps_leave_the_rest(r: RuntimeView, stops: spec_fn(int) -> Hook, ends: spec_fn(int, nat) -> Option<Seq<char>>)
    requires
        orderly(r),
        r.active.len() > 0,
    ensures
        untouched(r, answered(r, stops, ends), (r.active.len() - 1) as nat),
{
    let n = (r.active.len() - 1) as nat;
    let t = answered(r, stops, ends);
    let i = r.active[n as int];
    assert(i == r.active.last());
    assert(i as usize as int == i);
    assert forall|k: int| 0 <= k < n implies t.active[k] == #[trigger] r.active[k] && t.entries[r.active[k]]
        == r.entries[r.active[k]] && tasks_left(t, r.active[k]) == tasks_left(r, r.active[k]) && disposers_left(
        t,
        r.active[k],
    ) == disposers_left(r, r.active[k]) by {
        let j = r.active[k];
        assert(j != i);
        if j < i {
            assert(r.entries[j].metadata.instance != r.entries[i].metadata.instance);
        } else {
            assert(r.entries[i].metadata.instance != r.entries[j].metadata.instance);
        }
    }
}

/// A step is the first of those that a module still takes, and notes what it leaves behind.
#[verifier::rlimit(30)]
proof fn steps_are_taken_in_order(r: RuntimeView, stops: spec_fn(int) -> Hook, ends: spec_fn(int, nat) -> Option<Seq<char>>)
    requires
        orderly(r),
        r.active.len() > 0,
    ensures
        ({
            let t = answered(r, stops, ends);
            let i = r.active.last();
            let first = seq![stepped(r).1];
            if stepped(r).1 is Remove {
                &&& t.active == r.active.drop_last()
                &&& module_steps(r, i) == first
                &&& t.issues == r.issues + module_issues(r, i, stops, ends)
            } else {
                &&& t.active == r.active
                &&& module_steps(r, i) == first + module_steps(t, i)
                &&& t.issues + module_issues(t, i, stops, ends) == r.issues + module_issues(r, i, stops, ends)
            }
        }),
{
    let t = answered(r, stops, ends);
    let i = r.active[r.active.len() - 1];
    assert(i == r.active.last());
    assert(i as usize as int == i);
    let id = r.entries[i].metadata.instance;
    let left = tasks_left(r, i);
    let more = disposers_left(r, i);
    if stepped(r).1 is Remove {
        assert(left == 0 && more == 0);
        assert(joins(i, 0) =~= Seq::<Step>::empty());
        assert(disposals(i, 0) =~= Seq::<Step>::empty());
        assert(module_steps(r, i) =~= seq![Step::Remove(i as usize)]);
        assert(module_issues(r, i, stops, ends) =~= Seq::<Fault>::empty());
        assert(t.issues =~= r.issues + module_issues(r, i, stops, ends));
    } else if stepped(r).1 is Stop {
        let fault = at_most_one(hook_fault(id, Phase::Stop, stops(i)));
        assert(tasks_left(t, i) == left);
        assert(disposers_left(t, i) == more);
        assert(t.issues =~= r.issues + fault);
        assert(module_steps(r, i) =~= seq![Step::Stop(i as usize)] + module_steps(t, i));
        assert(t.issues + module_issues(t, i, stops, ends) =~= r.issues + module_issues(r, i, stops, ends));
    } else if stepped(r).1 is Join {
        let fault = at_most_one(task_fault(id, ends(i, left)));
        assert(tasks_left(t, i) == left - 1);
        assert(disposers_left(t, i) == more);
        assert(t.issues =~= r.issues + fault);
        assert(joins(i, left) =~= seq![Step::Join(i as usize)] + joins(i, (left - 1) as nat));
        assert(module_steps(r, i) =~= seq![Step::Join(i as usize)] + module_steps(t, i));
        assert(t.issues + module_issues(t, i, stops, ends) =~= r.issues + module_issues(r, i, stops, ends));
    } else {
        let call = Step::Dispose(i as usize, (more - 1) as usize);
        assert(stepped(r).1 == call);
        assert(left == 0);
        assert(tasks_left(t, i) == 0);
        assert(disposers_left(t, i) == more - 1);
        assert(t.issues =~= r.issues);
        assert(joins(i, 0) =~= Seq::<Step>::empty());
        assert(disposals(i, more) =~= seq![call] + disposals(i, (more - 1) as nat));
        assert(module_steps(r, i) =~= seq![call] + module_steps(t, i));
        assert(t.issues + module_issues(t, i, stops, ends) =~= r.issues + module_issues(r, i, stops, ends));
    }
}

/// Without active modules nothing is left.
pub proof fn idle_runtimes_are_quiet(r: RuntimeView)
    requires
        orderly(r),
        r.active.len() == 0,
    ensures
        quiet(r),
{
    assert forall|id: Seq<char>| #[trigger] bare(r.state, id) by {
        assert(!tended(r, id));
    }
    if r.state.services.len() > 0 {
        let id = r.state.services[0].1;
        assert(bare(r.state, id));
    }
    if r.state.listeners.len() > 0 {
        let id = r.state.listeners[0].owner;
        assert(bare(r.state, id));
    }
    assert forall|i: int| 0 <= i < r.entries.len() implies (#[trigger] r.entries[i]).cleanup is None by {
        if r.entries[i].cleanup is Some {
            assert(r.active.contains(i));
        }
    }
}

/// Every step of a shutdown comes closer to its end.
proof fn steps_make_progress(r: RuntimeView, stops: spec_fn(int) -> Hook, ends: spec_fn(int, nat) -> Option<Seq<char>>)
    requires
        unfinished(r),
    ensures
        ({
            let t = answered(r, stops, ends);
            ||| t.active.len() < r.active.len()
            ||| t.active == r.active && stage(t) < stage(r)
            ||| t.active == r.active && stage(t) == stage(r) && tasks_left(t, t.active.last()) < tasks_left(r, r.active.last())
            ||| t.active == r.active && stage(t) == stage(r) && tasks_left(t, t.active.last()) == tasks_left(
                r,
                r.active.last(),
            ) && disposers_left(t, t.active.last()) < disposers_left(r, r.active.last())
        }),
{
    assert(r.active.last() as usize as int == r.active.last());
}

/// A shutdown in which no cleanup times out takes, for each active module from the one
/// that started last to the one that started first, its steps once: the stop hook unless
/// it has ended, the join of each task, each disposer from the one that was registered last
/// to the one that was registered first, its removal. Whatever a hook or a task ends with
/// adds at most one issue and skips nothing. After it nothing is left.
pub proof fn shutdowns_are_complete(
    r: RuntimeView,
    stops: spec_fn(int) -> Hook,
    ends: spec_fn(int, nat) -> Option<Seq<char>>,
)
    requires
        orderly(r),
    ensures
        ({
            let (end, steps) = shut_down(r, stops, ends);
            &&& steps == all_steps(r, r.active.len())
            &&& end.issues == r.issues + all_issues(r, stops, ends, r.active.len())
            &&& quiet(end)
            &&& orderly(end)
            &&& !end.fresh
        }),
    decreases r.active.len(), stage(r), tasks_left(r, r.active.last()), disposers_left(r, r.active.last()),
{
    let (end, steps) = shut_down(r, stops, ends);
    let t = answered(r, stops, ends);
    steps_keep_order(r, stops, ends);
    if r.active.len() == 0 {
        assert(end == t);
        assert(end.issues =~= r.issues + all_issues(r, stops, ends, 0));
        assert(steps =~= all_steps(r, 0));
        idle_runtimes_are_quiet(end);
    } else {
        let n = (r.active.len() - 1) as nat;
        let i = r.active[n as int];
        assert(i == r.active.last());
        assert(unfinished(r));
        steps_make_progress(r, stops, ends);
        shutdowns_are_complete(t, stops, ends);
        steps_leave_the_rest(r, stops, ends);
        untouched_modules_take_the_same_steps(r, t, stops, ends, n);
        steps_are_taken_in_order(r, stops, ends);
        assert(all_steps(r, n + 1) == module_steps(r, i) + all_steps(r, n));
        assert(all_issues(r, stops, ends, n + 1) == module_issues(r, i, stops, ends) + all_issues(r, stops, ends, n));
        if !(stepped(r).1 is Remove) {
            assert(all_steps(t, n + 1) == module_steps(t, i) + all_steps(t, n));
            assert(all_issues(t, stops, ends, n + 1) == module_issues(t, i, stops, ends) + all_issues(t, stops, ends, n));
            assert(t.issues + (module_issues(t, i, stops, ends) + all_issues(t, stops, ends, n)) =~= (t.issues
                + module_issues(t, i, stops, ends)) + all_issues(t, stops, ends, n));
        }
        assert(end.issues =~= r.issues + all_issues(r, stops, ends, n + 1));
        assert(steps =~= all_steps(r, n + 1));
    }
}

/// The modules whose stop hook runs, in that order.
pub open spec fn stop_calls(steps: Seq<Step>) -> Seq<int>
    decreases steps.len(),
{
    if steps.len() == 0 {
        Seq::empty()
    } else {
        match steps[0] {
            Step::Stop(i) => seq![i as int] + stop_calls(steps.drop_first()),
            _ => stop_calls(steps.drop_first()),
        }
    }
}

/// The disposers that run, each with its module, in that order.
pub open spec fn dispose_calls(steps: Seq<Step>) -> Seq<(int, int)>
    decreases steps.len(),
{
    if steps.len() == 0 {
        Seq::empty()
    } else {
        match steps[0] {
            Step::Dispose(i, k) => seq![(i as int, k as int)] + dispose_calls(steps.drop_first()),
            _ => dispose_calls(steps.drop_first()),
        }
    }
}

/// The `n` disposers of a module in the reverse of the order in which they were registered.
pub open spec fn backwards(index: int, n: nat) -> Seq<(int, int)> {
    Seq::new(n, |k: int| (index, n - 1 - k))
}

/// The disposers of the first `n` active modules: those of the module that started last
/// come first.
pub open spec fn all_disposals(r: RuntimeView, n: nat) -> Seq<(int, int)>
    decreases n,
{
    if n == 0 {
        Seq::empty()
    } else {
        backwards(r.active[n - 1], disposers_left(r, r.active[n - 1])) + all_disposals(r, (n - 1) as nat)
    }
}

proof fn calls_of_joined_steps(a: Seq<Step>, b: Seq<Step>)
    ensures
        stop_calls(a + b) == stop_calls(a) + stop_calls(b),
        dispose_calls(a + b) == dispose_calls(a) + dispose_calls(b),
    decreases a.len(),
{
    if a.len() == 0 {
        assert(a + b =~= b);
        assert(stop_calls(a) + stop_calls(b) =~= stop_calls(b));
        assert(dispose_calls(a) + dispose_calls(b) =~= dispose_calls(b));
    } else {
        assert((a + b).drop_first() =~= a.drop_first() + b);
        calls_of_joined_steps(a.drop_first(), b);
        assert(stop_calls(a + b) =~= stop_calls(a) + stop_calls(b));
        assert(dispose_calls(a + b) =~= dispose_calls(a) + dispose_calls(b));
    }
}

proof fn joins_call_nothing(index: int, n: nat)
    ensures
        stop_calls(joins(index, n)) == Seq::<int>::empty(),
        dispose_calls(joins(index, n)) == Seq::<(int, int)>::empty(),
    decreases n,
{
    if n > 0 {
        joins_call_nothing(index, (n - 1) as nat);
        assert(joins(index, n).drop_first() =~= joins(index, (n - 1) as nat));
    }
}

proof fn disposals_call_backwards(index: int, n: nat)
    requires
        0 <= index <= usize::MAX,
        n <= usize::MAX,
    ensures
        stop_calls(disposals(index, n)) == Seq::<int>::empty(),
        dispose_calls(disposals(index, n)) == backwards(index, n),
    decreases n,
{
    let all = disposals(index, n);
    if n == 0 {
        assert(backwards(index, n) =~= Seq::<(int, int)>::empty());
    } else {
        let m = (n - 1) as nat;
        disposals_call_backwards(index, m);
        assert(all.drop_first() =~= disposals(index, m));
        assert(all[0] == Step::Dispose(index as usize, m as usize));
        assert(backwards(index, n) =~= seq![(index, m as int)] + backwards(index, m));
    }
}

proof fn calls_go_backwards(r: RuntimeView, n: nat)
    requires
        orderly(r),
        n <= r.active.len(),
        forall|k: int| 0 <= k < n ==> !r.entries[#[trigger] r.active[k]].stop_finished,
    ensures
        stop_calls(all_steps(r, n)) == r.active.subrange(0, n as int).reverse(),
        dispose_calls(all_steps(r, n)) == all_disposals(r, n),
    decreases n,
{
    let some = r.active.subrange(0, n as int);
    if n == 0 {
        assert(some.reverse() =~= Seq::<int>::empty());
    } else {
        calls_go_backwards(r, (n - 1) as nat);
        let i = r.active[n - 1];
        let stop = seq![Step::Stop(i as usize)];
        let remove = seq![Step::Remove(i as usize)];
        let tasks = joins(i, tasks_left(r, i));
        let disposers = disposals(i, disposers_left(r, i));
        assert(!r.entries[r.active[n - 1]].stop_finished);
        assert(i as usize as int == i);
        joins_call_nothing(i, tasks_left(r, i));
        disposals_call_backwards(i, disposers_left(r, i));
        calls_of_joined_steps(stop, tasks);
        calls_of_joined_steps(stop + tasks, disposers);
        calls_of_joined_steps(stop + tasks + disposers, remove);
        calls_of_joined_steps(module_steps(r, i), all_steps(r, (n - 1) as nat));
        assert(stop.drop_first() =~= Seq::<Step>::empty());
        assert(remove.drop_first() =~= Seq::<Step>::empty());
        reveal_with_fuel(stop_calls, 2);
        reveal_with_fuel(dispose_calls, 2);
        assert(stop_calls(module_steps(r, i)) =~= seq![i]);
        assert(dispose_calls(module_steps(r, i)) =~= backwards(i, disposers_left(r, i)));
        assert(some.reverse() =~= seq![i] + r.active.subrange(0, n - 1).reverse());
    }
}

/// The first shutdown runs the stop hook of every module whose start was begun exactly
/// once, in the reverse of the order of the starts, and every disposer exactly once: module
/// by module in that same order, and within a module in the reverse of the order in which
/// they were registered.
pub proof fn every_module_stops_once(
    r: RuntimeView,
    stops: spec_fn(int) -> Hook,
    ends: spec_fn(int, nat) -> Option<Seq<char>>,
)
    requires
        orderly(r),
        forall|k: int| 0 <= k < r.active.len() ==> !r.entries[#[trigger] r.active[k]].stop_finished,
    ensures
        stop_calls(shut_down(r, stops, ends).1) == r.active.reverse(),
        dispose_calls(shut_down(r, stops, ends).1) == all_disposals(r, r.active.len()),
{
    shutdowns_are_complete(r, stops, ends);
    calls_go_backwards(r, r.active.len());
    assert(r.active.subrange(0, r.active.len() as int) =~= r.active);
}

/// After a shutdown another one has nothing to do and finds nothing new, no module is
/// added and nothing starts any more.
pub proof fn shut_runtimes_stay_shut(
    r: RuntimeView,
    stops: spec_fn(int) -> Hook,
    ends: spec_fn(int, nat) -> Option<Seq<char>>,
    m: ModuleView,
    representable: bool,
)
    requires
        quiet(r),
        !r.fresh,
    ensures
        stepped(r) == (r, Step::Done),
        shut_down(r, stops, ends) == (r, Seq::<Step>::empty()),
        add_fault(r, m) == Some(Fault::RuntimeNotFresh),
        startup(r, representable) == Err::<Seq<int>, Fault>(Fault::RuntimeNotFresh),
{
}

proof fn bare_instances_count_nothing(list: Seq<(String, InstanceState)>, n: nat)
    requires
        n <= list.len(),
        forall|i: int|
            0 <= i < list.len() ==> !(#[trigger] list[i]).1.accepting && list[i].1.disposers == 0 && list[i].1.tasks == 0,
    ensures
        accepting(list, n) == 0,
        live_total(list, n, true) == 0,
        live_total(list, n, false) == 0,
    decreases n,
{
    if n > 0 {
        bare_instances_count_nothing(list, (n - 1) as nat);
        assert(!list[n - 1].1.accepting);
    }
}

proof fn clean_entries_count_nothing(r: RuntimeView, n: nat)
    requires
        n <= r.entries.len(),
        forall|i: int| 0 <= i < r.entries.len() ==> (#[trigger] r.entries[i]).cleanup is None,
    ensures
        pending(r.entries, n) == 0,
        held_total(r.entries, n, true) == 0,
        held_total(r.entries, n, false) == 0,
    decreases n,
{
    if n > 0 {
        clean_entries_count_nothing(r, (n - 1) as nat);
        assert(r.entries[n - 1].cleanup is None);
    }
}

/// Every number in the snapshot of a runtime in which nothing is left is zero.
pub proof fn quiet_runtimes_count_nothing(r: Runtime)
    requires
        r.wf(),
        quiet(r@),
    ensures
        accepting(r.state.instances.listed(), r.state.instances.listed().len()) == 0,
        pending(r@.entries, r@.entries.len()) == 0,
        r@.state.services.len() == 0,
        r@.state.listeners.len() == 0,
        resource_total(r, true) == 0,
        resource_total(r, false) == 0,
{
    let list = r.state.instances.listed();
    assert forall|i: int| 0 <= i < list.len() implies !(#[trigger] list[i]).1.accepting && list[i].1.disposers == 0
        && list[i].1.tasks == 0 by {
        r.state.instances.entry_at(i);
        let id = list[i].0@;
        assert(r@.state.instances.contains_key(id));
        assert(bare(r@.state, id));
    }
    bare_instances_count_nothing(list, list.len());
    clean_entries_count_nothing(r@, r@.entries.len());
}

/// A runtime in which nothing has been started or stopped yet.
pub open spec fn unused(r: RuntimeView) -> bool {
    &&& r.active.len() == 0
    &&& forall|i: int|
        0 <= i < r.entries.len() ==> !(#[trigger] r.entries[i]).stop_finished && r.entries[i].cleanup is None
}

/// A runtime without modules is orderly.
pub proof fn empty_runtimes_are_orderly(r: RuntimeView)
    requires
        r.entries.len() == 0,
        r.active.len() == 0,
        r.state == (SharedView { instances: Map::empty(), services: Seq::empty(), listeners: Seq::empty() }),
    ensures
        orderly(r),
        unused(r),
{
}

/// Adding a module keeps the runtime orderly.
pub proof fn adding_keeps_order(r: RuntimeView, m: ModuleView)
    requires
        orderly(r),
        add_fault(r, m) is None,
    ensures
        orderly(added(r, m)),
        unused(r) ==> unused(added(r, m)),
{
    let t = added(r, m);
    assert(!tended(r, m.instance)) by {
        if tended(r, m.instance) {
            let k = choose|k: int|
                0 <= k < r.active.len() && r.entries[#[trigger] r.active[k]].metadata.instance == m.instance;
            assert(r.state.instances.contains_key(r.entries[r.active[k]].metadata.instance));
        }
    }
    assert(bare(r.state, m.instance));
    assert forall|id: Seq<char>| !tended(t, id) implies #[trigger] bare(t.state, id) by {
        if tended(r, id) {
            let k = choose|k: int| 0 <= k < r.active.len() && r.entries[#[trigger] r.active[k]].metadata.instance == id;
            assert(t.entries[t.active[k]].metadata.instance == id);
        }
        assert(bare(r.state, id));
    }
    assert forall|i: int, j: int| 0 <= i < j < t.entries.len() implies (#[trigger] t.entries[i]).metadata.instance != (
    #[trigger] t.entries[j]).metadata.instance by {
        assert(r.state.instances.contains_key(r.entries[i].metadata.instance));
        if j < r.entries.len() {
            assert(r.entries[i].metadata.instance != r.entries[j].metadata.instance);
        }
    }
    assert forall|i: int| 0 <= i < t.entries.len() && (#[trigger] t.entries[i]).cleanup is Some implies t.active.contains(i)
        && bare(t.state, t.entries[i].metadata.instance) by {
        assert(r.entries[i].cleanup is Some);
        assert(bare(r.state, r.entries[i].metadata.instance));
    }
    assert forall|i: int| 0 <= i < t.entries.len() implies t.state.instances.contains_key(
        (#[trigger] t.entries[i]).metadata.instance,
    ) by {
        if i < r.entries.len() {
            assert(r.state.instances.contains_key(r.entries[i].metadata.instance));
        }
    }
}

/// Activating a module that is not active keeps the runtime orderly.
pub proof fn activating_keeps_order(r: RuntimeView, index: int)
    requires
        orderly(r),
        0 <= index < r.entries.len(),
        !r.active.contains(index),
    ensures
        orderly(activated(r, index)),
{
    let t = activated(r, index);
    let own = r.entries[index].metadata.instance;
    assert(r.state.instances.contains_key(own));
    assert(t.active[r.active.len() as int] == index);
    assert forall|id: Seq<char>| !tended(t, id) implies #[trigger] bare(t.state, id) by {
        if tended(r, id) {
            let k = choose|k: int| 0 <= k < r.active.len() && r.entries[#[trigger] r.active[k]].metadata.instance == id;
            assert(t.active[k] == r.active[k]);
            assert(t.entries[t.active[k]].metadata.instance == id);
        }
        if id == own {
            assert(t.entries[t.active[r.active.len() as int]].metadata.instance == id);
        }
        assert(bare(r.state, id));
    }
    assert forall|i: int| 0 <= i < t.entries.len() && (#[trigger] t.entries[i]).cleanup is Some implies t.active.contains(i)
        && bare(t.state, t.entries[i].metadata.instance) by {
        assert(r.entries[i].cleanup is Some);
        let k = choose|k: int| 0 <= k < r.active.len() && r.active[k] == i;
        assert(t.active[k] == i);
        assert(i != index);
        if i < index {
            assert(r.entries[i].metadata.instance != r.entries[index].metadata.instance);
        } else {
            assert(r.entries[index].metadata.instance != r.entries[i].metadata.instance);
        }
        assert(bare(r.state, r.entries[i].metadata.instance));
    }
    assert forall|k: int| 0 <= k < t.active.len() implies 0 <= #[trigger] t.active[k] < t.entries.len() by {
        if k < r.active.len() {
            assert(t.active[k] == r.active[k]);
        }
    }
    assert forall|x: int, y: int| 0 <= x < t.active.len() && 0 <= y < t.active.len() && x != y implies t.active[x]
        != t.active[y] by {
        if x < r.active.len() && y < r.active.len() {
            assert(r.active[x] != r.active[y]);
        } else if x < r.active.len() {
            assert(r.active[x] != index);
        } else {
            assert(r.active[y] != index);
        }
    }
}

/// The runtime once the modules of `order` have been activated.
pub open spec fn all_activated(r: RuntimeView, order: Seq<int>) -> RuntimeView
    decreases order.len(),
{
    if order.len() == 0 { r } else { activated(all_activated(r, order.drop_last()), order.last()) }
}

/// A startup, however far it came, leaves an orderly runtime whose active modules are
/// those that were begun, in that order, none of them stopped.
pub proof fn startups_are_orderly(r: RuntimeView, order: Seq<int>)
    requires
        orderly(r),
        unused(r),
        order.no_duplicates(),
        forall|k: int| 0 <= k < order.len() ==> 0 <= #[trigger] order[k] < r.entries.len(),
    ensures
        orderly(all_activated(r, order)),
        all_activated(r, order).active == order,
        all_activated(r, order).entries == r.entries,
        forall|k: int| 0 <= k < order.len() ==> !all_activated(r, order).entries[#[trigger] order[k]].stop_finished,
    decreases order.len(),
{
    if order.len() == 0 {
        assert(r.active =~= order);
    } else {
        let front = order.drop_last();
        assert forall|x: int, y: int| 0 <= x < front.len() && 0 <= y < front.len() && x != y implies front[x] != front[y] by {
            assert(order[x] != order[y]);
        }
        assert forall|k: int| 0 <= k < front.len() implies 0 <= #[trigger] front[k] < r.entries.len() by {
            assert(front[k] == order[k]);
        }
        startups_are_orderly(r, front);
        let last = order[order.len() - 1];
        if front.contains(last) {
            let k = choose|k: int| 0 <= k < front.len() && front[k] == last;
            assert(order[k] != order[order.len() - 1]);
        }
        activating_keeps_order(all_activated(r, front), last);
        assert(all_activated(r, order).active =~= order);
    }
}

/// What an active instance does for itself keeps the runtime orderly.
proof fn own_changes_keep_order(r: RuntimeView, id: Seq<char>, s: SharedView)
    requires
        orderly(r),
        is_active(r.state, id),
        forall|other: Seq<char>| r.state.instances.contains_key(other) ==> #[trigger] s.instances.contains_key(other),
        forall|other: Seq<char>| other != id && bare(r.state, other) ==> #[trigger] bare(s, other),
    ensures
        orderly((RuntimeView { state: s, ..r })),
{
    let t = RuntimeView { state: s, ..r };
    assert(!bare(r.state, id));
    assert(tended(r, id));
    assert forall|other: Seq<char>| !tended(t, other) implies #[trigger] bare(t.state, other) by {
        if tended(r, other) {
            same_modules_are_tended(r, t, other);
        }
        same_modules_are_tended(r, t, id);
        assert(bare(r.state, other));
    }
    assert forall|i: int| 0 <= i < t.entries.len() && (#[trigger] t.entries[i]).cleanup is Some implies t.active.contains(i)
        && bare(t.state, t.entries[i].metadata.instance) by {
        assert(bare(r.state, r.entries[i].metadata.instance));
    }
    assert forall|i: int| 0 <= i < t.entries.len() implies t.state.instances.contains_key(
        (#[trigger] t.entries[i]).metadata.instance,
    ) by {
        assert(r.state.instances.contains_key(r.entries[i].metadata.instance));
    }
}

proof fn open_listeners_were_there(listeners: Seq<ListenerView>, open: Seq<bool>, n: nat)
    requires
        n <= listeners.len(),
    ensures
        forall|i: int|
            0 <= i < open_listeners(listeners, open, n).len() ==> listeners.contains(
                #[trigger] open_listeners(listeners, open, n)[i],
            ),
    decreases n,
{
    if n > 0 {
        open_listeners_were_there(listeners, open, (n - 1) as nat);
        let all = open_listeners(listeners, open, n);
        let some = open_listeners(listeners, open, (n - 1) as nat);
        assert forall|i: int| 0 <= i < all.len() implies listeners.contains(#[trigger] all[i]) by {
            if i < some.len() {
                assert(all[i] == some[i]);
            } else {
                assert(listeners[n - 1] == all[i]);
            }
        }
    }
}

/// Publishing a service, subscribing, and handing over a disposer or a task keep the
/// runtime orderly: only an active instance does these.
pub proof fn active_instances_keep_order(r: RuntimeView, id: Seq<char>, key: KeyView, topic: Seq<char>, open: Seq<bool>)
    requires
        orderly(r),
        is_active(r.state, id),
        open.len() == r.state.listeners.len(),
    ensures
        ({
            let s = r.state;
            let i = s.instances[id];
            let kept = open_listeners(s.listeners, open, open.len());
            &&& orderly((RuntimeView { state: SharedView { services: s.services.push((key, id)), ..s }, ..r }))
            &&& orderly(
                (RuntimeView {
                    state: SharedView { listeners: kept.push(ListenerView { owner: id, topic }), ..s },
                    ..r
                }),
            )
            &&& orderly(
                (RuntimeView {
                    state: with_instance(s, id, InstanceView { disposers: (i.disposers + 1) as usize, ..i }),
                    ..r
                }),
            )
            &&& orderly(
                (RuntimeView { state: with_instance(s, id, InstanceView { tasks: (i.tasks + 1) as usize, ..i }), ..r }),
            )
        }),
{
    let s = r.state;
    let i = s.instances[id];
    let kept = open_listeners(s.listeners, open, open.len());
    open_listeners_were_there(s.listeners, open, open.len());
    let published = SharedView { services: s.services.push((key, id)), ..s };
    let subscribed = SharedView { listeners: kept.push(ListenerView { owner: id, topic }), ..s };
    let disposing = with_instance(s, id, InstanceView { disposers: (i.disposers + 1) as usize, ..i });
    let busy = with_instance(s, id, InstanceView { tasks: (i.tasks + 1) as usize, ..i });
    assert forall|other: Seq<char>| other != id && bare(s, other) implies #[trigger] bare(subscribed, other) by {
        assert forall|k: int| 0 <= k < subscribed.listeners.len() implies (#[trigger] subscribed.listeners[k]).owner
            != other by {
            if k < kept.len() {
                assert(s.listeners.contains(kept[k]));
                let j = choose|j: int| 0 <= j < s.listeners.len() && s.listeners[j] == kept[k];
            }
        }
    }
    own_changes_keep_order(r, id, published);
    own_changes_keep_order(r, id, subscribed);
    own_changes_keep_order(r, id, disposing);
    own_changes_keep_order(r, id, busy);
}

/// Dropping subscriptions whose queue is closed keeps the runtime orderly.
pub proof fn deliveries_keep_order(r: RuntimeView, open: Seq<bool>)
    requires
        orderly(r),
        open.len() == r.state.listeners.len(),
    ensures
        orderly(
            (RuntimeView {
                state: SharedView { listeners: open_listeners(r.state.listeners, open, open.len()), ..r.state },
                ..r
            }),
        ),
{
    let s = r.state;
    let t = RuntimeView { state: SharedView { listeners: open_listeners(s.listeners, open, open.len()), ..s }, ..r };
    open_listeners_were_there(s.listeners, open, open.len());
    assert forall|id: Seq<char>| bare(s, id) implies #[trigger] bare(t.state, id) by {
        assert forall|k: int| 0 <= k < t.state.listeners.len() implies (#[trigger] t.state.listeners[k]).owner != id by {
            let j = choose|j: int| 0 <= j < s.listeners.len() && s.listeners[j] == t.state.listeners[k];
        }
    }
    assert forall|id: Seq<char>| !tended(t, id) implies #[trigger] bare(t.state, id) by {
        if tended(r, id) {
            same_modules_are_tended(r, t, id);
        }
        assert(bare(s, id));
    }
    assert forall|i: int| 0 <= i < t.entries.len() && (#[trigger] t.entries[i]).cleanup is Some implies t.active.contains(i)
        && bare(t.state, t.entries[i].metadata.instance) by {
        assert(bare(s, r.entries[i].metadata.instance));
    }
}

} // verus!
