//! What the commands can be relied on for: their arguments, their codes and reports, and the
//! paths that they keep apart.
use super::arguments::{count_of, counted, options_from, parsed, taken, OptionsView, WordView};
use super::configuration::{
    exposed_by, gleaned, inside, launched, normal, overlaps, places_fault, protected_by, resolved, state_fault, transports,
    LaunchedView, PlacesView, ServerPlacesView,
};
use super::host::{host_modules, nothing_left};
use super::reports::{
    applied_tree, code_of, failure_tree, inspected, inspection, repair_code_of, repair_config, repair_failure, retained,
    selected_config, settlement, AssemblyView, ConfigShape,
};
use super::faults_shown;
use crate::framework::RuntimeSnapshot;
use crate::harnesses::{found, DefinitionView, Fault};
use crate::json::laws::group_members;
use crate::json::{member, Tree};
use crate::paths::{is_under, LocationView, PartView};
use crate::recovery::approval::store::StoreView;
use crate::recovery::approval::{ApprovalDecision, ApprovalState, ChangeView, PolicyView};
use crate::recovery::engine::{Simulation, TaskState};
use crate::recovery::workflow::{ConfigView, Fault as WorkflowFault};
use crate::text::laws::characters_are_of_their_kind;
use crate::text::{lowered, starts_with};
use vstd::prelude::*;

verus! {

broadcast use group_members;

// Arguments.

proof fn options_stand_behind_their_flags(args: Seq<WordView>, i: nat, o: OptionsView)
    requires
        i >= 1,
        args.len() <= usize::MAX,
        o.data_dir is Some ==> 1 < o.data_dir->0 < args.len() && args[o.data_dir->0 - 1].text == Some("--data-dir"@),
        o.task is Some ==> exists|k: int|
            1 <= k < args.len() - 1 && (#[trigger] args[k]).text == Some("--task"@) && args[k + 1].text == o.task,
        o.concurrency == 2 || exists|k: int|
            1 <= k < args.len() - 1 && (#[trigger] args[k]).text == Some("--concurrency"@) && args[k + 1].text is Some
                && count_of(args[k + 1].text->0) == Ok::<usize, Seq<char>>(o.concurrency),
    ensures
        options_from(args, i, o) is Ok ==> {
            let r = options_from(args, i, o)->Ok_0;
            &&& r.data_dir is Some ==> 1 < r.data_dir->0 < args.len() && args[r.data_dir->0 - 1].text == Some("--data-dir"@)
            &&& r.task is Some ==> exists|k: int|
                1 <= k < args.len() - 1 && (#[trigger] args[k]).text == Some("--task"@) && args[k + 1].text == r.task
            &&& r.concurrency == 2 || exists|k: int|
                1 <= k < args.len() - 1 && (#[trigger] args[k]).text == Some("--concurrency"@) && args[k + 1].text is Some
                    && count_of(args[k + 1].text->0) == Ok::<usize, Seq<char>>(r.concurrency)
        },
    decreases args.len() - i,
{
    if i + 1 < args.len() {
        match taken(args, i, o) {
            Ok(n) => {
                let flag = args[i as int];
                assert(args[i as int + 1].text == args[i as int + 1].text);
                options_stand_behind_their_flags(args, i + 2, n);
            },
            Err(_) => {},
        }
    }
}

/// What is parsed is what was given: the command is the first word, the directory, the task
/// and the number stand behind their flags, and the number of tasks at once is between 1 and
/// 32, and 2 if none is given.
pub proof fn arguments_are_taken_as_given(args: Seq<WordView>)
    requires
        args.len() <= usize::MAX,
    ensures
        parsed(args) is Ok && parsed(args)->Ok_0 is Some ==> {
            let a = parsed(args)->Ok_0->0;
            &&& 1 < a.data_dir < args.len() && args[a.data_dir - 1].text == Some("--data-dir"@)
            &&& 1 <= a.concurrency <= 32
            &&& a.command is Demo <==> args[0].text == Some("demo"@)
            &&& a.command is Inspect <==> args[0].text == Some("inspect"@)
            &&& a.command is Inspect ==> exists|k: int|
                1 <= k < args.len() - 1 && (#[trigger] args[k]).text == Some("--task"@) && args[k + 1].text == Some(
                    a.command->Inspect_0,
                )
            &&& a.concurrency == 2 || exists|k: int|
                1 <= k < args.len() - 1 && (#[trigger] args[k]).text == Some("--concurrency"@) && args[k + 1].text is Some
                    && count_of(args[k + 1].text->0) == Ok::<usize, Seq<char>>(a.concurrency)
        },
        args.len() > 0 && (args[0].text == Some("--help"@) || args[0].text == Some("-h"@)) ==> parsed(args) == Ok::<
            Option<super::arguments::ArgumentsView>,
            Seq<char>,
        >(None),
        args.len() == 0 ==> parsed(args) == Ok::<Option<super::arguments::ArgumentsView>, Seq<char>>(None),
        args.len() == 1 && args[0].text != Some("--help"@) && args[0].text != Some("-h"@) ==> parsed(args) is Err,
{
    reveal_strlit("demo");
    reveal_strlit("inspect");
    assert("demo"@.len() == 4 && "inspect"@.len() == 7);
    options_stand_behind_their_flags(args, 1, OptionsView { data_dir: None, task: None, concurrency: 2 });
}

proof fn digits_are_counted(text: Seq<char>, i: nat, value: nat, last: char)
    requires
        i <= text.len(),
        value <= usize::MAX,
    ensures
        counted(text, i, value) is Ok && 48 <= last as int <= 57 && counted(text, i, value)->Ok_0 * 10 + (last as int - 48)
            <= usize::MAX ==> counted(text.push(last), i, value) == Ok::<usize, Seq<char>>(
            (counted(text, i, value)->Ok_0 * 10 + (last as int - 48)) as usize,
        ),
        counted(text, i, value) is Ok && 48 <= last as int <= 57 && counted(text, i, value)->Ok_0 * 10 + (last as int - 48)
            > usize::MAX ==> counted(text.push(last), i, value) is Err,
        !(48 <= last as int <= 57) ==> counted(text.push(last), i, value) is Err,
        counted(text, i, value) is Err ==> counted(text.push(last), i, value) is Err,
    decreases text.len() - i,
{
    let more = text.push(last);
    if i < text.len() {
        assert(more[i as int] == text[i as int]);
        let c = text[i as int];
        characters_are_of_their_kind(c);
        if 48 <= c as int <= 57 {
            let next = value * 10 + (c as int - '0' as int);
            if next > usize::MAX {
                assert(counted(text, i, value) is Err);
            } else {
                digits_are_counted(text, i + 1, next as nat, last);
                assert(counted(text, i, value) == counted(text, i + 1, next as nat));
                assert(counted(more, i, value) == counted(more, i + 1, next as nat));
            }
        } else {
            assert(counted(text, i, value) is Err);
        }
    } else {
        assert(more[i as int] == last);
        assert(counted(text, i, value) == Ok::<usize, Seq<char>>(value as usize));
        assert(value as usize == value);
        characters_are_of_their_kind(last);
        if 48 <= last as int <= 57 {
            let next = value * 10 + (last as int - '0' as int);
            if next <= usize::MAX {
                assert(counted(more, i + 1, next as nat) == Ok::<usize, Seq<char>>(next as nat as usize));
                assert(counted(more, i, value) == counted(more, i + 1, next as nat));
            }
        }
    }
}

/// A number is read digit by digit: a further digit makes it ten times as large and adds
/// itself, as long as that fits; anything but a digit is refused. One sign in front is
/// allowed, and nothing at all is no number.
pub proof fn numbers_are_read_by_their_digits(text: Seq<char>, last: char)
    requires
        text.len() > 0,
        text != seq!['+'],
    ensures
        count_of(Seq::empty()) is Err,
        count_of(seq!['+']) is Err,
        48 <= last as int <= 57 ==> count_of(seq![last]) == Ok::<usize, Seq<char>>((last as int - 48) as usize),
        !(48 <= last as int <= 57) ==> count_of(seq![last]) is Err && count_of(text.push(last)) is Err,
        count_of(text) is Ok && 48 <= last as int <= 57 && count_of(text)->Ok_0 * 10 + (last as int - 48) <= usize::MAX
            ==> count_of(text.push(last)) == Ok::<usize, Seq<char>>(
            (count_of(text)->Ok_0 * 10 + (last as int - 48)) as usize,
        ),
        count_of(text) is Ok && 48 <= last as int <= 57 && count_of(text)->Ok_0 * 10 + (last as int - 48) > usize::MAX
            ==> count_of(text.push(last)) is Err,
        count_of(text) is Err ==> count_of(text.push(last)) is Err,
{
    reveal_with_fuel(counted, 3);
    assert(text.push(last)[0] == text[0]);
    assert(seq![last][0] == last);
    if text[0] == '+' {
        if text.len() == 1 {
            assert(text =~= seq!['+']);
        }
        digits_are_counted(text, 1, 0, last);
    } else {
        digits_are_counted(text, 0, 0, last);
    }
}

// The demonstration.

/// The demonstration shows every kind of outcome: what was not authorized is denied, what is
/// cancelled is cancelled, and otherwise the simulated outcome is the expected one. Every
/// task carries the name of the run.
pub proof fn demonstrations_show_every_outcome(run: Seq<char>, i: int)
    requires
        0 <= i < faults_shown(run).len(),
    ensures
        ({
            let t = faults_shown(run)[i];
            &&& t.expected == TaskState::Denied <==> !t.spec.simulation_authorized
            &&& t.expected == TaskState::Canceled <==> t.cancel
            &&& t.spec.simulation_authorized && !t.cancel ==> {
                &&& t.expected == TaskState::Succeeded <==> t.spec.simulation == Simulation::Succeed
                &&& t.expected == TaskState::Failed <==> t.spec.simulation == Simulation::Fail || t.spec.simulation
                    == Simulation::VerificationFailed
                &&& t.expected == TaskState::Unknown <==> t.spec.simulation == Simulation::Exit || t.spec.simulation
                    == Simulation::Hang
            }
            &&& t.spec.id.len() >= run.len() && t.spec.id.subrange(0, run.len() as int) == run
            &&& t.spec.target.len() >= run.len() && t.spec.target.subrange(0, run.len() as int) == run
        }),
{
    let t = faults_shown(run)[i];
    assert(i == 0 || i == 1 || i == 2 || i == 3 || i == 4 || i == 5 || i == 6);
    assert(t.spec.id.subrange(0, run.len() as int) =~= run);
    assert(t.spec.target.subrange(0, run.len() as int) =~= run);
}

// The host.

/// A host has its bindings in any case, and the services that are configured, each once.
pub proof fn hosts_hold_what_is_configured(harnesses: bool, extensions: bool, monitoring: bool)
    ensures
        ({
            let list = host_modules(harnesses, extensions, monitoring);
            let h: int = if harnesses { 1 } else { 0 };
            let m: int = if monitoring { 1 } else { 0 };
            let e: int = if extensions { 1 } else { 0 };
            &&& list.len() == 1 + h + m + e
            &&& list[0].instance == "host-bindings"@ && list[0].provides.len() == 0
            &&& list[0].required.len() == h + m + e
            &&& harnesses ==> list[1].instance == "host-harnesses"@ && list[1].provides.len() == 1
                && list[1].provides[0].name == "harness.registry"@ && list[1].required.len() == e
            &&& monitoring ==> list[1 + h].instance == "host-monitoring"@ && list[1 + h].provides.len() == 1 && list[1
                + h].provides[0].name == "monitoring.service"@ && list[1 + h].required.len() == 1 && list[1
                + h].required[0].name == "extensions.registry"@
            &&& extensions ==> list[1 + h + m].instance == "host-extensions"@ && list[1 + h + m].provides.len() == 1 && list[1
                + h + m].provides[0].name == "extensions.registry"@ && list[1 + h + m].required.len() == 0
        }),
{
}

/// A host has stopped cleanly exactly if nothing is left of any kind.
pub proof fn clean_stops_leave_nothing(s: RuntimeSnapshot)
    ensures
        nothing_left(s) <==> s.active_instances == 0 && s.pending_cleanup_instances == 0 && s.services == 0 && s.subscriptions
            == 0 && s.disposers == 0 && s.background_tasks == 0,
{
}

// Codes and reports.

/// A command exits with 3 where its effect is not known, with 130 where it was interrupted,
/// and with 1 on every other failure.
pub proof fn failures_exit_by_kind(f: Fault)
    ensures
        code_of(f) == 3 <==> f is ConversationOutcomeUnknown || f is ProjectCreationOutcomeUnknown,
        code_of(f) == 130 <==> f is Interrupted,
        code_of(f) == 1 || code_of(f) == 3 || code_of(f) == 130,
{
}

/// A repair command exits with 0 only where its report says neither that something failed, is
/// blocked, waits, was cancelled, nor that it is unknown.
pub proof fn repairs_exit_by_status(report: Tree, s: Seq<char>)
    requires
        member(report, "status"@) == Some(Tree::Text(s)),
    ensures
        s == "unknown"@ ==> repair_code_of(report) == 3,
        s == "waiting_human"@ ==> repair_code_of(report) == 4,
        s == "canceled"@ ==> repair_code_of(report) == 130,
        s == "failed"@ || s == "blocked"@ ==> repair_code_of(report) == 1,
        repair_code_of(report) == 0 <==> s != "unknown"@ && s != "waiting_human"@ && s != "canceled"@ && s != "failed"@ && s
            != "blocked"@,
{
    reveal_strlit("unknown");
    reveal_strlit("waiting_human");
    reveal_strlit("canceled");
    reveal_strlit("failed");
    reveal_strlit("blocked");
    assert("unknown"@.len() == 7 && "waiting_human"@.len() == 13 && "canceled"@.len() == 8
        && "failed"@.len() == 6 && "blocked"@.len() == 7 && "unknown"@[0] == 'u' && "blocked"@[0] == 'b');
}

/// A failed repair says that its outcome is unknown, and exits so, exactly where a write may
/// have happened; otherwise it failed. It never asks for a retry.
pub proof fn repair_failures_say_what_may_have_happened(f: WorkflowFault)
    ensures
        f is OutcomeUnknown ==> repair_failure(f).1 == 3 && member(repair_failure(f).0, "status"@) == Some(
            Tree::Text("unknown"@),
        ) && member(repair_failure(f).0, "request_id"@) == Some(Tree::Text(f->request_id)),
        !(f is OutcomeUnknown) ==> repair_failure(f).1 == 1 && member(repair_failure(f).0, "status"@) == Some(
            Tree::Text("failed"@),
        ),
        member(repair_failure(f).0, "auto_retry"@) == Some(Tree::Bool(false)),
{
    reveal_strlit("status");
    reveal_strlit("request_id");
    reveal_strlit("message");
    reveal_strlit("auto_retry");
    reveal_strlit("recovery");
    assert("status"@.len() == 6 && "request_id"@.len() == 10 && "message"@.len() == 7
        && "auto_retry"@.len() == 10 && "recovery"@.len() == 8 && "request_id"@[0] == 'r'
        && "auto_retry"@[0] == 'a');
}

/// A report on an applied change says that it is complete only where it was executed, that it
/// is unknown where that is unknown, and otherwise that it failed; never that the fault is
/// over.
pub proof fn applied_changes_are_reported_as_recorded(state: ApprovalState, record: Tree)
    ensures
        member(applied_tree(state, record), "status"@) == Some(
            Tree::Text(
                if state == ApprovalState::Executed {
                    "completed"@
                } else if state == ApprovalState::Unknown {
                    "unknown"@
                } else {
                    "failed"@
                },
            ),
        ),
        member(applied_tree(state, record), "record"@) == Some(record),
        member(applied_tree(state, record), "business_verified"@) == Some(Tree::Bool(false)),
        member(applied_tree(state, record), "auto_retry"@) == Some(Tree::Bool(false)),
{
    reveal_strlit("status");
    reveal_strlit("record");
    reveal_strlit("business_verified");
    reveal_strlit("auto_retry");
    assert("status"@.len() == 6 && "record"@.len() == 6 && "business_verified"@.len() == 17
        && "auto_retry"@.len() == 10 && "status"@[0] == 's' && "record"@[0] == 'r');
}

/// A failure is reported with its message, its category if it has one, and the outcome that
/// was reached before it; it never asks for a retry.
pub proof fn failures_are_reported_whole(category: Option<Seq<char>>, message: Seq<char>, outcome: Option<Tree>)
    ensures
        member(failure_tree(category, message, outcome), "status"@) == Some(Tree::Text("failed"@)),
        member(failure_tree(category, message, outcome), "message"@) == Some(Tree::Text(message)),
        category is Some ==> member(failure_tree(category, message, outcome), "category"@) == Some(Tree::Text(category->0)),
        category is None ==> member(failure_tree(category, message, outcome), "category"@) is None,
        member(failure_tree(category, message, outcome), "operation_outcome"@) == outcome,
        member(failure_tree(category, message, outcome), "auto_retry"@) == Some(Tree::Bool(false)),
{
    reveal_strlit("status");
    reveal_strlit("category");
    reveal_strlit("message");
    reveal_strlit("operation_outcome");
    reveal_strlit("auto_retry");
    assert("status"@.len() == 6 && "category"@.len() == 8 && "message"@.len() == 7
        && "operation_outcome"@.len() == 17 && "auto_retry"@.len() == 10);
}

/// A command at the terminal settles a request as its name says, by its local operator and
/// for the given reason; only under a policy that is current, and only in time.
pub proof fn terminals_settle_as_named(
    s: StoreView,
    command: Seq<char>,
    id: Seq<char>,
    reason: Seq<char>,
    policy: PolicyView,
    now: u64,
)
    requires
        command == "approve"@ || command == "deny"@ || command == "revoke"@,
        settlement(s, command, id, reason, policy, now) is Ok,
        settlement(s, command, id, reason, policy, now)->Ok_0 is Append,
    ensures
        ({
            let e = settlement(s, command, id, reason, policy, now)->Ok_0->Append_0.event;
            &&& e is Changed && e->Changed_request_id == id
            &&& command == "revoke"@ ==> e->change == (ChangeView::Revoke { reason })
            &&& command != "revoke"@ ==> {
                let a = e->change->HumanDecision_assessment;
                &&& e->change is HumanDecision
                &&& a.decision == (if command == "approve"@ { ApprovalDecision::Approve } else { ApprovalDecision::Deny })
                &&& a.reason == reason
                &&& a.reviewer is Human
                &&& s.records[id].request.policy == policy
            }
        }),
{
    reveal_strlit("approve");
    reveal_strlit("deny");
    reveal_strlit("revoke");
    assert("approve"@.len() == 7 && "deny"@.len() == 4 && "revoke"@.len() == 6);
}

proof fn found_is_listed(list: Seq<DefinitionView>, id: Seq<char>)
    ensures
        found(list, id) is Some ==> list.contains(found(list, id)->0) && found(list, id)->0.id == id,
        found(list, id) is None ==> forall|i: int| 0 <= i < list.len() ==> (#[trigger] list[i]).id != id,
    decreases list.len(),
{
    if list.len() > 0 {
        let rest = list.drop_first();
        found_is_listed(rest, id);
        if list[0].id == id {
            assert(list.contains(list[0]));
        } else if found(rest, id) is Some {
            let k = choose|k: int| 0 <= k < rest.len() && rest[k] == found(rest, id)->0;
            assert(list[k + 1] == found(rest, id)->0);
        } else {
            assert forall|i: int| 0 <= i < list.len() implies (#[trigger] list[i]).id != id by {
                if i > 0 {
                    assert(rest[i - 1] == list[i]);
                }
            }
        }
    }
}

/// A command works on one instance: the one that it names, else the default, if it is listed
/// and enabled.
pub proof fn commands_select_one_instance(c: ConfigShape, wanted: Option<Seq<char>>)
    ensures
        wanted is None && c.default_harness is None ==> selected_config(c, wanted) == Err::<ConfigShape, Fault>(
            Fault::NoDefaultHarness,
        ),
        ({
            let id = if wanted is Some { wanted->0 } else { c.default_harness->0 };
            wanted is Some || c.default_harness is Some ==> {
                &&& selected_config(c, wanted) is Ok ==> {
                    let r = selected_config(c, wanted)->Ok_0;
                    &&& r.schema_version == c.schema_version
                    &&& r.default_harness == Some(id)
                    &&& r.harnesses.len() == 1 && r.harnesses[0].id == id && r.harnesses[0].enabled
                    &&& c.harnesses.contains(r.harnesses[0])
                }
                &&& (forall|i: int| 0 <= i < c.harnesses.len() ==> (#[trigger] c.harnesses[i]).id != id) ==> selected_config(
                    c,
                    wanted,
                ) == Err::<ConfigShape, Fault>(Fault::UnknownHarness(id))
                &&& (exists|i: int| 0 <= i < c.harnesses.len() && (#[trigger] c.harnesses[i]).id == id) && (forall|i: int|
                    0 <= i < c.harnesses.len() && (#[trigger] c.harnesses[i]).id == id ==> c.harnesses[i].enabled)
                    ==> selected_config(c, wanted) is Ok
                &&& (exists|i: int| 0 <= i < c.harnesses.len() && (#[trigger] c.harnesses[i]).id == id) && (forall|i: int|
                    0 <= i < c.harnesses.len() && (#[trigger] c.harnesses[i]).id == id ==> !c.harnesses[i].enabled)
                    ==> selected_config(c, wanted) == Err::<ConfigShape, Fault>(Fault::HarnessDisabled(id))
            }
        }),
{
    if wanted is Some || c.default_harness is Some {
        let id = if wanted is Some { wanted->0 } else { c.default_harness->0 };
        found_is_listed(c.harnesses, id);
        if found(c.harnesses, id) is Some {
            let d = found(c.harnesses, id)->0;
            let k = choose|k: int| 0 <= k < c.harnesses.len() && c.harnesses[k] == d;
            assert(c.harnesses[k].id == id);
        }
    }
}

proof fn retained_are_named(list: Seq<DefinitionView>, ids: Seq<Seq<char>>)
    ensures
        forall|i: int|
            0 <= i < retained(list, ids).len() ==> ids.contains((#[trigger] retained(list, ids)[i]).id) && list.contains(
                retained(list, ids)[i],
            ),
        forall|k: int|
            0 <= k < list.len() && ids.contains((#[trigger] list[k]).id) ==> retained(list, ids).contains(list[k]),
    decreases list.len(),
{
    if list.len() > 0 {
        let front = list.drop_last();
        retained_are_named(front, ids);
        let some = retained(front, ids);
        let all = retained(list, ids);
        assert forall|i: int| 0 <= i < all.len() implies ids.contains((#[trigger] all[i]).id) && list.contains(all[i]) by {
            if i < some.len() {
                assert(all[i] == some[i]);
                let k = choose|k: int| 0 <= k < front.len() && front[k] == some[i];
                assert(list[k] == some[i]);
            } else {
                assert(list[list.len() - 1] == all[i]);
            }
        }
        assert forall|k: int| 0 <= k < list.len() && ids.contains((#[trigger] list[k]).id) implies all.contains(list[k]) by {
            if k < front.len() {
                assert(front[k] == list[k]);
                let i = choose|i: int| 0 <= i < some.len() && some[i] == list[k];
                assert(all[i] == list[k]);
            } else {
                assert(all[all.len() - 1] == list[k]);
            }
        }
    }
}

/// A repair runs with the instance that executes and, where an instance reviews, with that
/// one; both must be enabled, and no other comes along.
pub proof fn repairs_run_with_their_instances(c: ConfigShape, r: ConfigView, k: int)
    requires
        repair_config(c, r) is Ok,
    ensures
        ({
            let s = repair_config(c, r)->Ok_0;
            &&& s.schema_version == c.schema_version
            &&& s.default_harness == Some(r.execution_harness)
            &&& exists|i: int|
                0 <= i < c.harnesses.len() && (#[trigger] c.harnesses[i]).id == r.execution_harness && c.harnesses[i].enabled
            &&& r.policy.reviewer is Harness ==> exists|i: int|
                0 <= i < c.harnesses.len() && (#[trigger] c.harnesses[i]).id == r.policy.reviewer->harness_id
                    && c.harnesses[i].enabled
            &&& 0 <= k < s.harnesses.len() ==> c.harnesses.contains(s.harnesses[k]) && (s.harnesses[k].id
                == r.execution_harness || (r.policy.reviewer is Harness && s.harnesses[k].id
                == r.policy.reviewer->harness_id))
            &&& 0 <= k < c.harnesses.len() && c.harnesses[k].id == r.execution_harness ==> s.harnesses.contains(c.harnesses[k])
            &&& 0 <= k < c.harnesses.len() && r.policy.reviewer is Harness && c.harnesses[k].id
                == r.policy.reviewer->harness_id ==> s.harnesses.contains(c.harnesses[k])
        }),
{
    let ids = super::reports::repair_ids(r);
    retained_are_named(c.harnesses, ids);
    assert(super::reports::enabled(c.harnesses, ids[0]));
    assert(ids.contains(ids[0]));
    if r.policy.reviewer is Harness {
        assert(super::reports::enabled(c.harnesses, ids[1]));
        assert(ids.contains(ids[1]));
    }
}

/// An inspection says of each instance whether it is disabled, was assembled, or is not
/// available and why; it says that all is well only if no enabled instance failed.
pub proof fn inspections_show_each_instance(c: ConfigShape, made: Seq<AssemblyView>, i: int)
    requires
        0 <= i < c.harnesses.len(),
    ensures
        ({
            let d = c.harnesses[i];
            let t = inspected(d, made[i], c.default_harness);
            &&& member(inspection(c, made), "harnesses"@) is Some
            &&& member(inspection(c, made), "harnesses"@)->0->Array_0.len() == c.harnesses.len()
            &&& member(inspection(c, made), "harnesses"@)->0->Array_0[i] == t
            &&& member(t, "id"@) == Some(Tree::Text(d.id))
            &&& member(t, "adapter"@) == Some(Tree::Text(d.adapter))
            &&& member(t, "address"@) == Some(Tree::Text(d.address))
            &&& member(t, "enabled"@) == Some(Tree::Bool(d.enabled))
            &&& member(t, "is_default"@) == Some(Tree::Bool(c.default_harness == Some(d.id)))
            &&& !d.enabled ==> member(t, "availability"@) == Some(Tree::Text("disabled"@))
            &&& d.enabled && made[i] is Built ==> member(t, "availability"@) == Some(Tree::Text("configured"@))
            &&& d.enabled && made[i] is Failed ==> member(t, "availability"@) == Some(Tree::Text("unavailable"@)) && member(
                inspection(c, made),
                "status"@,
            ) == Some(Tree::Text("unavailable"@))
            &&& made[i] is Built ==> member(t, "reason"@) == Some(Tree::Null)
        }),
        (forall|k: int| 0 <= k < c.harnesses.len() ==> !(#[trigger] c.harnesses[k]).enabled || made[k] is Built) ==> member(
            inspection(c, made),
            "status"@,
        ) == Some(Tree::Text("ok"@)),
{
    reveal_strlit("status");
    reveal_strlit("default_harness");
    reveal_strlit("harnesses");
    assert("status"@.len() == 6 && "default_harness"@.len() == 15 && "harnesses"@.len() == 9);
    reveal_strlit("id");
    reveal_strlit("adapter");
    reveal_strlit("address");
    reveal_strlit("enabled");
    reveal_strlit("is_default");
    reveal_strlit("workspace_roots");
    reveal_strlit("availability");
    reveal_strlit("authentication");
    reveal_strlit("runtime_status");
    reveal_strlit("reason");
    assert("id"@.len() == 2 && "adapter"@.len() == 7 && "address"@.len() == 7 && "enabled"@.len() == 7
        && "is_default"@.len() == 10 && "workspace_roots"@.len() == 15 && "availability"@.len() == 12
        && "authentication"@.len() == 14 && "runtime_status"@.len() == 14 && "reason"@.len() == 6
        && "adapter"@[2] == 'a' && "address"@[2] == 'd' && "adapter"@[0] == 'a' && "enabled"@[0] == 'e'
        && "address"@[0] == 'a' && "authentication"@[0] == 'a' && "runtime_status"@[0] == 'r');
    if c.harnesses[i].enabled && made[i] is Failed {
        assert(!super::reports::available(c.harnesses[i], made[i]));
    }
}

// Paths.

/// Going into a directory and out again leads nowhere, and staying where one is does too;
/// climbing above the root is refused.
pub proof fn detours_lead_nowhere(parts: Seq<PartView>, name: Seq<char>)
    ensures
        resolved(parts.push(PartView::Current)) == resolved(parts),
        resolved(parts.push(PartView::Name(name)).push(PartView::Parent)) == resolved(parts),
        resolved(parts) is Ok ==> resolved(parts.push(PartView::Name(name))) == Ok::<
            Seq<PartView>,
            crate::recovery::workflow::Fault,
        >(resolved(parts)->Ok_0.push(PartView::Name(name))),
        resolved(seq![PartView::Root, PartView::Parent]) is Err,
        resolved(parts) is Err ==> resolved(parts.push(PartView::Name(name))) is Err,
{
    assert(parts.push(PartView::Current).drop_last() =~= parts);
    let into = parts.push(PartView::Name(name));
    assert(into.drop_last() =~= parts);
    assert(into.push(PartView::Parent).drop_last() =~= into);
    if resolved(parts) is Ok {
        let out = resolved(parts)->Ok_0;
        assert(out.push(PartView::Name(name)).drop_last() =~= out);
    }
    reveal_with_fuel(resolved, 4);
    let root = seq![PartView::Root];
    assert(seq![PartView::Root, PartView::Parent].drop_last() =~= root);
    assert(root.drop_last() =~= Seq::<PartView>::empty());
}

proof fn plain_paths_stay(parts: Seq<PartView>)
    requires
        forall|i: int| 0 <= i < parts.len() ==> !((#[trigger] parts[i]) is Current) && !(parts[i] is Parent),
    ensures
        resolved(parts) is Ok && resolved(parts)->Ok_0 == parts,
    decreases parts.len(),
{
    if parts.len() > 0 {
        let front = parts.drop_last();
        assert forall|i: int| 0 <= i < front.len() implies !((#[trigger] front[i]) is Current) && !(front[i] is Parent) by {
            assert(front[i] == parts[i]);
        }
        plain_paths_stay(front);
        assert(parts[parts.len() - 1] == parts.last());
        assert(front.push(parts.last()) =~= parts);
    }
}

/// An absolute path without aliases is already normal; a relative one is refused.
pub proof fn plain_absolute_paths_are_normal(windows: bool, parts: Seq<PartView>)
    requires
        forall|i: int| 0 <= i < parts.len() ==> !((#[trigger] parts[i]) is Current) && !(parts[i] is Parent),
    ensures
        !windows && parts.len() > 0 && parts[0] is Root ==> normal(windows, parts) is Ok && normal(windows, parts)->Ok_0
            == parts,
        !windows && (parts.len() == 0 || !(parts[0] is Root)) ==> normal(windows, parts) is Err,
        windows && parts.len() > 1 && parts[0] is Volume && parts[1] is Root ==> normal(windows, parts) is Ok && normal(
            windows,
            parts,
        )->Ok_0 == parts,
        windows && (parts.len() < 2 || !(parts[0] is Volume) || !(parts[1] is Root)) ==> normal(windows, parts) is Err,
{
    plain_paths_stay(parts);
}

/// Which places are accepted: none of a repair's configurations, its review context or its
/// state lies under the target, and none of its configurations or its state under the source
/// tree; any other choice is refused.
pub proof fn configurations_lie_apart(p: PlacesView, state: LocationView)
    ensures
        places_fault(p) is None <==> {
            &&& !is_under(p.path.parts, p.target_root.parts)
            &&& !is_under(p.harness_config.parts, p.target_root.parts)
            &&& !is_under(p.reviewer_directory.parts, p.target_root.parts)
            &&& p.extensions_config is Some ==> !is_under(p.extensions_config->0.parts, p.target_root.parts)
            &&& p.source is Some ==> {
                &&& !is_under(p.path.parts, p.source->0.parts)
                &&& !is_under(p.harness_config.parts, p.source->0.parts)
                &&& p.extensions_config is Some ==> !is_under(p.extensions_config->0.parts, p.source->0.parts)
            }
        },
        state_fault(p, state) is None <==> {
            &&& !is_under(state.parts, p.target_root.parts)
            &&& p.source is Some ==> !is_under(state.parts, p.source->0.parts)
        },
{
}

/// What a repair protects: its own configuration, the instances' and the extensions' with
/// their packages, the state, the review context, the source tree and the installation.
pub proof fn repairs_protect_their_context(
    p: PlacesView,
    data_dir: LocationView,
    installation: LocationView,
    packages: Seq<LocationView>,
    k: int,
)
    ensures
        ({
            let v = protected_by(p, data_dir, installation, packages);
            &&& v.contains(p.path) && v.contains(p.harness_config) && v.contains(data_dir) && v.contains(p.reviewer_directory)
                && v.contains(installation)
            &&& p.source is Some ==> v.contains(p.source->0)
            &&& p.extensions_config is Some ==> v.contains(p.extensions_config->0)
            &&& p.extensions_config is Some && 0 <= k < packages.len() ==> v.contains(packages[k])
        }),
{
    let v = protected_by(p, data_dir, installation, packages);
    assert(v[0] == p.path && v[1] == p.harness_config && v[2] == data_dir && v[3] == p.reviewer_directory && v[4]
        == installation);
    let s: int = if p.source is Some { 6 } else { 5 };
    if p.source is Some {
        assert(v[5] == p.source->0);
    }
    if p.extensions_config is Some {
        assert(v[s] == p.extensions_config->0);
        if 0 <= k < packages.len() {
            assert(v[s + 1 + k] == packages[k]);
        }
    }
}

proof fn launches_are_listed(programs: Seq<LaunchedView>, i: int, k: int)
    requires
        0 <= i < programs.len(),
    ensures
        launched(programs).contains(programs[i].program),
        0 <= k < programs[i].files.len() ==> launched(programs).contains(programs[i].files[k]),
    decreases programs.len(),
{
    let front = programs.drop_last();
    let some = launched(front);
    let last = programs.last();
    let all = launched(programs);
    if i < front.len() {
        launches_are_listed(front, i, k);
        assert(front[i] == programs[i]);
        let a = choose|a: int| 0 <= a < some.len() && some[a] == programs[i].program;
        assert(all[a] == programs[i].program);
        if 0 <= k < programs[i].files.len() {
            let b = choose|b: int| 0 <= b < some.len() && some[b] == programs[i].files[k];
            assert(all[b] == programs[i].files[k]);
        }
    } else {
        assert(all[some.len() as int] == last.program);
        if 0 <= k < last.files.len() {
            assert(all[some.len() + 1 + k] == last.files[k]);
        }
    }
}

/// What a server keeps from its operators' reach: what the repair protects, its
/// configurations, its data, its token, its monitors' and extensions' configurations, and
/// every program that it starts with its files.
pub proof fn servers_protect_what_they_run_on(p: ServerPlacesView, repair: Seq<LocationView>, i: int, k: int)
    ensures
        ({
            let v = exposed_by(p, repair);
            &&& v.contains(p.data_dir) && v.contains(p.token_file)
            &&& 0 <= i < repair.len() ==> v.contains(repair[i])
            &&& 0 <= i < p.configurations.len() ==> v.contains(p.configurations[i])
            &&& p.monitors_config is Some ==> v.contains(p.monitors_config->0)
            &&& p.extensions_config is Some ==> v.contains(p.extensions_config->0)
            &&& p.extensions_config is Some && 0 <= i < p.packages.len() ==> v.contains(p.packages[i])
            &&& 0 <= i < p.programs.len() ==> v.contains(p.programs[i].program)
            &&& 0 <= i < p.programs.len() && 0 <= k < p.programs[i].files.len() ==> v.contains(p.programs[i].files[k])
        }),
{
    let v = exposed_by(p, repair);
    let n = repair.len() as int;
    let c = p.configurations.len() as int;
    if 0 <= i < n {
        assert(v[i] == repair[i]);
    }
    if 0 <= i < c {
        assert(v[n + i] == p.configurations[i]);
    }
    assert(v[n + c] == p.data_dir && v[n + c + 1] == p.token_file);
    let m: int = if p.monitors_config is Some { 1 } else { 0 };
    if p.monitors_config is Some {
        assert(v[n + c + 2] == p.monitors_config->0);
    }
    let e: int = if p.extensions_config is Some { 1 + p.packages.len() as int } else { 0 };
    if p.extensions_config is Some {
        assert(v[n + c + 2 + m] == p.extensions_config->0);
        if 0 <= i < p.packages.len() {
            assert(v[n + c + 3 + m + i] == p.packages[i]);
        }
    }
    if 0 <= i < p.programs.len() {
        launches_are_listed(p.programs, i, k);
        let all = launched(p.programs);
        let at = n + c + 2 + m + e;
        let a = choose|a: int| 0 <= a < all.len() && all[a] == p.programs[i].program;
        assert(v[at + a] == p.programs[i].program);
        if 0 <= k < p.programs[i].files.len() {
            let b = choose|b: int| 0 <= b < all.len() && all[b] == p.programs[i].files[k];
            assert(v[at + b] == p.programs[i].files[k]);
        }
    }
}

/// Which arguments of a program are looked at as files: all of them, a configuration's with
/// its prefix cut off; the one behind the configuration flag must be one. The arguments of a
/// transport belong to the far side and are never taken for that.
pub proof fn configuration_arguments_are_files(args: Seq<Seq<char>>, arg: Seq<char>, path: Seq<char>)
    ensures
        gleaned(Seq::empty(), false).0.len() == 0 && !gleaned(Seq::empty(), false).1,
        gleaned(args.push("--config"@), false).1 && gleaned(args.push("--config"@), false).0 == gleaned(args, false).0,
        path != "--config"@ && !starts_with(path, "--config="@) ==> {
            let r = gleaned(args.push("--config"@).push(path), false);
            &&& !r.1
            &&& r.0.last().value == path && r.0.last().explicit
        },
        ({
            let r = gleaned(args.push("--config="@ + path), false);
            &&& !r.1
            &&& r.0.last().value == path && r.0.last().explicit
        }),
        arg != "--config"@ && !starts_with(arg, "--config="@) && !gleaned(args, false).1 ==> {
            let r = gleaned(args.push(arg), false);
            &&& r.0 == gleaned(args, false).0.push(r.0.last())
            &&& r.0.last().value == arg && !r.0.last().explicit
        },
        !gleaned(args.push(arg), true).1 && !gleaned(args.push(arg), true).0.last().explicit,
{
    reveal_strlit("--config");
    reveal_strlit("--config=");
    assert("--config"@.len() == 8 && "--config="@.len() == 9);
    let flag = "--config"@;
    assert(args.push(flag).drop_last() =~= args);
    assert(args.push(flag).push(path).drop_last() =~= args.push(flag));
    assert(args.push(arg).drop_last() =~= args);
    let whole = "--config="@ + path;
    assert(args.push(whole).drop_last() =~= args);
    assert(whole.subrange(0, 9) =~= "--config="@);
    assert(whole.skip(9) =~= path);
    assert(whole.len() >= 9);
}

/// A program is a transport exactly if its name is that of an SSH client, case aside.
pub proof fn transports_are_ssh_clients(program: LocationView)
    ensures
        transports(program) <==> program.parts.len() > 0 && program.parts.last() is Name && (lowered(
            program.parts.last()->Name_0,
        ) == "ssh"@ || lowered(program.parts.last()->Name_0) == "ssh.exe"@),
        forall|l: LocationView| inside(program, l) || inside(l, program) <==> #[trigger] overlaps(program, l),
{
}

} // verus!
