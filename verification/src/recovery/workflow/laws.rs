//! What holds of the repair workflow as a whole.
use super::tools::{
    action_tree, after, counted, entered, proposal, reviewed, RepairTool, ReviewView, ToolsView,
};
use super::{
    apply_fault, belongs, blocked_states, busy, content_says, edit_fields, intent, is_context, is_replace, noted, occupies,
    of_task, places_fault, reconcile_fault, revision_fault, run_fault, status_of, unsettled_states, waiting_states, ConfigView,
    RepairStatus,
};
use crate::actions::EditView;
use crate::harnesses::provider::CallView;
use crate::harnesses::{ConversationVisibility, HarnessRole, PlacementView};
use crate::json::values::empty_object;
use crate::json::{alike, field, field_after_set, member, with_field, with_member, Tree};
use crate::paths::{is_under, LocationView};
use crate::recovery::approval::store::StoreView;
use crate::recovery::approval::{
    ApprovalState, ExecutionOutcome, Fault as ApprovalFault, OperationView, PolicyView, RecordView, ReviewerView,
};
use vstd::prelude::*;

verus! {

/// A task is completed only if every operation that it left was executed or cancelled, and
/// its turn neither failed nor was stopped or cancelled.
pub proof fn completed_means_settled(records: Seq<RecordView>, cancelled: bool, failed: bool, stopped: bool, i: int)
    requires
        status_of(records, cancelled, failed, stopped) == RepairStatus::Completed,
        0 <= i < records.len(),
    ensures
        records[i].state == ApprovalState::Executed || records[i].state == ApprovalState::Canceled,
        !cancelled && !failed && !stopped,
{
    let state = records[i].state;
    assert(!unsettled_states().contains(state));
    assert(!waiting_states().contains(state));
    assert(!blocked_states().contains(state));
}

/// An operation of unknown outcome is never hidden by anything else of its task.
pub proof fn unknown_outcomes_show(records: Seq<RecordView>, cancelled: bool, failed: bool, stopped: bool, i: int)
    requires
        0 <= i < records.len(),
        records[i].state == ApprovalState::Unknown || records[i].state == ApprovalState::Executing,
    ensures
        status_of(records, cancelled, failed, stopped) == RepairStatus::Unknown,
{
    assert(unsettled_states().contains(records[i].state));
}

/// While an operation on a root is executing or of unknown outcome, no task begins there
/// and no other operation is executed.
pub proof fn unsettled_roots_are_left_alone(
    policy: PolicyView,
    root: Seq<char>,
    s: StoreView,
    listing: Seq<RecordView>,
    id: Seq<char>,
    revision: Option<u64>,
    cancelled: bool,
    operation: OperationView,
    now: u64,
    registry: bool,
    task: Seq<char>,
    prompt: Seq<char>,
)
    requires
        busy(listing, root),
    ensures
        intent(policy, root, s, listing, id, revision, cancelled, operation, now) is Err,
        run_fault(listing, root, registry, task, prompt) is Some,
{
}

proof fn field_behind(fields: Seq<(Seq<char>, Tree)>, last: (Seq<char>, Tree), key: Seq<char>)
    ensures
        field(fields.push(last), key) == (if field(fields, key) is Some {
            field(fields, key)
        } else if last.0 == key {
            Some(last.1)
        } else {
            None
        }),
    decreases fields.len(),
{
    let now = fields.push(last);
    if fields.len() == 0 {
        assert(now.drop_first() =~= Seq::<(Seq<char>, Tree)>::empty());
        assert(field(now.drop_first(), key) is None);
    } else {
        assert(now[0] == fields[0]);
        assert(now.drop_first() =~= fields.drop_first().push(last));
        field_behind(fields.drop_first(), last, key);
    }
}

proof fn edit_keeps_fields(fields: Seq<(Seq<char>, Tree)>, key: Seq<char>)
    ensures
        field(edit_fields(fields), key) == (if is_context(key) { None } else { field(fields, key) }),
    decreases fields.len(),
{
    if fields.len() > 0 {
        let front = fields.drop_last();
        edit_keeps_fields(front, key);
        assert(fields =~= front.push(fields.last()));
        field_behind(front, fields.last(), key);
        if !is_context(fields.last().0) {
            field_behind(edit_fields(front), fields.last(), key);
        }
    }
}

proof fn action_fields(root: Seq<char>, prompt: Seq<char>, call: CallView, edit: EditView, key: Seq<char>)
    ensures
        ({
            let a = action_tree(root, prompt, call, edit);
            &&& a is Object
            &&& !is_context(key) ==> member(a, key) == (if key == "replacement"@ {
                Some(Tree::Text(edit.replacement))
            } else if key == "expected"@ {
                Some(Tree::Text(edit.expected))
            } else if key == "path"@ {
                Some(Tree::Text(edit.path))
            } else {
                None
            })
            &&& member(a, "kind"@) == Some(Tree::Text("replace_text"@))
            &&& member(a, "target_root"@) == Some(Tree::Text(root))
        }),
{
    reveal_strlit("kind");
    reveal_strlit("target_root");
    reveal_strlit("path");
    reveal_strlit("expected");
    reveal_strlit("replacement");
    reveal_strlit("user_request");
    reveal_strlit("execution_context");
    let context = with_member(
        with_member(
            with_member(
                with_member(empty_object(), "harness_id"@, Tree::Text(call.harness_id)),
                "thread_id"@,
                Tree::Text(call.thread_id),
            ),
            "turn_id"@,
            Tree::Text(call.turn_id),
        ),
        "call_id"@,
        Tree::Text(call.call_id),
    );
    let o = Seq::<(Seq<char>, Tree)>::empty();
    let a = with_field(o, "kind"@, Tree::Text("replace_text"@));
    let b = with_field(a, "target_root"@, Tree::Text(root));
    let c = with_field(b, "path"@, Tree::Text(edit.path));
    let d = with_field(c, "expected"@, Tree::Text(edit.expected));
    let e = with_field(d, "replacement"@, Tree::Text(edit.replacement));
    let f = with_field(e, "user_request"@, Tree::Text(prompt));
    let g = with_field(f, "execution_context"@, context);
    assert(empty_object() == Tree::Object(o));
    assert(action_tree(root, prompt, call, edit) == Tree::Object(g));
    assert("kind"@.len() == 4 && "target_root"@.len() == 11 && "path"@.len() == 4 && "expected"@.len() == 8
        && "replacement"@.len() == 11 && "user_request"@.len() == 12 && "execution_context"@.len() == 17);
    assert("kind"@[0] == 'k' && "path"@[0] == 'p' && "target_root"@[0] == 't' && "replacement"@[0] == 'r');
    fields_step(f, "execution_context"@, context, key);
    fields_step(e, "user_request"@, Tree::Text(prompt), key);
    fields_step(d, "replacement"@, Tree::Text(edit.replacement), key);
    fields_step(c, "expected"@, Tree::Text(edit.expected), key);
    fields_step(b, "path"@, Tree::Text(edit.path), key);
    fields_step(a, "target_root"@, Tree::Text(root), key);
    fields_step(o, "kind"@, Tree::Text("replace_text"@), key);
}

/// One field set: what it does to the given key, the kind and the root.
proof fn fields_step(fields: Seq<(Seq<char>, Tree)>, name: Seq<char>, value: Tree, key: Seq<char>)
    ensures
        ({
            let now = with_field(fields, name, value);
            &&& field(now, key) == (if key == name { Some(value) } else { field(fields, key) })
            &&& field(now, "kind"@) == (if "kind"@ == name { Some(value) } else { field(fields, "kind"@) })
            &&& field(now, "target_root"@) == (if "target_root"@ == name {
                Some(value)
            } else {
                field(fields, "target_root"@)
            })
        }),
{
    field_after_set(fields, name, value, key);
    field_after_set(fields, name, value, "kind"@);
    field_after_set(fields, name, value, "target_root"@);
}

/// What was proposed is what is executed: the stored action belongs to its session's target
/// and gives back exactly the path, the expected content and the replacement.
pub proof fn stored_edits_come_back(
    c: ConfigView,
    root: Seq<char>,
    t: ToolsView,
    call: CallView,
    edit: EditView,
    key: Seq<char>,
)
    ensures
        ({
            let o = proposal(c, root, t, call, edit);
            let stored = Tree::Object(edit_fields(o.action->Object_0));
            &&& o.action is Object
            &&& belongs(c, root, o) && is_replace(o)
            &&& member(stored, key) == (if key == "path"@ {
                Some(Tree::Text(edit.path))
            } else if key == "expected"@ {
                Some(Tree::Text(edit.expected))
            } else if key == "replacement"@ {
                Some(Tree::Text(edit.replacement))
            } else {
                None
            })
        }),
{
    reveal_strlit("kind");
    reveal_strlit("target_root");
    reveal_strlit("path");
    reveal_strlit("expected");
    reveal_strlit("replacement");
    reveal_strlit("user_request");
    reveal_strlit("execution_context");
    assert("kind"@.len() == 4 && "target_root"@.len() == 11 && "path"@.len() == 4 && "expected"@.len() == 8
        && "replacement"@.len() == 11 && "user_request"@.len() == 12 && "execution_context"@.len() == 17);
    assert("kind"@[0] == 'k' && "path"@[0] == 'p' && "target_root"@[0] == 't' && "replacement"@[0] == 'r');
    action_fields(root, t.user_prompt, call, edit, key);
    edit_keeps_fields(proposal(c, root, t, call, edit).action->Object_0, key);
}

/// A reviewing model is asked as an approver: hidden, outside every project, without tools.
pub proof fn reviews_are_isolated(
    c: ConfigView,
    directory: LocationView,
    registry: bool,
    prompt: Seq<char>,
    policy: Tree,
    request: Tree,
    cancelled: bool,
)
    ensures
        match reviewed(c, directory, registry, prompt, policy, request, cancelled) {
            Ok(ReviewView::Ask { harness_id, request: run }) => {
                &&& run.role == HarnessRole::Approval
                &&& run.visibility == ConversationVisibility::Hidden
                &&& run.placement == PlacementView::NoNativeProject
                &&& run.tools.len() == 0 && !run.handled
            },
            _ => true,
        },
{
}

/// Tools that were stopped take no call, and a task never has more than its budget.
pub proof fn tool_calls_stay_within_budget(
    c: ConfigView,
    t: ToolsView,
    harness: Seq<char>,
    tool: Seq<char>,
    cancelled: bool,
)
    ensures
        t.stopped ==> entered(c, t, harness, tool, cancelled) is Err,
        entered(c, t, harness, tool, cancelled) is Ok ==> t.calls < c.max_tool_calls && counted(
            c,
            t,
            harness,
            cancelled,
        ).calls == t.calls + 1,
        counted(c, t, harness, cancelled).calls >= t.calls,
{
}

/// Content that is neither what was expected nor the replacement resolves nothing.
pub proof fn other_content_resolves_nothing(expected: Seq<char>, replacement: Seq<char>, current: Seq<char>)
    ensures
        content_says(expected, replacement, current) is Some <==> current == expected || current == replacement,
        content_says(expected, replacement, replacement) == Some(ExecutionOutcome::Executed),
        content_says(expected, replacement, current) != Some(ExecutionOutcome::Unknown),
{
}

/// With nothing under way or of unknown outcome, a task waits for a person exactly while some
/// operation of it is pending, handed to a person or approved and not used; it is blocked
/// exactly if none is and some was denied, revoked, expired or failed.
pub proof fn waiting_and_blocked_tasks(records: Seq<RecordView>, cancelled: bool, failed: bool, stopped: bool)
    requires
        forall|i: int|
            0 <= i < records.len() ==> (#[trigger] records[i]).state != ApprovalState::Executing && records[i].state
                != ApprovalState::Unknown,
    ensures
        status_of(records, cancelled, failed, stopped) == RepairStatus::WaitingHuman <==> exists|i: int|
            0 <= i < records.len() && ((#[trigger] records[i]).state == ApprovalState::Pending || records[i].state
                == ApprovalState::WaitingHuman || records[i].state == ApprovalState::Approved),
        status_of(records, cancelled, failed, stopped) == RepairStatus::Blocked <==> {
            &&& forall|i: int|
                0 <= i < records.len() ==> (#[trigger] records[i]).state != ApprovalState::Pending && records[i].state
                    != ApprovalState::WaitingHuman && records[i].state != ApprovalState::Approved
            &&& exists|i: int|
                0 <= i < records.len() && ((#[trigger] records[i]).state == ApprovalState::Denied || records[i].state
                    == ApprovalState::Revoked || records[i].state == ApprovalState::Expired || records[i].state
                    == ApprovalState::Failed)
        },
        status_of(records, cancelled, failed, stopped) != RepairStatus::Unknown,
{
    assert forall|i: int| 0 <= i < records.len() implies !unsettled_states().contains((#[trigger] records[i]).state) by {}
    if exists|i: int|
        0 <= i < records.len() && ((#[trigger] records[i]).state == ApprovalState::Pending || records[i].state
            == ApprovalState::WaitingHuman || records[i].state == ApprovalState::Approved) {
        let i = choose|i: int|
            0 <= i < records.len() && ((#[trigger] records[i]).state == ApprovalState::Pending || records[i].state
                == ApprovalState::WaitingHuman || records[i].state == ApprovalState::Approved);
        assert(waiting_states().contains(records[i].state));
    } else {
        assert forall|i: int| 0 <= i < records.len() implies !waiting_states().contains((#[trigger] records[i]).state) by {}
        if exists|i: int|
            0 <= i < records.len() && ((#[trigger] records[i]).state == ApprovalState::Denied || records[i].state
                == ApprovalState::Revoked || records[i].state == ApprovalState::Expired || records[i].state
                == ApprovalState::Failed) {
            let i = choose|i: int|
                0 <= i < records.len() && ((#[trigger] records[i]).state == ApprovalState::Denied || records[i].state
                    == ApprovalState::Revoked || records[i].state == ApprovalState::Expired || records[i].state
                    == ApprovalState::Failed);
            assert(blocked_states().contains(records[i].state));
        } else {
            assert forall|i: int| 0 <= i < records.len() implies !blocked_states().contains((#[trigger] records[i]).state) by {}
        }
    }
}

/// A task whose operations were all executed or cancelled is what its turn was: cancelled,
/// else failed if it failed or was stopped, else completed.
pub proof fn settled_tasks_are_what_their_turn_was(records: Seq<RecordView>, cancelled: bool, failed: bool, stopped: bool)
    requires
        forall|i: int|
            0 <= i < records.len() ==> (#[trigger] records[i]).state == ApprovalState::Executed || records[i].state
                == ApprovalState::Canceled,
    ensures
        status_of(records, cancelled, failed, stopped) == RepairStatus::Canceled <==> cancelled,
        status_of(records, cancelled, failed, stopped) == RepairStatus::Failed <==> !cancelled && (failed || stopped),
        status_of(records, cancelled, failed, stopped) == RepairStatus::Completed <==> !cancelled && !failed && !stopped,
{
    assert forall|i: int| 0 <= i < records.len() implies {
        &&& !unsettled_states().contains((#[trigger] records[i]).state)
        &&& !waiting_states().contains(records[i].state)
        &&& !blocked_states().contains(records[i].state)
    } by {}
}

/// Only an execution under way or of unknown outcome makes a task's outcome unknown.
pub proof fn unknown_tasks_hold_unknown_work(records: Seq<RecordView>, cancelled: bool, failed: bool, stopped: bool)
    requires
        status_of(records, cancelled, failed, stopped) == RepairStatus::Unknown,
    ensures
        exists|i: int|
            0 <= i < records.len() && ((#[trigger] records[i]).state == ApprovalState::Executing || records[i].state
                == ApprovalState::Unknown),
{
    let i = choose|i: int| 0 <= i < records.len() && unsettled_states().contains((#[trigger] records[i]).state);
    assert(records[i].state == ApprovalState::Executing || records[i].state == ApprovalState::Unknown);
}

/// The operations reported for a task are those of the task, all of them and no others, in order.
pub proof fn results_list_their_tasks_operations(records: Seq<RecordView>, task: Seq<char>)
    ensures
        forall|i: int|
            0 <= i < of_task(records, task).len() ==> (#[trigger] of_task(records, task)[i]).request.operation.task_id == task
                && records.contains(of_task(records, task)[i]),
        forall|i: int|
            0 <= i < records.len() && (#[trigger] records[i]).request.operation.task_id == task ==> of_task(
                records,
                task,
            ).contains(records[i]),
        of_task(records, task).len() <= records.len(),
    decreases records.len(),
{
    if records.len() > 0 {
        let front = records.drop_last();
        results_list_their_tasks_operations(front, task);
        let was = of_task(front, task);
        let now = of_task(records, task);
        assert forall|i: int| 0 <= i < now.len() implies (#[trigger] now[i]).request.operation.task_id == task
            && records.contains(now[i]) by {
            if i < was.len() {
                assert(was[i] == now[i]);
                let k = choose|k: int| 0 <= k < front.len() && front[k] == was[i];
                assert(records[k] == now[i]);
            } else {
                assert(records[records.len() - 1] == now[i]);
            }
        }
        assert forall|i: int| 0 <= i < records.len() && (#[trigger] records[i]).request.operation.task_id == task implies now.contains(
            records[i],
        ) by {
            if i < front.len() {
                assert(front[i] == records[i]);
                let k = choose|k: int| 0 <= k < was.len() && was[k] == front[i];
                assert(now[k] == records[i]);
            } else {
                assert(now[now.len() - 1] == records[i]);
            }
        }
    }
}

/// What an execution is recorded as: a receipt as executed, an uncertain write as unknown with
/// what is known of it, and any other error as failed.
pub proof fn executions_are_recorded_as_they_ended(result: Result<(Seq<char>, nat, bool), crate::actions::Fault>)
    ensures
        noted(result).0 == ExecutionOutcome::Executed <==> result is Ok,
        noted(result).0 == ExecutionOutcome::Unknown <==> result is Err && result->Err_0 is Unknown,
        noted(result).0 == ExecutionOutcome::Failed <==> result is Err && !(result->Err_0 is Unknown),
        result is Err && result->Err_0 is Unknown ==> noted(result).1 == result->Err_0->Unknown_0,
{
}

/// Reading the target back settles an unknown execution: the replacement there means that it
/// was executed, the text before it that it failed.
pub proof fn content_settles_executions(expected: Seq<char>, replacement: Seq<char>)
    ensures
        content_says(expected, replacement, replacement) == Some(ExecutionOutcome::Executed),
        expected != replacement ==> content_says(expected, replacement, expected) == Some(ExecutionOutcome::Failed),
        forall|other: Seq<char>|
            other != expected && other != replacement ==> #[trigger] content_says(expected, replacement, other) is None,
{
}

/// A step on a request is taken only for a known request, at the revision that was looked at.
pub proof fn stale_revisions_conflict(s: StoreView, id: Seq<char>, seen: u64)
    ensures
        !s.records.contains_key(id) ==> revision_fault(s, id, Some(seen)) == Some(ApprovalFault::NotFound),
        s.records.contains_key(id) && s.records[id].revision != seen ==> revision_fault(s, id, Some(seen)) == Some(
            ApprovalFault::Conflict,
        ),
        s.records.contains_key(id) && s.records[id].revision == seen ==> revision_fault(s, id, Some(seen)) is None,
        revision_fault(s, id, None) is None <==> s.records.contains_key(id),
{
}

/// An operation is dispatched only for a request of this very target and root, that replaces
/// text, at the revision that was looked at.
pub proof fn only_own_replacements_are_applied(
    c: ConfigView,
    root: Seq<char>,
    s: StoreView,
    id: Seq<char>,
    revision: Option<u64>,
)
    requires
        apply_fault(c, root, s, id, revision) is None,
    ensures
        ({
            let o = s.records[id].request.operation;
            &&& s.records.contains_key(id)
            &&& revision is Some ==> s.records[id].revision == revision->0
            &&& o.target == c.target_id
            &&& member(o.action, "target_root"@) == Some(Tree::Text(root))
            &&& member(o.action, "kind"@) == Some(Tree::Text("replace_text"@))
        }),
{
}

/// Reconciliation looks only at requests of this very target and root.
pub proof fn only_own_operations_are_reconciled(
    c: ConfigView,
    root: Seq<char>,
    s: StoreView,
    id: Seq<char>,
    revision: Option<u64>,
)
    requires
        reconcile_fault(c, root, s, id, revision) is None,
    ensures
        s.records.contains_key(id),
        revision is Some ==> s.records[id].revision == revision->0,
        s.records[id].request.operation.target == c.target_id,
        member(s.records[id].request.operation.action, "target_root"@) == Some(Tree::Text(root)),
{
}

/// An execution intent is planned only for an approved request in time, for the operation that
/// was approved, under the policy in force, while nothing on the root is executing or of unknown
/// outcome, and never once the run was cancelled.
pub proof fn intents_need_everything(
    policy: PolicyView,
    root: Seq<char>,
    s: StoreView,
    listing: Seq<RecordView>,
    id: Seq<char>,
    revision: Option<u64>,
    cancelled: bool,
    operation: OperationView,
    now: u64,
)
    requires
        intent(policy, root, s, listing, id, revision, cancelled, operation, now) is Ok,
        intent(policy, root, s, listing, id, revision, cancelled, operation, now)->Ok_0 is Append,
    ensures
        !cancelled,
        s.records.contains_key(id),
        revision is Some ==> s.records[id].revision == revision->0,
        s.records[id].state == ApprovalState::Approved,
        s.records[id].request.policy == policy,
        now < s.records[id].request.expires_at,
        s.records[id].request.operation.operation_id == operation.operation_id,
        s.records[id].request.operation.target == operation.target,
        alike(s.records[id].request.operation.action, operation.action),
        forall|i: int|
            0 <= i < listing.len() && member((#[trigger] listing[i]).request.operation.action, "target_root"@) == Some(
                Tree::Text(root),
            ) ==> listing[i].state != ApprovalState::Executing && listing[i].state != ApprovalState::Unknown,
{
    assert forall|i: int|
        0 <= i < listing.len() && member((#[trigger] listing[i]).request.operation.action, "target_root"@) == Some(
            Tree::Text(root),
        ) implies listing[i].state != ApprovalState::Executing && listing[i].state != ApprovalState::Unknown by {
        if listing[i].state == ApprovalState::Executing || listing[i].state == ApprovalState::Unknown {
            assert(occupies(listing[i], root));
        }
    }
}

/// A task is run once, by a known registry, on a root where nothing is under way.
pub proof fn tasks_run_once(listing: Seq<RecordView>, root: Seq<char>, registry: bool, task: Seq<char>, prompt: Seq<char>)
    requires
        run_fault(listing, root, registry, task, prompt) is None,
    ensures
        registry,
        task.len() > 0,
        prompt.len() > 0,
        forall|i: int| 0 <= i < listing.len() ==> (#[trigger] listing[i]).request.operation.task_id != task,
        forall|i: int|
            0 <= i < listing.len() && member((#[trigger] listing[i]).request.operation.action, "target_root"@) == Some(
                Tree::Text(root),
            ) ==> listing[i].state != ApprovalState::Executing && listing[i].state != ApprovalState::Unknown,
{
    assert forall|i: int|
        0 <= i < listing.len() && member((#[trigger] listing[i]).request.operation.action, "target_root"@) == Some(
            Tree::Text(root),
        ) implies listing[i].state != ApprovalState::Executing && listing[i].state != ApprovalState::Unknown by {
        if listing[i].state == ApprovalState::Executing || listing[i].state == ApprovalState::Unknown {
            assert(occupies(listing[i], root));
        }
    }
}

/// Only the two tools of the host exist, each under its name, for the harness that the task runs
/// on, and only while the task runs.
pub proof fn only_the_offered_tools_are_entered(c: ConfigView, t: ToolsView, harness: Seq<char>, tool: Seq<char>, cancelled: bool)
    ensures
        match entered(c, t, harness, tool, cancelled) {
            Ok(k) => {
                &&& !t.stopped && !cancelled
                &&& harness == c.execution_harness
                &&& t.calls < c.max_tool_calls
                &&& k == RepairTool::Read <==> tool == "recuvora_read_text"@
                &&& k == RepairTool::Replace <==> tool == "recuvora_replace_text"@
            },
            Err(_) => t.stopped || cancelled || harness != c.execution_harness || t.calls >= c.max_tool_calls || (tool
                != "recuvora_read_text"@ && tool != "recuvora_replace_text"@),
        },
{
    reveal_strlit("recuvora_read_text");
    reveal_strlit("recuvora_replace_text");
    assert("recuvora_read_text"@.len() != "recuvora_replace_text"@.len());
}

/// After a review exactly an approved proposal is applied; a cancelled task withdraws what is
/// still open, and everything else is only reported.
pub proof fn only_approved_proposals_are_applied(state: ApprovalState, cancelled: bool)
    ensures
        after(state, cancelled) is Apply <==> !cancelled && state == ApprovalState::Approved,
        after(state, cancelled) is Report <==> !cancelled && state != ApprovalState::Approved,
        cancelled ==> after(state, cancelled) is Cancel && (after(state, cancelled)->open <==> (state == ApprovalState::Pending
            || state == ApprovalState::WaitingHuman || state == ApprovalState::Approved)),
{
}

/// A policy that names a person is never reviewed by a model, and one that names a model by no
/// other; the review takes no longer than the approval lives.
pub proof fn reviews_go_to_the_named_reviewer(
    c: ConfigView,
    directory: LocationView,
    registry: bool,
    prompt: Seq<char>,
    policy: Tree,
    request: Tree,
    cancelled: bool,
)
    ensures
        match reviewed(c, directory, registry, prompt, policy, request, cancelled) {
            Ok(ReviewView::Ask { harness_id, request: run }) => {
                &&& c.policy.reviewer == (ReviewerView::Harness { harness_id })
                &&& run.timeout.secs <= c.policy.ttl_secs && run.timeout.secs <= c.timeout_secs
                &&& run.cancelled == cancelled
            },
            Ok(ReviewView::Wait { .. }) => true,
            Err(_) => c.policy.reviewer is Harness && !registry,
        },
        c.policy.reviewer is Human ==> reviewed(c, directory, registry, prompt, policy, request, cancelled) is Ok && reviewed(
            c,
            directory,
            registry,
            prompt,
            policy,
            request,
            cancelled,
        )->Ok_0 is Wait,
{
}

/// A repair works only where its state and its reviews do not lie.
pub proof fn repairs_never_hold_their_own_state(data: LocationView, reviewer: Option<LocationView>, root: LocationView)
    ensures
        places_fault(data, reviewer, root) is None <==> !is_under(data.parts, root.parts) && (reviewer is Some
            ==> !is_under(reviewer->0.parts, root.parts)),
{
}

} // verus!
