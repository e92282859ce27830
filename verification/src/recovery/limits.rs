//! What the recovery accepts, and what it answers.
use super::approval::encode::state_text;
use super::approval::{operation_fault, policy_fault, ApprovalState, OperationView, PolicyView, RecordView};
use super::engine::{limits_valid, spec_fault, EngineConfig, SpecView};
use super::incidents::bounds::{object_fault, text_fits};
use super::incidents::places::{ancestors_fault, path_fault, Ancestor};
use super::incidents::{same_commit, same_signal, CommitView, SignalView};
use super::workflow::tools::{answered, canceled_reply_tree, failure_reply_tree, read_reply_tree, state_reply_tree, Verdict};
use super::workflow::{model_run, on_root, task_run, ConfigView};
use crate::harnesses::registry::HarnessRunResult;
use crate::harnesses::remote::WorkspaceView;
use crate::harnesses::{ConversationVisibility, HarnessError, HarnessRole, PlacementView};
use crate::json::laws::group_members;
use crate::json::{alike, encoded_size, member, Tree};
use crate::paths::{climbs, dos_components, is_under, stays, LocationView, PartView};
use crate::text::{byte_len, has_control, is_blank, lowered};
use vstd::prelude::*;

verus! {

broadcast use group_members;

/// Text that a record may hold: not blank, within the limit, and without a zero character.
pub open spec fn plain(text: Seq<char>, limit: nat) -> bool {
    !is_blank(text) && byte_len(text) <= limit && !text.contains('\0')
}

// Approvals.

/// A policy is accepted exactly if it is named and described, lasts between a second and a
/// day, and lists between 1 and 128 targets and kinds of action; one that a Harness decides
/// names it.
pub proof fn accepted_policies(p: PolicyView)
    ensures
        policy_fault(p) is None <==> {
            &&& plain(p.id, 512) && plain(p.delegation, 8192)
            &&& p.version > 0
            &&& 1 <= p.ttl_secs <= 86400
            &&& p.reviewer is Harness ==> plain(p.reviewer->harness_id, 512)
            &&& 1 <= p.allowed_targets.len() <= 128
            &&& 1 <= p.allowed_action_kinds.len() <= 128
            &&& forall|i: int| 0 <= i < p.allowed_targets.len() ==> plain(#[trigger] p.allowed_targets[i], 512)
            &&& forall|i: int| 0 <= i < p.allowed_action_kinds.len() ==> plain(#[trigger] p.allowed_action_kinds[i], 512)
        },
        policy_fault(p) is Some ==> policy_fault(p)->0 is Invalid,
{
    if policy_fault(p) is None {
        assert forall|i: int| 0 <= i < p.allowed_targets.len() implies plain(#[trigger] p.allowed_targets[i], 512) by {
            assert(super::approval::is_text(p.allowed_targets[i], 512));
        }
        assert forall|i: int| 0 <= i < p.allowed_action_kinds.len() implies plain(
            #[trigger] p.allowed_action_kinds[i],
            512,
        ) by {
            assert(super::approval::is_text(p.allowed_action_kinds[i], 512));
        }
    }
}

/// An operation is accepted exactly if it names its task, itself, its target and its kind, and
/// is of bounded size.
pub proof fn accepted_operations(o: OperationView)
    ensures
        operation_fault(o) is None <==> {
            &&& plain(o.task_id, 512) && plain(o.operation_id, 512) && plain(o.target, 512)
            &&& member(o.action, "kind"@) is Some && member(o.action, "kind"@)->0 is Text
            &&& plain(member(o.action, "kind"@)->0->Text_0, 512)
            &&& encoded_size(o.action) <= 131072
        },
        operation_fault(o) is Some ==> operation_fault(o)->0 is Invalid,
{
}

/// Each state has its own name.
pub proof fn states_have_their_own_names(a: ApprovalState, b: ApprovalState)
    ensures
        state_text(a) == state_text(b) <==> a == b,
        state_text(ApprovalState::Pending) == "pending"@,
        state_text(ApprovalState::WaitingHuman) == "waiting_human"@,
        state_text(ApprovalState::Approved) == "approved"@,
        state_text(ApprovalState::Denied) == "denied"@,
        state_text(ApprovalState::Revoked) == "revoked"@,
        state_text(ApprovalState::Canceled) == "canceled"@,
        state_text(ApprovalState::Expired) == "expired"@,
        state_text(ApprovalState::Executing) == "executing"@,
        state_text(ApprovalState::Executed) == "executed"@,
        state_text(ApprovalState::Failed) == "failed"@,
        state_text(ApprovalState::Unknown) == "unknown"@,
{
    reveal_strlit("pending");
    reveal_strlit("waiting_human");
    reveal_strlit("approved");
    reveal_strlit("denied");
    reveal_strlit("revoked");
    reveal_strlit("canceled");
    reveal_strlit("expired");
    reveal_strlit("executing");
    reveal_strlit("executed");
    reveal_strlit("failed");
    reveal_strlit("unknown");
    assert("pending"@.len() == 7 && "waiting_human"@.len() == 13 && "approved"@.len() == 8
        && "denied"@.len() == 6 && "revoked"@.len() == 7 && "canceled"@.len() == 8 && "expired"@.len() == 7
        && "executing"@.len() == 9 && "executed"@.len() == 8 && "failed"@.len() == 6
        && "unknown"@.len() == 7 && "pending"@[0] == 'p' && "revoked"@[0] == 'r' && "expired"@[0] == 'e'
        && "unknown"@[0] == 'u' && "approved"@[0] == 'a' && "canceled"@[0] == 'c' && "executed"@[0] == 'e'
        && "denied"@[0] == 'd' && "failed"@[0] == 'f');
}

/// Approvals are kept in an absolute directory, reached without climbing or links, and
/// outside the source tree.
pub proof fn approvals_are_kept_apart(
    absolute: bool,
    parts: Seq<PartView>,
    linked: Seq<bool>,
    resolved: LocationView,
    source: Option<LocationView>,
)
    ensures
        super::approval::places::directory_fault(absolute, parts, linked) is None <==> absolute && !climbs(parts) && forall|
            i: int,
        |
            0 <= i < linked.len() ==> !(#[trigger] linked[i]),
        super::approval::places::source_fault(resolved, source) is None <==> source is None || !is_under(
            resolved.parts,
            source->0.parts,
        ),
{
}

// Incidents.

/// Incidents are kept in a file of their own, named absolutely and without detours, below
/// real directories, and outside the source tree.
pub proof fn incidents_are_kept_apart(
    absolute: bool,
    named: bool,
    parts: Seq<PartView>,
    list: Seq<Ancestor>,
    resolved: LocationView,
    source: Option<LocationView>,
)
    ensures
        path_fault(absolute, named, parts) is None <==> absolute && named && !climbs(parts) && !stays(parts),
        ancestors_fault(list) is None <==> forall|i: int|
            0 <= i < list.len() ==> !(#[trigger] list[i]).linked && list[i].directory,
        super::incidents::places::source_fault(resolved, source) is None <==> source is None || !is_under(
            resolved.parts,
            source->0.parts,
        ),
{
}

/// Which texts and values an incident may hold.
pub proof fn incident_values_are_bounded(text: Seq<char>, value: Tree, max: nat, field: Seq<char>)
    ensures
        text_fits(text, max, true) <==> byte_len(text) <= max && !text.contains('\0'),
        text_fits(text, max, false) <==> byte_len(text) <= max && !text.contains('\0') && !is_blank(text),
        object_fault(value, max, field) is None ==> value is Object && encoded_size(value) <= max,
        !(value is Object) ==> object_fault(value, max, field) is Some && object_fault(value, max, field)->0 is Invalid,
        value is Object && object_fault(value, max, field) is Some ==> object_fault(value, max, field)->0 is Capacity,
{
}

/// Two signals are the same if they say the same of the same subject, and two commits if they
/// are the same step with the same signals in the same order.
pub proof fn same_signals_say_the_same(a: SignalView, b: SignalView, c: CommitView, d: CommitView, i: int)
    ensures
        same_signal(a, b) ==> a.monitor_id == b.monitor_id && a.target_id == b.target_id && a.rule_id == b.rule_id && a.kind
            == b.kind && a.condition == b.condition && a.summary == b.summary && alike(a.evidence, b.evidence),
        a.monitor_id == b.monitor_id && a.target_id == b.target_id && a.rule_id == b.rule_id && a.kind == b.kind && a.condition
            == b.condition && a.summary == b.summary && alike(a.evidence, b.evidence) ==> same_signal(a, b),
        same_commit(c, d) ==> c.monitor_id == d.monitor_id && c.sequence == d.sequence && c.now_ms == d.now_ms
            && c.signals.len() == d.signals.len() && alike(c.checkpoint, d.checkpoint) && (0 <= i < c.signals.len()
            ==> same_signal(c.signals[i], d.signals[i])),
{
}

// Tasks.

/// A task is accepted exactly if it and its target are named in printable text of up to 128
/// bytes and it, like its simulated delay, takes at most an hour.
pub proof fn accepted_tasks(t: SpecView)
    ensures
        spec_fault(t) is None <==> {
            &&& 0 < t.id.len() && byte_len(t.id) <= 128 && !has_control(t.id)
            &&& 0 < t.target.len() && byte_len(t.target) <= 128 && !has_control(t.target)
            &&& 1 <= t.timeout_ms <= 3600000
            &&& t.simulation is Delay ==> t.simulation->millis <= 3600000
        },
        spec_fault(t) is Some ==> spec_fault(t)->0 is Invalid,
{
}

/// The limits of an engine.
pub proof fn engines_are_bounded(c: EngineConfig)
    ensures
        limits_valid(c) <==> 1 <= c.max_concurrency <= 256 && 1 <= c.max_queued <= 100000 && 1 <= c.max_tasks <= 1000000 && 128
            <= c.max_journal_bytes <= 1073741824,
{
}

// Repairs.

/// What a tool answers says what has become of the request, and never asks for a retry.
pub proof fn tools_answer_what_happened(r: RecordView, path: Seq<char>, content: Seq<char>, id: Seq<char>, message: Seq<char>)
    ensures
        member(state_reply_tree(r), "status"@) == Some(Tree::Text(state_text(r.state))),
        member(state_reply_tree(r), "request_id"@) == Some(Tree::Text(r.request.request_id)),
        r.note is Some ==> member(state_reply_tree(r), "note"@) == Some(Tree::Text(r.note->0)),
        member(state_reply_tree(r), "auto_retry"@) == Some(Tree::Bool(false)),
        member(read_reply_tree(path, content), "status"@) == Some(Tree::Text("read"@)),
        member(read_reply_tree(path, content), "path"@) == Some(Tree::Text(path)),
        member(read_reply_tree(path, content), "content"@) == Some(Tree::Text(content)),
        member(canceled_reply_tree(id), "status"@) == Some(Tree::Text("canceled"@)),
        member(canceled_reply_tree(id), "request_id"@) == Some(Tree::Text(id)),
        member(failure_reply_tree(message), "status"@) == Some(Tree::Text("failed"@)),
        member(failure_reply_tree(message), "message"@) == Some(Tree::Text(message)),
        member(failure_reply_tree(message), "auto_retry"@) == Some(Tree::Bool(false)),
{
    reveal_strlit("status");
    reveal_strlit("request_id");
    reveal_strlit("note");
    reveal_strlit("auto_retry");
    reveal_strlit("path");
    reveal_strlit("content");
    reveal_strlit("message");
    assert("status"@.len() == 6 && "request_id"@.len() == 10 && "note"@.len() == 4 && "auto_retry"@.len() == 10
        && "path"@.len() == 4 && "content"@.len() == 7 && "message"@.len() == 7 && "request_id"@[0] == 'r'
        && "auto_retry"@[0] == 'a' && "note"@[0] == 'n' && "path"@[0] == 'p' && "content"@[0] == 'c'
        && "message"@[0] == 'm');
}

/// An action is of a target's root whatever the case of the letters; of none if it names no
/// root.
pub proof fn actions_are_of_their_root(o: OperationView, root: Seq<char>)
    ensures
        member(o.action, "target_root"@) == Some(Tree::Text(root)) ==> on_root(o, root),
        on_root(o, root) ==> member(o.action, "target_root"@) is Some && member(o.action, "target_root"@)->0 is Text && lowered(
            member(o.action, "target_root"@)->0->Text_0,
        ) == lowered(root),
{
}

/// A run of a repair is hidden, has the two tools and a time of its own, belongs to no
/// project, and works in the configured workspace, or in the target's root.
pub proof fn repair_runs_are_hidden(c: ConfigView, root: LocationView, prompt: Seq<char>, cancelled: bool)
    ensures
        ({
            let q = task_run(c, root, prompt, cancelled);
            &&& q.visibility == ConversationVisibility::Hidden
            &&& q.placement == PlacementView::NoNativeProject
            &&& q.handled && q.tools.len() == 2
            &&& q.role == HarnessRole::Execution
            &&& q.timeout.secs == c.timeout_secs && q.timeout.nanos == 0
            &&& q.cancelled == cancelled
            &&& q.remote_workspace == c.execution_workspace
            &&& c.execution_workspace is None ==> q.project_directory == root
            &&& q.model is None
            &&& q.prompt.len() >= prompt.len() && q.prompt.subrange(q.prompt.len() - prompt.len(), q.prompt.len() as int)
                == prompt
        }),
{
    let q = task_run(c, root, prompt, cancelled);
    assert(q.prompt.subrange(q.prompt.len() - prompt.len(), q.prompt.len() as int) =~= prompt);
}

/// A run of a model asks exactly what it is given, where it is told to.
pub proof fn model_runs_ask_what_is_given(remote: Option<WorkspaceView>, local: LocationView, prompt: Seq<char>)
    ensures
        model_run(remote, local, prompt).prompt == prompt,
        model_run(remote, local, prompt).remote_workspace == remote,
        remote is None ==> model_run(remote, local, prompt).project_directory == local,
        remote is Some ==> model_run(remote, local, prompt).project_directory.text == "node://"@ + remote->0.node_id + "/"@
            + remote->0.workspace_id,
        model_run(remote, local, prompt).tools.len() == 0 && !model_run(remote, local, prompt).handled,
{
}

/// A repair is accepted only under an accepted policy that covers its target and replacing
/// text, for an instance, in up to half an hour and 64 calls of its tools.
pub proof fn accepted_repairs_are_delegated(c: ConfigView)
    ensures
        super::workflow::config_fault(c) is None <==> {
            &&& policy_fault(c.policy) is None
            &&& c.policy.allowed_targets.contains(c.target_id)
            &&& c.policy.allowed_action_kinds.contains("replace_text"@)
            &&& c.schema_version == 1
            &&& 1 <= c.timeout_secs <= 1800
            &&& 1 <= c.max_tool_calls <= 64
            &&& 0 < c.target_id.len() && byte_len(c.target_id) <= 128 && !has_control(c.target_id)
            &&& c.execution_harness.len() > 0
            &&& c.execution_workspace is Some ==> crate::protocol::is_id(c.execution_workspace->0.node_id)
                && crate::protocol::is_id(c.execution_workspace->0.workspace_id)
            &&& c.reviewer_workspace is Some ==> crate::protocol::is_id(c.reviewer_workspace->0.node_id)
                && crate::protocol::is_id(c.reviewer_workspace->0.workspace_id)
        },
{
}

/// The tools of a repair: one that reads and one that replaces, each with exactly its own
/// parameters, all of them needed.
pub proof fn repair_tools_take_their_parameters()
    ensures
        ({
            let list = super::workflow::tools::tool_views();
            let a = list[0].input_schema;
            let b = list[1].input_schema;
            &&& list.len() == 2
            &&& list[0].name == "recuvora_read_text"@ && list[1].name == "recuvora_replace_text"@
            &&& member(a, "type"@) == Some(Tree::Text("object"@)) && member(b, "type"@) == Some(Tree::Text("object"@))
            &&& member(a, "additionalProperties"@) == Some(Tree::Bool(false)) && member(b, "additionalProperties"@) == Some(
                Tree::Bool(false),
            )
            &&& member(a, "required"@)->0->Array_0.len() == 1 && member(b, "required"@)->0->Array_0.len() == 3
            &&& member(a, "properties"@) is Some && member(member(a, "properties"@)->0, "path"@) is Some && member(
                member(a, "properties"@)->0,
                "expected"@,
            ) is None
            &&& member(b, "properties"@) is Some && member(member(b, "properties"@)->0, "path"@) is Some && member(
                member(b, "properties"@)->0,
                "expected"@,
            ) is Some && member(member(b, "properties"@)->0, "replacement"@) is Some
        }),
{
    reveal_strlit("type");
    reveal_strlit("properties");
    reveal_strlit("required");
    reveal_strlit("additionalProperties");
    reveal_strlit("path");
    reveal_strlit("expected");
    reveal_strlit("replacement");
    assert("type"@.len() == 4 && "properties"@.len() == 10 && "required"@.len() == 8
        && "additionalProperties"@.len() == 20 && "path"@.len() == 4 && "expected"@.len() == 8
        && "replacement"@.len() == 11 && "type"@[0] == 't' && "path"@[0] == 'p' && "required"@[0] == 'r'
        && "expected"@[0] == 'e');
    assert(member(crate::json::values::empty_object(), "expected"@) is None);
}

/// What an edit holds of an action: every field but those of its context, in order.
pub proof fn edits_leave_their_context_out(fields: Seq<(Seq<char>, Tree)>, key: Seq<char>, value: Tree)
    ensures
        super::workflow::edit_fields(Seq::empty()).len() == 0,
        key == "kind"@ || key == "target_root"@ || key == "user_request"@ || key == "execution_context"@
            ==> super::workflow::edit_fields(fields.push((key, value))) == super::workflow::edit_fields(fields),
        key != "kind"@ && key != "target_root"@ && key != "user_request"@ && key != "execution_context"@
            ==> super::workflow::edit_fields(fields.push((key, value))) == super::workflow::edit_fields(fields).push(
            (key, value),
        ),
{
    assert(fields.push((key, value)).drop_last() =~= fields);
}

/// A file of approvals is a regular one under one name; a journal of incidents is the object
/// that was named, under one name.
pub proof fn state_files_have_one_name(regular: bool, linked: bool, names: u64, at: Seq<PartView>, path: Seq<PartView>)
    ensures
        super::approval::places::opened_fault(regular, linked, names) is None <==> regular && !linked && names == 1,
        super::incidents::places::handle_fault(names, at, path) is None <==> names == 1 && dos_components(at) is Ok
            && dos_components(path) is Ok && dos_components(at) == dos_components(path),
{
}

/// A root is busy exactly while some operation on it is being executed or of unknown outcome.
pub proof fn roots_are_busy_while_unsettled(records: Seq<RecordView>, root: Seq<char>, i: int)
    ensures
        0 <= i < records.len() && on_root(records[i].request.operation, root) && (records[i].state
            == ApprovalState::Executing || records[i].state == ApprovalState::Unknown) ==> super::workflow::busy(records, root),
        super::workflow::busy(records, root) ==> exists|k: int|
            0 <= k < records.len() && on_root((#[trigger] records[k]).request.operation, root) && (records[k].state
                == ApprovalState::Executing || records[k].state == ApprovalState::Unknown),
{
    if 0 <= i < records.len() && on_root(records[i].request.operation, root) && (records[i].state == ApprovalState::Executing
        || records[i].state == ApprovalState::Unknown) {
        assert(super::workflow::occupies(records[i], root));
    }
    if super::workflow::busy(records, root) {
        let k = choose|k: int| 0 <= k < records.len() && super::workflow::occupies(#[trigger] records[k], root);
        assert(on_root(records[k].request.operation, root));
    }
}

/// A signal is accepted only of the monitor that commits it, about a named target and rule,
/// with a summary, and with bounded evidence.
pub proof fn accepted_signals(s: SignalView, monitor_id: Seq<char>)
    ensures
        super::incidents::episodes::signal_fault(s, monitor_id) is None ==> {
            &&& s.monitor_id == monitor_id
            &&& plain(s.target_id, 256) && plain(s.rule_id, 256) && plain(s.summary, 2048)
            &&& s.evidence is Object
        },
        s.monitor_id != monitor_id ==> super::incidents::episodes::signal_fault(s, monitor_id) is Some,
        s.monitor_id == monitor_id && plain(s.target_id, 256) && plain(s.rule_id, 256) && plain(s.summary, 2048)
            && super::incidents::episodes::signal_fault(s, monitor_id) is Some && s.evidence is Object
            ==> super::incidents::episodes::signal_fault(s, monitor_id)->0 is Capacity,
{
}

/// What a review by a Harness leads to: its answer is read as an assessment of that Harness, in
/// that session, if it is bounded; a review that failed or ran on leaves the decision to a
/// person; one that was cancelled leads to nothing.
pub proof fn reviews_are_read_as_given(result: Result<HarnessRunResult, HarnessError>, cancelled: bool, v: Verdict)
    requires
        answered(result, cancelled, v),
    ensures
        cancelled <==> v is Nothing,
        !cancelled && result is Err ==> v is Wait,
        v is Read ==> result is Ok && v->text@ == result->Ok_0@.final_response && v->identity.harness_id@
            == result->Ok_0@.harness_id && v->identity.session_id@ == result->Ok_0@.session_id,
        !cancelled && result is Ok && byte_len(result->Ok_0@.final_response) <= 16384 ==> v is Read,
        !cancelled && result is Ok && byte_len(result->Ok_0@.final_response) > 16384 ==> v is Wait,
{
}

} // verus!
