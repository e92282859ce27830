//! What the pages show of what is stored, what a server's configuration admits, and how logs
//! are read on.
use super::console::{cancel_tree, permits, Ask};
use super::details::{assessment_of, detail_of};
use super::history::{approval_tree, context_tree, count_of, counts_tree, operation_tree, simulated_state, simulation_tree};
use super::journal::{fields_fault, line_of, receipt_tree, status_for, ReceiptView};
use super::logs::cursors::{added, alive, oldest, resumed, CursorView};
use super::logs::records::{advance_fault, dressed, projected};
use super::logs::{availability_of, read_answer, source_index, source_valid, sources_fault, sources_of, SourceView};
use super::pages::{
    bootstrap_tree, capability_items, monitor_list_tree, queried_tree, simulated_tree, unwatched_tree, watched_tree, Parts,
};
use super::paging::{metadata_tree, page_tree, PageView};
use super::plugins::{
    discoveries_owned, error_text, field_ids, monitors_owned, owner, targets_owned, view_fault, view_registration,
    MonitoringView,
};
use super::requests::{
    accepted_tree, harness_context, list_made, logs_tree, repair_context, root_at, rows, simulation_context, LogsView,
};
use super::views::{actions, capability_tree, harness_tree, maturity, Rights};
use super::{config_fault, external_fault, is_permission, refusal_tree, unended, Refusal, ServerConfig, Step};
use crate::faults::{earliest_item, earliest_none};
use crate::harnesses::DefinitionView;
use crate::json::laws::group_members;
use crate::json::{encoded, encoded_size, member, resolved, Tree};
use crate::monitors::discovery::DiscoverySnapshot;
use crate::monitors::state::MonitorSnapshot;
use crate::monitors::MonitorDefinition;
use crate::nodes::registry::{view_offer, ExtensionRegistry, RegistryView};
use crate::nodes::{ExtensionView, StatusView};
use crate::paths::LocationView;
use crate::recovery::approval::encode::state_text;
use crate::recovery::approval::{ApprovalState, AssessmentView, RecordView};
use crate::recovery::engine::TaskState;
use crate::recovery::limits::states_have_their_own_names;
use crate::text::{byte_len, clipped, lowered, starts_with};
use vstd::prelude::*;

verus! {

broadcast use group_members;

// What is stored.

/// A shown approval says what it is of, how it stands and until when, in milliseconds.
pub proof fn approvals_are_shown_as_stored(r: RecordView)
    requires
        r.request.created_at * 1000 <= u64::MAX,
        r.request.expires_at * 1000 <= u64::MAX,
        r.updated_at * 1000 <= u64::MAX,
    ensures
        member(approval_tree(r), "requestId"@) == Some(Tree::Text(r.request.request_id)),
        member(approval_tree(r), "state"@) == Some(Tree::Text(state_text(r.state))),
        member(approval_tree(r), "revision"@) == Some(Tree::Unsigned(r.revision)),
        member(approval_tree(r), "taskId"@) == Some(Tree::Text(r.request.operation.task_id)),
        member(approval_tree(r), "operationId"@) == Some(Tree::Text(r.request.operation.operation_id)),
        member(approval_tree(r), "createdAt"@) == Some(Tree::Unsigned((r.request.created_at * 1000) as u64)),
        member(approval_tree(r), "updatedAt"@) == Some(Tree::Unsigned((r.updated_at * 1000) as u64)),
        member(approval_tree(r), "expiresAt"@) == Some(Tree::Unsigned((r.request.expires_at * 1000) as u64)),
        r.request.operation.target.len() <= 512 ==> member(approval_tree(r), "target"@) == Some(
            Tree::Text(clipped(r.request.operation.target, super::history::MAX_SHOWN as nat)),
        ),
{
    reveal_strlit("requestId");
    reveal_strlit("state");
    reveal_strlit("revision");
    reveal_strlit("taskId");
    reveal_strlit("operationId");
    reveal_strlit("target");
    reveal_strlit("path");
    reveal_strlit("createdAt");
    reveal_strlit("updatedAt");
    reveal_strlit("expiresAt");
    reveal_strlit("detail");
    assert("requestId"@.len() == 9 && "state"@.len() == 5 && "revision"@.len() == 8 && "taskId"@.len() == 6
        && "operationId"@.len() == 11 && "target"@.len() == 6 && "path"@.len() == 4
        && "createdAt"@.len() == 9 && "updatedAt"@.len() == 9 && "expiresAt"@.len() == 9
        && "detail"@.len() == 6 && "requestId"@[0] == 'r' && "createdAt"@[0] == 'c'
        && "updatedAt"@[0] == 'u' && "expiresAt"@[0] == 'e' && "taskId"@[2] == 's' && "target"@[2] == 'r'
        && "taskId"@[0] == 't' && "detail"@[0] == 'd' && "target"@[0] == 't');
}

/// The details of an approval are those of its record, with what the reader may do with it
/// while it has not expired.
pub proof fn details_are_of_the_record(r: RecordView, rights: Rights, note: Option<Tree>, now: u64)
    ensures
        ({
            let v = detail_of(r, rights, note, now);
            let o = r.request.operation;
            &&& v.request_id == r.request.request_id && v.state == state_text(r.state) && v.revision == r.revision
            &&& v.task_id == o.task_id && v.task_revision == o.task_revision && v.operation_id == o.operation_id && v.target
                == o.target
            &&& member(o.action, "expected"@) is Some ==> Some(v.expected) == member(o.action, "expected"@)
            &&& member(o.action, "replacement"@) is Some ==> Some(v.replacement) == member(o.action, "replacement"@)
            &&& member(o.action, "path"@) is Some ==> Some(v.path) == member(o.action, "path"@)
            &&& member(o.action, "kind"@) is Some ==> Some(v.action_kind) == member(o.action, "kind"@)
            &&& r.request.expires_at * 1000 > now + 999 ==> v.allowed_actions == actions(rights, r.state, true)
            &&& r.request.expires_at * 1000 <= now ==> v.allowed_actions == actions(rights, r.state, false)
            &&& v.note == r.note
            &&& v.assessment is Some <==> r.assessment is Some
            &&& v.policy.id == r.request.policy.id && v.policy.version == r.request.policy.version
            &&& v.policy.allowed_targets == r.request.policy.allowed_targets && v.policy.allowed_actions
                == r.request.policy.allowed_action_kinds && v.policy.ttl_seconds == r.request.policy.ttl_secs
            &&& v.normalized_operation == o
        }),
{
    assert(r.request.expires_at > now / 1000 <==> r.request.expires_at * 1000 > (now / 1000) * 1000);
}

/// An assessment says who decided what, and why.
pub proof fn assessments_say_who_decided(a: AssessmentView)
    ensures
        assessment_of(a).decision == a.decision && assessment_of(a).reason == a.reason,
        a.reviewer is Human ==> assessment_of(a).source == "human"@ && assessment_of(a).reviewer == a.reviewer->actor
            && assessment_of(a).session_id is None,
        a.reviewer is Harness ==> assessment_of(a).source == "harness"@ && assessment_of(a).reviewer == a.reviewer->harness_id
            && assessment_of(a).session_id == Some(a.reviewer->session_id),
{
}

/// A shown operation says what it was, how it stands, and why it failed.
pub proof fn operations_are_shown_as_stored(o: ReceiptView)
    ensures
        member(operation_tree(o), "id"@) == Some(Tree::Text(o.id)),
        member(operation_tree(o), "kind"@) == Some(Tree::Text(o.kind)),
        member(operation_tree(o), "status"@) == Some(Tree::Text(o.status)),
        member(operation_tree(o), "updatedAt"@) == Some(Tree::Unsigned(o.updated_at)),
        member(operation_tree(o), "context"@) == Some(context_tree(o.context)),
        member(operation_tree(o), "auto_retry"@) == Some(Tree::Bool(false)),
        o.error is None ==> member(operation_tree(o), "error"@) == Some(Tree::Null),
        o.error is Some ==> member(operation_tree(o), "error"@) == Some(
            Tree::Text(clipped(o.error->0, super::history::MAX_SHOWN as nat)),
        ),
        member(o.context, "taskId"@) == Some(Tree::Text(o.id)) ==> member(context_tree(o.context), "taskId"@) == Some(
            Tree::Text(clipped(o.id, super::history::MAX_SHOWN as nat)),
        ),
        member(o.context, "taskId"@) is None ==> member(context_tree(o.context), "taskId"@) is None,
{
    reveal_strlit("id");
    reveal_strlit("kind");
    reveal_strlit("status");
    reveal_strlit("updatedAt");
    reveal_strlit("error");
    reveal_strlit("context");
    reveal_strlit("auto_retry");
    reveal_strlit("detail");
    assert("id"@.len() == 2 && "kind"@.len() == 4 && "status"@.len() == 6 && "updatedAt"@.len() == 9
        && "error"@.len() == 5 && "context"@.len() == 7 && "auto_retry"@.len() == 10 && "detail"@.len() == 6
        && "status"@[0] == 's' && "detail"@[0] == 'd');
    reveal_strlit("taskId");
    reveal_strlit("target");
    reveal_strlit("scenario");
    reveal_strlit("harnessId");
    reveal_strlit("workspaceId");
    assert("taskId"@.len() == 6 && "target"@.len() == 6 && "scenario"@.len() == 8 && "harnessId"@.len() == 9
        && "workspaceId"@.len() == 11 && "taskId"@[2] == 's' && "target"@[2] == 'r');
}

/// A receipt is written with all of its fields, in one line.
pub proof fn receipts_are_written_whole(o: ReceiptView)
    ensures
        member(receipt_tree(o), "id"@) == Some(Tree::Text(o.id)),
        member(receipt_tree(o), "kind"@) == Some(Tree::Text(o.kind)),
        member(receipt_tree(o), "status"@) == Some(Tree::Text(o.status)),
        member(receipt_tree(o), "updatedAt"@) == Some(Tree::Unsigned(o.updated_at)),
        member(receipt_tree(o), "context"@) == Some(o.context),
        member(receipt_tree(o), "auto_retry"@) == Some(Tree::Bool(o.auto_retry)),
        o.result is Some ==> member(receipt_tree(o), "result"@) == o.result,
        o.result is None ==> member(receipt_tree(o), "result"@) == Some(Tree::Null),
        o.error is Some ==> member(receipt_tree(o), "error"@) == Some(Tree::Text(o.error->0)),
        fields_fault(receipt_tree(o)) is None,
        line_of(o) == encoded(receipt_tree(o)) + "\n"@,
{
    reveal_strlit("id");
    reveal_strlit("kind");
    reveal_strlit("status");
    reveal_strlit("updatedAt");
    reveal_strlit("result");
    reveal_strlit("error");
    reveal_strlit("auto_retry");
    reveal_strlit("context");
    assert("id"@.len() == 2 && "kind"@.len() == 4 && "status"@.len() == 6 && "updatedAt"@.len() == 9
        && "result"@.len() == 6 && "error"@.len() == 5 && "auto_retry"@.len() == 10 && "context"@.len() == 7
        && "status"@[0] == 's' && "result"@[0] == 'r');
    let fields = receipt_tree(o)->Object_0;
    assert(fields.len() == 8);
    crate::json::laws::members_are_first_fields(fields, "id"@);
    crate::json::laws::members_are_first_fields(fields, "kind"@);
    crate::json::laws::members_are_first_fields(fields, "status"@);
    crate::json::laws::members_are_first_fields(fields, "updatedAt"@);
    crate::json::laws::members_are_first_fields(fields, "result"@);
    crate::json::laws::members_are_first_fields(fields, "error"@);
    crate::json::laws::members_are_first_fields(fields, "auto_retry"@);
    crate::json::laws::members_are_first_fields(fields, "context"@);
    assert(fields[0].0 == "id"@ && fields[1].0 == "kind"@ && fields[2].0 == "status"@ && fields[3].0 == "updatedAt"@
        && fields[4].0 == "result"@ && fields[5].0 == "error"@ && fields[6].0 == "auto_retry"@ && fields[7].0 == "context"@);
}

/// How a reported status counts: what is said to be unknown, failed or cancelled as that, and
/// anything else as completed.
pub proof fn reported_statuses_count_as_said(status: Seq<char>)
    ensures
        status == "unknown"@ || status == "failed"@ || status == "canceled"@ ==> status_for(status) == status,
        status != "unknown"@ && status != "failed"@ && status != "canceled"@ ==> status_for(status) == "completed"@,
{
}

/// A simulation is shown in the state of its task, unless its outcome is unknown.
pub proof fn simulations_are_shown_in_their_state(o: ReceiptView, task: Tree, state: Seq<char>)
    requires
        o.result is Some,
        member(o.result->0, "task"@) == Some(task),
        member(task, "state"@) == Some(Tree::Text(state)),
    ensures
        o.status == "unknown"@ ==> simulated_state(o) == "unknown"@,
        o.status != "unknown"@ && state == "TimedOut"@ ==> simulated_state(o) == "timed_out"@,
        o.status != "unknown"@ && state != "TimedOut"@ ==> simulated_state(o) == lowered(state),
        member(simulation_tree(o), "state"@) == Some(Tree::Text(simulated_state(o))),
        member(simulation_tree(o), "id"@) == Some(Tree::Text(o.id)),
        member(o.context, "scenario"@) is Some ==> member(simulation_tree(o), "scenario"@) == member(o.context, "scenario"@),
        member(task, "revision"@) is Some ==> member(simulation_tree(o), "revision"@) == member(task, "revision"@),
{
    reveal_strlit("id");
    reveal_strlit("taskId");
    reveal_strlit("target");
    reveal_strlit("scenario");
    reveal_strlit("state");
    reveal_strlit("revision");
    reveal_strlit("duration");
    assert("id"@.len() == 2 && "taskId"@.len() == 6 && "target"@.len() == 6 && "scenario"@.len() == 8
        && "state"@.len() == 5 && "revision"@.len() == 8 && "duration"@.len() == 8 && "taskId"@[2] == 's'
        && "target"@[2] == 'r' && "scenario"@[0] == 's' && "revision"@[0] == 'r' && "duration"@[0] == 'd');
}

/// A finished simulation is unknown or cancelled where its task is, and completed otherwise.
pub proof fn simulations_end_with_their_task(state: TaskState, task: Tree)
    ensures
        state == TaskState::Unknown ==> member(simulated_tree(state, task), "status"@) == Some(Tree::Text("unknown"@)),
        state == TaskState::Canceled ==> member(simulated_tree(state, task), "status"@) == Some(Tree::Text("canceled"@)),
        state != TaskState::Unknown && state != TaskState::Canceled ==> member(simulated_tree(state, task), "status"@) == Some(
            Tree::Text("completed"@),
        ),
        member(simulated_tree(state, task), "task"@) == Some(task),
{
    reveal_strlit("status");
    reveal_strlit("task");
    assert("status"@.len() == 6 && "task"@.len() == 4);
}

/// The receipt of an applied change is shown as verified only where it says so itself, and
/// never as the end of the fault.
pub proof fn content_is_verified_only_by_its_receipt(raw: Tree)
    ensures
        member(super::views::receipt_tree(raw), "contentVerified"@) == Some(
            Tree::Bool(member(raw, "content_verified"@) == Some(Tree::Bool(true))),
        ),
        member(super::views::receipt_tree(raw), "businessVerified"@) == Some(Tree::Bool(false)),
        member(super::views::receipt_tree(raw), "raw"@) == Some(raw),
{
    reveal_strlit("contentVerified");
    reveal_strlit("businessVerified");
    reveal_strlit("raw");
    assert("contentVerified"@.len() == 15 && "businessVerified"@.len() == 16 && "raw"@.len() == 3);
}

// Harnesses and capabilities.

/// An instance is shown as disabled if it is, as unavailable if its node is known not to be
/// available, and otherwise as configured.
pub proof fn harnesses_are_shown_as_they_stand(h: DefinitionView, default: bool, statuses: Seq<StatusView>)
    ensures
        member(harness_tree(h, default, statuses), "id"@) == Some(Tree::Text(h.id)),
        member(harness_tree(h, default, statuses), "adapter"@) == Some(Tree::Text(h.adapter)),
        member(harness_tree(h, default, statuses), "address"@) == Some(Tree::Text(h.address)),
        member(harness_tree(h, default, statuses), "enabled"@) == Some(Tree::Bool(h.enabled)),
        member(harness_tree(h, default, statuses), "isDefault"@) == Some(Tree::Bool(default)),
        !h.enabled ==> member(harness_tree(h, default, statuses), "availability"@) == Some(Tree::Text("disabled"@)),
        h.enabled && !starts_with(h.address, "node://"@) ==> member(harness_tree(h, default, statuses), "availability"@)
            == Some(Tree::Text("configured"@)),
        h.enabled && member(harness_tree(h, default, statuses), "availability"@) == Some(Tree::Text("unavailable"@))
            ==> exists|i: int|
            0 <= i < statuses.len() && h.address == "node://"@ + (#[trigger] statuses[i]).id && !statuses[i].available,
{
    reveal_strlit("id");
    reveal_strlit("adapter");
    reveal_strlit("address");
    reveal_strlit("enabled");
    reveal_strlit("isDefault");
    reveal_strlit("availability");
    reveal_strlit("authentication");
    reveal_strlit("runtimeStatus");
    reveal_strlit("reason");
    reveal_strlit("workspaceRoots");
    reveal_strlit("projects");
    assert("id"@.len() == 2 && "adapter"@.len() == 7 && "address"@.len() == 7 && "enabled"@.len() == 7
        && "isDefault"@.len() == 9 && "availability"@.len() == 12 && "authentication"@.len() == 14
        && "runtimeStatus"@.len() == 13 && "reason"@.len() == 6 && "workspaceRoots"@.len() == 14
        && "projects"@.len() == 8 && "adapter"@[2] == 'a' && "address"@[2] == 'd' && "adapter"@[0] == 'a'
        && "enabled"@[0] == 'e' && "address"@[0] == 'a' && "authentication"@[0] == 'a'
        && "workspaceRoots"@[0] == 'w');
    reveal_strlit("disabled");
    reveal_strlit("unavailable");
    reveal_strlit("configured");
    assert("disabled"@.len() == 8 && "unavailable"@.len() == 11 && "configured"@.len() == 10);
    if super::requests::node_of(h.address) is Some {
        let node = super::requests::node_of(h.address)->0;
        let f = |i: int| if statuses[i].id == node { Some(statuses[i]) } else { None };
        if crate::faults::earliest(statuses.len(), f) is Some {
            let i = earliest_item(statuses.len(), f);
            assert(statuses[i].id == node);
            assert("node://"@ + node =~= h.address);
        }
    }
}

/// A capability is shown as available exactly if it is, with what it is good for.
pub proof fn capabilities_are_shown_as_configured(
    id: Seq<char>,
    name: Seq<char>,
    available: bool,
    list: Seq<Seq<char>>,
    limitation: Seq<char>,
)
    ensures
        member(capability_tree(id, name, available, list, limitation), "id"@) == Some(Tree::Text(id)),
        member(capability_tree(id, name, available, list, limitation), "name"@) == Some(Tree::Text(name)),
        member(capability_tree(id, name, available, list, limitation), "state"@) == Some(Tree::Text(maturity(id))),
        member(capability_tree(id, name, available, list, limitation), "availability"@) == Some(
            Tree::Text(if available { "available"@ } else { "unconfigured"@ }),
        ),
        id == "simulation"@ ==> maturity(id) == "prototype"@,
        id == "harness"@ || id == "text-repair"@ || id == "external-plugins"@ ==> maturity(id) == "limited"@,
        id == "monitoring"@ || id == "logs"@ ==> maturity(id) == "implemented"@,
{
    reveal_strlit("id");
    reveal_strlit("name");
    reveal_strlit("group");
    reveal_strlit("state");
    reveal_strlit("availability");
    reveal_strlit("actions");
    reveal_strlit("summary");
    reveal_strlit("limitation");
    reveal_strlit("availableNow");
    assert("id"@.len() == 2 && "name"@.len() == 4 && "group"@.len() == 5 && "state"@.len() == 5
        && "availability"@.len() == 12 && "actions"@.len() == 7 && "summary"@.len() == 7
        && "limitation"@.len() == 10 && "availableNow"@.len() == 12 && "group"@[0] == 'g'
        && "state"@[0] == 's' && "availability"@[7] == 'i' && "availableNow"@[7] == 'l'
        && "actions"@[0] == 'a' && "summary"@[0] == 's');
    reveal_strlit("harness");
    reveal_strlit("text-repair");
    reveal_strlit("external-plugins");
    reveal_strlit("simulation");
    reveal_strlit("monitoring");
    reveal_strlit("logs");
    assert("harness"@.len() == 7 && "text-repair"@.len() == 11 && "external-plugins"@.len() == 16
        && "simulation"@.len() == 10 && "monitoring"@.len() == 10 && "logs"@.len() == 4
        && "simulation"@[0] == 's' && "monitoring"@[0] == 'm');
}

/// The capabilities of a host: each available exactly if its part is configured; simulating
/// and reading logs always.
pub proof fn hosts_show_their_capabilities(monitoring: bool, harness: bool, repair: bool, connected: bool)
    ensures
        ({
            let list = capability_items(monitoring, harness, repair, connected);
            let on = Some(Tree::Text("available"@));
            let off = Some(Tree::Text("unconfigured"@));
            &&& list.len() == 6
            &&& member(list[0], "id"@) == Some(Tree::Text("monitoring"@)) && member(list[0], "availability"@) == (
            if monitoring { on } else { off })
            &&& member(list[1], "id"@) == Some(Tree::Text("harness"@)) && member(list[1], "availability"@) == (if harness {
                on
            } else {
                off
            })
            &&& member(list[2], "id"@) == Some(Tree::Text("text-repair"@)) && member(list[2], "availability"@) == (
            if repair { on } else { off })
            &&& member(list[3], "id"@) == Some(Tree::Text("simulation"@)) && member(list[3], "availability"@) == on
            &&& member(list[4], "id"@) == Some(Tree::Text("logs"@)) && member(list[4], "availability"@) == on
            &&& member(list[5], "id"@) == Some(Tree::Text("external-plugins"@)) && member(list[5], "availability"@) == (
            if connected { on } else { off })
        }),
{
    reveal_strlit("id");
    reveal_strlit("name");
    reveal_strlit("group");
    reveal_strlit("state");
    reveal_strlit("availability");
    reveal_strlit("actions");
    reveal_strlit("summary");
    reveal_strlit("limitation");
    reveal_strlit("availableNow");
    assert("id"@.len() == 2 && "name"@.len() == 4 && "group"@.len() == 5 && "state"@.len() == 5
        && "availability"@.len() == 12 && "actions"@.len() == 7 && "summary"@.len() == 7
        && "limitation"@.len() == 10 && "availableNow"@.len() == 12 && "group"@[0] == 'g'
        && "state"@[0] == 's' && "availability"@[7] == 'i' && "availableNow"@[7] == 'l'
        && "actions"@[0] == 'a' && "summary"@[0] == 's');
}

// Pages.

/// A host without monitoring says so; one with it shows its monitors, its discoveries, and
/// why it stopped, if it did.
pub proof fn monitoring_is_shown_as_configured(
    monitors: Seq<Tree>,
    discoveries: Seq<Tree>,
    plugins: Seq<Tree>,
    error: Option<Seq<char>>,
    running: bool,
    counts: Tree,
)
    ensures
        ({
            let t = watched_tree(monitors, discoveries, plugins, error, running, counts);
            &&& member(t, "configured"@) == Some(Tree::Bool(true))
            &&& member(t, "monitors"@) == Some(Tree::Array(monitors))
            &&& member(t, "discoveries"@) == Some(Tree::Array(discoveries))
            &&& member(t, "plugins"@) == Some(Tree::Array(plugins))
            &&& error is Some ==> member(t, "runtime_error"@) == Some(Tree::Text(error->0))
            &&& error is None ==> member(t, "runtime_error"@) == Some(Tree::Null)
            &&& member(t, "running"@) == Some(Tree::Bool(running))
            &&& member(t, "counts"@) == Some(counts)
            &&& member(monitor_list_tree(t), "items"@) == Some(Tree::Array(monitors))
            &&& member(monitor_list_tree(t), "running"@) == Some(Tree::Bool(running))
            &&& member(monitor_list_tree(t), "counts"@) == Some(counts)
        }),
        member(unwatched_tree(plugins, counts), "configured"@) == Some(Tree::Bool(false)),
        member(unwatched_tree(plugins, counts), "monitors"@) == Some(Tree::Array(Seq::empty())),
        member(unwatched_tree(plugins, counts), "plugins"@) == Some(Tree::Array(plugins)),
{
    reveal_strlit("configured");
    reveal_strlit("monitors");
    reveal_strlit("discoveries");
    reveal_strlit("plugins");
    reveal_strlit("runtime_error");
    reveal_strlit("running");
    reveal_strlit("counts");
    reveal_strlit("items");
    assert("configured"@.len() == 10 && "monitors"@.len() == 8 && "discoveries"@.len() == 11
        && "plugins"@.len() == 7 && "runtime_error"@.len() == 13 && "running"@.len() == 7
        && "counts"@.len() == 6 && "items"@.len() == 5 && "plugins"@[0] == 'p' && "running"@[0] == 'r');
}

/// A page holds its items, how many there are in all, its limit, and where the next begins;
/// what is shown of it elsewhere agrees.
pub proof fn pages_say_where_they_end(page: PageView, total: nat, limit: usize)
    ensures
        ({
            let t = page_tree(page, total, limit);
            &&& member(t, "items"@) == Some(Tree::Array(page.items))
            &&& member(t, "next_cursor"@) == Some(page.next)
            &&& member(t, "total"@) == Some(Tree::Unsigned(total as u64))
            &&& member(t, "limit"@) == Some(Tree::Unsigned(limit as u64))
            &&& member(metadata_tree(t), "next_cursor"@) == Some(page.next)
            &&& member(metadata_tree(t), "total"@) == Some(Tree::Unsigned(total as u64))
            &&& member(metadata_tree(t), "limit"@) == Some(Tree::Unsigned(limit as u64))
            &&& member(metadata_tree(t), "items"@) is None
        }),
{
    reveal_strlit("items");
    reveal_strlit("next_cursor");
    reveal_strlit("total");
    reveal_strlit("limit");
    reveal_strlit("order");
    assert("items"@.len() == 5 && "next_cursor"@.len() == 11 && "total"@.len() == 5 && "limit"@.len() == 5
        && "order"@.len() == 5 && "items"@[0] == 'i' && "total"@[0] == 't' && "limit"@[0] == 'l'
        && "order"@[0] == 'o');
}

/// What an operator is told of an accepted, a cancelled and a refused request; none asks for a
/// retry.
pub proof fn answers_say_what_was_done(id: Seq<char>, f: Refusal, result: Tree)
    ensures
        member(accepted_tree(id), "operation_id"@) == Some(Tree::Text(id)),
        member(accepted_tree(id), "auto_retry"@) == Some(Tree::Bool(false)),
        member(cancel_tree(id), "operation_id"@) == Some(Tree::Text(id)),
        member(cancel_tree(id), "status"@) == Some(Tree::Text("cancel_requested"@)),
        member(cancel_tree(id), "auto_retry"@) == Some(Tree::Bool(false)),
        member(refusal_tree(f), "auto_retry"@) == Some(Tree::Bool(false)),
        member(refusal_tree(f), "error"@) is Some && member(member(refusal_tree(f), "error"@)->0, "code"@) == Some(
            Tree::Text(f.code),
        ) && member(member(refusal_tree(f), "error"@)->0, "message"@) == Some(Tree::Text(f.message)),
        member(queried_tree(result), "result"@) == Some(result),
        member(queried_tree(result), "auto_retry"@) == Some(Tree::Bool(false)),
{
    reveal_strlit("operation_id");
    reveal_strlit("status");
    reveal_strlit("auto_retry");
    reveal_strlit("error");
    reveal_strlit("code");
    reveal_strlit("message");
    reveal_strlit("result");
    assert("operation_id"@.len() == 12 && "status"@.len() == 6 && "auto_retry"@.len() == 10
        && "error"@.len() == 5 && "code"@.len() == 4 && "message"@.len() == 7 && "result"@.len() == 6
        && "status"@[0] == 's' && "result"@[0] == 'r');
}

/// What is kept of a request with its operation.
pub proof fn operations_keep_their_context(
    id: Seq<char>,
    workspace: Seq<char>,
    task: Seq<char>,
    target: Option<Seq<char>>,
    source: Option<Tree>,
    scenario: Seq<char>,
)
    ensures
        member(harness_context(id, workspace), "harnessId"@) == Some(Tree::Text(id)),
        member(harness_context(id, workspace), "workspaceId"@) == Some(Tree::Text(workspace)),
        member(repair_context(task, target, source), "taskId"@) == Some(Tree::Text(task)),
        target is Some ==> member(repair_context(task, target, source), "target"@) == Some(Tree::Text(target->0)),
        source is Some ==> member(repair_context(task, target, source), "sourceIncident"@) == source,
        source is None ==> member(repair_context(task, target, source), "sourceIncident"@) == Some(Tree::Null),
        member(simulation_context(task, id, scenario), "taskId"@) == Some(Tree::Text(task)),
        member(simulation_context(task, id, scenario), "target"@) == Some(Tree::Text(id)),
        member(simulation_context(task, id, scenario), "scenario"@) == Some(Tree::Text(scenario)),
{
    reveal_strlit("harnessId");
    reveal_strlit("workspaceId");
    reveal_strlit("taskId");
    reveal_strlit("target");
    reveal_strlit("sourceIncident");
    reveal_strlit("scenario");
    assert("harnessId"@.len() == 9 && "workspaceId"@.len() == 11 && "taskId"@.len() == 6
        && "target"@.len() == 6 && "sourceIncident"@.len() == 14 && "scenario"@.len() == 8
        && "taskId"@[2] == 's' && "target"@[2] == 'r');
}

/// Projects are listed where the instance is: in a workspace of its node, or in the local
/// root.
pub proof fn listings_go_where_the_instance_is(node: Seq<char>, address: Seq<char>, root: LocationView, workspace: Seq<char>)
    ensures
        ({
            let q = list_made("node://"@ + node, root, workspace);
            &&& q.remote_workspace is Some && q.remote_workspace->0.node_id == node && q.remote_workspace->0.workspace_id
                == workspace
            &&& !q.cancelled
        }),
        !starts_with(address, "node://"@) ==> list_made(address, root, workspace).remote_workspace is None && list_made(
            address,
            root,
            workspace,
        ).context_directory == root,
{
    let a = "node://"@ + node;
    assert(a.subrange(0, "node://"@.len() as int) =~= "node://"@);
    assert(a.subrange("node://"@.len() as int, a.len() as int) =~= node);
}

// Access and configuration.

/// What each request needs, in the list of an operator's permissions.
pub proof fn permissions_are_named(p: Seq<Seq<char>>)
    ensures
        permits(p, Ask::Projects) <==> p.contains("harness.projects"@),
        permits(p, Ask::RunHarness) <==> p.contains("harness.run"@),
        permits(p, Ask::RunRepair) <==> p.contains("repair.run"@),
        permits(p, Ask::Decide) <==> p.contains("approval.decide"@),
        permits(p, Ask::Apply) <==> p.contains("approval.apply"@),
        permits(p, Ask::Reconcile) <==> p.contains("approval.reconcile"@),
        permits(p, Ask::Simulate) <==> p.contains("simulation.run"@),
        permits(p, Ask::Cancel) <==> p.contains("operation.cancel"@),
        permits(p, Ask::ReadLogs) <==> p.contains("logs.read"@),
        permits(p, Ask::QueryExtension) <==> p.contains("extension.read"@),
        permits(p, Ask::ReadMonitors) <==> p.contains("monitor.read"@),
        permits(p, Ask::ReadIncidents) <==> p.contains("incident.read"@),
        permits(p, Ask::Acknowledge) <==> p.contains("incident.read"@) && p.contains("incident.acknowledge"@),
        permits(p, Ask::ReadMonitorLogs) <==> p.contains("monitor.read"@) && p.contains("logs.read"@) && p.contains(
            "extension.read"@,
        ),
{
}

/// A server is accepted only on the local machine, for a named operator, with permissions that
/// exist and at most 16 exact origins, and log sources that are accepted.
pub proof fn accepted_servers_stay_local(c: ServerConfig, loopback: bool, i: int)
    ensures
        config_fault(c, loopback) is None ==> {
            &&& loopback
            &&& c.schema_version == 1
            &&& 0 < c.operator@.len() && byte_len(c.operator@) <= 128
            &&& c.allowed_origins@.len() <= 16
            &&& 0 <= i < c.allowed_origins@.len() ==> byte_len(c.allowed_origins@[i]@) <= 256
                && !c.allowed_origins@[i]@.contains('*')
            &&& 0 <= i < c.permissions@.len() ==> is_permission(c.permissions@[i]@)
            &&& sources_fault(sources_of(c.log_sources@)) is None
        },
        !loopback ==> config_fault(c, loopback) is Some,
        config_fault(c, loopback) is Some ==> config_fault(c, loopback)->0.status == 400,
{
    if config_fault(c, loopback) is None && 0 <= i < c.allowed_origins@.len() {
        assert(super::origin_valid(c.allowed_origins@[i]@));
    }
}

/// Accepted log sources read a contract that is not the host's own, with a time of up to
/// thirty seconds, a cursor and a limit of their own, and no two of them serve the same
/// monitors.
pub proof fn accepted_sources_are_apart(list: Seq<SourceView>, i: int, j: int)
    requires
        sources_fault(list) is None,
    ensures
        list.len() <= 16,
        0 <= i < list.len() ==> {
            let s = list[i];
            &&& s.contract != "recuvora"@ && !starts_with(s.contract, "recuvora."@)
            &&& s.version > 0 && 1 <= s.timeout_ms <= 30000
            &&& s.params is Object && encoded_size(s.params) <= 16384
            &&& 1 <= s.bindings.len() <= 16
            &&& s.cursor_parameter != s.limit_parameter
            &&& member(s.params, s.cursor_parameter) is None && member(s.params, s.limit_parameter) is None
            &&& s.error_levels.len() <= 16 && s.error_events.len() <= 16
        },
        0 <= j < i < list.len() ==> list[i].id != list[j].id && !(list[i].extension_id == list[j].extension_id
            && list[i].monitor_contract == list[j].monitor_contract),
{
    if 0 <= i < list.len() {
        assert(source_valid(list[i]));
    }
}

/// The permissions that exist.
pub proof fn permissions_exist(text: Seq<char>)
    ensures
        is_permission("harness.run"@) && is_permission("harness.projects"@) && is_permission("repair.run"@)
            && is_permission("approval.decide"@) && is_permission("approval.apply"@) && is_permission("approval.reconcile"@)
            && is_permission("simulation.run"@) && is_permission("logs.read"@) && is_permission("operation.cancel"@)
            && is_permission("extension.read"@) && is_permission("monitor.read"@) && is_permission("incident.read"@)
            && is_permission("incident.acknowledge"@),
        is_permission(text) ==> text.len() >= 9,
{
    reveal_strlit("harness.run");
    reveal_strlit("harness.projects");
    reveal_strlit("repair.run");
    reveal_strlit("approval.decide");
    reveal_strlit("approval.apply");
    reveal_strlit("approval.reconcile");
    reveal_strlit("simulation.run");
    reveal_strlit("logs.read");
    reveal_strlit("operation.cancel");
    reveal_strlit("extension.read");
    reveal_strlit("monitor.read");
    reveal_strlit("incident.read");
    reveal_strlit("incident.acknowledge");
    assert("harness.run"@.len() == 11 && "harness.projects"@.len() == 16 && "repair.run"@.len() == 10
        && "approval.decide"@.len() == 15 && "approval.apply"@.len() == 14
        && "approval.reconcile"@.len() == 18 && "simulation.run"@.len() == 14 && "logs.read"@.len() == 9
        && "operation.cancel"@.len() == 16 && "extension.read"@.len() == 14 && "monitor.read"@.len() == 12
        && "incident.read"@.len() == 13 && "incident.acknowledge"@.len() == 20
        && "harness.projects"@[0] == 'h' && "operation.cancel"@[0] == 'o' && "approval.apply"@[0] == 'a'
        && "simulation.run"@[0] == 's' && "extension.read"@[0] == 'e');
}

/// A runtime path is absolute and passes through no link of any kind.
pub proof fn runtime_paths_pass_no_links(absolute: bool, steps: Seq<Step>, i: int)
    requires
        external_fault(absolute, steps) is None,
    ensures
        absolute,
        0 <= i < steps.len() ==> steps[i] is Plain,
{
    let f = |k: int| super::step_fault(steps[k]);
    earliest_none(steps.len(), f);
    if 0 <= i < steps.len() {
        assert(f(i) is None);
    }
}

/// A token is read without the line end behind it, and otherwise whole.
pub proof fn tokens_are_read_without_their_line_end(bytes: Seq<u8>)
    ensures
        unended(bytes.push(10)) == unended(bytes),
        unended(bytes.push(13)) == unended(bytes),
        bytes.len() > 0 && bytes.last() != 10 && bytes.last() != 13 ==> unended(bytes) == bytes,
{
    assert(bytes.push(10).drop_last() =~= bytes);
    assert(bytes.push(13).drop_last() =~= bytes);
}

// Logs.

/// A handle goes on for its own monitor and source, up to half an hour after it was last
/// used; without one the reading starts anew; any other handle is refused.
pub proof fn handles_live_half_an_hour(
    m: Map<Seq<char>, CursorView>,
    monitor: Seq<char>,
    source: Seq<char>,
    id: Seq<char>,
    now: u64,
)
    ensures
        resumed(m, monitor, source, None, now) == Ok::<Option<Seq<char>>, Refusal>(None),
        m.contains_key(id) && super::is_id(id) && m[id].monitor_id == monitor && m[id].source_id == source && now
            <= m[id].touched_at + 1800000 ==> resumed(m, monitor, source, Some(id), now) == Ok::<Option<Seq<char>>, Refusal>(
            Some(m[id].provider_cursor),
        ),
        id.len() > 0 && (!m.contains_key(id) || m[id].monitor_id != monitor || m[id].source_id != source || now
            > m[id].touched_at + 1800000) ==> resumed(m, monitor, source, Some(id), now) is Err && resumed(
            m,
            monitor,
            source,
            Some(id),
            now,
        )->Err_0.status == 409,
        alive(m, now).contains_key(id) <==> m.contains_key(id) && now <= m[id].touched_at + 1800000,
        alive(m, now).contains_key(id) ==> alive(m, now)[id] == m[id],
{
}

/// What a provider sent is shown only if it is within its size and its limit.
pub proof fn log_pages_are_bounded(s: SourceView, t: Tree, limit: nat)
    requires
        projected(s, t, limit) is Ok,
    ensures
        encoded_size(t) <= 262144,
        resolved(t, s.result.entries) is Some && resolved(t, s.result.entries)->0 is Array && resolved(
            t,
            s.result.entries,
        )->0->Array_0.len() <= limit,
        resolved(t, s.result.has_more) is Some && resolved(t, s.result.has_more)->0 is Bool && member(
            projected(s, t, limit)->Ok_0,
            "has_more"@,
        ) == resolved(t, s.result.has_more),
        member(projected(s, t, limit)->Ok_0, "limit"@) == Some(Tree::Unsigned(limit as u64)),
        member(projected(s, t, limit)->Ok_0, "reset"@) == Some(Tree::Bool(false)),
        resolved(t, s.result.has_more) == Some(Tree::Bool(true)) ==> member(projected(s, t, limit)->Ok_0, "next_cursor"@) is Some
            && member(projected(s, t, limit)->Ok_0, "next_cursor"@)->0 is Text,
{
    reveal_strlit("items");
    reveal_strlit("errors");
    reveal_strlit("next_cursor");
    reveal_strlit("has_more");
    reveal_strlit("stream_label");
    reveal_strlit("coverage");
    reveal_strlit("source_error");
    reveal_strlit("available_streams");
    reveal_strlit("reset");
    reveal_strlit("limit");
    assert("items"@.len() == 5 && "errors"@.len() == 6 && "next_cursor"@.len() == 11 && "has_more"@.len() == 8
        && "stream_label"@.len() == 12 && "coverage"@.len() == 8 && "source_error"@.len() == 12
        && "available_streams"@.len() == 17 && "reset"@.len() == 5 && "limit"@.len() == 5
        && "items"@[0] == 'i' && "reset"@[0] == 'r' && "limit"@[0] == 'l' && "has_more"@[0] == 'h'
        && "coverage"@[0] == 'c' && "stream_label"@[1] == 't' && "source_error"@[1] == 'o');
}

/// A provider that has more must move on: the same cursor again is a failure of the service.
pub proof fn log_readings_move_on(output: Tree, from: Option<Seq<char>>)
    ensures
        advance_fault(output, from) is Some <==> member(output, "has_more"@) == Some(Tree::Bool(true)) && from is Some && member(
            output,
            "next_cursor"@,
        ) == Some(Tree::Text(from->0)),
        advance_fault(output, from) is Some ==> advance_fault(output, from)->0.status == 503,
{
}

/// A log page names the monitor and the source that it is of.
pub proof fn log_pages_name_their_source(output: Tree, next: Option<Seq<char>>, m: MonitorDefinition, s: SourceView, now: u64, key: Seq<char>)
    requires
        output is Object,
    ensures
        ({
            let t = dressed(output, next, m, s, now);
            &&& next is Some ==> member(t, "next_cursor"@) == Some(Tree::Text(next->0))
            &&& next is None ==> member(t, "next_cursor"@) == Some(Tree::Null)
            &&& member(t, "read_at"@) == Some(Tree::Unsigned(now))
            &&& member(t, "monitor_id"@) == Some(Tree::Text(m.id@))
            &&& member(t, "target_id"@) == Some(Tree::Text(m.target_id@))
            &&& member(t, "source_id"@) == Some(Tree::Text(m.source_id@))
            &&& member(t, "log_source_id"@) == Some(Tree::Text(s.id))
            &&& member(t, "extension_id"@) == Some(Tree::Text(s.extension_id))
            &&& member(t, "auto_retry"@) == Some(Tree::Bool(false))
            &&& member(t, "items"@) == member(output, "items"@)
        }),
{
    reveal_strlit("next_cursor");
    reveal_strlit("read_at");
    reveal_strlit("monitor_id");
    reveal_strlit("target_id");
    reveal_strlit("source_id");
    reveal_strlit("log_source_id");
    reveal_strlit("extension_id");
    reveal_strlit("auto_retry");
    reveal_strlit("items");
    assert("next_cursor"@.len() == 11 && "read_at"@.len() == 7 && "monitor_id"@.len() == 10
        && "target_id"@.len() == 9 && "source_id"@.len() == 9 && "log_source_id"@.len() == 13
        && "extension_id"@.len() == 12 && "auto_retry"@.len() == 10 && "items"@.len() == 5
        && "monitor_id"@[0] == 'm' && "auto_retry"@[0] == 'a' && "target_id"@[0] == 't'
        && "source_id"@[0] == 's');
}

/// A reading that fails is a failure of the service, unless a reading that was resumed was
/// refused for its cursor: that is a conflict.
pub proof fn failed_readings_are_answered(f: crate::protocol::Fault, again: bool)
    ensures
        read_answer(f, again).status == 503 || read_answer(f, again).status == 409,
        !again || !(f is Rejected) ==> read_answer(f, again).status == 503,
        read_answer(f, again).status == 409 ==> again && f is Rejected && read_answer(f, again).code == "cursor_invalid"@,
{
}

/// The first source that serves a monitor is the one that is read; without the permission no
/// log is offered.
pub proof fn monitors_are_served_by_their_first_source(
    permitted: bool,
    list: Seq<SourceView>,
    m: MonitorDefinition,
    registry: Option<ExtensionRegistry>,
)
    ensures
        source_index(list, m) is Some ==> 0 <= source_index(list, m)->0 < list.len() && list[source_index(
            list,
            m,
        )->0].extension_id == m.extension_id@ && list[source_index(list, m)->0].monitor_contract == m.contract@,
        !permitted ==> !availability_of(permitted, list, Some(m), registry).0 && availability_of(
            permitted,
            list,
            Some(m),
            registry,
        ).1 is None,
        registry is None ==> !availability_of(permitted, list, Some(m), registry).0,
        permitted && source_index(list, m) is Some ==> availability_of(permitted, list, Some(m), registry).1 == Some(
            list[source_index(list, m)->0].id,
        ),
        !availability_of(permitted, list, None, registry).0,
{
    let f = |i: int|
        if super::logs::serves(list[i], m.extension_id@, m.contract@, m.params@) { Some(i) } else { None };
    if source_index(list, m) is Some {
        let i = earliest_item(list.len(), f);
        assert(f(i) == Some(i));
    }
}

/// A plugin's view is offered only by a registered plugin whose offer is accepted; otherwise it
/// is said why not.
pub proof fn views_are_offered_by_registered_plugins(r: RegistryView, d: ExtensionView, s: Option<StatusView>)
    ensures
        view_registration(r, d, s).0 == "registered"@ ==> view_offer(r, d.id) is Ok && view_offer(r, d.id)->Ok_0 is Some
            && super::plugins::registration(d, s) == "registered"@,
        super::plugins::registration(d, s) == "registered"@ && view_offer(r, d.id) is Err ==> view_registration(r, d, s).0
            == "invalid"@ && view_registration(r, d, s).1 is Some,
        super::plugins::registration(d, s) != "registered"@ ==> view_registration(r, d, s).0 == "unavailable"@,
{
    reveal_strlit("registered");
    reveal_strlit("not_registered");
    reveal_strlit("unavailable");
    reveal_strlit("invalid");
    assert("registered"@.len() == 10 && "not_registered"@.len() == 14 && "unavailable"@.len() == 11
        && "invalid"@.len() == 7);
}

/// A plugin's page counts the monitors, the targets and the discoveries that are its own.
pub proof fn plugins_count_their_own(r: RegistryView, id: Seq<char>, list: Seq<MonitorSnapshot>, m: MonitorSnapshot, all: Seq<DiscoverySnapshot>, d: DiscoverySnapshot)
    ensures
        monitors_owned(r, id, Seq::empty()) == 0,
        owner(r, m.extension_id@, m.contract@, m.version) == Some(id) ==> monitors_owned(r, id, list.push(m))
            == monitors_owned(r, id, list) + 1 && targets_owned(r, id, list.push(m)) == targets_owned(r, id, list).insert(
            m.target_id@,
        ),
        owner(r, m.extension_id@, m.contract@, m.version) != Some(id) ==> monitors_owned(r, id, list.push(m))
            == monitors_owned(r, id, list) && targets_owned(r, id, list.push(m)) == targets_owned(r, id, list),
        discoveries_owned(r, id, Seq::empty()) == 0,
        discoveries_owned(r, id, all.push(d)) == discoveries_owned(r, id, all) + (if owner(
            r,
            d.extension_id@,
            d.contract@,
            d.version,
        ) == Some(id) { 1nat } else { 0nat }),
{
    assert(list.push(m).drop_last() =~= list);
    assert(all.push(d).drop_last() =~= all);
}

/// What a plugin's summary shows: its registration, that of its view, and those counts.
pub proof fn plugins_are_summed_up(r: RegistryView, d: ExtensionView, monitors: Seq<MonitorSnapshot>, discoveries: Seq<DiscoverySnapshot>)
    ensures
        ({
            let t = super::plugins::plugin_tree(r, d, monitors, discoveries);
            let s = super::plugins::status_of(r.statuses, d.id);
            &&& member(t, "id"@) == Some(Tree::Text(d.id))
            &&& member(t, "registration"@) == Some(Tree::Text(super::plugins::registration(d, s)))
            &&& member(t, "view_registration"@) == Some(Tree::Text(view_registration(r, d, s).0))
            &&& member(t, "monitor_count"@) == Some(Tree::Unsigned(monitors_owned(r, d.id, monitors) as u64))
            &&& member(t, "target_count"@) == Some(Tree::Unsigned(targets_owned(r, d.id, monitors).len() as u64))
            &&& member(t, "discovery_count"@) == Some(Tree::Unsigned(discoveries_owned(r, d.id, discoveries) as u64))
            &&& s is Some && s->0.error is Some ==> member(t, "registration_error"@) == Some(
                Tree::Text(error_text(s->0.error->0)),
            )
        }),
{
    reveal_strlit("id");
    reveal_strlit("registration");
    reveal_strlit("registration_error");
    reveal_strlit("view_registration");
    reveal_strlit("view_error");
    reveal_strlit("monitor_count");
    reveal_strlit("target_count");
    reveal_strlit("discovery_count");
    assert("id"@.len() == 2 && "registration"@.len() == 12 && "registration_error"@.len() == 18
        && "view_registration"@.len() == 17 && "view_error"@.len() == 10 && "monitor_count"@.len() == 13
        && "target_count"@.len() == 12 && "discovery_count"@.len() == 15 && "registration"@[0] == 'r'
        && "target_count"@[0] == 't');
}

/// An accepted view is of the known form and bounded: up to 8 sections with different
/// identifiers, each with fields, whose pointers lead from the top, up to 64 in all.
pub proof fn accepted_views_are_bounded(v: MonitoringView, i: int, k: int)
    requires
        view_fault(v) is None,
    ensures
        v.schema_version == 1,
        v.title@.len() > 0 && byte_len(v.title@) <= 128,
        v.sections@.len() <= 8,
        field_ids(v.sections@, v.sections@.len()).len() <= 64,
        0 <= i < v.sections@.len() ==> {
            let s = v.sections@[i];
            &&& s.fields@.len() > 0
            &&& crate::protocol::is_id(s.id@) && crate::protocol::is_id(s.monitor_role@)
            &&& byte_len(s.title@) <= 128
            &&& 0 <= k < i ==> v.sections@[k].id@ != s.id@
            &&& 0 <= k < s.fields@.len() ==> {
                let f = s.fields@[k];
                &&& crate::protocol::is_id(f.id@)
                &&& byte_len(f.label@) <= 128 && byte_len(f.pointer@) <= 256
                &&& f.pointer@.len() > 0 ==> f.pointer@[0] == '/'
                &&& f.unit is Some ==> byte_len(f.unit->0@) <= 32
                &&& forall|j: int| 0 <= j < k ==> (#[trigger] s.fields@[j]).id@ != f.id@
                &&& !field_ids(v.sections@, i as nat).contains(f.id@)
            }
        },
{
    reveal_strlit("/");
    assert("/"@.len() == 1 && "/"@[0] == '/');
    let g = |n: int| super::plugins::section_fault(v.sections@, n);
    earliest_none(v.sections@.len(), g);
    if 0 <= i < v.sections@.len() {
        assert(g(i) is None);
        assert(!super::plugins::section_repeats(v.sections@, i));
        let s = v.sections@[i];
        if 0 <= k < s.fields@.len() {
            assert(super::plugins::field_ok(s.fields@[k]) && !super::plugins::field_repeats(v.sections@, i, k));
            let p = s.fields@[k].pointer@;
            if p.len() > 0 {
                assert(p.subrange(0, 1)[0] == p[0]);
            }
        }
    }
}

/// The fields of the sections before, in order.
pub proof fn fields_are_gathered_by_section(v: MonitoringView, n: nat, k: int)
    requires
        n < v.sections@.len(),
        0 <= k < v.sections@[n as int].fields@.len(),
    ensures
        field_ids(v.sections@, 0).len() == 0,
        field_ids(v.sections@, n + 1).len() == field_ids(v.sections@, n).len() + v.sections@[n as int].fields@.len(),
        field_ids(v.sections@, n + 1)[field_ids(v.sections@, n).len() + k] == v.sections@[n as int].fields@[k].id@,
{
}

/// A new handle is kept beside those that are alive; if there are 256 of them, the one that was
/// used the longest ago makes room.
pub proof fn oldest_handles_make_room(
    kept: Map<Seq<char>, CursorView>,
    id: Seq<char>,
    c: CursorView,
    after: Map<Seq<char>, CursorView>,
    other: Seq<char>,
)
    requires
        added(kept, id, c, after),
    ensures
        after.contains_key(id) && after[id] == c,
        kept.dom().len() < 256 && kept.contains_key(other) && other != id ==> after.contains_key(other) && after[other]
            == kept[other],
        kept.dom().len() >= 256 ==> exists|gone: Seq<char>| #[trigger]
            kept.contains_key(gone) && (gone != id ==> !after.contains_key(gone)) && forall|k: Seq<char>| #[trigger]
                kept.contains_key(k) ==> kept[gone].touched_at <= kept[k].touched_at,
        after.contains_key(other) && other != id ==> kept.contains_key(other) && after[other] == kept[other],
{
    if kept.dom().len() >= 256 {
        let gone = choose|gone: Seq<char>| #[trigger] oldest(kept, gone) && after == kept.remove(gone).insert(id, c);
        assert(kept.contains_key(gone));
    }
}

/// The root that a request names is the first of that text.
pub proof fn roots_are_found_by_name(roots: Seq<LocationView>, text: Seq<char>, k: int)
    ensures
        root_at(roots, text) is Some ==> 0 <= root_at(roots, text)->0 < roots.len() && roots[root_at(roots, text)->0].text
            == text,
        root_at(roots, text) is None && 0 <= k < roots.len() ==> roots[k].text != text,
{
    let f = |i: int| if roots[i].text == text { Some(i) } else { None };
    earliest_none(roots.len(), f);
    if root_at(roots, text) is Some {
        let i = earliest_item(roots.len(), f);
        assert(f(i) == Some(i));
    } else if 0 <= k < roots.len() {
        assert(f(k) is None);
    }
}

/// The counts of approvals: a state that occurs is shown with its number, one that does not is
/// left out.
pub proof fn approval_counts_show_each_state(states: Seq<ApprovalState>, s: ApprovalState)
    ensures
        count_of(states, s) > 0 ==> member(counts_tree(states), state_text(s)) == Some(
            Tree::Unsigned(count_of(states, s) as u64),
        ),
        count_of(states, s) == 0 ==> member(counts_tree(states), state_text(s)) is None,
{
    states_have_their_own_names(s, ApprovalState::Approved);
    states_have_their_own_names(s, ApprovalState::Canceled);
    states_have_their_own_names(s, ApprovalState::Denied);
    states_have_their_own_names(s, ApprovalState::Executed);
    states_have_their_own_names(s, ApprovalState::Executing);
    states_have_their_own_names(s, ApprovalState::Expired);
    states_have_their_own_names(s, ApprovalState::Failed);
    states_have_their_own_names(s, ApprovalState::Pending);
    states_have_their_own_names(s, ApprovalState::Revoked);
    states_have_their_own_names(s, ApprovalState::Unknown);
    states_have_their_own_names(s, ApprovalState::WaitingHuman);
    assert(member(crate::json::values::empty_object(), state_text(s)) is None);
}

/// A page of events holds the rows that were found, and where to go on.
pub proof fn event_pages_show_their_rows(events: Seq<ReceiptView>, q: LogsView)
    ensures
        ({
            let found = rows(events, super::requests::logs_start(events.len(), q), q, super::requests::logs_limit(q));
            &&& member(logs_tree(events, q), "items"@) == Some(Tree::Array(found.0))
            &&& found.1 is Some ==> member(logs_tree(events, q), "next_cursor"@) == Some(Tree::Unsigned(found.1->0 as u64))
            &&& found.1 is None ==> member(logs_tree(events, q), "next_cursor"@) == Some(Tree::Null)
        }),
{
    reveal_strlit("items");
    reveal_strlit("next_cursor");
    assert("items"@.len() == 5 && "next_cursor"@.len() == 11);
}

/// The first page of the interface shows each part under its own name, and who the operator
/// is.
pub proof fn first_pages_show_their_parts(operator: Seq<char>, permissions: Seq<Seq<char>>, now: u64, p: Parts)
    ensures
        ({
            let t = bootstrap_tree(operator, permissions, now, p);
            let runtime = member(t, "runtime"@)->0;
            &&& member(t, "schema_version"@) == Some(Tree::Unsigned(1))
            &&& member(runtime, "operator"@) == Some(Tree::Text(operator))
            &&& member(runtime, "updatedAt"@) == Some(Tree::Unsigned(now))
            &&& member(p.approvals@, "items"@) is Some ==> member(t, "approvals"@) == member(p.approvals@, "items"@)
            &&& member(p.repairs@, "items"@) is Some ==> member(t, "repairs"@) == member(p.repairs@, "items"@)
            &&& member(p.operations@, "items"@) is Some ==> member(t, "operations"@) == member(p.operations@, "items"@)
            &&& member(p.simulations@, "items"@) is Some ==> member(t, "simulation_tasks"@) == member(p.simulations@, "items"@)
            &&& member(t, "monitoring"@) == Some(p.monitoring@)
            &&& member(t, "approval_counts"@) == Some(p.approval_counts@)
            &&& member(t, "active_configuration"@) == Some(p.active@)
        }),
{
    reveal_strlit("schema_version");
    reveal_strlit("mode");
    reveal_strlit("runtime");
    reveal_strlit("capabilities");
    reveal_strlit("harnesses");
    reveal_strlit("repairs");
    reveal_strlit("approvals");
    reveal_strlit("simulation_tasks");
    reveal_strlit("logs");
    reveal_strlit("active_configuration");
    reveal_strlit("operations");
    reveal_strlit("extension_statuses");
    reveal_strlit("monitoring");
    reveal_strlit("pages");
    reveal_strlit("approval_counts");
    assert("schema_version"@.len() == 14 && "mode"@.len() == 4 && "runtime"@.len() == 7
        && "capabilities"@.len() == 12 && "harnesses"@.len() == 9 && "repairs"@.len() == 7
        && "approvals"@.len() == 9 && "simulation_tasks"@.len() == 16 && "logs"@.len() == 4
        && "active_configuration"@.len() == 20 && "operations"@.len() == 10
        && "extension_statuses"@.len() == 18 && "monitoring"@.len() == 10 && "pages"@.len() == 5
        && "approval_counts"@.len() == 15 && "mode"@[0] == 'm' && "logs"@[0] == 'l' && "runtime"@[1] == 'u'
        && "repairs"@[1] == 'e' && "harnesses"@[0] == 'h' && "approvals"@[0] == 'a'
        && "operations"@[0] == 'o' && "monitoring"@[0] == 'm');
    reveal_strlit("status");
    reveal_strlit("updatedAt");
    reveal_strlit("operator");
    reveal_strlit("permissions");
    assert("status"@.len() == 6 && "updatedAt"@.len() == 9 && "operator"@.len() == 8
        && "permissions"@.len() == 11);
}

} // verus!
