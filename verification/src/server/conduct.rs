//! What an operator can rely on: who may do what, what is refused how, what is shown of an
//! operation, and what a query finds.
use super::access::{bearer, origin_fault};
use super::console::{
    ask_fault, begin_fault, begun, ended, forgone, lost, permission_fault, running, settled, Ask, ConsoleView, OutcomeView,
};
use super::history::{count_of, milli};
use super::journal::{cut_short, transition_fault, ReceiptView};
use super::logs::read_fault;
use super::logs::records::{entry_record, is_error, LogView};
use super::logs::{serves, MappingView, SourceView};
use super::paging::{item_state, limit_of, paged, query_fault, selected, QueryView};
use super::plugins::{owner, registration};
use super::requests::{
    action_named, event_matches, instance, level_of, logs_limit, logs_start, node_of, permission_of, repair_fault, rows,
    run_fault, run_made, scenario_named, simulated, ApprovalAction, HarnessInput, LogsView,
};
use super::views::{actions, Rights};
use super::{answered, outside_fault, token_valid};
use crate::faults::{earliest_item, earliest_none};
use crate::harnesses::{ConversationVisibility, DefinitionView, PlacementView};
use crate::json::{member, resolved, Tree};
use crate::nodes::registry::{owner_of, RegistryView};
use crate::nodes::{ExtensionView, StatusView};
use crate::paths::{is_under, LocationView};
use crate::protocol::ExtensionKind;
use crate::recovery::approval::ApprovalState;
use crate::recovery::engine::Simulation;
use crate::recovery::workflow::Fault as WorkflowFault;
use crate::text::{byte_len, lowered, starts_with};
use vstd::prelude::*;

verus! {

// Access.

/// A request that names where it comes from is answered only if that is the host itself or an
/// origin that the configuration lists; one that names none is answered.
pub proof fn foreign_origins_are_refused(origin: Option<Seq<char>>, host: Option<Seq<char>>, allowed: Seq<Seq<char>>)
    ensures
        origin is None ==> origin_fault(origin, host, allowed) is None,
        origin is Some && allowed.contains(origin->0) ==> origin_fault(origin, host, allowed) is None,
        origin is Some && host is Some && origin->0 == "http://"@ + host->0 ==> origin_fault(origin, host, allowed) is None,
        origin is Some && host is Some && origin->0 == "https://"@ + host->0 ==> origin_fault(origin, host, allowed) is None,
        origin is Some && !allowed.contains(origin->0) && (host is None || (origin->0 != "http://"@ + host->0 && origin->0
            != "https://"@ + host->0)) ==> origin_fault(origin, host, allowed) is Some && origin_fault(
            origin,
            host,
            allowed,
        )->0.status == 403,
{
}

/// The token of a request is what stands behind the scheme's name, and nothing without it.
pub proof fn tokens_stand_behind_their_scheme(token: Seq<char>, other: Seq<char>)
    ensures
        bearer(Some("Bearer "@ + token)) == token,
        bearer(None).len() == 0,
        !starts_with(other, "Bearer "@) ==> bearer(Some(other)).len() == 0,
{
    let all = "Bearer "@ + token;
    assert(all.subrange(0, "Bearer "@.len() as int) =~= "Bearer "@);
    assert(all.subrange("Bearer "@.len() as int, all.len() as int) =~= token);
}

/// A token is long enough to be one, and printable.
pub proof fn tokens_are_long_and_printable(token: Seq<u8>, i: int)
    requires
        token_valid(token),
        0 <= i < token.len(),
    ensures
        32 <= token.len() <= 256,
        33 <= token[i] <= 126,
{
}

/// What each request needs, and that it is enough: its own permission, of a host that accepts
/// requests. The log of a monitor needs all of its readings, and acknowledging needs sight of
/// what is acknowledged.
pub proof fn requests_need_their_own_permission(c: ConsoleView, ask: Ask)
    requires
        ask_fault(c, ask) is None,
    ensures
        c.accepting,
        ask is Projects ==> c.permissions.contains("harness.projects"@),
        ask is RunHarness ==> c.permissions.contains("harness.run"@),
        ask is RunRepair ==> c.permissions.contains("repair.run"@),
        ask is Decide ==> c.permissions.contains("approval.decide"@),
        ask is Apply ==> c.permissions.contains("approval.apply"@),
        ask is Reconcile ==> c.permissions.contains("approval.reconcile"@),
        ask is Simulate ==> c.permissions.contains("simulation.run"@),
        ask is Cancel ==> c.permissions.contains("operation.cancel"@),
        ask is ReadLogs || ask is ReadMonitorLogs ==> c.permissions.contains("logs.read"@),
        ask is QueryExtension || ask is ReadMonitorLogs ==> c.permissions.contains("extension.read"@),
        ask is ReadMonitors || ask is ReadMonitorLogs ==> c.permissions.contains("monitor.read"@),
        ask is ReadIncidents || ask is Acknowledge ==> c.permissions.contains("incident.read"@),
        ask is Acknowledge ==> c.permissions.contains("incident.acknowledge"@),
{
}

/// An operator with every permission is refused nothing while the host accepts requests; a
/// permission that is missing is answered as forbidden, a host that shuts down as unavailable.
pub proof fn full_operators_are_refused_nothing(c: ConsoleView, ask: Ask, permission: Seq<char>)
    ensures
        c.accepting && c.permissions.contains("harness.projects"@) && c.permissions.contains("harness.run"@)
            && c.permissions.contains("repair.run"@) && c.permissions.contains("approval.decide"@) && c.permissions.contains(
            "approval.apply"@,
        ) && c.permissions.contains("approval.reconcile"@) && c.permissions.contains("simulation.run"@)
            && c.permissions.contains("operation.cancel"@) && c.permissions.contains("logs.read"@) && c.permissions.contains(
            "extension.read"@,
        ) && c.permissions.contains("monitor.read"@) && c.permissions.contains("incident.read"@) && c.permissions.contains(
            "incident.acknowledge"@,
        ) ==> ask_fault(c, ask) is None,
        c.accepting && ask_fault(c, ask) is Some ==> ask_fault(c, ask)->0.status == 403,
        !c.accepting ==> ask_fault(c, ask) is Some && ask_fault(c, ask)->0.status == 503,
        permission_fault(c, permission) is None <==> c.accepting && c.permissions.contains(permission),
{
}

// Refusals.

/// How a failed step on a repair is answered: what is not there as not found, what is in
/// another state, expired, busy or at another revision as a conflict, an unknown outcome as a
/// conflict of its own kind, and the rest as a bad request.
pub proof fn failures_are_answered_by_kind(f: WorkflowFault)
    ensures
        answered(f).status == 404 <==> f is Approval && f->Approval_0 is NotFound,
        answered(f).status == 409 <==> f is OutcomeUnknown || (f is Approval && (f->Approval_0 is Conflict
            || f->Approval_0 is InvalidState || f->Approval_0 is Expired || f->Approval_0 is TargetBusy)),
        answered(f).status == 400 || answered(f).status == 404 || answered(f).status == 409,
        f is OutcomeUnknown ==> answered(f).code == "unknown"@,
        f is Approval && f->Approval_0 is TargetBusy ==> answered(f).code == "conflict"@,
{
}

// Approvals.

/// What an operator is offered of an approval: deciding while it waits and is in time,
/// revoking until it is used, applying what is approved and in time, and reconciling what is
/// unknown, each only with the right to it.
pub proof fn offers_follow_state_and_rights(r: Rights, s: ApprovalState, unexpired: bool)
    ensures
        actions(r, s, unexpired).contains("approve"@) <==> r.decide && unexpired && (s == ApprovalState::Pending || s
            == ApprovalState::WaitingHuman),
        actions(r, s, unexpired).contains("deny"@) <==> r.decide && unexpired && (s == ApprovalState::Pending || s
            == ApprovalState::WaitingHuman),
        actions(r, s, unexpired).contains("revoke"@) <==> r.decide && (s == ApprovalState::Pending || s
            == ApprovalState::WaitingHuman || s == ApprovalState::Approved),
        actions(r, s, unexpired).contains("apply"@) <==> r.apply && unexpired && s == ApprovalState::Approved,
        actions(r, s, unexpired).contains("reconcile"@) <==> r.reconcile && s == ApprovalState::Unknown,
{
    reveal_strlit("apply");
    reveal_strlit("approve");
    reveal_strlit("deny");
    reveal_strlit("revoke");
    reveal_strlit("reconcile");
    assert("apply"@.len() == 5 && "approve"@.len() == 7 && "deny"@.len() == 4 && "revoke"@.len() == 6 && "reconcile"@.len() == 9);
    let all = actions(r, s, unexpired);
    if r.decide && unexpired && (s == ApprovalState::Pending || s == ApprovalState::WaitingHuman) {
        assert(all[0] == "approve"@ && all[1] == "deny"@ && all[2] == "revoke"@);
    } else if r.decide && (s == ApprovalState::Pending || s == ApprovalState::WaitingHuman || s == ApprovalState::Approved) {
        assert(all[0] == "revoke"@);
    }
    if r.apply && unexpired && s == ApprovalState::Approved {
        assert(all[all.len() - 1] == "apply"@);
    }
    if r.reconcile && s == ApprovalState::Unknown {
        assert(all[all.len() - 1] == "reconcile"@);
    }
}

/// An action is taken under its name and only with the permission for it: applying and
/// reconciling have their own, the decisions share one.
pub proof fn actions_go_by_their_name(name: Seq<char>)
    ensures
        action_named(name) == Some(ApprovalAction::Approve) <==> name == "approve"@,
        action_named(name) == Some(ApprovalAction::Deny) <==> name == "deny"@,
        action_named(name) == Some(ApprovalAction::Revoke) <==> name == "revoke"@,
        action_named(name) == Some(ApprovalAction::Apply) <==> name == "apply"@,
        action_named(name) == Some(ApprovalAction::Reconcile) <==> name == "reconcile"@,
        name == "apply"@ ==> permission_of(name) == "approval.apply"@,
        name == "reconcile"@ ==> permission_of(name) == "approval.reconcile"@,
        name == "approve"@ || name == "deny"@ || name == "revoke"@ ==> permission_of(name) == "approval.decide"@,
{
    reveal_strlit("apply");
    reveal_strlit("approve");
    reveal_strlit("deny");
    reveal_strlit("revoke");
    reveal_strlit("reconcile");
    assert("apply"@.len() == 5 && "approve"@.len() == 7 && "deny"@.len() == 4 && "revoke"@.len() == 6 && "reconcile"@.len() == 9);
}

// Operations.

proof fn statuses_are_names()
    ensures
        "running"@.len() == 7 && "running"@[0] == 'r',
        "unknown"@.len() == 7 && "unknown"@[0] == 'u',
        "failed"@.len() == 6,
        "canceled"@.len() == 8,
        "completed"@.len() == 9,
{
    reveal_strlit("running");
    reveal_strlit("unknown");
    reveal_strlit("failed");
    reveal_strlit("canceled");
    reveal_strlit("completed");
}

/// An operation ends as what it returned says: failed, canceled and unknown results are shown as
/// such, every other result as completed, and one without a result, or that no restart survived,
/// as unknown with the reason.
pub proof fn operations_end_as_they_said(o: ReceiptView, value: Tree, message: Seq<char>, now: u64)
    ensures
        ({
            let e = ended(o, OutcomeView::Value(value), now);
            let said = member(value, "status"@);
            &&& e.result == Some(value) && e.updated_at == now && e.id == o.id && e.kind == o.kind && e.context == o.context
            &&& e.status == "failed"@ <==> said == Some(Tree::Text("failed"@))
            &&& e.status == "canceled"@ <==> said == Some(Tree::Text("canceled"@))
            &&& e.status == "unknown"@ <==> said == Some(Tree::Text("unknown"@))
            &&& e.status != "running"@
        }),
        ({
            let e = ended(o, OutcomeView::Failed(message), now);
            &&& e.status == "unknown"@ && e.error == Some(message) && e.result == o.result && e.updated_at == now
        }),
        cut_short(o, now).status == "unknown"@ && cut_short(o, now).error is Some && cut_short(o, now).updated_at == now,
        lost(o).status == "unknown"@ && lost(o).result is None && lost(o).error is Some,
{
    statuses_are_names();
}

/// An operation begins running under its own identity, with nothing to show yet; when it has
/// ended it is no longer among those that run, and nothing else changes.
pub proof fn operations_run_from_begin_to_end(c: ConsoleView, id: Seq<char>, kind: Seq<char>, context: Tree, now: u64, o: ReceiptView)
    ensures
        ({
            let r = running(id, kind, context, now);
            let after = begun(c, r);
            &&& r.status == "running"@ && r.result is None && r.error is None && !r.auto_retry && r.updated_at == now
            &&& after.journal.records.contains_key(id) && after.journal.records[id] == r
            &&& after.calls.contains_key(id) && !after.calls[id]
            &&& after.permissions == c.permissions && after.accepting == c.accepting
        }),
        ({
            let after = settled(c, o);
            &&& after.journal.records.contains_key(o.id) && after.journal.records[o.id] == o
            &&& !after.calls.contains_key(o.id)
            &&& forall|k: Seq<char>| k != o.id ==> (#[trigger] after.calls.contains_key(k) <==> c.calls.contains_key(k))
        }),
        !forgone(c, o, true).calls.contains_key(o.id) && forgone(c, o, true).journal.records[o.id].status == "unknown"@
            && forgone(c, o, true).journal.failed,
{
}

/// An operation is refused an identity that was used, a host that is shutting down or has too
/// much to do, each in its own way.
pub proof fn operations_are_refused_for_a_reason(c: ConsoleView, id: Seq<char>, kind: Seq<char>, context: Tree, now: u64)
    ensures
        c.journal.records.contains_key(id) && super::is_id(id) ==> begin_fault(c, id, kind, context, now) is Some
            && begin_fault(c, id, kind, context, now)->0.status == 409,
        !super::is_id(id) ==> begin_fault(c, id, kind, context, now) is Some && begin_fault(
            c,
            id,
            kind,
            context,
            now,
        )->0.status == 400,
        begin_fault(c, id, kind, context, now) is None ==> c.accepting && c.calls.dom().len() < 8
            && c.journal.records.dom().len() < 1000 && !c.journal.records.contains_key(id),
{
}

/// A receipt follows only a running one of the same kind, and a run only nothing.
pub proof fn receipts_follow_their_run(previous: Option<ReceiptView>, o: ReceiptView)
    requires
        transition_fault(previous, o) is None,
    ensures
        o.updated_at > 0,
        !o.auto_retry,
        o.context is Object,
        o.status == "running"@ <==> previous is None,
        o.status == "running"@ ==> o.result is None && o.error is None,
        previous is Some ==> previous->0.status == "running"@ && previous->0.kind == o.kind && crate::json::alike(
            previous->0.context,
            o.context,
        ),
        o.status == "completed"@ || o.status == "failed"@ || o.status == "canceled"@ ==> o.result is Some && o.error is None,
{
    statuses_are_names();
}

/// An unknown or a failed operation is shown as an error, and no other.
pub proof fn uncertain_operations_are_errors(o: ReceiptView)
    ensures
        level_of(o) == "error"@ <==> o.status == "unknown"@ || o.status == "failed"@,
        level_of(o) == "info"@ <==> !(o.status == "unknown"@ || o.status == "failed"@),
{
    reveal_strlit("error");
    reveal_strlit("info");
    assert("error"@.len() == 5 && "info"@.len() == 4);
}

// Queries.

/// An event is found exactly if it has everything that is asked for.
pub proof fn events_are_found_by_what_is_asked(o: ReceiptView, q: LogsView)
    requires
        event_matches(o, q),
    ensures
        q.source is Some ==> o.kind == q.source->0,
        q.operation_id is Some ==> o.id == q.operation_id->0,
        q.task_id is Some ==> member(o.context, "taskId"@) == Some(Tree::Text(q.task_id->0)),
        q.level == Some("error"@) ==> o.status == "unknown"@ || o.status == "failed"@,
        q.level == Some("info"@) ==> o.status != "unknown"@ && o.status != "failed"@,
{
    uncertain_operations_are_errors(o);
    reveal_strlit("error");
    reveal_strlit("info");
    assert("error"@.len() == 5 && "info"@.len() == 4);
}

/// A query that asks for nothing finds every event.
pub proof fn open_queries_find_everything(o: ReceiptView, cursor: Option<usize>, limit: Option<usize>)
    ensures
        event_matches(
            o,
            LogsView { level: None, source: None, task_id: None, operation_id: None, query: None, cursor, limit },
        ),
{
}

/// A page of events is at most as long as asked for, within one and two hundred; it starts at
/// the newest event, or just before the one that the cursor names.
pub proof fn event_pages_are_bounded(events: Seq<ReceiptView>, q: LogsView)
    ensures
        1 <= logs_limit(q) <= 200,
        q.limit is Some && 1 <= q.limit->0 <= 200 ==> logs_limit(q) == q.limit->0,
        q.limit is None ==> logs_limit(q) == 50,
        q.cursor is None ==> logs_start(events.len(), q) == events.len(),
        q.cursor is Some && q.cursor->0 <= events.len() ==> logs_start(events.len(), q) == q.cursor->0,
        logs_start(events.len(), q) <= events.len(),
        rows(events, logs_start(events.len(), q), q, logs_limit(q)).0.len() <= logs_limit(q),
{
    rows_fit(events, logs_start(events.len(), q), q, logs_limit(q));
}

proof fn rows_fit(events: Seq<ReceiptView>, start: nat, q: LogsView, room: nat)
    requires
        room >= 1,
        start <= events.len(),
    ensures
        rows(events, start, q, room).0.len() <= room,
        match rows(events, start, q, room).1 {
            Some(next) => next < start && rows(events, start, q, room).0.len() == room,
            None => true,
        },
    decreases start,
{
    if start > 0 {
        let at = (start - 1) as nat;
        if !event_matches(events[at as int], q) {
            rows_fit(events, at, q, room);
        } else if room > 1 {
            rows_fit(events, at, q, (room - 1) as nat);
        }
    }
}

/// A page that goes on goes on strictly before where it began, and only when it is full; one
/// that does not has come to the first event.
pub proof fn event_pages_go_backwards(events: Seq<ReceiptView>, start: nat, q: LogsView, room: nat)
    requires
        room >= 1,
        start <= events.len(),
    ensures
        rows(events, start, q, room).1 is Some ==> rows(events, start, q, room).1->0 < start && rows(
            events,
            start,
            q,
            room,
        ).0.len() == room,
        rows(events, 0, q, room).0.len() == 0,
        start > 0 && event_matches(events[start - 1], q) ==> rows(events, start, q, room).0.len() > 0,
        start > 0 && !event_matches(events[start - 1], q) ==> rows(events, start, q, room) == rows(
            events,
            (start - 1) as nat,
            q,
            room,
        ),
{
    rows_fit(events, start, q, room);
}

/// A list holds exactly the items that match: by state, where "all" asks for none and
/// "attention" for what waits or is uncertain, and by task.
pub proof fn lists_hold_what_matches(items: Seq<Tree>, q: QueryView, x: Tree)
    ensures
        selected(items, q).contains(x) <==> items.contains(x) && crate::server::paging::matches(x, q),
        crate::server::paging::matches(x, q) && q.task_id is Some ==> member(x, "taskId"@) == Some(Tree::Text(q.task_id->0)),
        crate::server::paging::matches(x, q) && q.state is Some ==> q.state->0 == "all"@ || q.state->0 == item_state(x) || (q.state->0
            == "attention"@ && (item_state(x) == "unknown"@ || item_state(x) == "waiting_human"@ || item_state(x)
            == "approved"@ || item_state(x) == "pending"@)),
        q.state == Some("all"@) && q.task_id is None && q.query is None ==> crate::server::paging::matches(x, q),
        q.state == Some("attention"@) && q.task_id is None && q.query is None && item_state(x) == "unknown"@ ==> crate::server::paging::matches(x, q),
        q.state == Some("attention"@) && q.task_id is None && q.query is None && item_state(x) == "pending"@ ==> crate::server::paging::matches(x, q),
        q.state is None && q.task_id is None && q.query is None ==> crate::server::paging::matches(x, q),
        member(x, "state"@) is Some && member(x, "state"@)->0 is Text ==> item_state(x) == member(x, "state"@)->0->Text_0,
    decreases items.len(),
{
    if items.len() > 0 {
        let front = items.drop_last();
        lists_hold_what_matches(front, q, x);
        let was = selected(front, q);
        let now = selected(items, q);
        if items.contains(x) && crate::server::paging::matches(x, q) {
            let k = choose|k: int| 0 <= k < items.len() && items[k] == x;
            if k < front.len() {
                assert(front[k] == x);
                let m = choose|m: int| 0 <= m < was.len() && was[m] == x;
                assert(now[m] == x);
            } else {
                assert(now[now.len() - 1] == x);
            }
        }
        if now.contains(x) {
            let m = choose|m: int| 0 <= m < now.len() && now[m] == x;
            if m < was.len() {
                assert(was[m] == x);
                let k = choose|k: int| 0 <= k < front.len() && front[k] == x;
                assert(items[k] == x);
            } else {
                assert(items[items.len() - 1] == x);
            }
        }
    }
}

/// A list is asked for in pages of one to a hundred items, twenty-five where nothing is said.
pub proof fn list_pages_are_bounded(items: Seq<Tree>, key: Seq<char>, q: QueryView)
    ensures
        paged(items, key, q) is Ok ==> 1 <= limit_of(q) <= 100,
        q.limit is Some && !(1 <= q.limit->0 <= 100) ==> paged(items, key, q) is Err && paged(items, key, q)->Err_0.status == 400,
        q.limit is None ==> limit_of(q) == 25,
        q.limit is Some ==> limit_of(q) == q.limit->0,
        q.cursor is None && q.query is None && q.state is None && q.task_id is None && q.limit is None ==> query_fault(q) is None,
{
}

/// Seconds are shown in milliseconds; the largest number stands for what does not fit.
pub proof fn times_are_shown_in_milliseconds(seconds: u64)
    ensures
        seconds <= 18446744073709551 ==> milli(seconds) == seconds * 1000,
        seconds > 18446744073709551 ==> milli(seconds) == u64::MAX,
{
}

/// The states of the approvals are counted, each for itself.
pub proof fn states_are_counted(states: Seq<ApprovalState>, more: ApprovalState, s: ApprovalState)
    ensures
        count_of(Seq::empty(), s) == 0,
        count_of(states.push(more), s) == count_of(states, s) + (if more == s { 1nat } else { 0nat }),
        count_of(states, s) <= states.len(),
    decreases states.len(),
{
    assert(states.push(more).drop_last() =~= states);
    if states.len() > 0 {
        states_are_counted(states.drop_last(), more, s);
    }
}

// Requests.

/// A run asked for over the network is bounded, and either hidden or shown.
pub proof fn asked_runs_are_bounded(prompt: Seq<char>, timeout: u64, visibility: Seq<char>)
    ensures
        run_fault(prompt, timeout, visibility) is None ==> prompt.len() > 0 && byte_len(prompt) <= 65536 && 1 <= timeout
            <= 1800 && (visibility == "hidden"@ || visibility == "client"@),
        run_fault(prompt, timeout, visibility) is Some ==> run_fault(prompt, timeout, visibility)->0.status == 400,
{
}

/// What is run is what was asked for: the prompt, the time, the visibility, the project of the
/// chosen harness and the model, in the chosen workspace of the harness's node or in the local
/// root.
pub proof fn runs_are_made_as_asked(address: Seq<char>, root: LocationView, id: Seq<char>, i: HarnessInput)
    ensures
        ({
            let q = run_made(address, root, id, i);
            &&& q.prompt == i.prompt@
            &&& q.timeout.secs == i.timeout_secs && q.timeout.nanos == 0
            &&& i.visibility@ == "hidden"@ ==> q.visibility == ConversationVisibility::Hidden
            &&& i.visibility@ != "hidden"@ ==> q.visibility == ConversationVisibility::Client
            &&& i.project_id is Some ==> q.placement == (PlacementView::ExistingProject {
                harness_id: id,
                project_id: i.project_id->0@,
            })
            &&& i.project_id is None ==> q.placement == PlacementView::NoNativeProject
            &&& i.model is Some ==> q.model == Some(i.model->0@)
            &&& i.model is None ==> q.model is None
            &&& q.tools.len() == 0 && !q.handled && !q.cancelled
            &&& starts_with(address, "node://"@) ==> q.remote_workspace is Some && "node://"@
                + q.remote_workspace->0.node_id == address && q.remote_workspace->0.workspace_id == i.workspace_id@
            &&& !starts_with(address, "node://"@) ==> q.remote_workspace is None && q.project_directory == root
        }),
{
    if starts_with(address, "node://"@) {
        assert("node://"@ + node_of(address)->0 =~= address);
    }
}

/// A harness is found by its name, if it is enabled; the first of them.
pub proof fn harnesses_are_found_by_name(list: Seq<DefinitionView>, id: Seq<char>)
    ensures
        match instance(list, id) {
            Some(i) => 0 <= i < list.len() && list[i].id == id && list[i].enabled,
            None => forall|i: int| 0 <= i < list.len() ==> !((#[trigger] list[i]).id == id && list[i].enabled),
        },
{
    let f = |i: int| if list[i].id == id && list[i].enabled { Some(i) } else { None };
    earliest_none(list.len(), f);
    if instance(list, id) is Some {
        let i = earliest_item(list.len(), f);
    } else {
        assert forall|i: int| 0 <= i < list.len() implies !((#[trigger] list[i]).id == id && list[i].enabled) by {
            assert(f(i) is None);
        }
    }
}

/// A repair is asked for with a task and a prompt, and once per task.
pub proof fn repairs_are_asked_once(task: Seq<char>, prompt: Seq<char>, recorded: bool)
    ensures
        repair_fault(task, prompt, recorded) is None ==> !recorded && task.len() > 0 && prompt.len() > 0 && byte_len(prompt)
            <= 8192,
        repair_fault(task, prompt, true) is Some,
        repair_fault(task, prompt, false) is None ==> repair_fault(task, prompt, true)->0.status == 409,
{
}

/// A simulation is one of the known ones, under its name, and lasts at most a minute.
pub proof fn simulations_are_known(name: Seq<char>, task: Seq<char>, target: Seq<char>, millis: u64)
    ensures
        scenario_named(name) == Some(Simulation::Succeed) <==> name == "succeed"@,
        scenario_named(name) == Some(Simulation::Fail) <==> name == "fail"@,
        scenario_named(name) == Some(Simulation::Hang) <==> name == "hang"@,
        scenario_named(name) == Some(Simulation::Exit) <==> name == "exit"@,
        scenario_named(name) == Some(Simulation::VerificationFailed) <==> name == "verification_failed"@,
        simulated(name, task, target, millis) is Ok ==> 1 <= millis <= 60000 && scenario_named(name) == Some(
            simulated(name, task, target, millis)->Ok_0,
        ),
{
    reveal_strlit("succeed");
    reveal_strlit("fail");
    reveal_strlit("hang");
    reveal_strlit("exit");
    reveal_strlit("verification_failed");
    assert("succeed"@.len() == 7 && "fail"@[0] == 'f' && "hang"@[0] == 'h' && "exit"@[0] == 'e' && "verification_failed"@[0]
        == 'v' && "succeed"@[0] == 's');
}

// Configuration.

/// What the host keeps for itself never lies in the project it works on.
pub proof fn host_files_lie_outside_the_source(resolved: LocationView, source: Option<LocationView>)
    ensures
        outside_fault(resolved, source) is None <==> source is None || !is_under(resolved.parts, source->0.parts),
{
}

// Logs and plugins.

/// A record of a log is what its provider's answer holds where the configuration points.
pub proof fn log_records_are_read_where_configured(m: MappingView, entry: Tree, id: Seq<char>)
    requires
        entry_record(m, entry, id) is Ok,
    ensures
        ({
            let r = entry_record(m, entry, id)->Ok_0;
            &&& r.id == id
            &&& resolved(entry, m.message) == Some(Tree::Text(r.message))
            &&& resolved(entry, m.level) is Some && resolved(entry, m.level)->0 is Text ==> resolved(entry, m.level) == Some(
                Tree::Text(r.level),
            )
            &&& resolved(entry, m.level) is None ==> r.level == "UNKNOWN"@
            &&& r.event is Some ==> resolved(entry, m.event) == Some(Tree::Text(r.event->0))
            &&& resolved(entry, m.timestamp) is Some ==> resolved(entry, m.timestamp) == Some(r.timestamp)
            &&& resolved(entry, m.timestamp) is None ==> r.timestamp is Null
        }),
{
}

/// A record is an error exactly if its level is one of the configured ones, however written, or
/// its event is.
pub proof fn errors_go_by_level_or_event(s: SourceView, r: LogView, i: int)
    ensures
        0 <= i < s.error_levels.len() && lowered(s.error_levels[i]) == lowered(r.level) ==> is_error(s, r),
        r.event is Some && s.error_events.contains(r.event->0) ==> is_error(s, r),
        s.error_levels.len() == 0 && (r.event is None || !s.error_events.contains(r.event->0)) ==> !is_error(s, r),
{
}

/// A log is read for a known monitor, at most thirty-two records at a time; a source serves only
/// the monitors of its own extension and contract.
pub proof fn logs_are_read_from_their_own_source(
    id: Seq<char>,
    limit: usize,
    s: SourceView,
    extension_id: Seq<char>,
    contract: Seq<char>,
    params: Tree,
)
    ensures
        read_fault(id, limit) is None ==> 1 <= limit <= 32 && id.len() > 0,
        read_fault(id, limit) is Some ==> read_fault(id, limit)->0.status == 400,
        serves(s, extension_id, contract, params) ==> s.extension_id == extension_id && s.monitor_contract == contract,
{
}

/// A plugin is shown as registered exactly if it is enabled and available, as disabled if the
/// configuration says so, and as unavailable otherwise.
pub proof fn plugins_are_shown_as_they_are(d: ExtensionView, s: Option<StatusView>)
    ensures
        registration(d, s) == "registered"@ <==> d.enabled && s is Some && s->0.available,
        registration(d, s) == "disabled"@ <==> !d.enabled,
        registration(d, s) == "unavailable"@ <==> d.enabled && (s is None || !s->0.available),
{
    reveal_strlit("registered");
    reveal_strlit("disabled");
    reveal_strlit("unavailable");
    assert("registered"@.len() == 10 && "disabled"@.len() == 8 && "unavailable"@.len() == 11);
}

/// A monitor belongs to the plugin that registered its contract; where none did, to the plugin
/// it is asked of, and to nobody if that is no plugin.
pub proof fn monitors_belong_to_their_contract(r: RegistryView, extension_id: Seq<char>, contract: Seq<char>, version: u32)
    ensures
        owner_of(r.contracts, contract, version) is Some ==> owner(r, extension_id, contract, version) == owner_of(
            r.contracts,
            contract,
            version,
        ),
        owner_of(r.contracts, contract, version) is None ==> match owner(r, extension_id, contract, version) {
            Some(id) => id == extension_id && exists|i: int|
                0 <= i < r.definitions.len() && (#[trigger] r.definitions[i]).id == extension_id && r.definitions[i].kind
                    == ExtensionKind::Plugin,
            None => forall|i: int|
                0 <= i < r.definitions.len() ==> !((#[trigger] r.definitions[i]).id == extension_id && r.definitions[i].kind
                    == ExtensionKind::Plugin),
        },
{
}

} // verus!
