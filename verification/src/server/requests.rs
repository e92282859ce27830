//! Input validation and dispatch into trusted host services.
use super::journal::{receipts_of, Operation, ReceiptView};
use super::paging::{text_in, text_under, value_in, value_under};
use super::{bad_request, conflicting, is_id, reports, unavailable, valid_id, ApiError, Refusal};
use crate::faults::{earliest, earliest_sticks};
use crate::harnesses::remote::{referenced, resource, WorkspaceView};
use crate::harnesses::requests::{
    default_timeout, run_new, HarnessProjectListRequest, HarnessRunRequest, ListView, RunView,
};
use crate::harnesses::registry::{HarnessRunResult, ResultView};
use crate::harnesses::{
    definitions_of, ConversationPlacement, ConversationVisibility, DefinitionView, HarnessDefinition, PlacementView,
};
use crate::interfaces::views::{grouping_json, grouping_tree, paths_json, paths_tree, visibility_name, visibility_text};
use crate::harnesses::projects::HarnessProject;
use crate::json::values::{empty_object, object, opt_json, text_or_null, text_value, with};
use crate::json::{group_json, trees, with_member, Json, Tree};
use crate::paths::{locations_of, Location, LocationView};
use crate::recovery::engine::{Simulation, TaskState};
use crate::text::{
    blank, byte_len, copied, decimal, decimal_text, holds, is_blank, joined, occurs, opt, same, starts_with, strip, utf8_len,
};
use crate::time::Span;
use vstd::prelude::*;

verus! {

broadcast use group_json;

// Harnesses.

/// The first enabled instance of this identity.
pub open spec fn instance(list: Seq<DefinitionView>, id: Seq<char>) -> Option<int> {
    earliest(list.len(), |i: int| if list[i].id == id && list[i].enabled { Some(i) } else { None })
}

pub fn definition<'a>(list: &'a Vec<HarnessDefinition>, id: &str) -> (r: Result<&'a HarnessDefinition, ApiError>)
    ensures
        match (r, instance(definitions_of(list@), id@)) {
            (Ok(h), Some(i)) => 0 <= i < list.len() && *h == list@[i],
            (Err(e), None) => e@ == unavailable("Harness is not configured or enabled"@),
            _ => false,
        },
{
    let ghost all = definitions_of(list@);
    let ghost pick = |i: int| if all[i].id == id@ && all[i].enabled { Some(i) } else { None };
    let mut i: usize = 0;
    while i < list.len()
        invariant
            i <= list.len(),
            all == definitions_of(list@),
            pick == |i: int| if all[i].id == id@ && all[i].enabled { Some(i) } else { None },
            earliest(i as nat, pick) is None,
        decreases list.len() - i,
    {
        assert(all[i as int] == list@[i as int]@);
        if same(&list[i].id, id) && list[i].enabled {
            proof {
                assert(pick(i as int) == Some(i as int));
                earliest_sticks((i + 1) as nat, all.len(), pick);
            }
            return Ok(&list[i]);
        }
        i = i + 1;
    }
    Err(ApiError::unavailable("Harness is not configured or enabled"))
}

/// The first root of this text.
pub open spec fn root_at(roots: Seq<LocationView>, text: Seq<char>) -> Option<int> {
    earliest(roots.len(), |i: int| if roots[i].text == text { Some(i) } else { None })
}

pub fn workspace<'a>(h: &'a HarnessDefinition, name: &str) -> (r: Result<&'a Location, ApiError>)
    ensures
        match (r, root_at(h@.workspace_roots, name@)) {
            (Ok(l), Some(i)) => 0 <= i < h.workspace_roots.len() && *l == h.workspace_roots@[i],
            (Err(e), None) => e@ == bad_request("workspace is not registered for this Harness"@),
            _ => false,
        },
{
    let roots = &h.workspace_roots;
    let ghost all = locations_of(roots@);
    let ghost pick = |i: int| if all[i].text == name@ { Some(i) } else { None };
    let mut i: usize = 0;
    while i < roots.len()
        invariant
            i <= roots.len(),
            *roots == h.workspace_roots,
            all == locations_of(roots@),
            all == h@.workspace_roots,
            pick == |i: int| if all[i].text == name@ { Some(i) } else { None },
            earliest(i as nat, pick) is None,
        decreases roots.len() - i,
    {
        assert(all[i as int] == roots@[i as int]@);
        if same(&roots[i].text, name) {
            proof {
                assert(pick(i as int) == Some(i as int));
                earliest_sticks((i + 1) as nat, all.len(), pick);
            }
            return Ok(&roots[i]);
        }
        i = i + 1;
    }
    Err(ApiError::invalid("workspace is not registered for this Harness"))
}

/// The node that an address names.
pub open spec fn node_of(address: Seq<char>) -> Option<Seq<char>> {
    if starts_with(address, "node://"@) { Some(address.subrange("node://"@.len() as int, address.len() as int)) } else { None }
}

pub open spec fn list_made(address: Seq<char>, root: LocationView, workspace: Seq<char>) -> ListView {
    match node_of(address) {
        Some(node) => {
            let w = WorkspaceView { node_id: node, workspace_id: workspace };
            ListView {
                context_directory: referenced(resource(w)),
                remote_workspace: Some(w),
                timeout: default_timeout(),
                cancelled: false,
            }
        },
        None => ListView {
            context_directory: root,
            remote_workspace: None,
            timeout: default_timeout(),
            cancelled: false,
        },
    }
}

/// The request for a Harness's projects.
pub fn list_request(h: &HarnessDefinition, root: &Location, workspace: &str) -> (r: HarnessProjectListRequest)
    ensures
        r@ == list_made(h@.address, root@, workspace@),
{
    match strip(&h.address, "node://") {
        Some(node) => HarnessProjectListRequest::remote(node, copied(workspace)),
        None => HarnessProjectListRequest::new(root.clone()),
    }
}

pub open spec fn project_tree(id: Seq<char>, name: Seq<char>, roots: Seq<LocationView>) -> Tree {
    let a = with_member(empty_object(), "id"@, Tree::Text(id));
    let b = with_member(a, "name"@, Tree::Text(name));
    with_member(b, "roots"@, paths_tree(roots))
}

/// A project as a list shows it.
pub fn project_value(p: &HarnessProject) -> (r: Json)
    ensures
        r@ == project_tree(p.id@, p.name@, locations_of(p.roots@)),
{
    let a = with(object(), "id", text_value(&p.id));
    let b = with(a, "name", text_value(&p.name));
    with(b, "roots", paths_json(&p.roots))
}

pub struct HarnessInput {
    pub operation_id: String,
    pub workspace_id: String,
    pub prompt: String,
    pub visibility: String,
    pub project_id: Option<String>,
    pub model: Option<String>,
    pub timeout_secs: u64,
}

pub open spec fn run_fault(prompt: Seq<char>, timeout: u64, visibility: Seq<char>) -> Option<Refusal> {
    if is_blank(prompt) || byte_len(prompt) > 65536 || timeout < 1 || timeout > 1800 {
        Some(bad_request("invalid prompt or timeout"@))
    } else if visibility != "hidden"@ && visibility != "client"@ {
        Some(bad_request("visibility must be hidden or client"@))
    } else {
        None
    }
}

/// The conversation that an accepted request asks for.
pub open spec fn run_made(address: Seq<char>, root: LocationView, id: Seq<char>, i: HarnessInput) -> RunView {
    let base = match node_of(address) {
        Some(node) => {
            let w = WorkspaceView { node_id: node, workspace_id: i.workspace_id@ };
            RunView { remote_workspace: Some(w), ..run_new(referenced(resource(w)), i.prompt@, default_timeout()) }
        },
        None => run_new(root, i.prompt@, default_timeout()),
    };
    RunView {
        visibility: if i.visibility@ == "hidden"@ { ConversationVisibility::Hidden } else { ConversationVisibility::Client },
        timeout: Span { secs: i.timeout_secs, nanos: 0 },
        placement: match i.project_id {
            Some(p) => PlacementView::ExistingProject { harness_id: id, project_id: p@ },
            None => base.placement,
        },
        model: match i.model {
            Some(m) => Some(m@),
            None => base.model,
        },
        ..base
    }
}

pub fn run_request(h: &HarnessDefinition, root: &Location, input: &HarnessInput) -> (r: Result<HarnessRunRequest, ApiError>)
    ensures
        match r {
            Ok(q) => run_fault(input.prompt@, input.timeout_secs, input.visibility@) is None && q@ == run_made(
                h@.address,
                root@,
                h@.id,
                *input,
            ),
            Err(e) => run_fault(input.prompt@, input.timeout_secs, input.visibility@) == Some(e@),
        },
{
    if blank(&input.prompt) || utf8_len(&input.prompt) > 65536 || input.timeout_secs < 1 || input.timeout_secs > 1800 {
        return Err(ApiError::invalid("invalid prompt or timeout"));
    }
    let request = match strip(&h.address, "node://") {
        Some(node) => HarnessRunRequest::remote(node, input.workspace_id.clone(), input.prompt.clone()),
        None => HarnessRunRequest::new(root.clone(), input.prompt.clone()),
    };
    let visibility = if same(&input.visibility, "hidden") {
        ConversationVisibility::Hidden
    } else if same(&input.visibility, "client") {
        ConversationVisibility::Client
    } else {
        return Err(ApiError::invalid("visibility must be hidden or client"));
    };
    let request = request.with_visibility(visibility).with_timeout(Span { secs: input.timeout_secs, nanos: 0 });
    let request = match &input.project_id {
        Some(p) => request.with_placement(
            ConversationPlacement::ExistingProject { harness_id: h.id.clone(), project_id: p.clone() },
        ),
        None => request,
    };
    Ok(
        match &input.model {
            Some(m) => request.with_model(m.clone()),
            None => request,
        },
    )
}

pub open spec fn harness_context(id: Seq<char>, workspace: Seq<char>) -> Tree {
    with_member(with_member(empty_object(), "harnessId"@, Tree::Text(id)), "workspaceId"@, Tree::Text(workspace))
}

pub fn harness_context_json(id: &str, workspace: &str) -> (r: Json)
    ensures
        r@ == harness_context(id@, workspace@),
{
    with(with(object(), "harnessId", text_value(id)), "workspaceId", text_value(workspace))
}

/// What a finished conversation is recorded as. Business health is never claimed.
pub open spec fn run_tree(x: ResultView) -> Tree {
    let a = with_member(empty_object(), "status"@, Tree::Text("completed"@));
    let b = with_member(a, "harness_id"@, Tree::Text(x.harness_id));
    let c = with_member(b, "adapter"@, Tree::Text(x.adapter));
    let d = with_member(c, "address"@, Tree::Text(x.address));
    let e = with_member(d, "session_id"@, Tree::Text(x.session_id));
    let f = with_member(e, "thread_id"@, Tree::Text(x.thread_id));
    let g = with_member(f, "cwd"@, Tree::Text(x.project_directory.text));
    let h = with_member(g, "visibility"@, Tree::Text(visibility_text(x.visibility)));
    let i = with_member(h, "final_response"@, Tree::Text(x.final_response));
    let j = with_member(i, "native_project_id"@, text_or_null(x.native_project_id));
    let k = with_member(j, "client_project_grouping"@, grouping_tree(x.client_project_grouping));
    with_member(k, "business_verified"@, Tree::Bool(false))
}

pub fn run_value(x: &HarnessRunResult) -> (r: Json)
    ensures
        r@ == run_tree(x@),
{
    let a = with(object(), "status", text_value("completed"));
    let b = with(a, "harness_id", text_value(&x.harness_id));
    let c = with(b, "adapter", text_value(&x.adapter));
    let d = with(c, "address", text_value(&x.address));
    let e = with(d, "session_id", text_value(&x.session_id));
    let f = with(e, "thread_id", text_value(&x.thread_id));
    let g = with(f, "cwd", text_value(&x.project_directory.text));
    let h = with(g, "visibility", text_value(visibility_name(x.visibility)));
    let i = with(h, "final_response", text_value(&x.final_response));
    let j = with(i, "native_project_id", opt_json(&x.native_project_id));
    let k = with(j, "client_project_grouping", grouping_json(&x.client_project_grouping));
    with(k, "business_verified", Json::Bool(false))
}

pub open spec fn accepted_tree(id: Seq<char>) -> Tree {
    with_member(with_member(empty_object(), "operation_id"@, Tree::Text(id)), "auto_retry"@, Tree::Bool(false))
}

/// What an accepted operation is answered: where to ask for its result.
pub fn accepted(id: &str) -> (r: Json)
    ensures
        r@ == accepted_tree(id@),
{
    with(with(object(), "operation_id", text_value(id)), "auto_retry", Json::Bool(false))
}

// Repairs.

/// Why a repair is not started; `recorded` says that approvals of its task exist.
pub open spec fn repair_fault(task: Seq<char>, prompt: Seq<char>, recorded: bool) -> Option<Refusal> {
    if !is_id(task) || is_blank(prompt) || byte_len(prompt) > 8192 {
        Some(bad_request("invalid repair task or prompt"@))
    } else if recorded {
        Some(
            conflicting(
                "repair task_id already has persistent approvals; inspect its existing requests instead of starting another run"@,
            ),
        )
    } else {
        None
    }
}

pub fn check_repair(task: &str, prompt: &str, recorded: bool) -> (r: Result<(), ApiError>)
    ensures
        reports(r, repair_fault(task@, prompt@, recorded)),
{
    if !valid_id(task) || blank(prompt) || utf8_len(prompt) > 8192 {
        return Err(ApiError::invalid("invalid repair task or prompt"));
    }
    if recorded {
        return Err(
            ApiError::conflict(
                "repair task_id already has persistent approvals; inspect its existing requests instead of starting another run",
            ),
        );
    }
    Ok(())
}

pub open spec fn repair_context(task: Seq<char>, target: Option<Seq<char>>, source: Option<Tree>) -> Tree {
    let a = with_member(empty_object(), "taskId"@, Tree::Text(task));
    let b = with_member(a, "target"@, text_or_null(target));
    with_member(
        b,
        "sourceIncident"@,
        match source {
            Some(s) => s,
            None => Tree::Null,
        },
    )
}

pub fn repair_context_json(task: &str, target: &Option<String>, source: Option<Json>) -> (r: Json)
    ensures
        r@ == repair_context(task@, opt(*target), super::journal::opt_tree(source)),
{
    let a = with(object(), "taskId", text_value(task));
    let b = with(a, "target", opt_json(target));
    with(
        b,
        "sourceIncident",
        match source {
            Some(s) => s,
            None => Json::Null,
        },
    )
}

// Approvals.

#[derive(Debug, Clone, Copy, PartialEq, Eq, Structural)]
pub enum ApprovalAction {
    Approve,
    Deny,
    Revoke,
    Apply,
    Reconcile,
}

pub open spec fn action_named(name: Seq<char>) -> Option<ApprovalAction> {
    if name == "approve"@ {
        Some(ApprovalAction::Approve)
    } else if name == "deny"@ {
        Some(ApprovalAction::Deny)
    } else if name == "revoke"@ {
        Some(ApprovalAction::Revoke)
    } else if name == "apply"@ {
        Some(ApprovalAction::Apply)
    } else if name == "reconcile"@ {
        Some(ApprovalAction::Reconcile)
    } else {
        None
    }
}

pub fn action(name: &str) -> (r: Option<ApprovalAction>)
    ensures
        r == action_named(name@),
{
    if same(name, "approve") {
        Some(ApprovalAction::Approve)
    } else if same(name, "deny") {
        Some(ApprovalAction::Deny)
    } else if same(name, "revoke") {
        Some(ApprovalAction::Revoke)
    } else if same(name, "apply") {
        Some(ApprovalAction::Apply)
    } else if same(name, "reconcile") {
        Some(ApprovalAction::Reconcile)
    } else {
        None
    }
}

/// The permission that an action on an approval needs.
pub open spec fn permission_of(name: Seq<char>) -> Seq<char> {
    if name == "apply"@ {
        "approval.apply"@
    } else if name == "reconcile"@ {
        "approval.reconcile"@
    } else {
        "approval.decide"@
    }
}

pub fn permission_for(name: &str) -> (r: &'static str)
    ensures
        r@ == permission_of(name@),
{
    if same(name, "apply") {
        "approval.apply"
    } else if same(name, "reconcile") {
        "approval.reconcile"
    } else {
        "approval.decide"
    }
}

pub fn check_reason(reason: &str) -> (r: Result<(), ApiError>)
    ensures
        reports(
            r,
            if is_blank(reason@) || byte_len(reason@) > 4096 {
                Some(bad_request("bounded nonempty reason required"@))
            } else {
                None
            },
        ),
{
    if blank(reason) || utf8_len(reason) > 4096 {
        return Err(ApiError::invalid("bounded nonempty reason required"));
    }
    Ok(())
}

/// What a decision is answered, given the approval as it is encoded.
pub fn decided(record: Json) -> (r: Json)
    ensures
        r@ == with_member(
            with_member(with_member(empty_object(), "record"@, record@), "business_verified"@, Tree::Bool(false)),
            "auto_retry"@,
            Tree::Bool(false),
        ),
{
    with(
        with(with(object(), "record", record), "business_verified", Json::Bool(false)),
        "auto_retry",
        Json::Bool(false),
    )
}

// Simulations.

pub open spec fn scenario_named(name: Seq<char>) -> Option<Simulation> {
    if name == "succeed"@ {
        Some(Simulation::Succeed)
    } else if name == "fail"@ {
        Some(Simulation::Fail)
    } else if name == "hang"@ {
        Some(Simulation::Hang)
    } else if name == "exit"@ {
        Some(Simulation::Exit)
    } else if name == "verification_failed"@ {
        Some(Simulation::VerificationFailed)
    } else {
        None
    }
}

pub open spec fn simulated(scenario: Seq<char>, task: Seq<char>, target: Seq<char>, millis: u64) -> Result<Simulation, Refusal> {
    match scenario_named(scenario) {
        None => Err(bad_request("unknown closed simulation scenario"@)),
        Some(s) => if !is_id(task) || !is_id(target) || millis < 1 || millis > 60000 {
            Err(bad_request("invalid simulation input"@))
        } else {
            Ok(s)
        },
    }
}

/// The simulation that an accepted request asks for: one of a closed set.
pub fn simulation(scenario: &str, task: &str, target: &str, millis: u64) -> (r: Result<Simulation, ApiError>)
    ensures
        match r {
            Ok(s) => simulated(scenario@, task@, target@, millis) == Ok::<Simulation, Refusal>(s),
            Err(e) => simulated(scenario@, task@, target@, millis) == Err::<Simulation, Refusal>(e@),
        },
{
    let s = if same(scenario, "succeed") {
        Simulation::Succeed
    } else if same(scenario, "fail") {
        Simulation::Fail
    } else if same(scenario, "hang") {
        Simulation::Hang
    } else if same(scenario, "exit") {
        Simulation::Exit
    } else if same(scenario, "verification_failed") {
        Simulation::VerificationFailed
    } else {
        return Err(ApiError::invalid("unknown closed simulation scenario"));
    };
    if !valid_id(task) || !valid_id(target) || millis < 1 || millis > 60000 {
        return Err(ApiError::invalid("invalid simulation input"));
    }
    Ok(s)
}

pub open spec fn simulation_context(task: Seq<char>, target: Seq<char>, scenario: Seq<char>) -> Tree {
    let a = with_member(empty_object(), "taskId"@, Tree::Text(task));
    let b = with_member(a, "target"@, Tree::Text(target));
    with_member(b, "scenario"@, Tree::Text(scenario))
}

pub fn simulation_context_json(task: &str, target: &str, scenario: &str) -> (r: Json)
    ensures
        r@ == simulation_context(task@, target@, scenario@),
{
    let a = with(object(), "taskId", text_value(task));
    let b = with(a, "target", text_value(target));
    with(b, "scenario", text_value(scenario))
}

/// How a simulation that came to an end is recorded.
pub fn simulation_status(state: TaskState) -> (r: &'static str)
    ensures
        r@ == (match state {
            TaskState::Unknown => "unknown"@,
            TaskState::Canceled => "canceled"@,
            _ => "completed"@,
        }),
{
    match state {
        TaskState::Unknown => "unknown",
        TaskState::Canceled => "canceled",
        _ => "completed",
    }
}

// Events.

pub struct LogsQuery {
    pub level: Option<String>,
    pub source: Option<String>,
    pub task_id: Option<String>,
    pub operation_id: Option<String>,
    pub query: Option<String>,
    pub cursor: Option<usize>,
    pub limit: Option<usize>,
}

pub struct LogsView {
    pub level: Option<Seq<char>>,
    pub source: Option<Seq<char>>,
    pub task_id: Option<Seq<char>>,
    pub operation_id: Option<Seq<char>>,
    pub query: Option<Seq<char>>,
    pub cursor: Option<usize>,
    pub limit: Option<usize>,
}

impl View for LogsQuery {
    type V = LogsView;

    open spec fn view(&self) -> LogsView {
        LogsView {
            level: opt(self.level),
            source: opt(self.source),
            task_id: opt(self.task_id),
            operation_id: opt(self.operation_id),
            query: opt(self.query),
            cursor: self.cursor,
            limit: self.limit,
        }
    }
}

pub open spec fn level_of(o: ReceiptView) -> Seq<char> {
    if o.status == "unknown"@ || o.status == "failed"@ { "error"@ } else { "info"@ }
}

pub open spec fn message_of(o: ReceiptView) -> Seq<char> {
    match o.error {
        Some(m) => m,
        None => o.kind + " "@ + o.status,
    }
}

/// Whether a query asks for an event.
pub open spec fn event_matches(o: ReceiptView, q: LogsView) -> bool {
    &&& q.level is Some ==> q.level->0 == level_of(o)
    &&& q.source is Some ==> q.source->0 == o.kind
    &&& q.operation_id is Some ==> q.operation_id->0 == o.id
    &&& q.task_id is Some ==> text_in(o.context, "taskId"@) == Some(q.task_id->0)
    &&& q.query is Some ==> occurs(message_of(o), q.query->0)
}

pub open spec fn event_tree(o: ReceiptView, index: nat) -> Tree {
    let a = with_member(empty_object(), "id"@, Tree::Text("event-"@ + decimal(index)));
    let b = with_member(a, "timestamp"@, Tree::Unsigned(o.updated_at));
    let c = with_member(b, "level"@, Tree::Text(level_of(o)));
    let d = with_member(c, "source"@, Tree::Text(o.kind));
    let e = with_member(d, "taskId"@, value_in(o.context, "taskId"@));
    let f = with_member(e, "operationId"@, Tree::Text(o.id));
    with_member(f, "message"@, Tree::Text(message_of(o)))
}

/// The newest events before `start`, at most `room` of them, and where the next page begins.
pub open spec fn rows(events: Seq<ReceiptView>, start: nat, q: LogsView, room: nat) -> (Seq<Tree>, Option<nat>)
    decreases start,
{
    if start == 0 {
        (Seq::empty(), None)
    } else {
        let at = (start - 1) as nat;
        if !event_matches(events[at as int], q) {
            rows(events, at, q, room)
        } else if room <= 1 {
            (seq![event_tree(events[at as int], at)], Some(at))
        } else {
            let rest = rows(events, at, q, (room - 1) as nat);
            (seq![event_tree(events[at as int], at)] + rest.0, rest.1)
        }
    }
}

pub open spec fn logs_start(count: nat, q: LogsView) -> nat {
    match q.cursor {
        Some(c) => if (c as nat) < count { c as nat } else { count },
        None => count,
    }
}

pub open spec fn logs_limit(q: LogsView) -> nat {
    match q.limit {
        None => 50,
        Some(n) => if n < 1 {
            1
        } else if n > 200 {
            200
        } else {
            n as nat
        },
    }
}

pub open spec fn logs_tree(events: Seq<ReceiptView>, q: LogsView) -> Tree {
    let found = rows(events, logs_start(events.len(), q), q, logs_limit(q));
    let a = with_member(empty_object(), "items"@, Tree::Array(found.0));
    with_member(
        a,
        "next_cursor"@,
        match found.1 {
            Some(n) => Tree::Unsigned(n as u64),
            None => Tree::Null,
        },
    )
}

fn is_wanted(filter: &Option<String>, value: &str) -> (r: bool)
    ensures
        r == (opt(*filter) is Some ==> opt(*filter)->0 == value@),
{
    match filter {
        None => true,
        Some(f) => same(f, value),
    }
}

/// Shows the newest events that a query asks for.
pub fn logs(events: &Vec<Operation>, q: &LogsQuery) -> (r: Json)
    ensures
        r@ == logs_tree(receipts_of(events@), q@),
{
    let ghost all = receipts_of(events@);
    let start: usize = match q.cursor {
        Some(c) => if c < events.len() { c } else { events.len() },
        None => events.len(),
    };
    let limit: usize = match q.limit {
        None => 50,
        Some(n) => if n < 1 {
            1
        } else if n > 200 {
            200
        } else {
            n
        },
    };
    let mut found: Vec<Json> = Vec::new();
    let mut next: Option<usize> = None;
    let mut i: usize = start;
    let ghost want = rows(all, start as nat, q@, limit as nat);
    assert(trees(found@) =~= Seq::<Tree>::empty());
    assert(want.0 =~= trees(found@) + rows(all, i as nat, q@, limit as nat).0);
    while i > 0 && next.is_none()
        invariant
            i <= events.len(),
            all == receipts_of(events@),
            found.len() <= limit,
            next is None ==> found.len() < limit && want.0 == trees(found@) + rows(
                all,
                i as nat,
                q@,
                (limit - found.len()) as nat,
            ).0 && want.1 == rows(all, i as nat, q@, (limit - found.len()) as nat).1,
            next is Some ==> want.0 == trees(found@) && want.1 == Some(next->0 as nat),
        decreases i,
    {
        i = i - 1;
        let o = &events[i];
        assert(all[i as int] == o@);
        let level = if same(&o.status, "unknown") || same(&o.status, "failed") { "error" } else { "info" };
        let message = match &o.error {
            Some(m) => m.clone(),
            None => {
                let mut m = joined(&o.kind, " ");
                m.append(o.status.as_str());
                m
            },
        };
        let task = match &q.task_id {
            None => true,
            Some(t) => match text_under(&o.context, "taskId") {
                Some(own) => same(own, t),
                None => false,
            },
        };
        let text = match &q.query {
            None => true,
            Some(t) => holds(&message, t),
        };
        if is_wanted(&q.level, level) && is_wanted(&q.source, &o.kind) && is_wanted(&q.operation_id, &o.id) && task && text {
            let ghost had = trees(found@);
            let a = with(object(), "id", text_value(&joined("event-", &decimal_text(i as u64))));
            let b = with(a, "timestamp", Json::Unsigned(o.updated_at));
            let c = with(b, "level", text_value(level));
            let d = with(c, "source", text_value(&o.kind));
            let e = with(d, "taskId", value_under(&o.context, "taskId"));
            let f = with(e, "operationId", text_value(&o.id));
            let row = with(f, "message", text_value(&message));
            assert(row@ == event_tree(o@, i as nat));
            let ghost room = (limit - found.len()) as nat;
            let ghost shown = row@;
            found.push(row);
            assert(trees(found@) =~= had.push(shown));
            if found.len() == limit {
                next = Some(i);
                assert(want.0 =~= had + seq![shown]);
                assert(want.0 =~= trees(found@));
            } else {
                let ghost rest = rows(all, i as nat, q@, (room - 1) as nat);
                assert(had + (seq![shown] + rest.0) =~= trees(found@) + rest.0);
            }
        }
    }
    proof {
        if next is None {
            assert(want.0 =~= trees(found@));
        }
    }
    let a = with(object(), "items", Json::Array(found));
    let cursor = match next {
        Some(n) => Json::Unsigned(n as u64),
        None => Json::Null,
    };
    with(a, "next_cursor", cursor)
}

} // verus!
