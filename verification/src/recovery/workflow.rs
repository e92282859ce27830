//! A bounded host-tool workflow with delegated, durable action approval.
pub mod laws;
pub mod tools;

use super::approval::store::{
    appended, guarded, planned_change, ApprovalStore, Step, StepView, StoreView,
};
use super::approval::transitions::unsettled;
use super::approval::{
    policy_fault, same_operation, ApprovalDecision, ApprovalError, ApprovalPolicy, ApprovalRecord, ApprovalState, AssessmentView,
    ChangeView, ExecutionOutcome, OperationView, PolicyView, ProposedOperation, RecordView, SourceView,
};
use crate::actions::{ActionError, ActionReceipt, ScopedFiles, TextEdit};
use crate::faults::either;
use crate::harnesses::registry::HarnessRunResult;
use crate::harnesses::remote::{workspace_of, RemoteWorkspace, WorkspaceView};
use crate::harnesses::requests::{default_timeout, run_new, HarnessRunRequest, RunView};
use crate::harnesses::{ConversationVisibility, HarnessError};
use crate::json::values::{text_value, texts_json, texts_tree};
use crate::json::{encoded, fields_of, group_json, member, Json, Tree};
use crate::paths::{is_under, under, Location, LocationView};
use crate::protocol::{is_id, valid_id};
use crate::text::{
    blank, byte_len, controlled, copied, has_control, is_blank, joined, listed, lower, lowered, opt, same, texts, utf8_len,
};
use crate::time::Span;
use vstd::prelude::*;

verus! {

broadcast use group_json;

pub struct RepairConfig {
    pub schema_version: u32,
    pub harness_config: String,
    pub extensions_config: Option<String>,
    pub execution_workspace: Option<RemoteWorkspace>,
    pub reviewer_workspace: Option<RemoteWorkspace>,
    pub execution_harness: String,
    pub target_id: String,
    pub target_root: String,
    pub reviewer_directory: String,
    pub data_dir: String,
    pub allowed_files: Vec<String>,
    pub policy: ApprovalPolicy,
    pub timeout_secs: u64,
    pub max_tool_calls: usize,
}

pub struct ConfigView {
    pub schema_version: u32,
    pub harness_config: Seq<char>,
    pub extensions_config: Option<Seq<char>>,
    pub execution_workspace: Option<WorkspaceView>,
    pub reviewer_workspace: Option<WorkspaceView>,
    pub execution_harness: Seq<char>,
    pub target_id: Seq<char>,
    pub target_root: Seq<char>,
    pub reviewer_directory: Seq<char>,
    pub data_dir: Seq<char>,
    pub allowed_files: Seq<Seq<char>>,
    pub policy: PolicyView,
    pub timeout_secs: u64,
    pub max_tool_calls: usize,
}

impl View for RepairConfig {
    type V = ConfigView;

    open spec fn view(&self) -> ConfigView {
        ConfigView {
            schema_version: self.schema_version,
            harness_config: self.harness_config@,
            extensions_config: opt(self.extensions_config),
            execution_workspace: workspace_of(self.execution_workspace),
            reviewer_workspace: workspace_of(self.reviewer_workspace),
            execution_harness: self.execution_harness@,
            target_id: self.target_id@,
            target_root: self.target_root@,
            reviewer_directory: self.reviewer_directory@,
            data_dir: self.data_dir@,
            allowed_files: texts(self.allowed_files@),
            policy: self.policy@,
            timeout_secs: self.timeout_secs,
            max_tool_calls: self.max_tool_calls,
        }
    }
}

/// Why a step of the workflow was refused. `Io` and `Json` carry the text of a failure
/// outside this library.
#[derive(Debug)]
pub enum WorkflowError {
    Invalid(String),
    OutcomeUnknown { request_id: String, message: String },
    Approval(ApprovalError),
    Action(ActionError),
    Harness(HarnessError),
    Io(String),
    Json(String),
}

pub enum Fault {
    Invalid(Seq<char>),
    OutcomeUnknown { request_id: Seq<char>, message: Seq<char> },
    Approval(super::approval::Fault),
    Action(crate::actions::Fault),
    Harness(crate::harnesses::Fault),
    Io(Seq<char>),
    Json(Seq<char>),
}

impl View for WorkflowError {
    type V = Fault;

    open spec fn view(&self) -> Fault {
        match self {
            WorkflowError::Invalid(m) => Fault::Invalid(m@),
            WorkflowError::OutcomeUnknown { request_id, message } => Fault::OutcomeUnknown {
                request_id: request_id@,
                message: message@,
            },
            WorkflowError::Approval(e) => Fault::Approval(e@),
            WorkflowError::Action(e) => Fault::Action(e@),
            WorkflowError::Harness(e) => Fault::Harness(e@),
            WorkflowError::Io(m) => Fault::Io(m@),
            WorkflowError::Json(m) => Fault::Json(m@),
        }
    }
}

/// The text shown for a failure.
pub open spec fn fault_message(fault: Fault) -> Seq<char> {
    match fault {
        Fault::Invalid(m) => m,
        Fault::OutcomeUnknown { request_id, message } => "operation "@ + request_id + " may have executed: "@ + message,
        Fault::Approval(f) => super::approval::fault_message(f),
        Fault::Action(f) => crate::actions::fault_message(f),
        Fault::Harness(f) => crate::harnesses::fault_message(f),
        Fault::Io(m) => m,
        Fault::Json(m) => m,
    }
}

impl WorkflowError {
    /// The text shown for this failure.
    pub fn message(&self) -> (r: String)
        ensures
            r@ == fault_message(self@),
    {
        match self {
            WorkflowError::Invalid(m) => m.clone(),
            WorkflowError::OutcomeUnknown { request_id, message } => {
                let mut r = joined("operation ", request_id);
                r.append(" may have executed: ");
                r.append(message.as_str());
                r
            },
            WorkflowError::Approval(e) => e.message(),
            WorkflowError::Action(e) => e.message(),
            WorkflowError::Harness(e) => e.message(),
            WorkflowError::Io(m) => m.clone(),
            WorkflowError::Json(m) => m.clone(),
        }
    }
}

pub open spec fn invalid(message: Seq<char>) -> Fault {
    Fault::Invalid(message)
}

pub(crate) fn refuse(message: &str) -> (e: WorkflowError)
    ensures
        e@ == invalid(message@),
{
    WorkflowError::Invalid(copied(message))
}

pub open spec fn reports(r: Result<(), WorkflowError>, fault: Option<Fault>) -> bool {
    match r {
        Ok(_) => fault is None,
        Err(e) => fault == Some(e@),
    }
}

/// The bounded workflow outcome, independent of CLI or HTTP presentation.
#[derive(Debug, Clone, Copy, PartialEq, Eq, Structural)]
pub enum RepairStatus {
    Unknown,
    WaitingHuman,
    Blocked,
    Canceled,
    Failed,
    Completed,
}

#[derive(Debug)]
pub struct RepairExecutionContext {
    pub harness_id: String,
    pub thread_id: String,
    pub session_id: String,
}

/// File-workflow facts. A completed turn does not establish business health.
pub struct RepairResult {
    pub status: RepairStatus,
    pub task_id: String,
    pub final_response: Option<String>,
    pub harness_error: Option<HarnessError>,
    pub operations: Vec<ApprovalRecord>,
    pub execution_context: Option<RepairExecutionContext>,
}

// Configuration.

pub open spec fn workspace_valid(w: Option<WorkspaceView>) -> bool {
    w is Some ==> is_id(w->0.node_id) && is_id(w->0.workspace_id)
}

/// The limits and the delegated target of a configuration hold together.
pub open spec fn delegated(c: ConfigView) -> bool {
    &&& c.schema_version == 1
    &&& 1 <= c.timeout_secs <= 1800
    &&& 1 <= c.max_tool_calls <= 64
    &&& c.target_id.len() > 0 && byte_len(c.target_id) <= 128 && !has_control(c.target_id)
    &&& c.execution_harness.len() > 0
    &&& c.policy.allowed_targets.contains(c.target_id)
    &&& c.policy.allowed_action_kinds.contains("replace_text"@)
}

/// The first rule that a configuration breaks.
pub open spec fn config_fault(c: ConfigView) -> Option<Fault> {
    if policy_fault(c.policy) is Some {
        Some(Fault::Approval(policy_fault(c.policy)->0))
    } else if !workspace_valid(c.execution_workspace) || !workspace_valid(c.reviewer_workspace) {
        Some(invalid("invalid node or model workspace identifier"@))
    } else if !delegated(c) {
        Some(invalid("invalid repair configuration or delegated target"@))
    } else {
        None
    }
}

fn workspace_ok(w: &Option<RemoteWorkspace>) -> (r: bool)
    ensures
        r == workspace_valid(workspace_of(*w)),
{
    match w {
        None => true,
        Some(w) => valid_id(&w.node_id) && valid_id(&w.workspace_id),
    }
}

impl RepairConfig {
    pub fn validate(&self) -> (r: Result<(), WorkflowError>)
        ensures
            reports(r, config_fault(self@)),
    {
        if let Err(e) = self.policy.validate() {
            return Err(WorkflowError::Approval(e));
        }
        if !workspace_ok(&self.execution_workspace) || !workspace_ok(&self.reviewer_workspace) {
            return Err(refuse("invalid node or model workspace identifier"));
        }
        if self.schema_version != 1 || self.timeout_secs < 1 || self.timeout_secs > 1800 || self.max_tool_calls < 1
            || self.max_tool_calls > 64 || self.target_id.as_str().is_empty() || utf8_len(&self.target_id) > 128 || controlled(
            &self.target_id,
        ) || self.execution_harness.as_str().is_empty() || !listed(&self.policy.allowed_targets, &self.target_id) || !listed(
            &self.policy.allowed_action_kinds,
            "replace_text",
        ) {
            return Err(refuse("invalid repair configuration or delegated target"));
        }
        Ok(())
    }
}

/// Seconds since the epoch, from what the clock says.
pub fn now(since_epoch: Option<Span>) -> (r: Result<u64, WorkflowError>)
    ensures
        match r {
            Ok(secs) => since_epoch is Some && secs == since_epoch->0.secs,
            Err(e) => since_epoch is None && e@ == invalid("clock precedes epoch"@),
        },
{
    match since_epoch {
        Some(s) => Ok(s.secs),
        None => Err(refuse("clock precedes epoch")),
    }
}

// Records.

/// Why a step on a record is refused before it is looked at.
pub open spec fn revision_fault(s: StoreView, id: Seq<char>, revision: Option<u64>) -> Option<super::approval::Fault> {
    if !s.records.contains_key(id) {
        Some(super::approval::Fault::NotFound)
    } else if revision is Some && revision->0 != s.records[id].revision {
        Some(super::approval::Fault::Conflict)
    } else {
        None
    }
}

pub fn check_revision(store: &ApprovalStore, id: &str, revision: Option<u64>) -> (r: Result<(), ApprovalError>)
    requires
        store.wf(),
    ensures
        match r {
            Ok(_) => revision_fault(store@, id@, revision) is None,
            Err(e) => revision_fault(store@, id@, revision) == Some(e@),
        },
{
    match store.get(id) {
        None => Err(ApprovalError::NotFound),
        Some(record) => {
            if let Some(expected) = revision {
                if expected != record.revision {
                    return Err(ApprovalError::Conflict);
                }
            }
            Ok(())
        },
    }
}

/// The operation is on this root, whatever the case of its letters.
pub open spec fn on_root(o: OperationView, root: Seq<char>) -> bool {
    match member(o.action, "target_root"@) {
        Some(Tree::Text(stored)) => lowered(stored) == lowered(root),
        _ => false,
    }
}

pub fn same_root(operation: &ProposedOperation, root: &str) -> (r: bool)
    ensures
        r == on_root(operation@, root@),
{
    match operation.action.get("target_root") {
        Some(Json::Text(stored)) => {
            let a = lower(stored);
            let b = lower(root);
            same(&a, &b)
        },
        _ => false,
    }
}

/// A record whose effect on the root is not settled.
pub open spec fn occupies(r: RecordView, root: Seq<char>) -> bool {
    on_root(r.request.operation, root) && unsettled(r.state)
}

/// Some operation on the root is executing or of unknown outcome.
pub open spec fn busy(records: Seq<RecordView>, root: Seq<char>) -> bool {
    exists|i: int| 0 <= i < records.len() && occupies(#[trigger] records[i], root)
}

pub open spec fn task_known(records: Seq<RecordView>, task: Seq<char>) -> bool {
    exists|i: int| 0 <= i < records.len() && (#[trigger] records[i]).request.operation.task_id == task
}

/// The records of a task, in their order.
pub open spec fn of_task(records: Seq<RecordView>, task: Seq<char>) -> Seq<RecordView>
    decreases records.len(),
{
    if records.len() == 0 {
        Seq::empty()
    } else {
        let front = of_task(records.drop_last(), task);
        if records.last().request.operation.task_id == task { front.push(records.last()) } else { front }
    }
}

pub open spec fn list_view(list: Seq<ApprovalRecord>) -> Seq<RecordView> {
    list.map_values(|x: ApprovalRecord| x@)
}

fn root_busy(list: &Vec<ApprovalRecord>, root: &str) -> (r: bool)
    ensures
        r == busy(list_view(list@), root@),
{
    let ghost all = list_view(list@);
    let mut i: usize = 0;
    while i < list.len()
        invariant
            i <= list.len(),
            all == list_view(list@),
            forall|j: int| 0 <= j < i ==> !occupies(#[trigger] all[j], root@),
        decreases list.len() - i,
    {
        assert(all[i as int] == list@[i as int]@);
        let open = list[i].state == ApprovalState::Executing || list[i].state == ApprovalState::Unknown;
        if open && same_root(&list[i].request.operation, root) {
            return true;
        }
        i = i + 1;
    }
    false
}

fn task_recorded(list: &Vec<ApprovalRecord>, task: &str) -> (r: bool)
    ensures
        r == task_known(list_view(list@), task@),
{
    let ghost all = list_view(list@);
    let mut i: usize = 0;
    while i < list.len()
        invariant
            i <= list.len(),
            all == list_view(list@),
            forall|j: int| 0 <= j < i ==> (#[trigger] all[j]).request.operation.task_id != task@,
        decreases list.len() - i,
    {
        assert(all[i as int] == list@[i as int]@);
        if same(&list[i].request.operation.task_id, task) {
            return true;
        }
        i = i + 1;
    }
    false
}

fn select_task(list: &Vec<ApprovalRecord>, task: &str) -> (r: Vec<ApprovalRecord>)
    ensures
        list_view(r@) == of_task(list_view(list@), task@),
{
    let ghost all = list_view(list@);
    let mut r: Vec<ApprovalRecord> = Vec::new();
    let mut i: usize = 0;
    assert(all.subrange(0, 0) =~= Seq::<RecordView>::empty());
    assert(list_view(r@) =~= Seq::<RecordView>::empty());
    while i < list.len()
        invariant
            i <= list.len(),
            all == list_view(list@),
            list_view(r@) == of_task(all.subrange(0, i as int), task@),
        decreases list.len() - i,
    {
        assert(all[i as int] == list@[i as int]@);
        assert(all.subrange(0, i + 1).drop_last() =~= all.subrange(0, i as int));
        assert(all.subrange(0, i + 1).last() == all[i as int]);
        if same(&list[i].request.operation.task_id, task) {
            let ghost before = list_view(r@);
            r.push(list[i].clone());
            assert(list_view(r@) =~= before.push(all[i as int]));
        }
        i = i + 1;
    }
    assert(all.subrange(0, i as int) =~= all);
    r
}

// Stored edits.

pub open spec fn is_context(key: Seq<char>) -> bool {
    key == "kind"@ || key == "target_root"@ || key == "user_request"@ || key == "execution_context"@
}

/// The fields of an action without its context: the edit itself.
pub open spec fn edit_fields(fields: Seq<(Seq<char>, Tree)>) -> Seq<(Seq<char>, Tree)>
    decreases fields.len(),
{
    if fields.len() == 0 {
        Seq::empty()
    } else {
        let front = edit_fields(fields.drop_last());
        if is_context(fields.last().0) { front } else { front.push(fields.last()) }
    }
}

/// The edit that an action stores, to be decoded by the caller.
pub fn decode_stored_edit(action: &Json) -> (r: Result<Json, WorkflowError>)
    ensures
        match r {
            Ok(v) => action@ is Object && v@ == Tree::Object(edit_fields(action@->Object_0)),
            Err(e) => !(action@ is Object) && e@ == invalid("invalid stored action"@),
        },
{
    match action {
        Json::Object(fields) => {
            let ghost all = fields_of(fields@);
            let mut kept: Vec<(String, Json)> = Vec::new();
            let mut i: usize = 0;
            assert(all.subrange(0, 0) =~= Seq::<(Seq<char>, Tree)>::empty());
            assert(fields_of(kept@) =~= Seq::<(Seq<char>, Tree)>::empty());
            while i < fields.len()
                invariant
                    i <= fields.len(),
                    all == fields_of(fields@),
                    fields_of(kept@) == edit_fields(all.subrange(0, i as int)),
                decreases fields.len() - i,
            {
                let key = &fields[i].0;
                assert(all[i as int] == (key@, fields@[i as int].1@));
                assert(all.subrange(0, i + 1).drop_last() =~= all.subrange(0, i as int));
                assert(all.subrange(0, i + 1).last() == all[i as int]);
                if !(same(key, "kind") || same(key, "target_root") || same(key, "user_request") || same(
                    key,
                    "execution_context",
                )) {
                    let ghost before = kept@;
                    kept.push((key.clone(), fields[i].1.copy()));
                    assert(kept@.drop_last() =~= before);
                }
                i = i + 1;
            }
            assert(all.subrange(0, i as int) =~= all);
            Ok(Json::Object(kept))
        },
        _ => Err(refuse("invalid stored action")),
    }
}

/// What an execution amounts to and what is noted of it.
pub open spec fn noted(result: Result<(Seq<char>, nat, bool), crate::actions::Fault>) -> (ExecutionOutcome, Seq<char>) {
    match result {
        Ok((path, bytes, verified)) => (ExecutionOutcome::Executed, receipt_text(path, bytes, verified)),
        Err(crate::actions::Fault::Unknown(m)) => (ExecutionOutcome::Unknown, m),
        Err(f) => (ExecutionOutcome::Failed, crate::actions::fault_message(f)),
    }
}

/// A receipt as it is noted.
pub open spec fn receipt_text(path: Seq<char>, bytes: nat, verified: bool) -> Seq<char> {
    encoded(
        Tree::Object(
            seq![
                ("path"@, Tree::Text(path)),
                ("bytes_written"@, Tree::Unsigned(bytes as u64)),
                ("content_verified"@, Tree::Bool(verified)),
            ],
        ),
    )
}

pub open spec fn receipt_view(result: Result<ActionReceipt, ActionError>) -> Result<
    (Seq<char>, nat, bool),
    crate::actions::Fault,
> {
    match result {
        Ok(x) => Ok((x.path@, x.bytes_written as nat, x.content_verified)),
        Err(e) => Err(e@),
    }
}

/// Decides what is recorded of an execution.
pub fn execution_outcome(result: &Result<ActionReceipt, ActionError>) -> (r: (ExecutionOutcome, String))
    ensures
        (r.0, r.1@) == noted(receipt_view(*result)),
{
    match result {
        Ok(x) => {
            let mut fields: Vec<(String, Json)> = Vec::new();
            fields.push((copied("path"), text_value(&x.path)));
            fields.push((copied("bytes_written"), Json::Unsigned(x.bytes_written as u64)));
            fields.push((copied("content_verified"), Json::Bool(x.content_verified)));
            let ghost all = fields@;
            let value = Json::Object(fields);
            proof {
                assert(fields_of(all) =~= seq![
                    ("path"@, Tree::Text(x.path@)),
                    ("bytes_written"@, Tree::Unsigned(x.bytes_written as u64)),
                    ("content_verified"@, Tree::Bool(x.content_verified)),
                ]);
            }
            (ExecutionOutcome::Executed, value.render())
        },
        Err(ActionError::Unknown(m)) => (ExecutionOutcome::Unknown, m.clone()),
        Err(e) => (ExecutionOutcome::Failed, e.message()),
    }
}

/// What is recorded of an execution that was cancelled behind its intent.
pub fn canceled_outcome() -> (r: (ExecutionOutcome, String))
    ensures
        r.0 == ExecutionOutcome::Failed,
        r.1@ == "canceled after intent, before dispatch; no write performed"@,
{
    (ExecutionOutcome::Failed, copied("canceled after intent, before dispatch; no write performed"))
}

/// What a receipt that cannot be recorded means: the durable intent stays.
pub fn unrecorded(request_id: &str, message: String) -> (e: WorkflowError)
    ensures
        e@ == (Fault::OutcomeUnknown { request_id: request_id@, message: message@ }),
{
    WorkflowError::OutcomeUnknown { request_id: copied(request_id), message }
}

/// What the target's content says of an unknown outcome, if anything.
pub open spec fn content_says(expected: Seq<char>, replacement: Seq<char>, current: Seq<char>) -> Option<ExecutionOutcome> {
    if current == replacement {
        Some(ExecutionOutcome::Executed)
    } else if current == expected {
        Some(ExecutionOutcome::Failed)
    } else {
        None
    }
}

/// Resolves an unknown outcome by exact contents only.
pub fn reconciled(edit: &TextEdit, current: &str) -> (r: Result<ExecutionOutcome, WorkflowError>)
    ensures
        match r {
            Ok(o) => content_says(edit@.expected, edit@.replacement, current@) == Some(o),
            Err(e) => content_says(edit@.expected, edit@.replacement, current@) is None && e@ == invalid(
                "target matches neither approved baseline nor replacement; outcome remains unknown"@,
            ),
        },
{
    if same(current, &edit.replacement) {
        Ok(ExecutionOutcome::Executed)
    } else if same(current, &edit.expected) {
        Ok(ExecutionOutcome::Failed)
    } else {
        Err(refuse("target matches neither approved baseline nor replacement; outcome remains unknown"))
    }
}

// Sessions.

/// Trusted local service. Models only receive a restricted tool handler, never
/// this service, its policy, store access, or manual-decision methods.
/// `registry` says that instances to run on are there.
pub struct RepairSession {
    pub config: RepairConfig,
    pub files: ScopedFiles,
    pub store: ApprovalStore,
    pub registry: bool,
}

/// Agreement of a planned step with its model.
pub open spec fn lifts(r: Result<Step, WorkflowError>, model: Result<StepView, super::approval::Fault>) -> bool {
    match r {
        Ok(step) => model == Ok::<StepView, super::approval::Fault>(step@),
        Err(e) => model is Err && e@ == Fault::Approval(model->Err_0),
    }
}

fn lift(r: Result<Step, ApprovalError>) -> (x: Result<Step, WorkflowError>)
    ensures
        match r {
            Ok(step) => x is Ok && x->Ok_0@ == step@,
            Err(e) => x is Err && x->Err_0@ == Fault::Approval(e@),
        },
{
    match r {
        Ok(step) => Ok(step),
        Err(e) => Err(WorkflowError::Approval(e)),
    }
}

/// A change under the current policy, on a record at the expected revision.
pub open spec fn versioned(
    s: StoreView,
    id: Seq<char>,
    revision: Option<u64>,
    model: Result<StepView, super::approval::Fault>,
) -> Result<StepView, super::approval::Fault> {
    match revision_fault(s, id, revision) {
        Some(f) => Err(f),
        None => model,
    }
}

pub open spec fn human_change(decision: ApprovalDecision, reason: Seq<char>, actor: Seq<char>) -> ChangeView {
    ChangeView::HumanDecision { assessment: AssessmentView { decision, reason, reviewer: SourceView::Human { actor } } }
}

/// Whether a stored action is one of this session's target.
pub open spec fn belongs(c: ConfigView, root: Seq<char>, o: OperationView) -> bool {
    &&& o.target == c.target_id
    &&& member(o.action, "target_root"@) == Some(Tree::Text(root))
}

pub open spec fn is_replace(o: OperationView) -> bool {
    member(o.action, "kind"@) == Some(Tree::Text("replace_text"@))
}

/// Why an execution cannot begin.
pub open spec fn apply_fault(c: ConfigView, root: Seq<char>, s: StoreView, id: Seq<char>, revision: Option<u64>) -> Option<Fault> {
    if revision_fault(s, id, revision) is Some {
        Some(Fault::Approval(revision_fault(s, id, revision)->0))
    } else {
        let o = s.records[id].request.operation;
        if !belongs(c, root, o) || !is_replace(o) {
            Some(invalid("stored action belongs to a different target"@))
        } else if !(o.action is Object) {
            Some(invalid("invalid stored action"@))
        } else {
            None
        }
    }
}

/// Why a reconciliation cannot begin.
pub open spec fn reconcile_fault(
    c: ConfigView,
    root: Seq<char>,
    s: StoreView,
    id: Seq<char>,
    revision: Option<u64>,
) -> Option<Fault> {
    if revision_fault(s, id, revision) is Some {
        Some(Fault::Approval(revision_fault(s, id, revision)->0))
    } else {
        let o = s.records[id].request.operation;
        if !belongs(c, root, o) {
            Some(invalid("stored action belongs to another target"@))
        } else if !(o.action is Object) {
            Some(invalid("invalid stored action"@))
        } else {
            None
        }
    }
}

/// The plan of an execution intent.
pub open spec fn intent(
    policy: PolicyView,
    root: Seq<char>,
    s: StoreView,
    listing: Seq<RecordView>,
    id: Seq<char>,
    revision: Option<u64>,
    cancelled: bool,
    operation: OperationView,
    now: u64,
) -> Result<StepView, Fault> {
    if revision_fault(s, id, revision) is Some {
        Err(Fault::Approval(revision_fault(s, id, revision)->0))
    } else if cancelled {
        Err(invalid("execution canceled before dispatch"@))
    } else if busy(listing, root) {
        Err(Fault::Approval(super::approval::Fault::TargetBusy))
    } else {
        let extra = if same_operation(s.records[id].request.operation, operation) {
            None
        } else {
            Some(super::approval::Fault::Conflict)
        };
        match guarded(s, id, policy, extra, ChangeView::Consume, now) {
            Ok(step) => Ok(step),
            Err(f) => Err(Fault::Approval(f)),
        }
    }
}

pub const INSTRUCTIONS: &'static str = "Work on this user request using only recuvora_read_text and recuvora_replace_text. Allowed files: ";

pub const INSTRUCTIONS_END: &'static str = ". Each replacement is a complete UTF-8 file and must include its exact current content as expected. Writes are reviewed by the host. If a tool reports waiting_human, denied, expired, unknown, failed or canceled, stop and describe the pending request; do not try a workaround. After applied changes, report them accurately. Content verification is not evidence of business repair: do not claim tests or business recovery without evidence. User request:\n";

/// What the executing model is told.
pub open spec fn instructions(allowed_files: Seq<Seq<char>>, prompt: Seq<char>) -> Seq<char> {
    INSTRUCTIONS@ + encoded(texts_tree(allowed_files)) + INSTRUCTIONS_END@ + prompt
}

/// A request to a model: in a node's workspace, or in a local directory.
pub open spec fn model_run(remote: Option<WorkspaceView>, local: LocationView, prompt: Seq<char>) -> RunView {
    match remote {
        Some(w) => RunView {
            remote_workspace: Some(w),
            ..run_new(
                crate::harnesses::remote::referenced(crate::harnesses::remote::resource(w)),
                prompt,
                default_timeout(),
            )
        },
        None => run_new(local, prompt, default_timeout()),
    }
}

pub fn model_request(remote: &Option<RemoteWorkspace>, local: &Location, prompt: String) -> (r: HarnessRunRequest)
    ensures
        r@ == model_run(workspace_of(*remote), local@, prompt@),
{
    match remote {
        Some(w) => HarnessRunRequest::remote(w.node_id.clone(), w.workspace_id.clone(), prompt),
        None => HarnessRunRequest::new(local.clone(), prompt),
    }
}

pub open spec fn task_valid(task: Seq<char>, prompt: Seq<char>) -> bool {
    &&& task.len() > 0 && byte_len(task) <= 128 && !has_control(task)
    &&& !is_blank(prompt) && byte_len(prompt) <= 8192
}

/// Why a task cannot run.
pub open spec fn run_fault(listing: Seq<RecordView>, root: Seq<char>, registry: bool, task: Seq<char>, prompt: Seq<char>) -> Option<
    Fault,
> {
    if !task_valid(task, prompt) {
        Some(invalid("task ID must be 1..128 printable bytes; prompt 1..8192 bytes"@))
    } else if task_known(listing, task) {
        Some(
            invalid(
                "task already has durable operations; inspect/apply existing requests instead of replaying it"@,
            ),
        )
    } else if busy(listing, root) {
        Some(Fault::Approval(super::approval::Fault::TargetBusy))
    } else if !registry {
        Some(invalid("execution registry is unavailable"@))
    } else {
        None
    }
}

/// The run that works on a task.
pub open spec fn task_run(c: ConfigView, root: LocationView, prompt: Seq<char>, cancelled: bool) -> RunView {
    RunView {
        visibility: ConversationVisibility::Hidden,
        tools: tools::tool_views(),
        handled: true,
        cancelled,
        timeout: Span { secs: c.timeout_secs, nanos: 0 },
        ..model_run(c.execution_workspace, root, instructions(c.allowed_files, prompt))
    }
}

pub open spec fn some_state(records: Seq<RecordView>, states: Set<ApprovalState>) -> bool {
    exists|i: int| 0 <= i < records.len() && states.contains((#[trigger] records[i]).state)
}

pub open spec fn unsettled_states() -> Set<ApprovalState> {
    set![ApprovalState::Executing, ApprovalState::Unknown]
}

pub open spec fn waiting_states() -> Set<ApprovalState> {
    set![ApprovalState::Pending, ApprovalState::WaitingHuman, ApprovalState::Approved]
}

pub open spec fn blocked_states() -> Set<ApprovalState> {
    set![ApprovalState::Denied, ApprovalState::Revoked, ApprovalState::Expired, ApprovalState::Failed]
}

/// What a task's operations and its turn amount to.
pub open spec fn status_of(records: Seq<RecordView>, cancelled: bool, failed: bool, stopped: bool) -> RepairStatus {
    if some_state(records, unsettled_states()) {
        RepairStatus::Unknown
    } else if some_state(records, waiting_states()) {
        RepairStatus::WaitingHuman
    } else if some_state(records, blocked_states()) {
        RepairStatus::Blocked
    } else if cancelled {
        RepairStatus::Canceled
    } else if failed || stopped {
        RepairStatus::Failed
    } else {
        RepairStatus::Completed
    }
}

/// Decides what a task's operations and its turn amount to.
pub fn repair_status(records: &Vec<ApprovalRecord>, cancelled: bool, failed: bool, stopped: bool) -> (r: RepairStatus)
    ensures
        r == status_of(list_view(records@), cancelled, failed, stopped),
{
    let ghost all = list_view(records@);
    let mut unknown = false;
    let mut waiting = false;
    let mut blocked = false;
    let mut i: usize = 0;
    while i < records.len()
        invariant
            i <= records.len(),
            all == list_view(records@),
            unknown == exists|j: int| 0 <= j < i && unsettled_states().contains((#[trigger] all[j]).state),
            waiting == exists|j: int| 0 <= j < i && waiting_states().contains((#[trigger] all[j]).state),
            blocked == exists|j: int| 0 <= j < i && blocked_states().contains((#[trigger] all[j]).state),
        decreases records.len() - i,
    {
        assert(all[i as int] == records@[i as int]@);
        match records[i].state {
            ApprovalState::Executing | ApprovalState::Unknown => {
                assert(unsettled_states().contains(all[i as int].state));
                unknown = true;
            },
            ApprovalState::Pending | ApprovalState::WaitingHuman | ApprovalState::Approved => {
                assert(waiting_states().contains(all[i as int].state));
                waiting = true;
            },
            ApprovalState::Denied | ApprovalState::Revoked | ApprovalState::Expired | ApprovalState::Failed => {
                assert(blocked_states().contains(all[i as int].state));
                blocked = true;
            },
            ApprovalState::Canceled | ApprovalState::Executed => {},
        }
        i = i + 1;
    }
    if unknown {
        RepairStatus::Unknown
    } else if waiting {
        RepairStatus::WaitingHuman
    } else if blocked {
        RepairStatus::Blocked
    } else if cancelled {
        RepairStatus::Canceled
    } else if failed || stopped {
        RepairStatus::Failed
    } else {
        RepairStatus::Completed
    }
}

/// State and review directories that lie within the target.
pub open spec fn places_fault(data: LocationView, reviewer: Option<LocationView>, root: LocationView) -> Option<Fault> {
    if is_under(data.parts, root.parts) || (reviewer is Some && is_under(reviewer->0.parts, root.parts)) {
        Some(invalid("state and review directories must be outside the target"@))
    } else {
        None
    }
}

pub fn check_places(data: &Location, reviewer: Option<&Location>, root: &Location) -> (r: Result<(), WorkflowError>)
    ensures
        reports(
            r,
            places_fault(
                data@,
                match reviewer {
                    Some(l) => Some(l@),
                    None => None,
                },
                root@,
            ),
        ),
{
    let inside = match reviewer {
        Some(l) => under(&l.parts, &root.parts),
        None => false,
    };
    if under(&data.parts, &root.parts) || inside {
        return Err(refuse("state and review directories must be outside the target"));
    }
    Ok(())
}

impl RepairSession {
    pub open spec fn wf(&self) -> bool {
        self.store.wf()
    }

    /// Opens a session over a replayed store.
    pub fn open(
        config: RepairConfig,
        files: ScopedFiles,
        store: ApprovalStore,
        registry: bool,
        data: &Location,
        reviewer: Option<&Location>,
    ) -> (r: Result<Self, WorkflowError>)
        requires
            store.wf(),
        ensures
            ({
                let fault = either(
                    config_fault(config@),
                    places_fault(
                        data@,
                        match reviewer {
                            Some(l) => Some(l@),
                            None => None,
                        },
                        files@.root,
                    ),
                );
                match r {
                    Ok(s) => fault is None && s.wf() && s.config == config && s.files == files && s.store == store && s.registry
                        == registry,
                    Err(e) => fault == Some(e@),
                }
            }),
    {
        if let Err(e) = config.validate() {
            return Err(e);
        }
        if let Err(e) = check_places(data, reviewer, &files.root) {
            return Err(e);
        }
        Ok(RepairSession { config, files, store, registry })
    }

    pub fn records(&self) -> (r: Vec<ApprovalRecord>)
        requires
            self.wf(),
        ensures
            list_view(r@) == self.store.listing(),
    {
        self.store.list()
    }

    pub fn record(&self, id: &str) -> (r: Result<ApprovalRecord, WorkflowError>)
        requires
            self.wf(),
        ensures
            match r {
                Ok(x) => self.store@.records.contains_key(id@) && x@ == self.store@.records[id@],
                Err(e) => !self.store@.records.contains_key(id@) && e@ == Fault::Approval(super::approval::Fault::NotFound),
            },
    {
        match self.store.get(id) {
            Some(x) => Ok(x.clone()),
            None => Err(WorkflowError::Approval(ApprovalError::NotFound)),
        }
    }

    /// This endpoint is available to the local OS operator, never to the AI tools.
    /// It plans a decision only; applying is an explicit separate execution.
    pub fn decide(&self, id: &str, decision: ApprovalDecision, reason: String, now: u64) -> (r: Result<Step, WorkflowError>)
        requires
            self.wf(),
        ensures
            lifts(
                r,
                guarded(
                    self.store@,
                    id@,
                    self.config@.policy,
                    None,
                    human_change(decision, reason@, "local-cli-operator"@),
                    now,
                ),
            ),
    {
        lift(self.store.decide_human(id, decision, reason, copied("local-cli-operator"), &self.config.policy, now))
    }

    pub fn revoke(&self, id: &str, reason: String, now: u64) -> (r: Result<Step, WorkflowError>)
        requires
            self.wf(),
        ensures
            lifts(r, appended(planned_change(self.store@, id@, ChangeView::Revoke { reason: reason@ }, now))),
    {
        lift(self.store.revoke(id, reason, now))
    }

    /// The transport authenticates this actor; model tools never expose this method.
    pub fn decide_authenticated(
        &self,
        id: &str,
        revision: u64,
        actor: &str,
        decision: ApprovalDecision,
        reason: String,
        now: u64,
    ) -> (r: Result<Step, WorkflowError>)
        requires
            self.wf(),
        ensures
            lifts(
                r,
                versioned(
                    self.store@,
                    id@,
                    Some(revision),
                    guarded(
                        self.store@,
                        id@,
                        self.config@.policy,
                        None,
                        human_change(decision, reason@, actor@),
                        now,
                    ),
                ),
            ),
    {
        if let Err(e) = check_revision(&self.store, id, Some(revision)) {
            return Err(WorkflowError::Approval(e));
        }
        lift(self.store.decide_human(id, decision, reason, copied(actor), &self.config.policy, now))
    }

    pub fn revoke_authenticated(&self, id: &str, revision: u64, actor: &str, reason: &str, now: u64) -> (r: Result<
        Step,
        WorkflowError,
    >)
        requires
            self.wf(),
        ensures
            lifts(
                r,
                versioned(
                    self.store@,
                    id@,
                    Some(revision),
                    appended(
                        planned_change(
                            self.store@,
                            id@,
                            ChangeView::Revoke { reason: actor@ + ": "@ + reason@ },
                            now,
                        ),
                    ),
                ),
            ),
    {
        if let Err(e) = check_revision(&self.store, id, Some(revision)) {
            return Err(WorkflowError::Approval(e));
        }
        let mut text = joined(actor, ": ");
        text.append(reason);
        lift(self.store.revoke(id, text, now))
    }

    /// Begins an execution whatever the record's revision; see `apply_versioned`.
    pub fn apply(&self, id: &str) -> (r: Result<(ApprovalRecord, Json), WorkflowError>)
        requires
            self.wf(),
        ensures
            self.begins_apply(id@, None, r),
    {
        self.apply_versioned(id, None)
    }

    pub open spec fn begins_apply(
        &self,
        id: Seq<char>,
        revision: Option<u64>,
        r: Result<(ApprovalRecord, Json), WorkflowError>,
    ) -> bool {
        let fault = apply_fault(self.config@, self.files@.root.text, self.store@, id, revision);
        match r {
            Ok(pair) => fault is None && pair.0@ == self.store@.records[id] && pair.1@ == Tree::Object(
                edit_fields(self.store@.records[id].request.operation.action->Object_0),
            ),
            Err(e) => fault == Some(e@),
        }
    }

    /// Begins an execution: the record and the edit that it stores. Nothing is consumed
    /// until the target was pinned and its content checked.
    pub fn apply_versioned(&self, id: &str, revision: Option<u64>) -> (r: Result<(ApprovalRecord, Json), WorkflowError>)
        requires
            self.wf(),
        ensures
            self.begins_apply(id@, revision, r),
    {
        if let Err(e) = check_revision(&self.store, id, revision) {
            return Err(WorkflowError::Approval(e));
        }
        let record = match self.record(id) {
            Ok(x) => x,
            Err(e) => {
                return Err(e);
            },
        };
        let replaces = match record.request.operation.action.get("kind") {
            Some(Json::Text(kind)) => same(kind, "replace_text"),
            _ => false,
        };
        if !self.owns(&record) || !replaces {
            return Err(refuse("stored action belongs to a different target"));
        }
        match decode_stored_edit(&record.request.operation.action) {
            Err(e) => Err(e),
            Ok(edit) => Ok((record, edit)),
        }
    }

    fn owns(&self, record: &ApprovalRecord) -> (r: bool)
        ensures
            r == belongs(self.config@, self.files@.root.text, record@.request.operation),
    {
        let operation = &record.request.operation;
        let rooted = match operation.action.get("target_root") {
            Some(Json::Text(root)) => same(root, &self.files.root.text),
            _ => false,
        };
        same(&operation.target, &self.config.target_id) && rooted
    }

    /// Plans the revocation of an approval whose precondition failed.
    pub fn apply_failed(&self, record: &ApprovalRecord, revision: Option<u64>, error: &ActionError, now: u64) -> (r: Result<
        Option<Step>,
        WorkflowError,
    >)
        requires
            self.wf(),
        ensures
            if record@.state == ApprovalState::Approved {
                let model = versioned(
                    self.store@,
                    record@.request.request_id,
                    revision,
                    appended(
                        planned_change(
                            self.store@,
                            record@.request.request_id,
                            ChangeView::Revoke {
                                reason: "execution precondition failed: "@ + crate::actions::fault_message(error@),
                            },
                            now,
                        ),
                    ),
                );
                match r {
                    Ok(step) => step is Some && model == Ok::<StepView, super::approval::Fault>(step->0@),
                    Err(e) => model is Err && e@ == Fault::Approval(model->Err_0),
                }
            } else {
                r is Ok && r->Ok_0 is None
            },
    {
        if record.state != ApprovalState::Approved {
            return Ok(None);
        }
        if let Err(e) = check_revision(&self.store, &record.request.request_id, revision) {
            return Err(WorkflowError::Approval(e));
        }
        let reason = joined("execution precondition failed: ", &error.message());
        match self.store.revoke(&record.request.request_id, reason, now) {
            Ok(step) => Ok(Some(step)),
            Err(e) => Err(WorkflowError::Approval(e)),
        }
    }

    /// Plans the execution intent of a pinned and checked edit.
    pub fn apply_intent(
        &self,
        id: &str,
        revision: Option<u64>,
        cancelled: bool,
        operation: &ProposedOperation,
        now: u64,
    ) -> (r: Result<Step, WorkflowError>)
        requires
            self.wf(),
        ensures
            ({
                let model = intent(
                    self.config@.policy,
                    self.files@.root.text,
                    self.store@,
                    self.store.listing(),
                    id@,
                    revision,
                    cancelled,
                    operation@,
                    now,
                );
                match r {
                    Ok(step) => model == Ok::<StepView, Fault>(step@),
                    Err(e) => model == Err::<StepView, Fault>(e@),
                }
            }),
    {
        if let Err(e) = check_revision(&self.store, id, revision) {
            return Err(WorkflowError::Approval(e));
        }
        if let Err(e) = check_dispatch(cancelled) {
            return Err(e);
        }
        let list = self.store.list();
        if root_busy(&list, &self.files.root.text) {
            return Err(WorkflowError::Approval(ApprovalError::TargetBusy));
        }
        lift(self.store.consume(id, operation, &self.config.policy, now))
    }

    /// Begins a reconciliation as the local operator, whatever the record's revision.
    pub fn reconcile(&self, id: &str) -> (r: Result<Json, WorkflowError>)
        requires
            self.wf(),
        ensures
            self.begins_reconcile(id@, None, r),
    {
        self.reconcile_authenticated(id, None)
    }

    pub open spec fn begins_reconcile(&self, id: Seq<char>, revision: Option<u64>, r: Result<Json, WorkflowError>) -> bool {
        let fault = reconcile_fault(self.config@, self.files@.root.text, self.store@, id, revision);
        match r {
            Ok(v) => fault is None && v@ == Tree::Object(
                edit_fields(self.store@.records[id].request.operation.action->Object_0),
            ),
            Err(e) => fault == Some(e@),
        }
    }

    /// Begins a reconciliation: the edit whose effect is to be looked for. The write is
    /// never repeated.
    pub fn reconcile_authenticated(&self, id: &str, revision: Option<u64>) -> (r: Result<Json, WorkflowError>)
        requires
            self.wf(),
        ensures
            self.begins_reconcile(id@, revision, r),
    {
        if let Err(e) = check_revision(&self.store, id, revision) {
            return Err(WorkflowError::Approval(e));
        }
        let record = match self.record(id) {
            Ok(x) => x,
            Err(e) => {
                return Err(e);
            },
        };
        if !self.owns(&record) {
            return Err(refuse("stored action belongs to another target"));
        }
        decode_stored_edit(&record.request.operation.action)
    }

    /// Plans what a reconciliation found.
    pub fn reconcile_plan(&self, id: &str, outcome: ExecutionOutcome, actor: &str, now: u64) -> (r: Result<Step, WorkflowError>)
        requires
            self.wf(),
        ensures
            lifts(
                r,
                appended(
                    planned_change(
                        self.store@,
                        id@,
                        ChangeView::Reconcile {
                            outcome,
                            reason: "explicit local reconciliation against stored full text"@,
                            actor: actor@,
                        },
                        now,
                    ),
                ),
            ),
    {
        lift(
            self.store.reconcile_unknown(
                id,
                outcome,
                copied("explicit local reconciliation against stored full text"),
                copied(actor),
                now,
            ),
        )
    }

    /// Begins a task: the run that works on it.
    pub fn run(&self, task_id: &str, prompt: &str, cancelled: bool) -> (r: Result<HarnessRunRequest, WorkflowError>)
        requires
            self.wf(),
        ensures
            ({
                let fault = run_fault(self.store.listing(), self.files@.root.text, self.registry, task_id@, prompt@);
                match r {
                    Ok(q) => fault is None && q@ == task_run(self.config@, self.files@.root, prompt@, cancelled),
                    Err(e) => fault == Some(e@),
                }
            }),
    {
        if task_id.is_empty() || utf8_len(task_id) > 128 || controlled(task_id) || blank(prompt) || utf8_len(prompt) > 8192 {
            return Err(refuse("task ID must be 1..128 printable bytes; prompt 1..8192 bytes"));
        }
        let previous = self.records();
        if task_recorded(&previous, task_id) {
            return Err(
                refuse("task already has durable operations; inspect/apply existing requests instead of replaying it"),
            );
        }
        if root_busy(&previous, &self.files.root.text) {
            return Err(WorkflowError::Approval(ApprovalError::TargetBusy));
        }
        if !self.registry {
            return Err(refuse("execution registry is unavailable"));
        }
        let files = texts_json(&self.config.allowed_files);
        let mut text = joined(INSTRUCTIONS, &files.render());
        text.append(INSTRUCTIONS_END);
        text.append(prompt);
        let request = model_request(&self.config.execution_workspace, &self.files.root, text);
        let request = request.with_visibility(ConversationVisibility::Hidden);
        let request = request.with_tools(tools::repair_tools());
        let request = request.with_cancellation(cancelled);
        Ok(request.with_timeout(Span { secs: self.config.timeout_secs, nanos: 0 }))
    }

    /// What a task's turn amounts to, with the operations that it left.
    pub fn run_result(
        &self,
        task_id: String,
        result: Result<HarnessRunResult, HarnessError>,
        cancelled: bool,
        stopped: bool,
    ) -> (r: RepairResult)
        requires
            self.wf(),
        ensures
            list_view(r.operations@) == of_task(self.store.listing(), task_id@),
            r.status == status_of(of_task(self.store.listing(), task_id@), cancelled, result is Err, stopped),
            r.task_id@ == task_id@,
            match result {
                Ok(x) => opt(r.final_response) == Some(x@.final_response) && r.harness_error is None && r.execution_context is Some
                    && r.execution_context->0.harness_id@ == x@.harness_id && r.execution_context->0.thread_id@ == x@.thread_id
                    && r.execution_context->0.session_id@ == x@.session_id,
                Err(e) => r.final_response is None && r.harness_error is Some && r.harness_error->0@ == e@
                    && r.execution_context is None,
            },
    {
        let list = self.records();
        let operations = select_task(&list, &task_id);
        let failed = result.is_err();
        let status = repair_status(&operations, cancelled, failed, stopped);
        match result {
            Ok(x) => RepairResult {
                status,
                task_id,
                final_response: Some(x.final_response),
                harness_error: None,
                operations,
                execution_context: Some(
                    RepairExecutionContext { harness_id: x.harness_id, thread_id: x.thread_id, session_id: x.session_id },
                ),
            },
            Err(e) => RepairResult {
                status,
                task_id,
                final_response: None,
                harness_error: Some(e),
                operations,
                execution_context: None,
            },
        }
    }
}

/// Checks that an execution was not cancelled before its dispatch.
pub fn check_dispatch(cancelled: bool) -> (r: Result<(), WorkflowError>)
    ensures
        reports(r, if cancelled { Some(invalid("execution canceled before dispatch"@)) } else { None }),
{
    if cancelled {
        return Err(refuse("execution canceled before dispatch"));
    }
    Ok(())
}

} // verus!
