//! Single approvals, repairs and the active configuration as an operator sees them.
use super::history::{milli, millis};
use super::paging::{value_in, value_under};
use super::repairs::{RepairSummary, SummaryView};
use super::views::{actions, allowed_actions, approver, approver_text, receipt, receipt_tree, Rights};
use crate::harnesses::remote::{workspace_of, RemoteWorkspace};
use crate::json::{Json, Tree};
use crate::recovery::approval::encode::state_text;
use crate::recovery::approval::{
    ApprovalAssessment, ApprovalDecision, ApprovalPolicy, ApprovalRecord, AssessmentSource, AssessmentView, OperationView,
    PolicyView, ProposedOperation, RecordView, SourceView,
};
use crate::recovery::workflow::{ConfigView, RepairConfig};
use crate::text::{copied, copied_list, opt, texts};
use vstd::prelude::*;

verus! {

/// Who answers for the approvals of a repair.
pub const APPROVAL_SERVICE: &'static str = "可信审批服务";

/// How the running configuration is called.
pub const RUNNING_CONFIGURATION: &'static str = "当前服务配置";

/// A decision, and who took it.
pub struct AssessmentDetail {
    pub reviewer: String,
    pub decision: ApprovalDecision,
    pub reason: String,
    pub source: String,
    pub session_id: Option<String>,
}

pub struct AssessmentDetailView {
    pub reviewer: Seq<char>,
    pub decision: ApprovalDecision,
    pub reason: Seq<char>,
    pub source: Seq<char>,
    pub session_id: Option<Seq<char>>,
}

impl View for AssessmentDetail {
    type V = AssessmentDetailView;

    open spec fn view(&self) -> AssessmentDetailView {
        AssessmentDetailView {
            reviewer: self.reviewer@,
            decision: self.decision,
            reason: self.reason@,
            source: self.source@,
            session_id: opt(self.session_id),
        }
    }
}

pub open spec fn assessment_of(a: AssessmentView) -> AssessmentDetailView {
    let (source, reviewer, session_id) = match a.reviewer {
        SourceView::Human { actor } => ("human"@, actor, None),
        SourceView::Harness { harness_id, session_id } => ("harness"@, harness_id, Some(session_id)),
    };
    AssessmentDetailView { reviewer, decision: a.decision, reason: a.reason, source, session_id }
}

fn assessment_detail(a: &ApprovalAssessment) -> (r: AssessmentDetail)
    ensures
        r@ == assessment_of(a@),
{
    let reason = a.reason.clone();
    match &a.reviewer {
        AssessmentSource::Human { actor } => AssessmentDetail {
            reviewer: actor.clone(),
            decision: a.decision,
            reason,
            source: copied("human"),
            session_id: None,
        },
        AssessmentSource::Harness { harness_id, session_id } => AssessmentDetail {
            reviewer: harness_id.clone(),
            decision: a.decision,
            reason,
            source: copied("harness"),
            session_id: Some(session_id.clone()),
        },
    }
}

/// The terms of an approval.
pub struct PolicyDetail {
    pub reviewer: String,
    pub id: String,
    pub version: u64,
    pub delegation: String,
    pub allowed_targets: Vec<String>,
    pub allowed_actions: Vec<String>,
    pub ttl_seconds: u64,
}

pub struct PolicyDetailView {
    pub reviewer: Seq<char>,
    pub id: Seq<char>,
    pub version: u64,
    pub delegation: Seq<char>,
    pub allowed_targets: Seq<Seq<char>>,
    pub allowed_actions: Seq<Seq<char>>,
    pub ttl_seconds: u64,
}

impl View for PolicyDetail {
    type V = PolicyDetailView;

    open spec fn view(&self) -> PolicyDetailView {
        PolicyDetailView {
            reviewer: self.reviewer@,
            id: self.id@,
            version: self.version,
            delegation: self.delegation@,
            allowed_targets: texts(self.allowed_targets@),
            allowed_actions: texts(self.allowed_actions@),
            ttl_seconds: self.ttl_seconds,
        }
    }
}

pub open spec fn policy_of(p: PolicyView) -> PolicyDetailView {
    PolicyDetailView {
        reviewer: approver_text(p.reviewer),
        id: p.id,
        version: p.version,
        delegation: p.delegation,
        allowed_targets: p.allowed_targets,
        allowed_actions: p.allowed_action_kinds,
        ttl_seconds: p.ttl_secs,
    }
}

fn policy_detail(p: &ApprovalPolicy) -> (r: PolicyDetail)
    ensures
        r@ == policy_of(p@),
{
    PolicyDetail {
        reviewer: approver(&p.reviewer),
        id: p.id.clone(),
        version: p.version,
        delegation: p.delegation.clone(),
        allowed_targets: copied_list(&p.allowed_targets),
        allowed_actions: copied_list(&p.allowed_action_kinds),
        ttl_seconds: p.ttl_secs,
    }
}

/// Where a request came from; what is not known is null.
pub struct ContextDetail {
    pub harness_id: Json,
    pub thread_id: Json,
    pub turn_id: Json,
    pub call_id: Json,
}

pub struct ContextDetailView {
    pub harness_id: Tree,
    pub thread_id: Tree,
    pub turn_id: Tree,
    pub call_id: Tree,
}

impl View for ContextDetail {
    type V = ContextDetailView;

    open spec fn view(&self) -> ContextDetailView {
        ContextDetailView {
            harness_id: self.harness_id@,
            thread_id: self.thread_id@,
            turn_id: self.turn_id@,
            call_id: self.call_id@,
        }
    }
}

pub open spec fn context_of(context: Tree) -> ContextDetailView {
    ContextDetailView {
        harness_id: value_in(context, "harness_id"@),
        thread_id: value_in(context, "thread_id"@),
        turn_id: value_in(context, "turn_id"@),
        call_id: value_in(context, "call_id"@),
    }
}

fn context_detail(context: &Json) -> (r: ContextDetail)
    ensures
        r@ == context_of(context@),
{
    ContextDetail {
        harness_id: value_under(context, "harness_id"),
        thread_id: value_under(context, "thread_id"),
        turn_id: value_under(context, "turn_id"),
        call_id: value_under(context, "call_id"),
    }
}

/// One approval with everything that its decision rests on.
pub struct ApprovalDetail {
    pub request_id: String,
    pub state: String,
    pub revision: u64,
    pub created_at: u64,
    pub updated_at: u64,
    pub expires_at: u64,
    pub task_id: String,
    pub task_revision: u64,
    pub operation_id: String,
    pub target: String,
    pub action_kind: Json,
    pub target_root: Json,
    pub path: Json,
    pub expected: Json,
    pub replacement: Json,
    pub user_request: Json,
    pub assessment: Option<AssessmentDetail>,
    pub note: Option<String>,
    pub allowed_actions: Vec<String>,
    pub normalized_operation: ProposedOperation,
    pub policy: PolicyDetail,
    pub execution_context: ContextDetail,
    pub receipt: Option<Json>,
    pub detail: bool,
}

pub struct ApprovalDetailView {
    pub request_id: Seq<char>,
    pub state: Seq<char>,
    pub revision: u64,
    pub created_at: u64,
    pub updated_at: u64,
    pub expires_at: u64,
    pub task_id: Seq<char>,
    pub task_revision: u64,
    pub operation_id: Seq<char>,
    pub target: Seq<char>,
    pub action_kind: Tree,
    pub target_root: Tree,
    pub path: Tree,
    pub expected: Tree,
    pub replacement: Tree,
    pub user_request: Tree,
    pub assessment: Option<AssessmentDetailView>,
    pub note: Option<Seq<char>>,
    pub allowed_actions: Seq<Seq<char>>,
    pub normalized_operation: OperationView,
    pub policy: PolicyDetailView,
    pub execution_context: ContextDetailView,
    pub receipt: Option<Tree>,
    pub detail: bool,
}

impl View for ApprovalDetail {
    type V = ApprovalDetailView;

    open spec fn view(&self) -> ApprovalDetailView {
        ApprovalDetailView {
            request_id: self.request_id@,
            state: self.state@,
            revision: self.revision,
            created_at: self.created_at,
            updated_at: self.updated_at,
            expires_at: self.expires_at,
            task_id: self.task_id@,
            task_revision: self.task_revision,
            operation_id: self.operation_id@,
            target: self.target@,
            action_kind: self.action_kind@,
            target_root: self.target_root@,
            path: self.path@,
            expected: self.expected@,
            replacement: self.replacement@,
            user_request: self.user_request@,
            assessment: match self.assessment {
                Some(a) => Some(a@),
                None => None,
            },
            note: opt(self.note),
            allowed_actions: texts(self.allowed_actions@),
            normalized_operation: self.normalized_operation@,
            policy: self.policy@,
            execution_context: self.execution_context@,
            receipt: match self.receipt {
                Some(v) => Some(v@),
                None => None,
            },
            detail: self.detail,
        }
    }
}

/// An approval in detail; `note` is its note read as a value, where it is one, and `now`
/// is in milliseconds.
pub open spec fn detail_of(r: RecordView, rights: Rights, note: Option<Tree>, now: u64) -> ApprovalDetailView {
    let o = r.request.operation;
    ApprovalDetailView {
        request_id: r.request.request_id,
        state: state_text(r.state),
        revision: r.revision,
        created_at: milli(r.request.created_at),
        updated_at: milli(r.updated_at),
        expires_at: milli(r.request.expires_at),
        task_id: o.task_id,
        task_revision: o.task_revision,
        operation_id: o.operation_id,
        target: o.target,
        action_kind: value_in(o.action, "kind"@),
        target_root: value_in(o.action, "target_root"@),
        path: value_in(o.action, "path"@),
        expected: value_in(o.action, "expected"@),
        replacement: value_in(o.action, "replacement"@),
        user_request: value_in(o.action, "user_request"@),
        assessment: match r.assessment {
            Some(a) => Some(assessment_of(a)),
            None => None,
        },
        note: r.note,
        allowed_actions: actions(rights, r.state, r.request.expires_at > now / 1000),
        normalized_operation: o,
        policy: policy_of(r.request.policy),
        execution_context: context_of(value_in(o.action, "execution_context"@)),
        receipt: match note {
            Some(raw) => Some(receipt_tree(raw)),
            None => None,
        },
        detail: true,
    }
}

pub fn approval_detail(record: &ApprovalRecord, rights: Rights, note: Option<Json>, now: u64) -> (r: ApprovalDetail)
    ensures
        r@ == detail_of(
            record@,
            rights,
            match note {
                Some(v) => Some(v@),
                None => None,
            },
            now,
        ),
{
    let operation = &record.request.operation;
    let action = &operation.action;
    ApprovalDetail {
        request_id: record.request.request_id.clone(),
        state: copied(record.state.name()),
        revision: record.revision,
        created_at: millis(record.request.created_at),
        updated_at: millis(record.updated_at),
        expires_at: millis(record.request.expires_at),
        task_id: operation.task_id.clone(),
        task_revision: operation.task_revision,
        operation_id: operation.operation_id.clone(),
        target: operation.target.clone(),
        action_kind: value_under(action, "kind"),
        target_root: value_under(action, "target_root"),
        path: value_under(action, "path"),
        expected: value_under(action, "expected"),
        replacement: value_under(action, "replacement"),
        user_request: value_under(action, "user_request"),
        assessment: match &record.assessment {
            Some(a) => Some(assessment_detail(a)),
            None => None,
        },
        note: match &record.note {
            Some(text) => Some(text.clone()),
            None => None,
        },
        allowed_actions: allowed_actions(rights, record.state, record.request.expires_at, now),
        normalized_operation: operation.clone(),
        policy: policy_detail(&record.request.policy),
        execution_context: context_detail(&value_under(action, "execution_context")),
        receipt: match note {
            Some(raw) => Some(receipt(raw)),
            None => None,
        },
        detail: true,
    }
}

/// A repair as lists show it: never verified as a business matter.
pub struct RepairDetail {
    pub id: String,
    pub target: Json,
    pub status: Json,
    pub summary: String,
    pub operation_count: u64,
    pub reviewer: String,
    pub updated_at: u64,
    pub harness_id: Json,
    pub thread_id: Json,
    pub session_id: Json,
    pub business_verified: bool,
    pub detail: bool,
    pub source_incident: Json,
}

/// What a shown repair says.
pub open spec fn shows_repair(d: RepairDetail, s: SummaryView) -> bool {
    &&& d.id@ == s.id
    &&& d.target@ == s.target
    &&& d.status@ == s.status
    &&& d.summary@ == s.summary
    &&& d.operation_count == s.operation_count
    &&& d.reviewer@ == APPROVAL_SERVICE@
    &&& d.updated_at == s.updated_at
    &&& d.harness_id@ == s.harness_id
    &&& d.thread_id@ == s.thread_id
    &&& d.session_id@ == s.session_id
    &&& !d.business_verified
    &&& !d.detail
    &&& d.source_incident@ == s.source_incident
}

pub fn repair_view(s: &RepairSummary) -> (r: RepairDetail)
    ensures
        shows_repair(r, s@),
{
    RepairDetail {
        id: s.id.clone(),
        target: s.target.copy(),
        status: s.status.copy(),
        summary: s.summary.clone(),
        operation_count: s.operation_count,
        reviewer: copied(APPROVAL_SERVICE),
        updated_at: s.updated_at,
        harness_id: s.harness_id.copy(),
        thread_id: s.thread_id.copy(),
        session_id: s.session_id.copy(),
        business_verified: false,
        detail: false,
        source_incident: s.source_incident.copy(),
    }
}

/// The configuration that a server works with.
pub struct ActiveConfiguration {
    pub name: String,
    pub repair_config: Option<String>,
    pub harness_config: String,
    pub target_id: String,
    pub target_root: String,
    pub reviewer_directory: String,
    pub data_directory: String,
    pub allowed_files: Vec<String>,
    pub execution_harness: String,
    pub execution_workspace: Option<RemoteWorkspace>,
    pub reviewer_workspace: Option<RemoteWorkspace>,
    pub reviewer: String,
    pub delegation: String,
    pub policy_id: String,
    pub policy_version: u64,
    pub ttl_seconds: u64,
    pub timeout_seconds: u64,
    pub max_tool_calls: usize,
}

/// What a shown configuration says.
pub open spec fn shows_configuration(a: ActiveConfiguration, c: ConfigView, file: Option<Seq<char>>) -> bool {
    &&& a.name@ == RUNNING_CONFIGURATION@
    &&& opt(a.repair_config) == file
    &&& a.harness_config@ == c.harness_config
    &&& a.target_id@ == c.target_id
    &&& a.target_root@ == c.target_root
    &&& a.reviewer_directory@ == c.reviewer_directory
    &&& a.data_directory@ == c.data_dir
    &&& texts(a.allowed_files@) == c.allowed_files
    &&& a.execution_harness@ == c.execution_harness
    &&& workspace_of(a.execution_workspace) == c.execution_workspace
    &&& workspace_of(a.reviewer_workspace) == c.reviewer_workspace
    &&& a.reviewer@ == approver_text(c.policy.reviewer)
    &&& a.delegation@ == c.policy.delegation
    &&& a.policy_id@ == c.policy.id
    &&& a.policy_version == c.policy.version
    &&& a.ttl_seconds == c.policy.ttl_secs
    &&& a.timeout_seconds == c.timeout_secs
    &&& a.max_tool_calls == c.max_tool_calls
}

fn workspace(w: &Option<RemoteWorkspace>) -> (r: Option<RemoteWorkspace>)
    ensures
        workspace_of(r) == workspace_of(*w),
{
    match w {
        Some(w) => Some(w.clone()),
        None => None,
    }
}

/// The configuration that a server works with; `file` is where it was read.
pub fn active_configuration(config: &RepairConfig, file: &Option<String>) -> (r: ActiveConfiguration)
    ensures
        shows_configuration(r, config@, opt(*file)),
{
    ActiveConfiguration {
        name: copied(RUNNING_CONFIGURATION),
        repair_config: match file {
            Some(text) => Some(text.clone()),
            None => None,
        },
        harness_config: config.harness_config.clone(),
        target_id: config.target_id.clone(),
        target_root: config.target_root.clone(),
        reviewer_directory: config.reviewer_directory.clone(),
        data_directory: config.data_dir.clone(),
        allowed_files: copied_list(&config.allowed_files),
        execution_harness: config.execution_harness.clone(),
        execution_workspace: workspace(&config.execution_workspace),
        reviewer_workspace: workspace(&config.reviewer_workspace),
        reviewer: approver(&config.policy.reviewer),
        delegation: config.policy.delegation.clone(),
        policy_id: config.policy.id.clone(),
        policy_version: config.policy.version,
        ttl_seconds: config.policy.ttl_secs,
        timeout_seconds: config.timeout_secs,
        max_tool_calls: config.max_tool_calls,
    }
}

} // verus!
