//! Trusted, durable approval decisions, separate from simulation authorization.
//!
//! Callers are trusted host code: this is not an authentication boundary against
//! arbitrary code in the host process. Model output is evidence, never a permit.
pub mod encode;
pub mod laws;
pub mod places;
pub mod store;
pub mod transitions;

use crate::json::{alike, encoded_size, member, Json, Tree};
use crate::text::{blank, byte_len, contains, copied_list, is_blank, joined, listed, same, texts, utf8_len};
use vstd::prelude::*;

verus! {

pub const MAX_ID: usize = 512;
pub const MAX_REASON: usize = 8192;
pub const MAX_ACTION: usize = 131072;
pub const MAX_RECORD: usize = 262144;

pub enum ReviewerConfig {
    Human,
    Harness { harness_id: String },
}

/// Loaded by the host from trusted configuration, outside AI-writable targets.
/// Target and action-kind lists are exact matches and hard limits for every approver.
pub struct ApprovalPolicy {
    pub id: String,
    pub version: u64,
    pub reviewer: ReviewerConfig,
    pub delegation: String,
    pub allowed_targets: Vec<String>,
    pub allowed_action_kinds: Vec<String>,
    pub ttl_secs: u64,
}

pub struct ProposedOperation {
    pub task_id: String,
    pub task_revision: u64,
    pub operation_id: String,
    pub target: String,
    pub action: Json,
}

#[derive(Debug, Clone, Copy, PartialEq, Eq, Structural)]
pub enum ApprovalDecision {
    Approve,
    Deny,
    Escalate,
}

/// This is the entire model response. The approver's identity is supplied by the host.
pub struct ModelAssessment {
    pub request_id: String,
    pub decision: ApprovalDecision,
    pub reason: String,
}

pub struct ReviewerIdentity {
    pub harness_id: String,
    pub session_id: String,
}

pub enum AssessmentSource {
    Harness { harness_id: String, session_id: String },
    Human { actor: String },
}

pub struct ApprovalAssessment {
    pub decision: ApprovalDecision,
    pub reason: String,
    pub reviewer: AssessmentSource,
}

#[derive(Debug, Clone, Copy, PartialEq, Eq, Structural)]
pub enum ApprovalState {
    Pending,
    WaitingHuman,
    Approved,
    Denied,
    Revoked,
    Canceled,
    Expired,
    Executing,
    Executed,
    Failed,
    Unknown,
}

pub struct ApprovalRequest {
    pub request_id: String,
    pub operation: ProposedOperation,
    pub policy: ApprovalPolicy,
    pub created_at: u64,
    pub expires_at: u64,
}

pub struct ApprovalRecord {
    pub request: ApprovalRequest,
    pub state: ApprovalState,
    pub revision: u64,
    pub updated_at: u64,
    pub assessment: Option<ApprovalAssessment>,
    pub note: Option<String>,
}

#[derive(Debug, Clone, Copy, PartialEq, Eq, Structural)]
pub enum ExecutionOutcome {
    Executed,
    Failed,
    Unknown,
}

#[derive(Debug, Clone, Copy)]
pub struct ApprovalStoreConfig {
    pub max_requests: usize,
    pub max_journal_bytes: u64,
}

impl Default for ApprovalStoreConfig {
    fn default() -> (r: Self)
        ensures
            r.max_requests == 10000,
            r.max_journal_bytes == 33554432,
    {
        ApprovalStoreConfig { max_requests: 10000, max_journal_bytes: 33554432 }
    }
}

/// Why an approval step was refused. `Locked`, `Io` and `Json` carry the text of
/// a failure outside this library.
#[derive(Debug)]
pub enum ApprovalError {
    Invalid(&'static str),
    NotFound,
    Conflict,
    OutOfScope,
    Expired,
    InvalidState(ApprovalState),
    TargetBusy,
    Capacity,
    Locked(String),
    Corrupt(String),
    Unavailable,
    Io(String),
    Json(String),
}

/// One durable step of the store.
pub enum Event {
    Requested { request: ApprovalRequest },
    Changed { request_id: String, change: Change },
}

pub enum Change {
    Assess { assessment: ApprovalAssessment },
    HumanDecision { assessment: ApprovalAssessment },
    WaitingHuman { reason: String },
    Revoke { reason: String },
    Cancel { reason: String },
    Expire,
    Consume,
    Complete { outcome: ExecutionOutcome, reason: String },
    RecoverUnknown,
    Reconcile { outcome: ExecutionOutcome, reason: String, actor: String },
}

// Mathematical models.

pub enum ReviewerView {
    Human,
    Harness { harness_id: Seq<char> },
}

pub struct PolicyView {
    pub id: Seq<char>,
    pub version: u64,
    pub reviewer: ReviewerView,
    pub delegation: Seq<char>,
    pub allowed_targets: Seq<Seq<char>>,
    pub allowed_action_kinds: Seq<Seq<char>>,
    pub ttl_secs: u64,
}

pub struct OperationView {
    pub task_id: Seq<char>,
    pub task_revision: u64,
    pub operation_id: Seq<char>,
    pub target: Seq<char>,
    pub action: Tree,
}

pub enum SourceView {
    Harness { harness_id: Seq<char>, session_id: Seq<char> },
    Human { actor: Seq<char> },
}

pub struct AssessmentView {
    pub decision: ApprovalDecision,
    pub reason: Seq<char>,
    pub reviewer: SourceView,
}

pub struct RequestView {
    pub request_id: Seq<char>,
    pub operation: OperationView,
    pub policy: PolicyView,
    pub created_at: u64,
    pub expires_at: u64,
}

pub struct RecordView {
    pub request: RequestView,
    pub state: ApprovalState,
    pub revision: u64,
    pub updated_at: u64,
    pub assessment: Option<AssessmentView>,
    pub note: Option<Seq<char>>,
}

pub enum ChangeView {
    Assess { assessment: AssessmentView },
    HumanDecision { assessment: AssessmentView },
    WaitingHuman { reason: Seq<char> },
    Revoke { reason: Seq<char> },
    Cancel { reason: Seq<char> },
    Expire,
    Consume,
    Complete { outcome: ExecutionOutcome, reason: Seq<char> },
    RecoverUnknown,
    Reconcile { outcome: ExecutionOutcome, reason: Seq<char>, actor: Seq<char> },
}

pub enum EventView {
    Requested { request: RequestView },
    Changed { request_id: Seq<char>, change: ChangeView },
}

pub enum Fault {
    Invalid(Seq<char>),
    NotFound,
    Conflict,
    OutOfScope,
    Expired,
    InvalidState(ApprovalState),
    TargetBusy,
    Capacity,
    Locked(Seq<char>),
    Corrupt(Seq<char>),
    Unavailable,
    Io(Seq<char>),
    Json(Seq<char>),
}

impl View for ReviewerConfig {
    type V = ReviewerView;

    open spec fn view(&self) -> ReviewerView {
        match self {
            ReviewerConfig::Human => ReviewerView::Human,
            ReviewerConfig::Harness { harness_id } => ReviewerView::Harness { harness_id: harness_id@ },
        }
    }
}

impl View for ApprovalPolicy {
    type V = PolicyView;

    open spec fn view(&self) -> PolicyView {
        PolicyView {
            id: self.id@,
            version: self.version,
            reviewer: self.reviewer@,
            delegation: self.delegation@,
            allowed_targets: texts(self.allowed_targets@),
            allowed_action_kinds: texts(self.allowed_action_kinds@),
            ttl_secs: self.ttl_secs,
        }
    }
}

impl View for ProposedOperation {
    type V = OperationView;

    open spec fn view(&self) -> OperationView {
        OperationView {
            task_id: self.task_id@,
            task_revision: self.task_revision,
            operation_id: self.operation_id@,
            target: self.target@,
            action: self.action@,
        }
    }
}

impl View for AssessmentSource {
    type V = SourceView;

    open spec fn view(&self) -> SourceView {
        match self {
            AssessmentSource::Harness { harness_id, session_id } => SourceView::Harness {
                harness_id: harness_id@,
                session_id: session_id@,
            },
            AssessmentSource::Human { actor } => SourceView::Human { actor: actor@ },
        }
    }
}

impl View for ApprovalAssessment {
    type V = AssessmentView;

    open spec fn view(&self) -> AssessmentView {
        AssessmentView { decision: self.decision, reason: self.reason@, reviewer: self.reviewer@ }
    }
}

impl View for ApprovalRequest {
    type V = RequestView;

    open spec fn view(&self) -> RequestView {
        RequestView {
            request_id: self.request_id@,
            operation: self.operation@,
            policy: self.policy@,
            created_at: self.created_at,
            expires_at: self.expires_at,
        }
    }
}

impl View for ApprovalRecord {
    type V = RecordView;

    open spec fn view(&self) -> RecordView {
        RecordView {
            request: self.request@,
            state: self.state,
            revision: self.revision,
            updated_at: self.updated_at,
            assessment: match self.assessment {
                Some(a) => Some(a@),
                None => None,
            },
            note: match self.note {
                Some(n) => Some(n@),
                None => None,
            },
        }
    }
}

impl View for Change {
    type V = ChangeView;

    open spec fn view(&self) -> ChangeView {
        match self {
            Change::Assess { assessment } => ChangeView::Assess { assessment: assessment@ },
            Change::HumanDecision { assessment } => ChangeView::HumanDecision { assessment: assessment@ },
            Change::WaitingHuman { reason } => ChangeView::WaitingHuman { reason: reason@ },
            Change::Revoke { reason } => ChangeView::Revoke { reason: reason@ },
            Change::Cancel { reason } => ChangeView::Cancel { reason: reason@ },
            Change::Expire => ChangeView::Expire,
            Change::Consume => ChangeView::Consume,
            Change::Complete { outcome, reason } => ChangeView::Complete { outcome: *outcome, reason: reason@ },
            Change::RecoverUnknown => ChangeView::RecoverUnknown,
            Change::Reconcile { outcome, reason, actor } => ChangeView::Reconcile {
                outcome: *outcome,
                reason: reason@,
                actor: actor@,
            },
        }
    }
}

impl View for Event {
    type V = EventView;

    open spec fn view(&self) -> EventView {
        match self {
            Event::Requested { request } => EventView::Requested { request: request@ },
            Event::Changed { request_id, change } => EventView::Changed { request_id: request_id@, change: change@ },
        }
    }
}

impl View for ApprovalError {
    type V = Fault;

    open spec fn view(&self) -> Fault {
        match self {
            ApprovalError::Invalid(m) => Fault::Invalid(m@),
            ApprovalError::NotFound => Fault::NotFound,
            ApprovalError::Conflict => Fault::Conflict,
            ApprovalError::OutOfScope => Fault::OutOfScope,
            ApprovalError::Expired => Fault::Expired,
            ApprovalError::InvalidState(s) => Fault::InvalidState(*s),
            ApprovalError::TargetBusy => Fault::TargetBusy,
            ApprovalError::Capacity => Fault::Capacity,
            ApprovalError::Locked(m) => Fault::Locked(m@),
            ApprovalError::Corrupt(m) => Fault::Corrupt(m@),
            ApprovalError::Unavailable => Fault::Unavailable,
            ApprovalError::Io(m) => Fault::Io(m@),
            ApprovalError::Json(m) => Fault::Json(m@),
        }
    }
}

// Rules.

/// Text with something in it, within its bound and without NUL.
pub open spec fn is_text(value: Seq<char>, maximum: nat) -> bool {
    !is_blank(value) && byte_len(value) <= maximum && !value.contains('\0')
}

pub open spec fn bad_text() -> Fault {
    Fault::Invalid("empty, oversized or NUL-containing text"@)
}

pub open spec fn scope_fault(list: Seq<Seq<char>>) -> Option<Fault> {
    if list.len() == 0 || list.len() > 128 {
        Some(Fault::Invalid("policy scope must contain 1..128 entries"@))
    } else if exists|i: int| 0 <= i < list.len() && !is_text(#[trigger] list[i], MAX_ID as nat) {
        Some(bad_text())
    } else {
        None
    }
}

/// The first rule a policy breaks.
pub open spec fn policy_fault(p: PolicyView) -> Option<Fault> {
    if !is_text(p.id, MAX_ID as nat) || !is_text(p.delegation, MAX_REASON as nat) {
        Some(bad_text())
    } else if p.version == 0 || !(1 <= p.ttl_secs <= 86400) {
        Some(Fault::Invalid("policy version or TTL"@))
    } else if p.reviewer is Harness && !is_text(p.reviewer->harness_id, MAX_ID as nat) {
        Some(bad_text())
    } else if scope_fault(p.allowed_targets) is Some {
        scope_fault(p.allowed_targets)
    } else {
        scope_fault(p.allowed_action_kinds)
    }
}

/// The kind an action names.
pub open spec fn kind_of(action: Tree) -> Option<Seq<char>> {
    match member(action, "kind"@) {
        Some(Tree::Text(kind)) => Some(kind),
        _ => None,
    }
}

/// Target and action kind both lie in the policy's scope.
pub open spec fn allows(p: PolicyView, o: OperationView) -> bool {
    &&& p.allowed_targets.contains(o.target)
    &&& kind_of(o.action) is Some
    &&& p.allowed_action_kinds.contains(kind_of(o.action)->0)
}

/// The first rule a proposed operation breaks.
pub open spec fn operation_fault(o: OperationView) -> Option<Fault> {
    if !is_text(o.task_id, MAX_ID as nat) || !is_text(o.operation_id, MAX_ID as nat) || !is_text(o.target, MAX_ID as nat) {
        Some(bad_text())
    } else if kind_of(o.action) is None {
        Some(Fault::Invalid("action must be an object with a string kind"@))
    } else if !is_text(kind_of(o.action)->0, MAX_ID as nat) {
        Some(bad_text())
    } else if encoded_size(o.action) > MAX_ACTION {
        Some(Fault::Invalid("action is too large"@))
    } else {
        None
    }
}

/// The same operation, with actions compared as values.
pub open spec fn same_operation(a: OperationView, b: OperationView) -> bool {
    &&& a.task_id == b.task_id
    &&& a.task_revision == b.task_revision
    &&& a.operation_id == b.operation_id
    &&& a.target == b.target
    &&& alike(a.action, b.action)
}

pub open spec fn state_name(state: ApprovalState) -> Seq<char> {
    match state {
        ApprovalState::Pending => "Pending"@,
        ApprovalState::WaitingHuman => "WaitingHuman"@,
        ApprovalState::Approved => "Approved"@,
        ApprovalState::Denied => "Denied"@,
        ApprovalState::Revoked => "Revoked"@,
        ApprovalState::Canceled => "Canceled"@,
        ApprovalState::Expired => "Expired"@,
        ApprovalState::Executing => "Executing"@,
        ApprovalState::Executed => "Executed"@,
        ApprovalState::Failed => "Failed"@,
        ApprovalState::Unknown => "Unknown"@,
    }
}

/// The text shown for a refusal.
pub open spec fn fault_message(fault: Fault) -> Seq<char> {
    match fault {
        Fault::Invalid(m) => "invalid approval input: "@ + m,
        Fault::NotFound => "approval request was not found"@,
        Fault::Conflict => "approval input conflicts with the durable request"@,
        Fault::OutOfScope => "operation falls outside the trusted policy scope"@,
        Fault::Expired => "approval is expired"@,
        Fault::InvalidState(s) => "approval transition is not allowed from "@ + state_name(s),
        Fault::TargetBusy => "target has executing or unresolved work"@,
        Fault::Capacity => "approval storage capacity reached"@,
        Fault::Locked(m) => "approval journal writer is already locked: "@ + m,
        Fault::Corrupt(m) => "approval journal is corrupt: "@ + m,
        Fault::Unavailable => "approval store is unavailable after an I/O failure"@,
        Fault::Io(m) => "approval storage I/O: "@ + m,
        Fault::Json(m) => "approval JSON: "@ + m,
    }
}

impl ApprovalState {
    pub fn debug_name(self) -> (r: &'static str)
        ensures
            r@ == state_name(self),
    {
        match self {
            ApprovalState::Pending => "Pending",
            ApprovalState::WaitingHuman => "WaitingHuman",
            ApprovalState::Approved => "Approved",
            ApprovalState::Denied => "Denied",
            ApprovalState::Revoked => "Revoked",
            ApprovalState::Canceled => "Canceled",
            ApprovalState::Expired => "Expired",
            ApprovalState::Executing => "Executing",
            ApprovalState::Executed => "Executed",
            ApprovalState::Failed => "Failed",
            ApprovalState::Unknown => "Unknown",
        }
    }
}

impl ApprovalError {
    /// The text shown for this refusal.
    pub fn message(&self) -> (r: String)
        ensures
            r@ == fault_message(self@),
    {
        match self {
            ApprovalError::Invalid(m) => joined("invalid approval input: ", m),
            ApprovalError::NotFound => crate::text::copied("approval request was not found"),
            ApprovalError::Conflict => crate::text::copied("approval input conflicts with the durable request"),
            ApprovalError::OutOfScope => crate::text::copied("operation falls outside the trusted policy scope"),
            ApprovalError::Expired => crate::text::copied("approval is expired"),
            ApprovalError::InvalidState(s) => joined("approval transition is not allowed from ", s.debug_name()),
            ApprovalError::TargetBusy => crate::text::copied("target has executing or unresolved work"),
            ApprovalError::Capacity => crate::text::copied("approval storage capacity reached"),
            ApprovalError::Locked(m) => joined("approval journal writer is already locked: ", m),
            ApprovalError::Corrupt(m) => joined("approval journal is corrupt: ", m),
            ApprovalError::Unavailable => crate::text::copied("approval store is unavailable after an I/O failure"),
            ApprovalError::Io(m) => joined("approval storage I/O: ", m),
            ApprovalError::Json(m) => joined("approval JSON: ", m),
        }
    }
}

/// Checks a bounded text.
pub fn text(value: &str, maximum: usize) -> (r: Result<(), ApprovalError>)
    ensures
        r is Ok <==> is_text(value@, maximum as nat),
        r is Err ==> r->Err_0@ == bad_text(),
{
    if blank(value) || utf8_len(value) > maximum || contains(value, '\0') {
        Err(ApprovalError::Invalid("empty, oversized or NUL-containing text"))
    } else {
        Ok(())
    }
}

fn scope(list: &Vec<String>) -> (r: Result<(), ApprovalError>)
    ensures
        match r {
            Ok(_) => scope_fault(texts(list@)) is None,
            Err(e) => scope_fault(texts(list@)) == Some(e@),
        },
{
    if list.len() == 0 || list.len() > 128 {
        return Err(ApprovalError::Invalid("policy scope must contain 1..128 entries"));
    }
    let mut i: usize = 0;
    while i < list.len()
        invariant
            i <= list.len(),
            0 < list.len() <= 128,
            forall|j: int| 0 <= j < i ==> is_text(#[trigger] list@[j]@, MAX_ID as nat),
        decreases list.len() - i,
    {
        if let Err(e) = text(&list[i], MAX_ID) {
            assert(!is_text(texts(list@)[i as int], MAX_ID as nat));
            return Err(e);
        }
        i = i + 1;
    }
    assert forall|j: int| 0 <= j < texts(list@).len() implies is_text(#[trigger] texts(list@)[j], MAX_ID as nat) by {
        assert(is_text(list@[j]@, MAX_ID as nat));
    }
    Ok(())
}

impl ApprovalPolicy {
    pub fn validate(&self) -> (r: Result<(), ApprovalError>)
        ensures
            match r {
                Ok(_) => policy_fault(self@) is None,
                Err(e) => policy_fault(self@) == Some(e@),
            },
    {
        if let Err(e) = text(&self.id, MAX_ID) {
            return Err(e);
        }
        if let Err(e) = text(&self.delegation, MAX_REASON) {
            return Err(e);
        }
        if self.version == 0 || self.ttl_secs < 1 || self.ttl_secs > 86400 {
            return Err(ApprovalError::Invalid("policy version or TTL"));
        }
        if let ReviewerConfig::Harness { harness_id } = &self.reviewer {
            if let Err(e) = text(harness_id, MAX_ID) {
                return Err(e);
            }
        }
        if let Err(e) = scope(&self.allowed_targets) {
            return Err(e);
        }
        scope(&self.allowed_action_kinds)
    }

    pub fn allows(&self, operation: &ProposedOperation) -> (r: bool)
        ensures
            r == allows(self@, operation@),
    {
        if !listed(&self.allowed_targets, &operation.target) {
            return false;
        }
        match operation.action.get("kind") {
            Some(Json::Text(kind)) => listed(&self.allowed_action_kinds, kind),
            _ => false,
        }
    }

    pub fn equals(&self, other: &ApprovalPolicy) -> (r: bool)
        ensures
            r == (self@ == other@),
    {
        let reviewer = match (&self.reviewer, &other.reviewer) {
            (ReviewerConfig::Human, ReviewerConfig::Human) => true,
            (ReviewerConfig::Harness { harness_id: a }, ReviewerConfig::Harness { harness_id: b }) => same(a, b),
            _ => false,
        };
        reviewer && same(&self.id, &other.id) && self.version == other.version && same(&self.delegation, &other.delegation)
            && same_list(&self.allowed_targets, &other.allowed_targets) && same_list(
            &self.allowed_action_kinds,
            &other.allowed_action_kinds,
        ) && self.ttl_secs == other.ttl_secs
    }
}

/// Whether two lists hold the same texts in the same order.
pub fn same_list(a: &Vec<String>, b: &Vec<String>) -> (r: bool)
    ensures
        r == (texts(a@) == texts(b@)),
{
    if a.len() != b.len() {
        assert(texts(a@).len() != texts(b@).len());
        return false;
    }
    let mut i: usize = 0;
    while i < a.len()
        invariant
            i <= a.len() == b.len(),
            forall|j: int| 0 <= j < i ==> #[trigger] a@[j]@ == b@[j]@,
        decreases a.len() - i,
    {
        if !same(&a[i], &b[i]) {
            assert(texts(a@)[i as int] != texts(b@)[i as int]);
            return false;
        }
        i = i + 1;
    }
    assert(texts(a@) =~= texts(b@));
    true
}

impl ProposedOperation {
    pub fn validate(&self) -> (r: Result<(), ApprovalError>)
        ensures
            match r {
                Ok(_) => operation_fault(self@) is None,
                Err(e) => operation_fault(self@) == Some(e@),
            },
    {
        if let Err(e) = text(&self.task_id, MAX_ID) {
            return Err(e);
        }
        if let Err(e) = text(&self.operation_id, MAX_ID) {
            return Err(e);
        }
        if let Err(e) = text(&self.target, MAX_ID) {
            return Err(e);
        }
        match self.action.get("kind") {
            Some(Json::Text(kind)) => {
                if let Err(e) = text(kind, MAX_ID) {
                    return Err(e);
                }
            },
            _ => {
                return Err(ApprovalError::Invalid("action must be an object with a string kind"));
            },
        }
        if self.action.size() > MAX_ACTION {
            return Err(ApprovalError::Invalid("action is too large"));
        }
        Ok(())
    }

    pub fn equals(&self, other: &ProposedOperation) -> (r: bool)
        ensures
            r == same_operation(self@, other@),
    {
        same(&self.task_id, &other.task_id) && self.task_revision == other.task_revision && same(
            &self.operation_id,
            &other.operation_id,
        ) && same(&self.target, &other.target) && self.action.equals(&other.action)
    }
}

impl Clone for ReviewerConfig {
    fn clone(&self) -> (r: Self)
        ensures
            r@ == self@,
    {
        match self {
            ReviewerConfig::Human => ReviewerConfig::Human,
            ReviewerConfig::Harness { harness_id } => ReviewerConfig::Harness { harness_id: harness_id.clone() },
        }
    }
}

impl Clone for ApprovalPolicy {
    fn clone(&self) -> (r: Self)
        ensures
            r@ == self@,
    {
        ApprovalPolicy {
            id: self.id.clone(),
            version: self.version,
            reviewer: self.reviewer.clone(),
            delegation: self.delegation.clone(),
            allowed_targets: copied_list(&self.allowed_targets),
            allowed_action_kinds: copied_list(&self.allowed_action_kinds),
            ttl_secs: self.ttl_secs,
        }
    }
}

impl Clone for ProposedOperation {
    fn clone(&self) -> (r: Self)
        ensures
            r@ == self@,
    {
        ProposedOperation {
            task_id: self.task_id.clone(),
            task_revision: self.task_revision,
            operation_id: self.operation_id.clone(),
            target: self.target.clone(),
            action: self.action.copy(),
        }
    }
}

impl Clone for AssessmentSource {
    fn clone(&self) -> (r: Self)
        ensures
            r@ == self@,
    {
        match self {
            AssessmentSource::Harness { harness_id, session_id } => AssessmentSource::Harness {
                harness_id: harness_id.clone(),
                session_id: session_id.clone(),
            },
            AssessmentSource::Human { actor } => AssessmentSource::Human { actor: actor.clone() },
        }
    }
}

impl Clone for ApprovalAssessment {
    fn clone(&self) -> (r: Self)
        ensures
            r@ == self@,
    {
        ApprovalAssessment { decision: self.decision, reason: self.reason.clone(), reviewer: self.reviewer.clone() }
    }
}

impl Clone for ApprovalRequest {
    fn clone(&self) -> (r: Self)
        ensures
            r@ == self@,
    {
        ApprovalRequest {
            request_id: self.request_id.clone(),
            operation: self.operation.clone(),
            policy: self.policy.clone(),
            created_at: self.created_at,
            expires_at: self.expires_at,
        }
    }
}

impl Clone for ApprovalRecord {
    fn clone(&self) -> (r: Self)
        ensures
            r@ == self@,
    {
        ApprovalRecord {
            request: self.request.clone(),
            state: self.state,
            revision: self.revision,
            updated_at: self.updated_at,
            assessment: match &self.assessment {
                Some(a) => Some(a.clone()),
                None => None,
            },
            note: match &self.note {
                Some(n) => Some(n.clone()),
                None => None,
            },
        }
    }
}

} // verus!
