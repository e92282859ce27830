//! Validation of live and replayed approval state transitions.
use super::{
    allows, bad_text, is_text, operation_fault, policy_fault, text, ApprovalAssessment, ApprovalDecision,
    ApprovalError, ApprovalRecord, ApprovalRequest, ApprovalState, AssessmentSource, AssessmentView, Change,
    ChangeView, Event, EventView, ExecutionOutcome, Fault, RecordView, RequestView, ReviewerConfig, ReviewerView,
    SourceView, MAX_ID, MAX_REASON,
};
use crate::table::Table;
use crate::text::{copied, hex, hex_text, joined, same};
use vstd::prelude::*;

verus! {

/// The records of a table by request id.
pub open spec fn records_of(table: Table<ApprovalRecord>) -> Map<Seq<char>, RecordView> {
    table@.map_values(|r: ApprovalRecord| r@)
}

/// Work that may still touch its target.
pub open spec fn unsettled(state: ApprovalState) -> bool {
    state == ApprovalState::Executing || state == ApprovalState::Unknown
}

/// Some record holds the target.
pub open spec fn is_busy(records: Map<Seq<char>, RecordView>, target: Seq<char>) -> bool {
    exists|k: Seq<char>| #[trigger]
        records.contains_key(k) && records[k].request.operation.target == target && unsettled(records[k].state)
}

/// Some record already stands for this operation of the same task.
pub open spec fn is_taken(records: Map<Seq<char>, RecordView>, task_id: Seq<char>, operation_id: Seq<char>) -> bool {
    exists|k: Seq<char>| #[trigger]
        records.contains_key(k) && records[k].request.operation.task_id == task_id
            && records[k].request.operation.operation_id == operation_id
}

pub open spec fn request_id_of(sequence: u64) -> Seq<char> {
    "approval-"@ + hex(sequence as nat, 16)
}

pub open spec fn assessment_fault(a: AssessmentView) -> Option<Fault> {
    let valid = is_text(a.reason, MAX_REASON as nat) && match a.reviewer {
        SourceView::Harness { harness_id, session_id } => is_text(harness_id, MAX_ID as nat) && is_text(
            session_id,
            MAX_ID as nat,
        ),
        SourceView::Human { actor } => is_text(actor, MAX_ID as nat),
    };
    if valid { None } else { Some(bad_text()) }
}

/// Where a decision leads: approval needs the operation to lie in the policy's scope.
pub open spec fn decided(request: RequestView, decision: ApprovalDecision) -> Result<ApprovalState, Fault> {
    match decision {
        ApprovalDecision::Approve => if allows(request.policy, request.operation) {
            Ok(ApprovalState::Approved)
        } else {
            Err(Fault::OutOfScope)
        },
        ApprovalDecision::Deny => Ok(ApprovalState::Denied),
        ApprovalDecision::Escalate => Ok(ApprovalState::WaitingHuman),
    }
}

pub open spec fn outcome_of(outcome: ExecutionOutcome) -> ApprovalState {
    match outcome {
        ExecutionOutcome::Executed => ApprovalState::Executed,
        ExecutionOutcome::Failed => ApprovalState::Failed,
        ExecutionOutcome::Unknown => ApprovalState::Unknown,
    }
}

/// Waiting for a decision.
pub open spec fn undecided(state: ApprovalState) -> bool {
    state == ApprovalState::Pending || state == ApprovalState::WaitingHuman
}

pub open spec fn with_assessment(r: RecordView, a: AssessmentView) -> Result<RecordView, Fault> {
    match decided(r.request, a.decision) {
        Ok(state) => Ok(RecordView { state, assessment: Some(a), ..r }),
        Err(f) => Err(f),
    }
}

pub open spec fn withdrawn(r: RecordView, reason: Seq<char>, to: ApprovalState) -> Result<RecordView, Fault> {
    if !is_text(reason, MAX_REASON as nat) {
        Err(bad_text())
    } else if !undecided(r.state) && r.state != ApprovalState::Approved && r.state != ApprovalState::Executing {
        Err(Fault::InvalidState(r.state))
    } else {
        Ok(
            RecordView {
                state: if r.state == ApprovalState::Executing { ApprovalState::Unknown } else { to },
                note: Some(reason),
                ..r
            },
        )
    }
}

pub open spec fn restart_note() -> Seq<char> {
    "host restarted with an unconfirmed execution intent"@
}

/// State, assessment and note after a change, before the revision is counted.
pub open spec fn moved(r: RecordView, busy: bool, change: ChangeView, now: u64) -> Result<RecordView, Fault> {
    let live = now < r.request.expires_at;
    match change {
        ChangeView::Assess { assessment } => if r.state != ApprovalState::Pending {
            Err(Fault::InvalidState(r.state))
        } else if !live {
            Err(Fault::Expired)
        } else if assessment_fault(assessment) is Some {
            Err(bad_text())
        } else {
            match (r.request.policy.reviewer, assessment.reviewer) {
                (ReviewerView::Harness { harness_id: wanted }, SourceView::Harness { harness_id: actual, .. }) => if wanted
                    == actual {
                    with_assessment(r, assessment)
                } else {
                    Err(Fault::Conflict)
                },
                _ => Err(Fault::Conflict),
            }
        },
        ChangeView::HumanDecision { assessment } => if !undecided(r.state) {
            Err(Fault::InvalidState(r.state))
        } else if !live {
            Err(Fault::Expired)
        } else if assessment_fault(assessment) is Some {
            Err(bad_text())
        } else if assessment.reviewer is Harness {
            Err(Fault::Invalid("human review required"@))
        } else {
            with_assessment(r, assessment)
        },
        ChangeView::Revoke { reason } => withdrawn(r, reason, ApprovalState::Revoked),
        ChangeView::Cancel { reason } => withdrawn(r, reason, ApprovalState::Canceled),
        ChangeView::WaitingHuman { reason } => if r.state != ApprovalState::Pending {
            Err(Fault::InvalidState(r.state))
        } else if !live {
            Err(Fault::Expired)
        } else if !is_text(reason, MAX_REASON as nat) {
            Err(bad_text())
        } else {
            Ok(RecordView { state: ApprovalState::WaitingHuman, note: Some(reason), ..r })
        },
        ChangeView::Expire => if !undecided(r.state) && r.state != ApprovalState::Approved {
            Err(Fault::InvalidState(r.state))
        } else if live {
            Err(Fault::Invalid("premature expiry"@))
        } else {
            Ok(RecordView { state: ApprovalState::Expired, ..r })
        },
        ChangeView::Consume => if r.state != ApprovalState::Approved {
            Err(Fault::InvalidState(r.state))
        } else if !live {
            Err(Fault::Expired)
        } else if !allows(r.request.policy, r.request.operation) {
            Err(Fault::OutOfScope)
        } else if busy {
            Err(Fault::TargetBusy)
        } else {
            Ok(RecordView { state: ApprovalState::Executing, ..r })
        },
        ChangeView::Complete { outcome, reason } => if r.state != ApprovalState::Executing {
            Err(Fault::InvalidState(r.state))
        } else if !is_text(reason, MAX_REASON as nat) {
            Err(bad_text())
        } else {
            Ok(RecordView { state: outcome_of(outcome), note: Some(reason), ..r })
        },
        ChangeView::RecoverUnknown => if r.state != ApprovalState::Executing {
            Err(Fault::InvalidState(r.state))
        } else {
            Ok(RecordView { state: ApprovalState::Unknown, note: Some(restart_note()), ..r })
        },
        ChangeView::Reconcile { outcome, reason, actor } => if r.state != ApprovalState::Unknown {
            Err(Fault::InvalidState(r.state))
        } else if outcome == ExecutionOutcome::Unknown {
            Err(Fault::Invalid("reconciliation requires a verified terminal outcome"@))
        } else if !is_text(reason, MAX_REASON as nat) || !is_text(actor, MAX_ID as nat) {
            Err(bad_text())
        } else {
            Ok(RecordView { state: outcome_of(outcome), note: Some("verified by "@ + actor + ": "@ + reason), ..r })
        },
    }
}

/// The record after a change, or why the change is refused.
pub open spec fn changed(r: RecordView, busy: bool, change: ChangeView, now: u64) -> Result<RecordView, Fault> {
    if now < r.updated_at {
        Err(Fault::Invalid("clock moved backwards"@))
    } else {
        match moved(r, busy, change, now) {
            Err(f) => Err(f),
            Ok(next) => if r.revision == u64::MAX {
                Err(Fault::Capacity)
            } else {
                Ok(RecordView { revision: (r.revision + 1) as u64, updated_at: now, ..next })
            },
        }
    }
}

/// The record of a new request, or why it is refused.
pub open spec fn requested(
    records: Map<Seq<char>, RecordView>,
    max_requests: usize,
    request: RequestView,
    now: u64,
    sequence: u64,
) -> Result<RecordView, Fault> {
    if operation_fault(request.operation) is Some {
        Err(operation_fault(request.operation)->0)
    } else if policy_fault(request.policy) is Some {
        Err(policy_fault(request.policy)->0)
    } else if records.dom().len() >= max_requests {
        Err(Fault::Capacity)
    } else if request.request_id != request_id_of(sequence) || request.created_at != now || request.created_at
        + request.policy.ttl_secs != request.expires_at || is_taken(
        records,
        request.operation.task_id,
        request.operation.operation_id,
    ) {
        Err(Fault::Conflict)
    } else {
        Ok(
            RecordView {
                request,
                state: ApprovalState::Pending,
                revision: 0,
                updated_at: now,
                assessment: None,
                note: None,
            },
        )
    }
}

/// What one event makes of the records: the record it writes, or its refusal.
pub open spec fn applied(
    records: Map<Seq<char>, RecordView>,
    max_requests: usize,
    event: EventView,
    now: u64,
    sequence: u64,
) -> Result<RecordView, Fault> {
    match event {
        EventView::Requested { request } => requested(records, max_requests, request, now, sequence),
        EventView::Changed { request_id, change } => if records.contains_key(request_id) {
            changed(records[request_id], is_busy(records, records[request_id].request.operation.target), change, now)
        } else {
            Err(Fault::NotFound)
        },
    }
}

fn busy(records: &Table<ApprovalRecord>, target: &str) -> (r: bool)
    requires
        records.wf(),
    ensures
        r == is_busy(records_of(*records), target@),
{
    let ghost map = records_of(*records);
    let mut i: usize = 0;
    while i < records.len()
        invariant
            i <= records.listed().len(),
            records.wf(),
            map == records_of(*records),
            forall|j: int|
                0 <= j < i ==> !((#[trigger] records.listed()[j]).1.request.operation.target@ == target@ && unsettled(
                    records.listed()[j].1.state,
                )),
        decreases records.listed().len() - i,
    {
        let record = records.value(i);
        if same(&record.request.operation.target, target) && (record.state == ApprovalState::Executing || record.state
            == ApprovalState::Unknown) {
            proof {
                records.entry_at(i as int);
                assert(map.contains_key(records.listed()[i as int].0@));
            }
            return true;
        }
        i = i + 1;
    }
    proof {
        if is_busy(map, target@) {
            let k = choose|k: Seq<char>| #[trigger]
                map.contains_key(k) && map[k].request.operation.target == target@ && unsettled(map[k].state);
            let p = records.entry_of(k);
            assert(records.listed()[p].1@ == map[k]);
        }
    }
    false
}

/// Where the record of this operation of the same task stands.
pub(super) fn find_operation(records: &Table<ApprovalRecord>, task_id: &str, operation_id: &str) -> (r: Option<usize>)
    requires
        records.wf(),
    ensures
        match r {
            Some(i) => i < records.listed().len() && records.listed()[i as int].1.request.operation.task_id@ == task_id@
                && records.listed()[i as int].1.request.operation.operation_id@ == operation_id@ && is_taken(
                records_of(*records),
                task_id@,
                operation_id@,
            ),
            None => !is_taken(records_of(*records), task_id@, operation_id@),
        },
{
    let ghost map = records_of(*records);
    let mut i: usize = 0;
    while i < records.len()
        invariant
            i <= records.listed().len(),
            records.wf(),
            map == records_of(*records),
            forall|j: int|
                0 <= j < i ==> !((#[trigger] records.listed()[j]).1.request.operation.task_id@ == task_id@
                    && records.listed()[j].1.request.operation.operation_id@ == operation_id@),
        decreases records.listed().len() - i,
    {
        let record = records.value(i);
        if same(&record.request.operation.task_id, task_id) && same(&record.request.operation.operation_id, operation_id) {
            proof {
                records.entry_at(i as int);
                assert(map.contains_key(records.listed()[i as int].0@));
            }
            return Some(i);
        }
        i = i + 1;
    }
    proof {
        if is_taken(map, task_id@, operation_id@) {
            let k = choose|k: Seq<char>| #[trigger]
                map.contains_key(k) && map[k].request.operation.task_id == task_id@
                    && map[k].request.operation.operation_id == operation_id@;
            let p = records.entry_of(k);
            assert(records.listed()[p].1@ == map[k]);
        }
    }
    None
}

fn check_assessment(assessment: &ApprovalAssessment) -> (r: Result<(), ApprovalError>)
    ensures
        match r {
            Ok(_) => assessment_fault(assessment@) is None,
            Err(e) => assessment_fault(assessment@) == Some(e@) && e@ == bad_text(),
        },
{
    if let Err(e) = text(&assessment.reason, MAX_REASON) {
        return Err(e);
    }
    match &assessment.reviewer {
        AssessmentSource::Harness { harness_id, session_id } => {
            if let Err(e) = text(harness_id, MAX_ID) {
                return Err(e);
            }
            text(session_id, MAX_ID)
        },
        AssessmentSource::Human { actor } => text(actor, MAX_ID),
    }
}

fn decision_state(request: &ApprovalRequest, decision: ApprovalDecision) -> (r: Result<ApprovalState, ApprovalError>)
    ensures
        match r {
            Ok(s) => decided(request@, decision) == Ok::<ApprovalState, Fault>(s),
            Err(e) => decided(request@, decision) == Err::<ApprovalState, Fault>(e@),
        },
{
    match decision {
        ApprovalDecision::Approve => if request.policy.allows(&request.operation) {
            Ok(ApprovalState::Approved)
        } else {
            Err(ApprovalError::OutOfScope)
        },
        ApprovalDecision::Deny => Ok(ApprovalState::Denied),
        ApprovalDecision::Escalate => Ok(ApprovalState::WaitingHuman),
    }
}

fn outcome_state(outcome: ExecutionOutcome) -> (r: ApprovalState)
    ensures
        r == outcome_of(outcome),
{
    match outcome {
        ExecutionOutcome::Executed => ApprovalState::Executed,
        ExecutionOutcome::Failed => ApprovalState::Failed,
        ExecutionOutcome::Unknown => ApprovalState::Unknown,
    }
}

/// Agreement of an executable outcome with its model.
pub open spec fn agrees(r: Result<ApprovalRecord, ApprovalError>, model: Result<RecordView, Fault>) -> bool {
    match r {
        Ok(record) => model == Ok::<RecordView, Fault>(record@),
        Err(e) => model == Err::<RecordView, Fault>(e@),
    }
}

fn withdraw(mut record: ApprovalRecord, reason: &str, to: ApprovalState) -> (r: Result<ApprovalRecord, ApprovalError>)
    ensures
        agrees(r, withdrawn(record@, reason@, to)),
{
    if let Err(e) = text(reason, MAX_REASON) {
        return Err(e);
    }
    match record.state {
        ApprovalState::Pending | ApprovalState::WaitingHuman | ApprovalState::Approved => {
            record.state = to;
        },
        ApprovalState::Executing => {
            record.state = ApprovalState::Unknown;
        },
        other => {
            return Err(ApprovalError::InvalidState(other));
        },
    }
    record.note = Some(copied(reason));
    Ok(record)
}

fn take_assessment(mut record: ApprovalRecord, assessment: &ApprovalAssessment) -> (r: Result<ApprovalRecord, ApprovalError>)
    ensures
        agrees(r, with_assessment(record@, assessment@)),
{
    match decision_state(&record.request, assessment.decision) {
        Ok(state) => {
            record.state = state;
            record.assessment = Some(assessment.clone());
            Ok(record)
        },
        Err(e) => Err(e),
    }
}

fn step(mut record: ApprovalRecord, busy: bool, change: &Change, now: u64) -> (r: Result<ApprovalRecord, ApprovalError>)
    ensures
        agrees(r, moved(record@, busy, change@, now)),
{
    let state = record.state;
    let live = now < record.request.expires_at;
    match change {
        Change::Assess { assessment } => {
            if state != ApprovalState::Pending {
                return Err(ApprovalError::InvalidState(state));
            }
            if !live {
                return Err(ApprovalError::Expired);
            }
            if let Err(e) = check_assessment(assessment) {
                return Err(e);
            }
            match (&record.request.policy.reviewer, &assessment.reviewer) {
                (
                    ReviewerConfig::Harness { harness_id },
                    AssessmentSource::Harness { harness_id: actual, session_id: _ },
                ) => {
                    if !same(harness_id, actual) {
                        return Err(ApprovalError::Conflict);
                    }
                },
                _ => {
                    return Err(ApprovalError::Conflict);
                },
            }
            take_assessment(record, assessment)
        },
        Change::HumanDecision { assessment } => {
            if state != ApprovalState::Pending && state != ApprovalState::WaitingHuman {
                return Err(ApprovalError::InvalidState(state));
            }
            if !live {
                return Err(ApprovalError::Expired);
            }
            if let Err(e) = check_assessment(assessment) {
                return Err(e);
            }
            if let AssessmentSource::Harness { harness_id: _, session_id: _ } = &assessment.reviewer {
                return Err(ApprovalError::Invalid("human review required"));
            }
            take_assessment(record, assessment)
        },
        Change::Revoke { reason } => withdraw(record, reason, ApprovalState::Revoked),
        Change::Cancel { reason } => withdraw(record, reason, ApprovalState::Canceled),
        Change::WaitingHuman { reason } => {
            if state != ApprovalState::Pending {
                return Err(ApprovalError::InvalidState(state));
            }
            if !live {
                return Err(ApprovalError::Expired);
            }
            if let Err(e) = text(reason, MAX_REASON) {
                return Err(e);
            }
            record.state = ApprovalState::WaitingHuman;
            record.note = Some(copied(reason));
            Ok(record)
        },
        Change::Expire => {
            if state != ApprovalState::Pending && state != ApprovalState::WaitingHuman && state != ApprovalState::Approved {
                return Err(ApprovalError::InvalidState(state));
            }
            if live {
                return Err(ApprovalError::Invalid("premature expiry"));
            }
            record.state = ApprovalState::Expired;
            Ok(record)
        },
        Change::Consume => {
            if state != ApprovalState::Approved {
                return Err(ApprovalError::InvalidState(state));
            }
            if !live {
                return Err(ApprovalError::Expired);
            }
            if !record.request.policy.allows(&record.request.operation) {
                return Err(ApprovalError::OutOfScope);
            }
            if busy {
                return Err(ApprovalError::TargetBusy);
            }
            record.state = ApprovalState::Executing;
            Ok(record)
        },
        Change::Complete { outcome, reason } => {
            if state != ApprovalState::Executing {
                return Err(ApprovalError::InvalidState(state));
            }
            if let Err(e) = text(reason, MAX_REASON) {
                return Err(e);
            }
            record.state = outcome_state(*outcome);
            record.note = Some(copied(reason));
            Ok(record)
        },
        Change::RecoverUnknown => {
            if state != ApprovalState::Executing {
                return Err(ApprovalError::InvalidState(state));
            }
            record.state = ApprovalState::Unknown;
            record.note = Some(copied("host restarted with an unconfirmed execution intent"));
            Ok(record)
        },
        Change::Reconcile { outcome, reason, actor } => {
            if state != ApprovalState::Unknown {
                return Err(ApprovalError::InvalidState(state));
            }
            if *outcome == ExecutionOutcome::Unknown {
                return Err(ApprovalError::Invalid("reconciliation requires a verified terminal outcome"));
            }
            if let Err(e) = text(reason, MAX_REASON) {
                return Err(e);
            }
            if let Err(e) = text(actor, MAX_ID) {
                return Err(e);
            }
            record.state = outcome_state(*outcome);
            let named = joined("verified by ", actor);
            let named = joined(&named, ": ");
            record.note = Some(joined(&named, reason));
            Ok(record)
        },
    }
}

/// The request id of a journal sequence number.
pub fn request_id(sequence: u64) -> (r: String)
    ensures
        r@ == request_id_of(sequence),
{
    joined("approval-", &hex_text(sequence, 16))
}

/// The record that an event writes, or why it is refused. Live events and
/// replayed ones go through here alike.
pub fn apply(records: &Table<ApprovalRecord>, max_requests: usize, event: &Event, now: u64, sequence: u64) -> (r: Result<
    ApprovalRecord,
    ApprovalError,
>)
    requires
        records.wf(),
    ensures
        agrees(r, applied(records_of(*records), max_requests, event@, now, sequence)),
{
    match event {
        Event::Requested { request } => {
            if let Err(e) = request.operation.validate() {
                return Err(e);
            }
            if let Err(e) = request.policy.validate() {
                return Err(e);
            }
            proof {
                records.lists_its_entries();
                assert(records_of(*records).dom() =~= records@.dom());
            }
            if records.len() >= max_requests {
                return Err(ApprovalError::Capacity);
            }
            let expires: Option<u64> = request.created_at.checked_add(request.policy.ttl_secs);
            let expiry_agrees = match expires {
                Some(at) => at == request.expires_at,
                None => false,
            };
            if !same(&request.request_id, &request_id(sequence)) || request.created_at != now || !expiry_agrees
                || find_operation(records, &request.operation.task_id, &request.operation.operation_id).is_some() {
                return Err(ApprovalError::Conflict);
            }
            Ok(
                ApprovalRecord {
                    request: request.clone(),
                    state: ApprovalState::Pending,
                    revision: 0,
                    updated_at: now,
                    assessment: None,
                    note: None,
                },
            )
        },
        Event::Changed { request_id, change } => {
            let record: &ApprovalRecord = match records.get(request_id) {
                Some(record) => record,
                None => {
                    return Err(ApprovalError::NotFound);
                },
            };
            if now < record.updated_at {
                return Err(ApprovalError::Invalid("clock moved backwards"));
            }
            let held = busy(records, &record.request.operation.target);
            let revision: u64 = record.revision;
            match step(record.clone(), held, change, now) {
                Ok(mut next) => {
                    if revision == u64::MAX {
                        return Err(ApprovalError::Capacity);
                    }
                    next.revision = revision + 1;
                    next.updated_at = now;
                    Ok(next)
                },
                Err(e) => Err(e),
            }
        },
    }
}

} // verus!
