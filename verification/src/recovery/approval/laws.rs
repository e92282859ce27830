//! What holds of approvals across operations.
use super::store::{
    after_installation, completion, consumption, current_fault, guarded, installation, intent_installation, is_intent,
    issued, lapsed, permit_for, planned, planned_change, requested, sound, EntryView, PermitView, Step, StepView, StoreView,
};
use super::transitions::{applied, changed, is_busy, is_taken, request_id_of, restart_note, undecided, unsettled};
use super::{
    allows, is_text, operation_fault, policy_fault, same_operation, ApprovalDecision, ApprovalError, ApprovalState,
    AssessmentView, ChangeView, EventView, ExecutionOutcome, Fault, OperationView, PolicyView, RecordView, RequestView,
    ReviewerView, MAX_ID, MAX_REASON, MAX_RECORD,
};
use crate::json::{alike, member};
use crate::text::{byte_len, hex, hex_injective, less, less_irreflexive};
use vstd::prelude::*;

verus! {

/// Different sequence numbers give different request ids.
pub proof fn request_ids_differ(a: u64, b: u64)
    requires
        request_id_of(a) == request_id_of(b),
    ensures
        a == b,
{
    let p = "approval-"@;
    let x = hex(a as nat, 16);
    let y = hex(b as nat, 16);
    assert((p + x).subrange(p.len() as int, (p + x).len() as int) =~= x);
    assert((p + y).subrange(p.len() as int, (p + y).len() as int) =~= y);
    assert(vstd::arithmetic::power::pow(16, 16) == 0x1_0000_0000_0000_0000) by {
        reveal_with_fuel(vstd::arithmetic::power::pow, 17);
    }
    hex_injective(a as nat, b as nat, 16);
}

/// The next sequence number gives an id that no record has.
pub proof fn fresh_request_id(records: Map<Seq<char>, RecordView>, sequence: u64)
    requires
        sound(records, sequence),
        sequence < u64::MAX,
    ensures
        !records.contains_key(request_id_of((sequence + 1) as u64)),
{
    let id = request_id_of((sequence + 1) as u64);
    if records.contains_key(id) {
        assert(issued(id, sequence));
        let n = choose|n: u64| n <= sequence && id == #[trigger] request_id_of(n);
        request_ids_differ(n, (sequence + 1) as u64);
    }
}

/// A change keeps the request of its record, raises the revision by one and
/// takes the time of the change, which never lies before the previous one.
pub proof fn change_keeps_request(
    records: Map<Seq<char>, RecordView>,
    max_requests: usize,
    event: EventView,
    now: u64,
    sequence: u64,
)
    requires
        event is Changed,
        applied(records, max_requests, event, now, sequence) is Ok,
    ensures
        ({
            let id = event->request_id;
            let r = applied(records, max_requests, event, now, sequence)->Ok_0;
            &&& records.contains_key(id)
            &&& r.request == records[id].request
            &&& r.revision == records[id].revision + 1
            &&& r.updated_at == now
            &&& now >= records[id].updated_at
        }),
{
}

/// Every event that the store accepts keeps its records sound.
pub proof fn installing_keeps_sound(
    records: Map<Seq<char>, RecordView>,
    max_requests: usize,
    event: EventView,
    now: u64,
    sequence: u64,
)
    requires
        sound(records, sequence),
        sequence < u64::MAX,
        applied(records, max_requests, event, now, (sequence + 1) as u64) is Ok,
    ensures
        ({
            let r = applied(records, max_requests, event, now, (sequence + 1) as u64)->Ok_0;
            sound(records.insert(r.request.request_id, r), (sequence + 1) as u64)
        }),
{
    let next = (sequence + 1) as u64;
    let r = applied(records, max_requests, event, now, next)->Ok_0;
    let id = r.request.request_id;
    let after = records.insert(id, r);
    match event {
        EventView::Requested { request } => {
            fresh_request_id(records, sequence);
            assert(id == request_id_of(next));
            assert(issued(id, next));
        },
        EventView::Changed { request_id, change } => {
            change_keeps_request(records, max_requests, event, now, next);
            assert(records.contains_key(request_id));
            assert(id == request_id);
        },
    }
    assert forall|k: Seq<char>| #[trigger] after.contains_key(k) implies after[k].request.request_id == k && issued(k, next) by {
        if k != id {
            assert(records.contains_key(k));
            let n = choose|n: u64| n <= sequence && k == #[trigger] request_id_of(n);
            assert(n <= next && k == request_id_of(n));
        } else if event is Changed {
            assert(records.contains_key(k));
            let n = choose|n: u64| n <= sequence && k == #[trigger] request_id_of(n);
            assert(n <= next && k == request_id_of(n));
        }
    }
    assert forall|a: Seq<char>, b: Seq<char>| #[trigger]
        after.contains_key(a) && #[trigger] after.contains_key(b) && after[a].request.operation.task_id
            == after[b].request.operation.task_id && after[a].request.operation.operation_id
            == after[b].request.operation.operation_id implies a == b by {
        if event is Requested {
            if a != id && b == id {
                assert(records.contains_key(a));
                assert(is_taken(records, r.request.operation.task_id, r.request.operation.operation_id));
            }
            if b != id && a == id {
                assert(records.contains_key(b));
                assert(is_taken(records, r.request.operation.task_id, r.request.operation.operation_id));
            }
            if a != id && b != id {
                assert(records.contains_key(a) && records.contains_key(b));
            }
        } else {
            assert(records.contains_key(a) && records.contains_key(b));
        }
    }
    assert forall|a: Seq<char>, b: Seq<char>| #[trigger]
        after.contains_key(a) && #[trigger] after.contains_key(b) && unsettled(after[a].state) && unsettled(after[b].state)
            && after[a].request.operation.target == after[b].request.operation.target implies a == b by {
        if event is Changed {
            assert(records.contains_key(a) && records.contains_key(b));
            let was = records[id];
            if !unsettled(was.state) && unsettled(r.state) {
                assert(event->change == ChangeView::Consume);
                assert(!is_busy(records, was.request.operation.target));
            }
        } else {
            if a != id { assert(records.contains_key(a)); }
            if b != id { assert(records.contains_key(b)); }
        }
    }
}

/// Denied, revoked, canceled, expired, executed and failed requests never change again.
pub proof fn final_states_stay(r: RecordView, busy: bool, change: ChangeView, now: u64)
    requires
        r.state == ApprovalState::Denied || r.state == ApprovalState::Revoked || r.state == ApprovalState::Canceled
            || r.state == ApprovalState::Expired || r.state == ApprovalState::Executed || r.state == ApprovalState::Failed,
    ensures
        changed(r, busy, change, now) is Err,
{
}

/// A request becomes approved only while it is undecided and unexpired, and
/// only if its policy allows the operation.
pub proof fn approval_needs_scope_and_time(r: RecordView, busy: bool, change: ChangeView, now: u64)
    requires
        changed(r, busy, change, now) is Ok,
        changed(r, busy, change, now)->Ok_0.state == ApprovalState::Approved,
    ensures
        undecided(r.state),
        now < r.request.expires_at,
        allows(r.request.policy, r.request.operation),
        change is Assess || change is HumanDecision,
{
}

/// Execution starts only from an approved, unexpired request in scope whose
/// target nothing else holds.
pub proof fn execution_needs_approval(r: RecordView, busy: bool, change: ChangeView, now: u64)
    requires
        changed(r, busy, change, now) is Ok,
        changed(r, busy, change, now)->Ok_0.state == ApprovalState::Executing,
    ensures
        r.state == ApprovalState::Approved,
        change == ChangeView::Consume,
        now < r.request.expires_at,
        allows(r.request.policy, r.request.operation),
        !busy,
{
}

/// An execution intent is used once: from `Executing` a request goes only to a
/// reported outcome or to `Unknown`, and from `Unknown` only to a verified outcome.
pub proof fn intents_are_used_once(r: RecordView, busy: bool, change: ChangeView, now: u64)
    requires
        unsettled(r.state),
        changed(r, busy, change, now) is Ok,
    ensures
        ({
            let to = changed(r, busy, change, now)->Ok_0.state;
            &&& to == ApprovalState::Executed || to == ApprovalState::Failed || to == ApprovalState::Unknown
            &&& r.state == ApprovalState::Unknown ==> change is Reconcile && to != ApprovalState::Unknown
        }),
{
}

/// A permit is for exactly the operation that was approved: the record it comes from was
/// approved and in time, its policy allowed the operation, and nothing else held the target.
/// Afterwards that request is executing, and no other record, nor the request itself, has
/// changed.
pub proof fn permits_are_for_the_approved_operation(s: StoreView, entry: EntryView)
    requires
        sound(s.records, s.sequence),
        intent_installation(s, entry) is Ok,
    ensures
        ({
            let id = entry.event->request_id;
            let permit = permit_for(s, intent_installation(s, entry)->Ok_0);
            let after = after_installation(s, entry);
            let was = s.records[id];
            &&& s.records.contains_key(id)
            &&& was.state == ApprovalState::Approved
            &&& entry.now < was.request.expires_at
            &&& allows(was.request.policy, was.request.operation)
            &&& !is_busy(s.records, was.request.operation.target)
            &&& permit.request_id == id
            &&& permit.operation == was.request.operation
            &&& permit.revision == was.revision + 1
            &&& permit.store_identity == s.identity
            &&& after.records == s.records.insert(id, after.records[id])
            &&& after.records[id].request == was.request
            &&& after.records[id].state == ApprovalState::Executing
            &&& after.records[id].revision == permit.revision
            &&& after.records[id].updated_at == entry.now
            &&& after.sequence == entry.sequence
            &&& after.reserved is None
            &&& after.identity == s.identity
            &&& sound(after.records, after.sequence)
        }),
{
    change_keeps_request(s.records, s.max_requests, entry.event, entry.now, entry.sequence);
    installing_keeps_sound(s.records, s.max_requests, entry.event, entry.now, s.sequence);
    assert(s.records.contains_key(entry.event->request_id));
}

/// An approval yields at most one permit: once the intent that `consume` planned was written and
/// installed, the same call is refused at every later time, and so is every other intent for the
/// request. A refused call changes nothing.
pub proof fn approvals_yield_one_permit(
    s: StoreView,
    id: Seq<char>,
    operation: OperationView,
    policy: PolicyView,
    now: u64,
    line: u64,
    later: u64,
)
    requires
        sound(s.records, s.sequence),
        consumption(s, id, operation, policy, now) is Ok,
        consumption(s, id, operation, policy, now)->Ok_0 is Append,
        s.bytes + line <= u64::MAX,
        now <= later,
    ensures
        ({
            let entry = consumption(s, id, operation, policy, now)->Ok_0->Append_0;
            let writing = StoreView { reserved: Some(line), ..s };
            let after = after_installation(writing, entry);
            &&& s.records[id].state == ApprovalState::Approved
            &&& now < s.records[id].request.expires_at
            &&& allows(policy, s.records[id].request.operation)
            &&& intent_installation(writing, entry) is Ok
            &&& same_operation(permit_for(writing, intent_installation(writing, entry)->Ok_0).operation, operation)
            &&& after.records[id].state == ApprovalState::Executing
            &&& consumption(after, id, operation, policy, later) == (if after.sequence == u64::MAX {
                Err::<StepView, Fault>(Fault::Capacity)
            } else {
                Err::<StepView, Fault>(Fault::InvalidState(ApprovalState::Executing))
            })
            &&& forall|again: EntryView, size: Option<u64>|
                is_intent(again.event) && again.event->request_id == id ==> #[trigger] intent_installation(
                    StoreView { reserved: size, ..after },
                    again,
                ) is Err
        }),
{
    let entry = consumption(s, id, operation, policy, now)->Ok_0->Append_0;
    let writing = StoreView { reserved: Some(line), ..s };
    let after = after_installation(writing, entry);
    assert(is_intent(entry.event) && entry.event->request_id == id);
    assert(installation(writing, entry) == applied(s.records, s.max_requests, entry.event, now, entry.sequence));
    permits_are_for_the_approved_operation(writing, entry);
    assert(after.records.contains_key(id));
    assert(after.records[id].request.policy == policy);
    assert(current_fault(after, id, policy, later) is None);
    assert(!lapsed(after.records[id], later));
    assert forall|again: EntryView, size: Option<u64>|
        is_intent(again.event) && again.event->request_id == id implies #[trigger] intent_installation(
        StoreView { reserved: size, ..after },
        again,
    ) is Err by {
        let blocked = StoreView { reserved: size, ..after };
        assert(changed(
            blocked.records[id],
            is_busy(blocked.records, blocked.records[id].request.operation.target),
            ChangeView::Consume,
            again.now,
        ) is Err);
    }
}

/// A model's assessment counts only when the policy names its harness.
pub proof fn only_the_named_reviewer_assesses(r: RecordView, busy: bool, change: ChangeView, now: u64)
    requires
        change is Assess,
        changed(r, busy, change, now) is Ok,
    ensures
        r.request.policy.reviewer is Harness,
        change->Assess_assessment.reviewer is Harness,
        r.request.policy.reviewer->harness_id == change->Assess_assessment.reviewer->harness_id,
        r.state == ApprovalState::Pending,
{
}

/// A line whose write has begun and was never installed leaves the store's records, sequence
/// and size as they were, and the store takes no event any more.
pub proof fn failed_writes_change_nothing(s: StoreView, line: u64, event: EventView, now: u64)
    ensures
        ({
            let writing = StoreView { reserved: Some(line), ..s };
            &&& writing.records == s.records
            &&& writing.sequence == s.sequence
            &&& writing.bytes == s.bytes
            &&& planned(writing, event, now) == Err::<EntryView, Fault>(Fault::Unavailable)
        }),
{
}

/// A planned line that is written is installed: the store then holds what the event leads
/// to, has grown by the line, and takes the next event.
pub proof fn written_lines_are_installed(s: StoreView, event: EventView, now: u64, line: u64)
    requires
        planned(s, event, now) is Ok,
        s.bytes + line <= u64::MAX,
    ensures
        ({
            let entry = planned(s, event, now)->Ok_0;
            let writing = StoreView { reserved: Some(line), ..s };
            let after = after_installation(writing, entry);
            let record = applied(s.records, s.max_requests, event, now, entry.sequence)->Ok_0;
            &&& installation(writing, entry) == Ok::<RecordView, Fault>(record)
            &&& after.records == s.records.insert(record.request.request_id, record)
            &&& after.sequence == s.sequence + 1
            &&& after.bytes == s.bytes + line
            &&& after.reserved is None
        }),
{
}

/// The store once these requests were recovered one after the other, or why one was not;
/// `sizes` gives the bytes of each line.
pub open spec fn recovering(s: StoreView, ids: Seq<Seq<char>>, sizes: spec_fn(Seq<char>) -> u64, now: u64) -> Result<
    StoreView,
    Fault,
>
    decreases ids.len(),
{
    if ids.len() == 0 {
        Ok(s)
    } else {
        match recovering(s, ids.drop_last(), sizes, now) {
            Err(f) => Err(f),
            Ok(t) => match planned_change(t, ids.last(), ChangeView::RecoverUnknown, now) {
                Err(f) => Err(f),
                Ok(entry) => {
                    let line = sizes(ids.last());
                    if line > MAX_RECORD || t.bytes + line > t.max_journal_bytes {
                        Err(Fault::Capacity)
                    } else {
                        Ok(after_installation(StoreView { reserved: Some(line), ..t }, entry))
                    }
                },
            },
        }
    }
}

/// A record after a restart: what was being executed has an unknown outcome, and everything
/// else is as it was.
pub open spec fn restarted(r: RecordView, now: u64) -> RecordView {
    if r.state == ApprovalState::Executing {
        RecordView {
            state: ApprovalState::Unknown,
            note: Some(restart_note()),
            revision: (r.revision + 1) as u64,
            updated_at: now,
            ..r
        }
    } else {
        r
    }
}

proof fn recovery_so_far(s: StoreView, ids: Seq<Seq<char>>, sizes: spec_fn(Seq<char>) -> u64, now: u64)
    requires
        sound(s.records, s.sequence),
        s.reserved is None,
        ids.no_duplicates(),
        forall|i: int|
            0 <= i < ids.len() ==> s.records.contains_key(#[trigger] ids[i]) && s.records[ids[i]].state
                == ApprovalState::Executing,
        recovering(s, ids, sizes, now) is Ok,
    ensures
        ({
            let t = recovering(s, ids, sizes, now)->Ok_0;
            &&& sound(t.records, t.sequence)
            &&& t.reserved is None
            &&& t.sequence == s.sequence + ids.len()
            &&& t.records.dom() == s.records.dom()
            &&& forall|id: Seq<char>| #[trigger]
                s.records.contains_key(id) ==> t.records[id] == if ids.contains(id) {
                    restarted(s.records[id], now)
                } else {
                    s.records[id]
                }
        }),
    decreases ids.len(),
{
    if ids.len() > 0 {
        let front = ids.drop_last();
        let last = ids[ids.len() - 1];
        assert forall|i: int, j: int| 0 <= i < front.len() && 0 <= j < front.len() && i != j implies front[i] != front[j] by {
            assert(ids[i] != ids[j]);
        }
        assert forall|i: int| 0 <= i < front.len() implies s.records.contains_key(#[trigger] front[i])
            && s.records[front[i]].state == ApprovalState::Executing by {
            assert(front[i] == ids[i]);
        }
        recovery_so_far(s, front, sizes, now);
        let was = recovering(s, front, sizes, now)->Ok_0;
        let t = recovering(s, ids, sizes, now)->Ok_0;
        let entry = planned_change(was, last, ChangeView::RecoverUnknown, now)->Ok_0;
        let writing = StoreView { reserved: Some(sizes(last)), ..was };
        assert(!front.contains(last)) by {
            if front.contains(last) {
                let k = choose|k: int| 0 <= k < front.len() && front[k] == last;
                assert(ids[k] != ids[ids.len() - 1]);
            }
        }
        assert(s.records.contains_key(last));
        assert(was.records.contains_key(last));
        assert(was.records[last] == s.records[last]);
        written_lines_are_installed(was, entry.event, now, sizes(last));
        installing_keeps_sound(was.records, was.max_requests, entry.event, now, was.sequence);
        let record = applied(was.records, was.max_requests, entry.event, now, entry.sequence)->Ok_0;
        assert(record == restarted(s.records[last], now));
        assert(record.request.request_id == last);
        assert(t.records.dom() =~= s.records.dom());
        assert forall|id: Seq<char>| #[trigger] s.records.contains_key(id) implies t.records[id] == if ids.contains(id) {
            restarted(s.records[id], now)
        } else {
            s.records[id]
        } by {
            if ids.contains(id) && id != last {
                let k = choose|k: int| 0 <= k < ids.len() && ids[k] == id;
                assert(front[k] == id);
            }
            if front.contains(id) {
                let k = choose|k: int| 0 <= k < front.len() && front[k] == id;
                assert(ids[k] == id);
            }
            if id == last {
                assert(ids.contains(last));
            }
        }
    }
}

/// Once every request that an earlier run left executing is recovered, none is executing:
/// their outcome is unknown, and every other record is as it was replayed.
pub proof fn recovered_stores_execute_nothing(
    s: StoreView,
    ids: Seq<Seq<char>>,
    sizes: spec_fn(Seq<char>) -> u64,
    now: u64,
    id: Seq<char>,
)
    requires
        sound(s.records, s.sequence),
        s.reserved is None,
        forall|i: int, j: int| 0 <= i < j < ids.len() ==> less(#[trigger] ids[i], #[trigger] ids[j]),
        forall|k: Seq<char>| #[trigger]
            ids.contains(k) <==> s.records.contains_key(k) && s.records[k].state == ApprovalState::Executing,
        recovering(s, ids, sizes, now) is Ok,
    ensures
        ({
            let t = recovering(s, ids, sizes, now)->Ok_0;
            &&& t.records.contains_key(id) <==> s.records.contains_key(id)
            &&& t.records.contains_key(id) ==> t.records[id] == restarted(s.records[id], now)
            &&& t.records.contains_key(id) ==> t.records[id].state != ApprovalState::Executing
            &&& t.sequence == s.sequence + ids.len()
            &&& sound(t.records, t.sequence)
        }),
{
    assert forall|i: int, j: int| 0 <= i < ids.len() && 0 <= j < ids.len() && i != j implies ids[i] != ids[j] by {
        less_irreflexive(ids[i]);
        if i < j {
            assert(less(ids[i], ids[j]));
        } else {
            assert(less(ids[j], ids[i]));
        }
    }
    assert forall|i: int| 0 <= i < ids.len() implies s.records.contains_key(#[trigger] ids[i]) && s.records[ids[i]].state
        == ApprovalState::Executing by {
        assert(ids.contains(ids[i]));
    }
    recovery_so_far(s, ids, sizes, now);
    let t = recovering(s, ids, sizes, now)->Ok_0;
    assert(t.records.dom().contains(id) == s.records.dom().contains(id));
}

/// The bytes of the lines of these requests.
pub open spec fn lines_of(ids: Seq<Seq<char>>, sizes: spec_fn(Seq<char>) -> u64) -> nat
    decreases ids.len(),
{
    if ids.len() == 0 {
        0
    } else {
        lines_of(ids.drop_last(), sizes) + sizes(ids.last()) as nat
    }
}

/// Recovery goes through unless the clock moved back, or a counter or the journal is full.
pub proof fn recovery_goes_through(s: StoreView, ids: Seq<Seq<char>>, sizes: spec_fn(Seq<char>) -> u64, now: u64)
    requires
        sound(s.records, s.sequence),
        s.reserved is None,
        ids.no_duplicates(),
        forall|i: int|
            0 <= i < ids.len() ==> s.records.contains_key(#[trigger] ids[i]) && s.records[ids[i]].state
                == ApprovalState::Executing && s.records[ids[i]].updated_at <= now && s.records[ids[i]].revision < u64::MAX
                && sizes(ids[i]) <= MAX_RECORD,
        s.sequence + ids.len() <= u64::MAX,
        s.bytes + lines_of(ids, sizes) <= s.max_journal_bytes,
    ensures
        recovering(s, ids, sizes, now) is Ok,
        recovering(s, ids, sizes, now)->Ok_0.bytes == s.bytes + lines_of(ids, sizes),
        recovering(s, ids, sizes, now)->Ok_0.max_journal_bytes == s.max_journal_bytes,
    decreases ids.len(),
{
    if ids.len() > 0 {
        let front = ids.drop_last();
        let last = ids[ids.len() - 1];
        assert forall|i: int, j: int| 0 <= i < front.len() && 0 <= j < front.len() && i != j implies front[i] != front[j] by {
            assert(ids[i] != ids[j]);
        }
        assert forall|i: int| 0 <= i < front.len() implies s.records.contains_key(#[trigger] front[i])
            && s.records[front[i]].state == ApprovalState::Executing && s.records[front[i]].updated_at <= now
            && s.records[front[i]].revision < u64::MAX && sizes(front[i]) <= MAX_RECORD by {
            assert(front[i] == ids[i]);
        }
        recovery_goes_through(s, front, sizes, now);
        recovery_so_far(s, front, sizes, now);
        let was = recovering(s, front, sizes, now)->Ok_0;
        assert(!front.contains(last)) by {
            if front.contains(last) {
                let k = choose|k: int| 0 <= k < front.len() && front[k] == last;
                assert(ids[k] != ids[ids.len() - 1]);
            }
        }
        assert(s.records.contains_key(last));
        assert(was.records.contains_key(last));
        assert(was.records[last] == s.records[last]);
        let entry = planned_change(was, last, ChangeView::RecoverUnknown, now)->Ok_0;
        assert(planned_change(was, last, ChangeView::RecoverUnknown, now) is Ok);
        written_lines_are_installed(was, entry.event, now, sizes(last));
    }
}

/// What an accepted decision makes of a request is what was decided: an approval approves it,
/// a denial denies it, an escalation hands it to a person. The assessment is kept as given,
/// and nothing else of the request changes.
pub proof fn decisions_lead_where_they_say(r: RecordView, busy: bool, a: AssessmentView, by_human: bool, now: u64)
    requires
        ({
            let change = if by_human {
                ChangeView::HumanDecision { assessment: a }
            } else {
                ChangeView::Assess { assessment: a }
            };
            changed(r, busy, change, now) is Ok
        }),
    ensures
        ({
            let change = if by_human {
                ChangeView::HumanDecision { assessment: a }
            } else {
                ChangeView::Assess { assessment: a }
            };
            let to = changed(r, busy, change, now)->Ok_0;
            &&& to.state == ApprovalState::Approved <==> a.decision == ApprovalDecision::Approve
            &&& to.state == ApprovalState::Denied <==> a.decision == ApprovalDecision::Deny
            &&& to.state == ApprovalState::WaitingHuman <==> a.decision == ApprovalDecision::Escalate
            &&& to.assessment == Some(a)
            &&& to.request == r.request
            &&& to.note == r.note
            &&& to.revision == r.revision + 1
            &&& to.updated_at == now
        }),
{
}

/// Nothing but an approving decision approves, nothing but a denying one denies: whatever
/// the change, a request that becomes approved or denied was decided so by its assessment.
pub proof fn only_decisions_decide(r: RecordView, busy: bool, change: ChangeView, now: u64)
    requires
        changed(r, busy, change, now) is Ok,
    ensures
        changed(r, busy, change, now)->Ok_0.state == ApprovalState::Approved ==> {
            ||| change is Assess && change->Assess_assessment.decision == ApprovalDecision::Approve
            ||| change is HumanDecision && change->HumanDecision_assessment.decision == ApprovalDecision::Approve
        },
        changed(r, busy, change, now)->Ok_0.state == ApprovalState::Denied ==> {
            ||| change is Assess && change->Assess_assessment.decision == ApprovalDecision::Deny
            ||| change is HumanDecision && change->HumanDecision_assessment.decision == ApprovalDecision::Deny
        },
        changed(r, busy, change, now)->Ok_0.state == ApprovalState::WaitingHuman ==> {
            ||| change is WaitingHuman
            ||| change is Assess && change->Assess_assessment.decision == ApprovalDecision::Escalate
            ||| change is HumanDecision && change->HumanDecision_assessment.decision == ApprovalDecision::Escalate
        },
        changed(r, busy, change, now)->Ok_0.state == ApprovalState::Expired ==> change is Expire,
        changed(r, busy, change, now)->Ok_0.state == ApprovalState::Revoked ==> change is Revoke,
        changed(r, busy, change, now)->Ok_0.state == ApprovalState::Canceled ==> change is Cancel,
        changed(r, busy, change, now)->Ok_0.state == ApprovalState::Pending ==> false,
        !(change is Assess) && !(change is HumanDecision) ==> changed(r, busy, change, now)->Ok_0.assessment == r.assessment,
{
}

/// A request that was not approved yields no execution: every intent for it is refused with
/// the state it is in.
pub proof fn unapproved_requests_are_not_executed(r: RecordView, busy: bool, now: u64)
    requires
        r.state != ApprovalState::Approved,
        now >= r.updated_at,
    ensures
        changed(r, busy, ChangeView::Consume, now) == Err::<RecordView, Fault>(Fault::InvalidState(r.state)),
{
}

/// Expiry only ever meets requests that are past their time and still waiting for a decision
/// or for use, and it meets every one of them.
pub proof fn requests_expire_at_their_time(r: RecordView, busy: bool, now: u64)
    requires
        now >= r.updated_at,
        r.revision < u64::MAX,
    ensures
        changed(r, busy, ChangeView::Expire, now) is Ok <==> now >= r.request.expires_at && (r.state == ApprovalState::Pending
            || r.state == ApprovalState::WaitingHuman || r.state == ApprovalState::Approved),
        changed(r, busy, ChangeView::Expire, now) is Ok ==> changed(r, busy, ChangeView::Expire, now)->Ok_0.state
            == ApprovalState::Expired,
        now >= r.request.expires_at ==> forall|a: AssessmentView| {
            &&& #[trigger] changed(r, busy, ChangeView::Assess { assessment: a }, now) is Err
            &&& changed(r, busy, ChangeView::HumanDecision { assessment: a }, now) is Err
        },
        now >= r.request.expires_at ==> changed(r, busy, ChangeView::Consume, now) is Err,
{
}

/// An approved request in time, in scope and with a free target can be executed.
pub proof fn approved_requests_can_be_executed(r: RecordView, now: u64)
    requires
        r.state == ApprovalState::Approved,
        r.updated_at <= now < r.request.expires_at,
        r.revision < u64::MAX,
        r.request.policy.allowed_targets.contains(r.request.operation.target),
        member(r.request.operation.action, "kind"@) is Some,
        member(r.request.operation.action, "kind"@)->0 is Text,
        r.request.policy.allowed_action_kinds.contains(member(r.request.operation.action, "kind"@)->0->Text_0),
    ensures
        changed(r, false, ChangeView::Consume, now) is Ok,
        changed(r, false, ChangeView::Consume, now)->Ok_0.state == ApprovalState::Executing,
        changed(r, true, ChangeView::Consume, now) == Err::<RecordView, Fault>(Fault::TargetBusy),
{
}

/// An approval covers only what the policy lists: the target is one of its targets, and the
/// kind that the action names is one of its kinds.
pub proof fn approvals_cover_only_what_is_listed(r: RecordView, busy: bool, change: ChangeView, now: u64)
    requires
        changed(r, busy, change, now) is Ok,
        changed(r, busy, change, now)->Ok_0.state == ApprovalState::Approved || changed(r, busy, change, now)->Ok_0.state
            == ApprovalState::Executing,
    ensures
        r.request.policy.allowed_targets.contains(r.request.operation.target),
        member(r.request.operation.action, "kind"@) is Some,
        member(r.request.operation.action, "kind"@)->0 is Text,
        r.request.policy.allowed_action_kinds.contains(member(r.request.operation.action, "kind"@)->0->Text_0),
        r.state == ApprovalState::Pending || r.state == ApprovalState::WaitingHuman || r.state == ApprovalState::Approved,
{
}

/// Approving what the policy does not list is refused as out of scope; denying or escalating
/// it is not.
pub proof fn unlisted_operations_can_only_be_refused(r: RecordView, busy: bool, a: AssessmentView, now: u64)
    requires
        r.state == ApprovalState::Pending || r.state == ApprovalState::WaitingHuman,
        r.updated_at <= now < r.request.expires_at,
        r.revision < u64::MAX,
        !r.request.policy.allowed_targets.contains(r.request.operation.target),
        a.reviewer is Human,
        is_text(a.reason, MAX_REASON as nat),
        is_text(a.reviewer->actor, MAX_ID as nat),
    ensures
        changed(r, busy, ChangeView::HumanDecision { assessment: a }, now) is Ok <==> a.decision != ApprovalDecision::Approve,
        a.decision == ApprovalDecision::Approve ==> changed(r, busy, ChangeView::HumanDecision { assessment: a }, now) == Err::<
            RecordView,
            Fault,
        >(Fault::OutOfScope),
{
}

/// A person may decide every request that waits and is in time, whoever the policy names;
/// a model only one that is pending, and only if the policy names it.
pub proof fn who_may_decide(r: RecordView, busy: bool, a: AssessmentView, now: u64)
    requires
        r.updated_at <= now < r.request.expires_at,
        r.revision < u64::MAX,
        is_text(a.reason, MAX_REASON as nat),
        a.decision != ApprovalDecision::Approve,
    ensures
        a.reviewer is Human && is_text(a.reviewer->actor, MAX_ID as nat) ==> {
            &&& changed(r, busy, ChangeView::HumanDecision { assessment: a }, now) is Ok <==> (r.state
                == ApprovalState::Pending || r.state == ApprovalState::WaitingHuman)
            &&& changed(r, busy, ChangeView::Assess { assessment: a }, now) is Err
        },
        a.reviewer is Harness && is_text(a.reviewer->harness_id, MAX_ID as nat) && is_text(
            a.reviewer->session_id,
            MAX_ID as nat,
        ) ==> {
            &&& changed(r, busy, ChangeView::HumanDecision { assessment: a }, now) is Err
            &&& changed(r, busy, ChangeView::Assess { assessment: a }, now) is Ok <==> (r.state == ApprovalState::Pending
                && r.request.policy.reviewer == (ReviewerView::Harness { harness_id: a.reviewer->harness_id }))
        },
{
}

/// Withdrawing ends a request that waits or is approved, and leaves the outcome of one that
/// is being executed unknown; the reason is kept. Settled requests cannot be withdrawn.
pub proof fn withdrawals_never_undo_executions(r: RecordView, busy: bool, reason: Seq<char>, now: u64)
    requires
        r.updated_at <= now,
        r.revision < u64::MAX,
        is_text(reason, MAX_REASON as nat),
    ensures
        ({
            let revoked = changed(r, busy, ChangeView::Revoke { reason }, now);
            let canceled = changed(r, busy, ChangeView::Cancel { reason }, now);
            if r.state == ApprovalState::Pending || r.state == ApprovalState::WaitingHuman || r.state
                == ApprovalState::Approved {
                &&& revoked is Ok && revoked->Ok_0.state == ApprovalState::Revoked && revoked->Ok_0.note == Some(reason)
                &&& canceled is Ok && canceled->Ok_0.state == ApprovalState::Canceled && canceled->Ok_0.note == Some(reason)
            } else if r.state == ApprovalState::Executing {
                &&& revoked is Ok && revoked->Ok_0.state == ApprovalState::Unknown && revoked->Ok_0.note == Some(reason)
                &&& canceled is Ok && canceled->Ok_0.state == ApprovalState::Unknown && canceled->Ok_0.note == Some(reason)
            } else {
                &&& revoked == Err::<RecordView, Fault>(Fault::InvalidState(r.state))
                &&& canceled == Err::<RecordView, Fault>(Fault::InvalidState(r.state))
            }
        }),
{
}

/// The reported outcome is the recorded one, for an execution under way; a verified outcome
/// settles an unknown one, and only a terminal one does. Both are refused in every other state.
pub proof fn outcomes_are_recorded_as_reported(
    r: RecordView,
    busy: bool,
    outcome: ExecutionOutcome,
    reason: Seq<char>,
    actor: Seq<char>,
    now: u64,
)
    requires
        r.updated_at <= now,
        r.revision < u64::MAX,
        is_text(reason, MAX_REASON as nat),
        is_text(actor, MAX_ID as nat),
    ensures
        ({
            let done = changed(r, busy, ChangeView::Complete { outcome, reason }, now);
            let settled = changed(r, busy, ChangeView::Reconcile { outcome, reason, actor }, now);
            &&& done is Ok <==> r.state == ApprovalState::Executing
            &&& settled is Ok <==> r.state == ApprovalState::Unknown && outcome != ExecutionOutcome::Unknown
            &&& done is Ok ==> done->Ok_0.note == Some(reason) && {
                &&& done->Ok_0.state == ApprovalState::Executed <==> outcome == ExecutionOutcome::Executed
                &&& done->Ok_0.state == ApprovalState::Failed <==> outcome == ExecutionOutcome::Failed
                &&& done->Ok_0.state == ApprovalState::Unknown <==> outcome == ExecutionOutcome::Unknown
            }
            &&& settled is Ok ==> settled->Ok_0.note == Some("verified by "@ + actor + ": "@ + reason) && {
                &&& settled->Ok_0.state == ApprovalState::Executed <==> outcome == ExecutionOutcome::Executed
                &&& settled->Ok_0.state == ApprovalState::Failed <==> outcome == ExecutionOutcome::Failed
            }
        }),
{
}

/// Time never runs backwards on a request: a change dated before the last one is refused.
pub proof fn changes_are_never_backdated(r: RecordView, busy: bool, change: ChangeView, now: u64)
    requires
        now < r.updated_at,
    ensures
        changed(r, busy, change, now) is Err,
{
}

/// A text that is accepted is not blank, fits its limit and holds no NUL; any other is refused.
pub proof fn accepted_texts_are_bounded(value: Seq<char>, maximum: nat, i: int)
    requires
        0 <= i < value.len(),
    ensures
        is_text(value, maximum) ==> byte_len(value) <= maximum && value[i] != '\0',
        byte_len(value) <= maximum && !value.contains('\0') && value[i] != ' ' && value[i] != '\t' && 0x20 < value[i] as u32
            && (value[i] as u32) < 0x80 ==> is_text(value, maximum),
        !is_text(Seq::empty(), maximum),
{
}

/// A new request waits, undecided, and lives as long as its policy says; its number comes
/// from the journal. One operation of a task is requested once.
pub proof fn requests_begin_undecided(
    records: Map<Seq<char>, RecordView>,
    max_requests: usize,
    request: RequestView,
    now: u64,
    sequence: u64,
)
    requires
        applied(records, max_requests, EventView::Requested { request }, now, sequence) is Ok,
    ensures
        ({
            let r = applied(records, max_requests, EventView::Requested { request }, now, sequence)->Ok_0;
            &&& r.request == request
            &&& r.state == ApprovalState::Pending
            &&& r.revision == 0 && r.updated_at == now
            &&& r.assessment is None && r.note is None
            &&& request.created_at == now
            &&& request.expires_at == now + request.policy.ttl_secs
            &&& 1 <= request.policy.ttl_secs <= 86400
            &&& records.dom().len() < max_requests
            &&& forall|k: Seq<char>| #[trigger]
                records.contains_key(k) ==> records[k].request.operation.task_id != request.operation.task_id
                    || records[k].request.operation.operation_id != request.operation.operation_id
        }),
{
}

/// An approval is consumed for exactly the approved operation, under exactly the policy it was
/// requested with, in time, and while nothing else holds the target.
pub proof fn consumption_is_for_the_same_operation(
    s: StoreView,
    id: Seq<char>,
    o: OperationView,
    policy: PolicyView,
    now: u64,
)
    requires
        consumption(s, id, o, policy, now) is Ok,
        consumption(s, id, o, policy, now)->Ok_0 is Append,
    ensures
        ({
            let was = s.records[id];
            let entry = consumption(s, id, o, policy, now)->Ok_0->Append_0;
            &&& s.records.contains_key(id)
            &&& was.request.policy == policy
            &&& was.request.operation.task_id == o.task_id
            &&& was.request.operation.task_revision == o.task_revision
            &&& was.request.operation.operation_id == o.operation_id
            &&& was.request.operation.target == o.target
            &&& alike(was.request.operation.action, o.action)
            &&& was.state == ApprovalState::Approved
            &&& was.updated_at <= now < was.request.expires_at
            &&& forall|k: Seq<char>| #[trigger]
                s.records.contains_key(k) && s.records[k].request.operation.target == o.target ==> s.records[k].state
                    != ApprovalState::Executing && s.records[k].state != ApprovalState::Unknown
            &&& entry.event == (EventView::Changed { request_id: id, change: ChangeView::Consume })
            &&& entry.now == now
            &&& entry.sequence == s.sequence + 1
            &&& s.reserved is None
        }),
{
    assert(s.records.contains_key(id));
    let target = s.records[id].request.operation.target;
    assert(!is_busy(s.records, target));
}

/// An approval past its time is never used or decided: the step that is planned for it is its
/// expiry, whatever was asked for.
pub proof fn lapsed_approvals_expire_instead(
    s: StoreView,
    id: Seq<char>,
    policy: PolicyView,
    extra: Option<Fault>,
    change: ChangeView,
    now: u64,
)
    requires
        s.records.contains_key(id),
        now >= s.records[id].request.expires_at,
        s.records[id].state == ApprovalState::Pending || s.records[id].state == ApprovalState::WaitingHuman
            || s.records[id].state == ApprovalState::Approved,
    ensures
        match guarded(s, id, policy, extra, change, now) {
            Ok(step) => step == StepView::Expire(
                EntryView {
                    format: 1,
                    sequence: (s.sequence + 1) as u64,
                    now,
                    event: EventView::Changed { request_id: id, change: ChangeView::Expire },
                },
            ),
            Err(_) => true,
        },
{
}

/// A step under another policy than the one of the request conflicts; so does one that an
/// extra condition refuses, and neither plans a change.
pub proof fn foreign_policies_conflict(
    s: StoreView,
    id: Seq<char>,
    policy: PolicyView,
    extra: Option<Fault>,
    change: ChangeView,
    now: u64,
)
    requires
        s.records.contains_key(id),
    ensures
        s.records[id].request.policy != policy ==> guarded(s, id, policy, extra, change, now) is Err,
        extra is Some ==> (match guarded(s, id, policy, extra, change, now) {
            Ok(step) => step is Expire,
            Err(_) => true,
        }),
        match guarded(s, id, policy, extra, change, now) {
            Ok(StepView::Append(entry)) => {
                &&& entry.event == (EventView::Changed { request_id: id, change })
                &&& entry.now == now && entry.sequence == s.sequence + 1
                &&& s.reserved is None && extra is None
                &&& s.records[id].updated_at <= now
            },
            _ => true,
        },
{
}

/// Handing a request to a person without a verdict is for pending ones in time; it decides
/// nothing and keeps the reason.
pub proof fn handing_over_decides_nothing(r: RecordView, busy: bool, reason: Seq<char>, now: u64)
    requires
        r.updated_at <= now,
        r.revision < u64::MAX,
        is_text(reason, MAX_REASON as nat),
    ensures
        ({
            let to = changed(r, busy, ChangeView::WaitingHuman { reason }, now);
            &&& to is Ok <==> r.state == ApprovalState::Pending && now < r.request.expires_at
            &&& to is Ok ==> to->Ok_0.state == ApprovalState::WaitingHuman && to->Ok_0.note == Some(reason)
                && to->Ok_0.assessment == r.assessment
        }),
{
}

/// The outcome of an execution is recorded only under the permit that it was started with: of
/// this store, at this revision, for this operation; and it is recorded as reported.
pub proof fn outcomes_need_their_permit(s: StoreView, p: PermitView, outcome: ExecutionOutcome, reason: Seq<char>, now: u64)
    ensures
        completion(s, p, outcome, reason, now) is Ok ==> {
            let r = s.records[p.request_id];
            let o = r.request.operation;
            &&& s.reserved is None
            &&& s.records.contains_key(p.request_id)
            &&& s.identity == p.store_identity && r.revision == p.revision
            &&& o.task_id == p.operation.task_id && o.operation_id == p.operation.operation_id && o.target
                == p.operation.target && o.task_revision == p.operation.task_revision && alike(o.action, p.operation.action)
            &&& completion(s, p, outcome, reason, now)->Ok_0 is Append
            &&& completion(s, p, outcome, reason, now)->Ok_0->Append_0.now == now
            &&& completion(s, p, outcome, reason, now)->Ok_0->Append_0.event == (EventView::Changed {
                request_id: p.request_id,
                change: ChangeView::Complete { outcome, reason },
            })
        },
        s.reserved is None && !s.records.contains_key(p.request_id) ==> completion(s, p, outcome, reason, now) == Err::<
            StepView,
            Fault,
        >(Fault::NotFound),
        s.reserved is None && s.records.contains_key(p.request_id) && (s.identity != p.store_identity
            || s.records[p.request_id].revision != p.revision) ==> completion(s, p, outcome, reason, now) == Err::<
            StepView,
            Fault,
        >(Fault::Conflict),
        s.reserved is Some ==> completion(s, p, outcome, reason, now) is Err,
{
}

/// A request that is taken in is for exactly the operation and under exactly the policy that
/// were given, begins now and ends with the policy's time. The same operation of a task is
/// never asked for twice: it is answered with what is known of it, or refused.
pub proof fn requests_are_for_what_was_given(
    s: StoreView,
    o: OperationView,
    policy: PolicyView,
    now: u64,
    r: Result<Step, ApprovalError>,
)
    requires
        requested(s, o, policy, now, r),
    ensures
        r is Ok && r->Ok_0@ is Append ==> {
            let e = r->Ok_0@->Append_0;
            &&& e.now == now && e.event is Requested
            &&& e.event->request.operation == o && e.event->request.policy == policy
            &&& e.event->request.created_at == now && e.event->request.expires_at == now + policy.ttl_secs
            &&& s.reserved is None && operation_fault(o) is None && policy_fault(policy) is None
            &&& forall|k: Seq<char>| #[trigger]
                s.records.contains_key(k) ==> s.records[k].request.operation.task_id != o.task_id
                    || s.records[k].request.operation.operation_id != o.operation_id
        },
        r is Ok && r->Ok_0@ is Existing ==> {
            let known = r->Ok_0@->Existing_0.request;
            &&& known.operation.task_id == o.task_id && known.operation.operation_id == o.operation_id && known.operation.target
                == o.target && known.operation.task_revision == o.task_revision && alike(known.operation.action, o.action)
            &&& known.policy == policy
        },
        r is Ok ==> r->Ok_0@ is Append || r->Ok_0@ is Existing,
        s.reserved is Some ==> r is Err && r->Err_0@ == Fault::Unavailable,
        s.reserved is None && operation_fault(o) is Some ==> r is Err,
        s.reserved is None && operation_fault(o) is None && policy_fault(policy) is Some ==> r is Err,
{
}

/// An expired approval stays so: no step under its policy is planned on it any more.
pub proof fn expired_approvals_take_no_step(
    s: StoreView,
    id: Seq<char>,
    policy: PolicyView,
    extra: Option<Fault>,
    change: ChangeView,
    now: u64,
)
    requires
        s.reserved is None,
        policy_fault(policy) is None,
        s.records.contains_key(id),
        s.records[id].request.policy == policy,
        s.records[id].updated_at <= now,
    ensures
        s.records[id].state == ApprovalState::Expired ==> guarded(s, id, policy, extra, change, now) == Err::<StepView, Fault>(
            Fault::Expired,
        ),
        s.records[id].state != ApprovalState::Expired && s.records[id].request.expires_at > now && extra is Some ==> guarded(
            s,
            id,
            policy,
            extra,
            change,
            now,
        ) == Err::<StepView, Fault>(extra->0),
        s.records[id].state != ApprovalState::Expired && s.records[id].request.expires_at > now && extra is None && guarded(
            s,
            id,
            policy,
            extra,
            change,
            now,
        ) is Ok ==> guarded(s, id, policy, extra, change, now)->Ok_0 is Append && guarded(
            s,
            id,
            policy,
            extra,
            change,
            now,
        )->Ok_0->Append_0.event == (EventView::Changed { request_id: id, change }),
{
}

} // verus!
