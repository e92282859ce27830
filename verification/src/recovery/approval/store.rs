//! The approval store: planning of durable steps, replay and installation.
//!
//! A step is planned against the records, encoded and written by the caller,
//! and then installed. Between reservation and installation the store refuses
//! every other step, so a failed write leaves it unavailable.
use super::laws::installing_keeps_sound;
use super::transitions::{apply, applied, find_operation, is_taken, records_of, request_id, request_id_of, unsettled};
use super::{
    operation_fault, policy_fault, same_operation, ApprovalAssessment, ApprovalDecision, ApprovalError, ApprovalPolicy,
    ApprovalRecord, ApprovalRequest, ApprovalState, ApprovalStoreConfig, AssessmentSource, AssessmentView, Change,
    ChangeView, Event, EventView, ExecutionOutcome, Fault, ModelAssessment, OperationView, PolicyView, ProposedOperation,
    RecordView, RequestView, ReviewerIdentity, SourceView, MAX_RECORD,
};
use crate::table::{lists, Table};
use crate::text::{copied, less, same, texts};
use vstd::prelude::*;

verus! {

/// One line of the journal.
pub struct JournalEntry {
    pub format: u32,
    pub sequence: u64,
    pub now: u64,
    pub event: Event,
}

pub struct EntryView {
    pub format: u32,
    pub sequence: u64,
    pub now: u64,
    pub event: EventView,
}

impl View for JournalEntry {
    type V = EntryView;

    open spec fn view(&self) -> EntryView {
        EntryView { format: self.format, sequence: self.sequence, now: self.now, event: self.event@ }
    }
}

/// What a planned operation asks of the caller.
pub enum Step {
    /// The operation was requested before; nothing is written.
    Existing(ApprovalRecord),
    /// Write this line, then install it.
    Append(JournalEntry),
    /// Write and install this line, then report the approval as expired.
    Expire(JournalEntry),
}

pub enum StepView {
    Existing(RecordView),
    Append(EntryView),
    Expire(EntryView),
}

impl View for Step {
    type V = StepView;

    open spec fn view(&self) -> StepView {
        match self {
            Step::Existing(r) => StepView::Existing(r@),
            Step::Append(e) => StepView::Append(e@),
            Step::Expire(e) => StepView::Expire(e@),
        }
    }
}

/// A one-use, non-cloneable capability produced only after the execution intent
/// was written. Its fields are private.
pub struct ExecutionPermit {
    request_id: String,
    revision: u64,
    operation: ProposedOperation,
    store_identity: u64,
}

pub struct PermitView {
    pub request_id: Seq<char>,
    pub revision: u64,
    pub operation: OperationView,
    pub store_identity: u64,
}

impl View for ExecutionPermit {
    type V = PermitView;

    closed spec fn view(&self) -> PermitView {
        PermitView {
            request_id: self.request_id@,
            revision: self.revision,
            operation: self.operation@,
            store_identity: self.store_identity,
        }
    }
}

impl ExecutionPermit {
    pub fn request_id(&self) -> (r: &str)
        ensures
            r@ == self@.request_id,
    {
        &self.request_id
    }

    pub fn operation(&self) -> (r: &ProposedOperation)
        ensures
            r@ == self@.operation,
    {
        &self.operation
    }
}

/// A synchronous single-writer store. No external call is made while changing
/// state. Keep it in trusted host code and serialize its short local operations.
pub struct ApprovalStore {
    config: ApprovalStoreConfig,
    sequence: u64,
    bytes: u64,
    reserved: Option<u64>,
    records: Table<ApprovalRecord>,
    identity: u64,
}

pub struct StoreView {
    pub max_requests: usize,
    pub max_journal_bytes: u64,
    pub sequence: u64,
    pub bytes: u64,
    /// Size of a line that is being written; the store takes no other step.
    pub reserved: Option<u64>,
    pub records: Map<Seq<char>, RecordView>,
    pub identity: u64,
}

/// A request id that the journal gave out up to `sequence`.
pub open spec fn issued(id: Seq<char>, sequence: u64) -> bool {
    exists|n: u64| n <= sequence && id == #[trigger] request_id_of(n)
}

/// What every reachable set of records satisfies: each record stands under its
/// own id, ids come from the journal's sequence, an operation of a task is
/// requested once, and a target has at most one unsettled operation.
pub open spec fn sound(records: Map<Seq<char>, RecordView>, sequence: u64) -> bool {
    &&& forall|k: Seq<char>| #[trigger] records.contains_key(k) ==> records[k].request.request_id == k && issued(k, sequence)
    &&& forall|a: Seq<char>, b: Seq<char>| #[trigger]
        records.contains_key(a) && #[trigger] records.contains_key(b) && records[a].request.operation.task_id
            == records[b].request.operation.task_id && records[a].request.operation.operation_id
            == records[b].request.operation.operation_id ==> a == b
    &&& forall|a: Seq<char>, b: Seq<char>| #[trigger]
        records.contains_key(a) && #[trigger] records.contains_key(b) && unsettled(records[a].state) && unsettled(
            records[b].state,
        ) && records[a].request.operation.target == records[b].request.operation.target ==> a == b
}

/// The ids of a list of records.
pub open spec fn ids_of(list: Seq<RecordView>) -> Seq<Seq<char>> {
    list.map_values(|r: RecordView| r.request.request_id)
}

/// The line for an event, or why the event is refused.
pub open spec fn planned(s: StoreView, event: EventView, now: u64) -> Result<EntryView, Fault> {
    if s.reserved is Some {
        Err(Fault::Unavailable)
    } else if s.sequence == u64::MAX {
        Err(Fault::Capacity)
    } else {
        match applied(s.records, s.max_requests, event, now, (s.sequence + 1) as u64) {
            Ok(_) => Ok(EntryView { format: 1, sequence: (s.sequence + 1) as u64, now, event }),
            Err(f) => Err(f),
        }
    }
}

pub open spec fn planned_change(s: StoreView, id: Seq<char>, change: ChangeView, now: u64) -> Result<EntryView, Fault> {
    planned(s, EventView::Changed { request_id: id, change }, now)
}

/// Past its time while still waiting for a decision or for use.
pub open spec fn lapsed(r: RecordView, now: u64) -> bool {
    now >= r.request.expires_at && (r.state == ApprovalState::Pending || r.state == ApprovalState::WaitingHuman || r.state
        == ApprovalState::Approved)
}

/// Why a step under the current policy is refused outright.
pub open spec fn current_fault(s: StoreView, id: Seq<char>, policy: PolicyView, now: u64) -> Option<Fault> {
    if s.reserved is Some {
        Some(Fault::Unavailable)
    } else if policy_fault(policy) is Some {
        policy_fault(policy)
    } else if !s.records.contains_key(id) {
        Some(Fault::NotFound)
    } else if s.records[id].request.policy != policy {
        Some(Fault::Conflict)
    } else if now < s.records[id].updated_at {
        Some(Fault::Invalid("clock moved backwards"@))
    } else if s.records[id].state == ApprovalState::Expired {
        Some(Fault::Expired)
    } else {
        None
    }
}

pub open spec fn appended(r: Result<EntryView, Fault>) -> Result<StepView, Fault> {
    match r {
        Ok(e) => Ok(StepView::Append(e)),
        Err(f) => Err(f),
    }
}

/// A change under the current policy: a lapsed approval expires instead.
pub open spec fn guarded(
    s: StoreView,
    id: Seq<char>,
    policy: PolicyView,
    extra: Option<Fault>,
    change: ChangeView,
    now: u64,
) -> Result<StepView, Fault> {
    if current_fault(s, id, policy, now) is Some {
        Err(current_fault(s, id, policy, now)->0)
    } else if lapsed(s.records[id], now) {
        match planned_change(s, id, ChangeView::Expire, now) {
            Ok(e) => Ok(StepView::Expire(e)),
            Err(f) => Err(f),
        }
    } else if extra is Some {
        Err(extra->0)
    } else {
        appended(planned_change(s, id, change, now))
    }
}

/// Agreement of a plan with its model.
pub open spec fn plans(r: Result<Step, ApprovalError>, model: Result<StepView, Fault>) -> bool {
    match r {
        Ok(step) => model == Ok::<StepView, Fault>(step@),
        Err(e) => model == Err::<StepView, Fault>(e@),
    }
}

/// What reporting the outcome of an execution plans.
pub open spec fn completion(
    s: StoreView,
    p: PermitView,
    outcome: ExecutionOutcome,
    reason: Seq<char>,
    now: u64,
) -> Result<StepView, Fault> {
    if s.reserved is Some {
        Err(Fault::Unavailable)
    } else if !s.records.contains_key(p.request_id) {
        Err(Fault::NotFound)
    } else if s.identity != p.store_identity || s.records[p.request_id].revision != p.revision || !same_operation(
        s.records[p.request_id].request.operation,
        p.operation,
    ) {
        Err(Fault::Conflict)
    } else {
        appended(planned_change(s, p.request_id, ChangeView::Complete { outcome, reason }, now))
    }
}

/// What asking for an approval plans.
pub open spec fn requested(s: StoreView, o: OperationView, policy: PolicyView, now: u64, r: Result<Step, ApprovalError>) -> bool {
    let request = RequestView {
        request_id: request_id_of((s.sequence + 1) as u64),
        operation: o,
        policy,
        created_at: now,
        expires_at: (now + policy.ttl_secs) as u64,
    };
    if s.reserved is Some {
        r is Err && r->Err_0@ == Fault::Unavailable
    } else if operation_fault(o) is Some {
        r is Err && Some(r->Err_0@) == operation_fault(o)
    } else if policy_fault(policy) is Some {
        r is Err && Some(r->Err_0@) == policy_fault(policy)
    } else if is_taken(s.records, o.task_id, o.operation_id) {
        exists|k: Seq<char>| #[trigger]
            s.records.contains_key(k) && s.records[k].request.operation.task_id == o.task_id
                && s.records[k].request.operation.operation_id == o.operation_id && if same_operation(
                s.records[k].request.operation,
                o,
            ) && s.records[k].request.policy == policy {
                r is Ok && r->Ok_0@ == StepView::Existing(s.records[k])
            } else {
                r is Err && r->Err_0@ == Fault::Conflict
            }
    } else if s.sequence == u64::MAX {
        r is Err && r->Err_0@ == Fault::Capacity
    } else if now + policy.ttl_secs > u64::MAX {
        r is Err && r->Err_0@ == Fault::Invalid("expiry overflow"@)
    } else {
        plans(r, appended(planned(s, EventView::Requested { request }, now)))
    }
}

/// The store after a line was installed.
pub open spec fn installed(s: StoreView, entry: EntryView, record: RecordView, bytes: u64) -> StoreView {
    StoreView {
        sequence: entry.sequence,
        bytes,
        reserved: None,
        records: s.records.insert(record.request.request_id, record),
        ..s
    }
}

/// The record that a written line installs, or why the line is refused.
pub open spec fn installation(s: StoreView, entry: EntryView) -> Result<RecordView, Fault> {
    if s.reserved is None || s.sequence + 1 != entry.sequence {
        Err(Fault::Conflict)
    } else if s.bytes + s.reserved->0 > u64::MAX {
        Err(Fault::Capacity)
    } else {
        applied(s.records, s.max_requests, entry.event, entry.now, entry.sequence)
    }
}

/// The store after a written line was installed.
pub open spec fn after_installation(s: StoreView, entry: EntryView) -> StoreView {
    match installation(s, entry) {
        Ok(record) => installed(s, entry, record, (s.bytes + s.reserved->0) as u64),
        Err(_) => s,
    }
}

/// Whether an event is an execution intent.
pub open spec fn is_intent(event: EventView) -> bool {
    event is Changed && event->change == ChangeView::Consume
}

/// The record that a written execution intent installs, or why the line is refused.
pub open spec fn intent_installation(s: StoreView, entry: EntryView) -> Result<RecordView, Fault> {
    if is_intent(entry.event) { installation(s, entry) } else { Err(Fault::Conflict) }
}

/// The permit for a record whose execution intent was installed.
pub open spec fn permit_for(s: StoreView, record: RecordView) -> PermitView {
    PermitView {
        request_id: record.request.request_id,
        revision: record.revision,
        operation: record.request.operation,
        store_identity: s.identity,
    }
}

/// The plan of an execution intent.
pub open spec fn consumption(s: StoreView, id: Seq<char>, operation: OperationView, policy: PolicyView, now: u64) -> Result<
    StepView,
    Fault,
> {
    guarded(
        s,
        id,
        policy,
        if same_operation(s.records[id].request.operation, operation) { None } else { Some(Fault::Conflict) },
        ChangeView::Consume,
        now,
    )
}

impl View for ApprovalStore {
    type V = StoreView;

    closed spec fn view(&self) -> StoreView {
        StoreView {
            max_requests: self.config.max_requests,
            max_journal_bytes: self.config.max_journal_bytes,
            sequence: self.sequence,
            bytes: self.bytes,
            reserved: self.reserved,
            records: records_of(self.records),
            identity: self.identity,
        }
    }
}

impl ApprovalStore {
    pub closed spec fn wf(&self) -> bool {
        &&& self.records.wf()
        &&& sound(records_of(self.records), self.sequence)
    }

    /// The records in order of their ids.
    pub closed spec fn listing(&self) -> Seq<RecordView> {
        self.records.listed().map_values(|e: (String, ApprovalRecord)| e.1@)
    }

    /// The listing holds every record, once, in ascending order of the ids, and nothing else.
    pub proof fn listing_is_whole(&self)
        requires
            self.wf(),
        ensures
            lists(ids_of(self.listing()), self.listing(), self@.records),
    {
        let list = self.listing();
        let ids = ids_of(list);
        let map = records_of(self.records);
        assert forall|i: int| 0 <= i < ids.len() implies map.contains_key(#[trigger] ids[i]) && map[ids[i]] == list[i]
            && ids[i] == self.records.listed()[i].0@ by {
            self.records.entry_at(i);
            assert(map.contains_key(self.records.listed()[i].0@));
        }
        assert forall|i: int, j: int| 0 <= i < j < ids.len() implies less(#[trigger] ids[i], #[trigger] ids[j]) by {
            assert(less(self.records.listed()[i].0@, self.records.listed()[j].0@));
        }
        assert forall|k: Seq<char>| #[trigger] map.contains_key(k) implies ids.contains(k) by {
            let p = self.records.entry_of(k);
            assert(ids[p] == k);
        }
    }

    /// What holds of every store: see `sound`.
    pub proof fn records_are_sound(&self)
        requires
            self.wf(),
        ensures
            sound(self@.records, self@.sequence),
    {
    }

    /// An empty store over a journal of `bytes` bytes. `identity` tells this
    /// store's permits from those of every other store.
    pub fn open(config: ApprovalStoreConfig, bytes: u64, identity: u64) -> (r: Result<Self, ApprovalError>)
        ensures
            match r {
                Ok(store) => {
                    &&& 1 <= config.max_requests <= 100000
                    &&& 1 <= config.max_journal_bytes <= 134217728
                    &&& bytes <= config.max_journal_bytes
                    &&& store.wf()
                    &&& store@ == (StoreView {
                        max_requests: config.max_requests,
                        max_journal_bytes: config.max_journal_bytes,
                        sequence: 0,
                        bytes,
                        reserved: None,
                        records: Map::empty(),
                        identity,
                    })
                },
                Err(e) => if !(1 <= config.max_requests <= 100000) || !(1 <= config.max_journal_bytes <= 134217728) {
                    e@ == Fault::Invalid("store limits"@)
                } else {
                    bytes > config.max_journal_bytes && e@ == Fault::Capacity
                },
            },
    {
        if config.max_requests == 0 || config.max_requests > 100000 || config.max_journal_bytes == 0
            || config.max_journal_bytes > 134217728 {
            return Err(ApprovalError::Invalid("store limits"));
        }
        if bytes > config.max_journal_bytes {
            return Err(ApprovalError::Capacity);
        }
        let store = ApprovalStore { config, sequence: 0, bytes, reserved: None, records: Table::new(), identity };
        assert(records_of(store.records) =~= Map::<Seq<char>, RecordView>::empty());
        Ok(store)
    }

    /// Replays one journal line.
    pub fn replay(&mut self, entry: &JournalEntry) -> (r: Result<(), ApprovalError>)
        requires
            old(self).wf(),
        ensures
            final(self).wf(),
            ({
                let s = old(self)@;
                let ordered = entry.format == 1 && s.sequence < u64::MAX && s.sequence + 1 == entry.sequence;
                let outcome = applied(s.records, s.max_requests, entry.event@, entry.now, entry.sequence);
                match r {
                    Ok(_) => ordered && outcome is Ok && final(self)@ == (StoreView {
                        reserved: s.reserved,
                        ..installed(s, entry@, outcome->Ok_0, s.bytes)
                    }),
                    Err(e) => final(self)@ == s && if !ordered {
                        e@ == Fault::Corrupt("format or sequence"@)
                    } else {
                        outcome is Err && e@ == Fault::Corrupt(super::fault_message(outcome->Err_0))
                    },
                }
            }),
    {
        if entry.format != 1 || self.sequence == u64::MAX || self.sequence + 1 != entry.sequence {
            return Err(ApprovalError::Corrupt(copied("format or sequence")));
        }
        match apply(&self.records, self.config.max_requests, &entry.event, entry.now, entry.sequence) {
            Ok(record) => {
                self.put(record, entry);
                Ok(())
            },
            Err(e) => Err(ApprovalError::Corrupt(e.message())),
        }
    }

    /// Puts the record of an applied event in place.
    fn put(&mut self, record: ApprovalRecord, entry: &JournalEntry)
        requires
            old(self).wf(),
            old(self)@.sequence < u64::MAX,
            entry.sequence == old(self)@.sequence + 1,
            applied(old(self)@.records, old(self)@.max_requests, entry.event@, entry.now, entry.sequence) == Ok::<
                RecordView,
                Fault,
            >(record@),
        ensures
            final(self).wf(),
            final(self)@ == (StoreView {
                sequence: entry.sequence,
                records: old(self)@.records.insert(record@.request.request_id, record@),
                ..old(self)@
            }),
    {
        let ghost was = records_of(self.records);
        let ghost model = record@;
        proof {
            installing_keeps_sound(was, self.config.max_requests, entry.event@, entry.now, self.sequence);
        }
        let key = record.request.request_id.clone();
        self.records.insert(key, record);
        self.sequence = entry.sequence;
        assert(records_of(self.records) =~= was.insert(model.request.request_id, model));
    }

    pub fn get(&self, request_id: &str) -> (r: Option<&ApprovalRecord>)
        requires
            self.wf(),
        ensures
            match r {
                Some(record) => self@.records.contains_key(request_id@) && record@ == self@.records[request_id@],
                None => !self@.records.contains_key(request_id@),
            },
    {
        self.records.get(request_id)
    }

    /// Every record, in order of the request ids.
    pub fn list(&self) -> (r: Vec<ApprovalRecord>)
        requires
            self.wf(),
        ensures
            r@.map_values(|x: ApprovalRecord| x@) == self.listing(),
    {
        let mut r: Vec<ApprovalRecord> = Vec::new();
        let mut i: usize = 0;
        while i < self.records.len()
            invariant
                i <= self.records.listed().len(),
                r.len() == i,
                forall|j: int| 0 <= j < i ==> (#[trigger] r@[j])@ == self.records.listed()[j].1@,
            decreases self.records.listed().len() - i,
        {
            r.push(self.records.value(i).clone());
            i = i + 1;
        }
        assert(r@.map_values(|x: ApprovalRecord| x@) =~= self.listing());
        r
    }

    /// Requests left executing by an earlier run, in order of their ids.
    pub fn interrupted(&self) -> (r: Vec<String>)
        requires
            self.wf(),
        ensures
            forall|k: Seq<char>| #[trigger]
                texts(r@).contains(k) <==> self@.records.contains_key(k) && self@.records[k].state
                    == ApprovalState::Executing,
            forall|i: int, j: int| 0 <= i < j < r.len() ==> less(#[trigger] texts(r@)[i], #[trigger] texts(r@)[j]),
    {
        let mut r: Vec<String> = Vec::new();
        let ghost map = records_of(self.records);
        let mut i: usize = 0;
        while i < self.records.len()
            invariant
                i <= self.records.listed().len(),
                self.records.wf(),
                map == records_of(self.records),
                forall|j: int|
                    0 <= j < i && (#[trigger] self.records.listed()[j]).1.state == ApprovalState::Executing
                        ==> texts(r@).contains(self.records.listed()[j].0@),
                forall|k: Seq<char>| #[trigger]
                    texts(r@).contains(k) ==> map.contains_key(k) && map[k].state == ApprovalState::Executing,
                forall|a: int, b: int| 0 <= a < b < r.len() ==> less(#[trigger] texts(r@)[a], #[trigger] texts(r@)[b]),
                forall|a: int, j: int|
                    0 <= a < r.len() && i <= j < self.records.listed().len() ==> less(
                        #[trigger] texts(r@)[a],
                        #[trigger] self.records.listed()[j].0@,
                    ),
            decreases self.records.listed().len() - i,
        {
            let ghost next = i + 1;
            if self.records.value(i).state == ApprovalState::Executing {
                let ghost had = texts(r@);
                let ghost key = self.records.listed()[i as int].0;
                r.push(self.records.key(i).clone());
                proof {
                    assert(texts(r@) =~= had.push(key@));
                    self.records.entry_at(i as int);
                    assert(map.contains_key(key@));
                    assert(map[key@] == self.records.listed()[i as int].1@);
                    assert(map[key@].state == ApprovalState::Executing);
                    assert(had.push(key@)[had.len() as int] == key@);
                    assert forall|q: Seq<char>| had.contains(q) implies texts(r@).contains(q) by {
                        let p = choose|p: int| 0 <= p < had.len() && had[p] == q;
                        assert(had.push(key@)[p] == q);
                    }
                    assert forall|q: Seq<char>| #[trigger] texts(r@).contains(q) implies map.contains_key(q) && map[q].state
                        == ApprovalState::Executing by {
                        let p = choose|p: int| 0 <= p < had.push(key@).len() && had.push(key@)[p] == q;
                        if p < had.len() {
                            assert(had[p] == q);
                            assert(had.contains(q));
                        }
                    }
                    assert forall|a: int, b: int| 0 <= a < b < r.len() implies less(
                        #[trigger] texts(r@)[a],
                        #[trigger] texts(r@)[b],
                    ) by {
                        assert(texts(r@)[a] == had[a]);
                        if b < had.len() {
                            assert(texts(r@)[b] == had[b]);
                        }
                    }
                    assert forall|a: int, j: int|
                        0 <= a < r.len() && next <= j < self.records.listed().len() implies less(
                        #[trigger] texts(r@)[a],
                        #[trigger] self.records.listed()[j].0@,
                    ) by {
                        if a < had.len() {
                            assert(texts(r@)[a] == had[a]);
                        } else {
                            assert(less(self.records.listed()[i as int].0@, self.records.listed()[j].0@));
                        }
                    }
                }
            }
            i = i + 1;
        }
        proof {
            assert forall|k: Seq<char>|
                self@.records.contains_key(k) && self@.records[k].state
                    == ApprovalState::Executing implies texts(r@).contains(k) by {
                let p = self.records.entry_of(k);
                assert(self.records.listed()[p].1@ == map[k]);
            }
        }
        r
    }

    fn available(&self) -> (r: Result<(), ApprovalError>)
        ensures
            match r {
                Ok(_) => self@.reserved is None,
                Err(e) => self@.reserved is Some && e@ == Fault::Unavailable,
            },
    {
        if self.reserved.is_some() {
            Err(ApprovalError::Unavailable)
        } else {
            Ok(())
        }
    }

    /// The line for an event, checked against the records.
    pub fn plan(&self, event: Event, now: u64) -> (r: Result<JournalEntry, ApprovalError>)
        requires
            self.wf(),
        ensures
            match r {
                Ok(entry) => planned(self@, event@, now) == Ok::<EntryView, Fault>(entry@),
                Err(e) => planned(self@, event@, now) == Err::<EntryView, Fault>(e@),
            },
    {
        if let Err(e) = self.available() {
            return Err(e);
        }
        if self.sequence == u64::MAX {
            return Err(ApprovalError::Capacity);
        }
        let sequence: u64 = self.sequence + 1;
        match apply(&self.records, self.config.max_requests, &event, now, sequence) {
            Ok(_) => Ok(JournalEntry { format: 1, sequence, now, event }),
            Err(e) => Err(e),
        }
    }

    fn change(&self, id: &str, change: Change, now: u64) -> (r: Result<JournalEntry, ApprovalError>)
        requires
            self.wf(),
        ensures
            match r {
                Ok(entry) => planned_change(self@, id@, change@, now) == Ok::<EntryView, Fault>(entry@),
                Err(e) => planned_change(self@, id@, change@, now) == Err::<EntryView, Fault>(e@),
            },
    {
        let ghost c = change@;
        let event = Event::Changed { request_id: copied(id), change };
        assert(event@ == EventView::Changed { request_id: id@, change: c });
        self.plan(event, now)
    }

    fn append(&self, id: &str, change: Change, now: u64) -> (r: Result<Step, ApprovalError>)
        requires
            self.wf(),
        ensures
            plans(r, appended(planned_change(self@, id@, change@, now))),
    {
        match self.change(id, change, now) {
            Ok(entry) => Ok(Step::Append(entry)),
            Err(e) => Err(e),
        }
    }

    /// Refusals under the current policy; `Ok(Some(..))` is the expiry of a lapsed approval.
    fn check_current(&self, id: &str, policy: &ApprovalPolicy, now: u64) -> (r: Result<Option<JournalEntry>, ApprovalError>)
        requires
            self.wf(),
        ensures
            match r {
                Ok(None) => current_fault(self@, id@, policy@, now) is None && !lapsed(self@.records[id@], now),
                Ok(Some(entry)) => current_fault(self@, id@, policy@, now) is None && lapsed(self@.records[id@], now)
                    && planned_change(self@, id@, ChangeView::Expire, now) == Ok::<EntryView, Fault>(entry@),
                Err(e) => current_fault(self@, id@, policy@, now) == Some(e@) || (current_fault(self@, id@, policy@, now) is None
                    && lapsed(self@.records[id@], now) && planned_change(self@, id@, ChangeView::Expire, now) == Err::<
                    EntryView,
                    Fault,
                >(e@)),
            },
    {
        if let Err(e) = self.available() {
            return Err(e);
        }
        if let Err(e) = policy.validate() {
            return Err(e);
        }
        let record: &ApprovalRecord = match self.records.get(id) {
            Some(record) => record,
            None => {
                return Err(ApprovalError::NotFound);
            },
        };
        if !record.request.policy.equals(policy) {
            return Err(ApprovalError::Conflict);
        }
        if now < record.updated_at {
            return Err(ApprovalError::Invalid("clock moved backwards"));
        }
        if now >= record.request.expires_at && (record.state == ApprovalState::Pending || record.state
            == ApprovalState::WaitingHuman || record.state == ApprovalState::Approved) {
            return match self.change(id, Change::Expire, now) {
                Ok(entry) => Ok(Some(entry)),
                Err(e) => Err(e),
            };
        }
        if record.state == ApprovalState::Expired {
            return Err(ApprovalError::Expired);
        }
        Ok(None)
    }

    /// Plans a request. The same operation of a task asked for again yields its
    /// record, or a conflict where anything about it differs.
    pub fn request(&self, operation: ProposedOperation, policy: ApprovalPolicy, now: u64) -> (r: Result<Step, ApprovalError>)
        requires
            self.wf(),
        ensures
            requested(self@, operation@, policy@, now, r),
    {
        if let Err(e) = self.available() {
            return Err(e);
        }
        if let Err(e) = operation.validate() {
            return Err(e);
        }
        if let Err(e) = policy.validate() {
            return Err(e);
        }
        if let Some(i) = find_operation(&self.records, &operation.task_id, &operation.operation_id) {
            let previous = self.records.value(i);
            proof {
                self.records.entry_at(i as int);
                assert(self@.records.contains_key(self.records.listed()[i as int].0@));
            }
            return if previous.request.operation.equals(&operation) && previous.request.policy.equals(&policy) {
                Ok(Step::Existing(previous.clone()))
            } else {
                Err(ApprovalError::Conflict)
            };
        }
        if self.sequence == u64::MAX {
            return Err(ApprovalError::Capacity);
        }
        let expires_at: u64 = match now.checked_add(policy.ttl_secs) {
            Some(at) => at,
            None => {
                return Err(ApprovalError::Invalid("expiry overflow"));
            },
        };
        let request = ApprovalRequest {
            request_id: request_id(self.sequence + 1),
            operation,
            policy,
            created_at: now,
            expires_at,
        };
        match self.plan(Event::Requested { request }, now) {
            Ok(entry) => Ok(Step::Append(entry)),
            Err(e) => Err(e),
        }
    }

    /// Plans the assessment of the configured reviewing model.
    pub fn assess(
        &self,
        request_id: &str,
        assessment: ModelAssessment,
        reviewer: ReviewerIdentity,
        current_policy: &ApprovalPolicy,
        now: u64,
    ) -> (r: Result<Step, ApprovalError>)
        requires
            self.wf(),
        ensures
            plans(
                r,
                guarded(
                    self@,
                    request_id@,
                    current_policy@,
                    if assessment.request_id@ == request_id@ { None } else { Some(Fault::Conflict) },
                    ChangeView::Assess {
                        assessment: AssessmentView {
                            decision: assessment.decision,
                            reason: assessment.reason@,
                            reviewer: SourceView::Harness {
                                harness_id: reviewer.harness_id@,
                                session_id: reviewer.session_id@,
                            },
                        },
                    },
                    now,
                ),
            ),
    {
        match self.check_current(request_id, current_policy, now) {
            Err(e) => {
                return Err(e);
            },
            Ok(Some(entry)) => {
                return Ok(Step::Expire(entry));
            },
            Ok(None) => {},
        }
        if !same(&assessment.request_id, request_id) {
            return Err(ApprovalError::Conflict);
        }
        let assessment = ApprovalAssessment {
            decision: assessment.decision,
            reason: assessment.reason,
            reviewer: AssessmentSource::Harness { harness_id: reviewer.harness_id, session_id: reviewer.session_id },
        };
        self.append(request_id, Change::Assess { assessment }, now)
    }

    /// Only a trusted interactive host handler may call this. `actor` is audit
    /// attribution, not authentication. Never derive it from a model response.
    pub fn decide_human(
        &self,
        request_id: &str,
        decision: ApprovalDecision,
        reason: String,
        actor: String,
        current_policy: &ApprovalPolicy,
        now: u64,
    ) -> (r: Result<Step, ApprovalError>)
        requires
            self.wf(),
        ensures
            plans(
                r,
                guarded(
                    self@,
                    request_id@,
                    current_policy@,
                    None,
                    ChangeView::HumanDecision {
                        assessment: AssessmentView {
                            decision,
                            reason: reason@,
                            reviewer: SourceView::Human { actor: actor@ },
                        },
                    },
                    now,
                ),
            ),
    {
        match self.check_current(request_id, current_policy, now) {
            Err(e) => {
                return Err(e);
            },
            Ok(Some(entry)) => {
                return Ok(Step::Expire(entry));
            },
            Ok(None) => {},
        }
        let assessment = ApprovalAssessment { decision, reason, reviewer: AssessmentSource::Human { actor } };
        self.append(request_id, Change::HumanDecision { assessment }, now)
    }

    /// Plans the execution intent of an approved operation.
    /// The caller must additionally revalidate the current target/file state.
    pub fn consume(&self, request_id: &str, operation: &ProposedOperation, current_policy: &ApprovalPolicy, now: u64) -> (r:
        Result<Step, ApprovalError>)
        requires
            self.wf(),
        ensures
            plans(r, consumption(self@, request_id@, operation@, current_policy@, now)),
    {
        match self.check_current(request_id, current_policy, now) {
            Err(e) => {
                return Err(e);
            },
            Ok(Some(entry)) => {
                return Ok(Step::Expire(entry));
            },
            Ok(None) => {},
        }
        match self.records.get(request_id) {
            Some(record) => {
                if !record.request.operation.equals(operation) {
                    return Err(ApprovalError::Conflict);
                }
            },
            None => {
                return Err(ApprovalError::NotFound);
            },
        }
        self.append(request_id, Change::Consume, now)
    }

    /// Plans the receipt of an execution. The permit is used up.
    pub fn complete(&self, permit: ExecutionPermit, outcome: ExecutionOutcome, reason: String, now: u64) -> (r: Result<
        Step,
        ApprovalError,
    >)
        requires
            self.wf(),
        ensures
            plans(r, completion(self@, permit@, outcome, reason@, now)),
    {
        if let Err(e) = self.available() {
            return Err(e);
        }
        match self.records.get(&permit.request_id) {
            Some(record) => {
                if self.identity != permit.store_identity || record.revision != permit.revision
                    || !record.request.operation.equals(&permit.operation) {
                    return Err(ApprovalError::Conflict);
                }
            },
            None => {
                return Err(ApprovalError::NotFound);
            },
        }
        self.append(&permit.request_id, Change::Complete { outcome, reason }, now)
    }

    pub fn revoke(&self, request_id: &str, reason: String, now: u64) -> (r: Result<Step, ApprovalError>)
        requires
            self.wf(),
        ensures
            plans(r, appended(planned_change(self@, request_id@, ChangeView::Revoke { reason: reason@ }, now))),
    {
        self.append(request_id, Change::Revoke { reason }, now)
    }

    pub fn cancel(&self, request_id: &str, reason: String, now: u64) -> (r: Result<Step, ApprovalError>)
        requires
            self.wf(),
        ensures
            plans(r, appended(planned_change(self@, request_id@, ChangeView::Cancel { reason: reason@ }, now))),
    {
        self.append(request_id, Change::Cancel { reason }, now)
    }

    /// Record a host-observed review failure without inventing model output.
    pub fn mark_waiting_human(&self, request_id: &str, reason: String, now: u64) -> (r: Result<Step, ApprovalError>)
        requires
            self.wf(),
        ensures
            ({
                let s = self@;
                if s.reserved is Some {
                    r is Err && r->Err_0@ == Fault::Unavailable
                } else if !s.records.contains_key(request_id@) {
                    r is Err && r->Err_0@ == Fault::NotFound
                } else {
                    plans(
                        r,
                        guarded(
                            s,
                            request_id@,
                            s.records[request_id@].request.policy,
                            None,
                            ChangeView::WaitingHuman { reason: reason@ },
                            now,
                        ),
                    )
                }
            }),
    {
        if let Err(e) = self.available() {
            return Err(e);
        }
        let policy = match self.records.get(request_id) {
            Some(record) => record.request.policy.clone(),
            None => {
                return Err(ApprovalError::NotFound);
            },
        };
        match self.check_current(request_id, &policy, now) {
            Err(e) => {
                return Err(e);
            },
            Ok(Some(entry)) => {
                return Ok(Step::Expire(entry));
            },
            Ok(None) => {},
        }
        self.append(request_id, Change::WaitingHuman { reason }, now)
    }

    /// Call only after independently verifying the target and stopping the old
    /// executor. This records a terminal fact; it never renews an execution permit.
    pub fn reconcile_unknown(&self, request_id: &str, outcome: ExecutionOutcome, reason: String, actor: String, now: u64) -> (r:
        Result<Step, ApprovalError>)
        requires
            self.wf(),
        ensures
            plans(
                r,
                appended(
                    planned_change(
                        self@,
                        request_id@,
                        ChangeView::Reconcile { outcome, reason: reason@, actor: actor@ },
                        now,
                    ),
                ),
            ),
    {
        self.append(request_id, Change::Reconcile { outcome, reason, actor }, now)
    }

    /// Plans the recovery of a request that an earlier run left executing.
    pub fn recover(&self, request_id: &str, now: u64) -> (r: Result<Step, ApprovalError>)
        requires
            self.wf(),
        ensures
            plans(r, appended(planned_change(self@, request_id@, ChangeView::RecoverUnknown, now))),
    {
        self.append(request_id, Change::RecoverUnknown, now)
    }

    /// Reserves room for an encoded line of `line` bytes, line feed included.
    /// Until the line is installed the store refuses every other step.
    pub fn reserve(&mut self, line: usize) -> (r: Result<(), ApprovalError>)
        requires
            old(self).wf(),
        ensures
            final(self).wf(),
            ({
                let s = old(self)@;
                match r {
                    Ok(_) => s.reserved is None && line <= MAX_RECORD && s.bytes + line <= s.max_journal_bytes
                        && final(self)@ == (StoreView { reserved: Some(line as u64), ..s }),
                    Err(e) => final(self)@ == s && if s.reserved is Some {
                        e@ == Fault::Unavailable
                    } else {
                        e@ == Fault::Capacity && (line > MAX_RECORD || s.bytes + line > s.max_journal_bytes)
                    },
                }
            }),
    {
        if let Err(e) = self.available() {
            return Err(e);
        }
        if line > MAX_RECORD {
            return Err(ApprovalError::Capacity);
        }
        let total: u64 = match self.bytes.checked_add(line as u64) {
            Some(total) => total,
            None => {
                return Err(ApprovalError::Capacity);
            },
        };
        if total > self.config.max_journal_bytes {
            return Err(ApprovalError::Capacity);
        }
        self.reserved = Some(line as u64);
        Ok(())
    }

    /// Installs a line whose write has been synced.
    pub fn install(&mut self, entry: &JournalEntry) -> (r: Result<ApprovalRecord, ApprovalError>)
        requires
            old(self).wf(),
        ensures
            final(self).wf(),
            final(self)@ == after_installation(old(self)@, entry@),
            match r {
                Ok(record) => installation(old(self)@, entry@) == Ok::<RecordView, Fault>(record@),
                Err(e) => installation(old(self)@, entry@) == Err::<RecordView, Fault>(e@),
            },
    {
        let reserved: u64 = match self.reserved {
            Some(n) => n,
            None => {
                return Err(ApprovalError::Conflict);
            },
        };
        if self.sequence == u64::MAX || self.sequence + 1 != entry.sequence {
            return Err(ApprovalError::Conflict);
        }
        let total: u64 = match self.bytes.checked_add(reserved) {
            Some(total) => total,
            None => {
                return Err(ApprovalError::Capacity);
            },
        };
        match apply(&self.records, self.config.max_requests, &entry.event, entry.now, entry.sequence) {
            Ok(record) => {
                let answer = record.clone();
                self.put(record, entry);
                self.bytes = total;
                self.reserved = None;
                Ok(answer)
            },
            Err(e) => Err(e),
        }
    }

    /// Installs a synced execution intent and hands out its capability.
    pub fn install_intent(&mut self, entry: &JournalEntry) -> (r: Result<ExecutionPermit, ApprovalError>)
        requires
            old(self).wf(),
        ensures
            final(self).wf(),
            match r {
                Ok(permit) => {
                    &&& intent_installation(old(self)@, entry@) is Ok
                    &&& permit@ == permit_for(old(self)@, intent_installation(old(self)@, entry@)->Ok_0)
                    &&& final(self)@ == after_installation(old(self)@, entry@)
                },
                Err(e) => {
                    &&& intent_installation(old(self)@, entry@) == Err::<RecordView, Fault>(e@)
                    &&& final(self)@ == old(self)@
                },
            },
    {
        let consumes = match &entry.event {
            Event::Changed { request_id: _, change: Change::Consume } => true,
            _ => false,
        };
        if !consumes {
            return Err(ApprovalError::Conflict);
        }
        match self.install(entry) {
            Ok(record) => {
                Ok(
                    ExecutionPermit {
                        request_id: record.request.request_id.clone(),
                        revision: record.revision,
                        operation: record.request.operation.clone(),
                        store_identity: self.identity,
                    },
                )
            },
            Err(e) => Err(e),
        }
    }
}

/// Checks how a journal ends. An unfinished line may be an interrupted execution intent:
/// it is never dropped, so that an old approval cannot be used again.
pub fn check_journal(bytes: &Vec<u8>) -> (r: Result<(), ApprovalError>)
    ensures
        match r {
            Ok(_) => bytes@.len() == 0 || bytes@.last() == crate::lines::NEWLINE,
            Err(e) => bytes@.len() > 0 && bytes@.last() != crate::lines::NEWLINE && e@ == Fault::Corrupt(
                "incomplete final record"@,
            ),
        },
{
    if crate::lines::incomplete(bytes) {
        return Err(ApprovalError::Corrupt(copied("incomplete final record")));
    }
    Ok(())
}

/// Checks the length of one journal line, newline included.
pub fn check_line(len: usize) -> (r: Result<(), ApprovalError>)
    ensures
        match r {
            Ok(_) => len <= MAX_RECORD,
            Err(e) => len > MAX_RECORD && e@ == Fault::Corrupt("oversized record"@),
        },
{
    if len > MAX_RECORD {
        return Err(ApprovalError::Corrupt(copied("oversized record")));
    }
    Ok(())
}

} // verus!
