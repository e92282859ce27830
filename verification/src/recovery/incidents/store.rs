//! The incident store: planning of durable steps, replay and installation.
//!
//! Single synchronous writer. A step is planned against the records, encoded
//! and written by the caller, and then installed; a failed write leaves the
//! store unavailable.
use super::bounds::{bounded_object, bounded_text, object_fault, text_fault, text_fits};
use super::episodes::{
    coherent, consistent, draft, draft_is_insertion, drafted, given_out, incident_id_of, incidents_of, inserted, is_open, later,
    max_of, overflow, written, Draft, KeyView,
};
use super::{
    fault_message, same_commit, AckView, Checkpoint, CommitView, Event, EventView, Fault, IncidentAcknowledgement,
    IncidentError, IncidentRecord, IncidentStatus, IncidentStoreConfig, IncidentView, MonitorCommit, MAX_ACK_NOTE_BYTES,
    MAX_CHECKPOINT_BYTES, MAX_RECORD_BYTES,
};
use crate::table::{lists, Table};
use crate::text::{copied, less};
use vstd::prelude::*;

verus! {

/// One line of the journal.
pub struct JournalEntry {
    pub format: u32,
    pub sequence: u64,
    pub event: Event,
}

pub struct EntryView {
    pub format: u32,
    pub sequence: u64,
    pub event: EventView,
}

impl View for JournalEntry {
    type V = EntryView;

    open spec fn view(&self) -> EntryView {
        EntryView { format: self.format, sequence: self.sequence, event: self.event@ }
    }
}

/// The latest commit of a monitor.
pub struct MonitorState {
    pub commit: MonitorCommit,
    pub updated_at_ms: u64,
}

pub struct MonitorView {
    pub commit: CommitView,
    pub updated_at_ms: u64,
}

impl View for MonitorState {
    type V = MonitorView;

    open spec fn view(&self) -> MonitorView {
        MonitorView { commit: self.commit@, updated_at_ms: self.updated_at_ms }
    }
}

/// What an event writes.
struct Prepared {
    records: Vec<IncidentRecord>,
    monitor: Option<MonitorState>,
}

pub struct IncidentStore {
    config: IncidentStoreConfig,
    bytes: u64,
    sequence: u64,
    reserved: Option<u64>,
    closed: bool,
    records: Table<IncidentRecord>,
    monitors: Table<MonitorState>,
}

pub struct StoreView {
    pub max_incidents: usize,
    pub max_monitors: usize,
    pub max_journal_bytes: u64,
    pub bytes: u64,
    pub sequence: u64,
    /// Size of a line that is being written; the store takes no other step.
    pub reserved: Option<u64>,
    pub closed: bool,
    pub records: Map<Seq<char>, IncidentView>,
    pub monitors: Map<Seq<char>, MonitorView>,
}

pub open spec fn monitors_of(table: Table<MonitorState>) -> Map<Seq<char>, MonitorView> {
    table@.map_values(|m: MonitorState| m@)
}

/// What every reachable store satisfies: see `consistent`.
pub open spec fn sound(records: Map<Seq<char>, IncidentView>, sequence: u64) -> bool {
    &&& forall|id: Seq<char>| #[trigger]
        records.contains_key(id) ==> records[id].id == id && coherent(records[id]) && exists|n: u64, i: nat|
            id == #[trigger] incident_id_of(n, i) && i < 65536 && n <= sequence
    &&& forall|key: KeyView, a: Seq<char>, b: Seq<char>| #[trigger]
        is_open(records, key, a) && #[trigger] is_open(records, key, b) ==> a == b
}

pub proof fn sound_is_consistent(records: Map<Seq<char>, IncidentView>, sequence: u64)
    requires
        sound(records, sequence),
        sequence < u64::MAX,
    ensures
        consistent(records, (sequence + 1) as u64, 0),
{
    let next = (sequence + 1) as u64;
    assert forall|id: Seq<char>| #[trigger] records.contains_key(id) implies records[id].id == id && coherent(
        records[id],
    ) && given_out(id, next, 0) by {
        let (n, i) = choose|n: u64, i: nat| id == #[trigger] incident_id_of(n, i) && i < 65536 && n <= sequence;
        assert(id == incident_id_of(n, i) && n < next);
    }
}

pub proof fn consistent_is_sound(records: Map<Seq<char>, IncidentView>, sequence: u64, index: nat)
    requires
        consistent(records, sequence, index),
    ensures
        sound(records, sequence),
{
    assert forall|id: Seq<char>| #[trigger] records.contains_key(id) implies records[id].id == id && coherent(
        records[id],
    ) && exists|n: u64, i: nat| id == #[trigger] incident_id_of(n, i) && i < 65536 && n <= sequence by {
        assert(given_out(id, sequence, index));
        let (n, i) = choose|n: u64, i: nat|
            id == #[trigger] incident_id_of(n, i) && i < 65536 && (n < sequence || (n == sequence && i < index));
        assert(id == incident_id_of(n, i) && n <= sequence);
    }
}

/// The state that an event leads to.
pub struct Update {
    pub records: Map<Seq<char>, IncidentView>,
    pub monitors: Map<Seq<char>, MonitorView>,
}

/// An acknowledged incident: attention is recorded, the condition stays.
pub open spec fn acknowledged(r: IncidentView, actor: Seq<char>, note: Seq<char>, now_ms: u64) -> IncidentView {
    IncidentView {
        revision: (r.revision + 1) as u64,
        status: IncidentStatus::Acknowledged,
        acknowledgement: Some(AckView { actor, note, at_ms: later(now_ms, r.last_seen) }),
        ..r
    }
}

pub open spec fn commit_fault(s: StoreView, commit: CommitView) -> Option<Fault> {
    if !text_fits(commit.monitor_id, 256, false) {
        Some(text_fault("monitor id"@, 256))
    } else if object_fault(commit.checkpoint, MAX_CHECKPOINT_BYTES as nat, "checkpoint"@) is Some {
        object_fault(commit.checkpoint, MAX_CHECKPOINT_BYTES as nat, "checkpoint"@)
    } else if commit.signals.len() > 128 {
        Some(Fault::Capacity("signals per commit"@))
    } else {
        None
    }
}

/// Refusals for the place of a commit in its monitor's sequence.
pub open spec fn order_fault(s: StoreView, commit: CommitView) -> Option<Fault> {
    if s.monitors.contains_key(commit.monitor_id) {
        let previous = s.monitors[commit.monitor_id].commit;
        if previous.sequence == u64::MAX {
            Some(overflow())
        } else if commit.sequence != previous.sequence + 1 {
            Some(Fault::Conflict("monitor sequence"@))
        } else {
            None
        }
    } else if commit.sequence != 1 {
        Some(Fault::Conflict("first monitor sequence must be one"@))
    } else if s.monitors.dom().len() >= s.max_monitors {
        Some(Fault::Capacity("monitors"@))
    } else {
        None
    }
}

/// The latest full commit of a monitor sent again.
pub open spec fn repeats(s: StoreView, commit: CommitView) -> bool {
    s.monitors.contains_key(commit.monitor_id) && same_commit(s.monitors[commit.monitor_id].commit, commit)
}

pub open spec fn commit_base(s: StoreView, commit: CommitView) -> Draft {
    Draft {
        records: s.records,
        changed: Seq::empty(),
        timestamp: if s.monitors.contains_key(commit.monitor_id) {
            later(commit.now_ms, s.monitors[commit.monitor_id].updated_at_ms)
        } else {
            commit.now_ms
        },
        added: 0,
    }
}

/// What a commit leads to; nothing for a repeated one.
pub open spec fn committed(s: StoreView, commit: CommitView, sequence: u64) -> Result<Option<Update>, Fault> {
    if commit_fault(s, commit) is Some {
        Err(commit_fault(s, commit)->0)
    } else if repeats(s, commit) {
        Ok(None)
    } else if order_fault(s, commit) is Some {
        Err(order_fault(s, commit)->0)
    } else {
        match drafted(commit_base(s, commit), commit.signals, commit.monitor_id, sequence) {
            Err(f) => Err(f),
            Ok(d) => if s.records.dom().len() + d.added > s.max_incidents {
                Err(Fault::Capacity("incident episodes"@))
            } else {
                Ok(
                    Some(
                        Update {
                            records: d.records,
                            monitors: s.monitors.insert(commit.monitor_id, MonitorView { commit, updated_at_ms: d.timestamp }),
                        },
                    ),
                )
            },
        }
    }
}

pub open spec fn acknowledgement(
    s: StoreView,
    id: Seq<char>,
    expected_revision: u64,
    actor: Seq<char>,
    note: Seq<char>,
    now_ms: u64,
) -> Result<Option<Update>, Fault> {
    if !text_fits(id, 256, false) {
        Err(text_fault("incident id"@, 256))
    } else if !text_fits(actor, 256, false) {
        Err(text_fault("actor"@, 256))
    } else if !text_fits(note, MAX_ACK_NOTE_BYTES as nat, true) {
        Err(text_fault("acknowledgement note"@, MAX_ACK_NOTE_BYTES as nat))
    } else if !s.records.contains_key(id) {
        Err(Fault::NotFound(id))
    } else if s.records[id].revision != expected_revision || s.records[id].status != IncidentStatus::Open {
        Err(Fault::Conflict("revision changed or incident is not open"@))
    } else if s.records[id].revision == u64::MAX {
        Err(overflow())
    } else {
        let r = acknowledged(s.records[id], actor, note, now_ms);
        Ok(Some(Update { records: s.records.insert(r.id, r), monitors: s.monitors }))
    }
}

/// What an event leads to, or why it is refused. Live events and replayed ones
/// are judged alike.
pub open spec fn outcome(s: StoreView, event: EventView, sequence: u64) -> Result<Option<Update>, Fault> {
    match event {
        EventView::Monitor { commit } => committed(s, commit, sequence),
        EventView::Acknowledge { id, expected_revision, actor, note, now_ms } => acknowledgement(
            s,
            id,
            expected_revision,
            actor,
            note,
            now_ms,
        ),
    }
}

/// A refusal before an event is looked at.
pub open spec fn unavailable(s: StoreView) -> Option<Fault> {
    if s.reserved is Some || s.closed {
        Some(Fault::Unavailable("previous write failed; reopen after checking storage"@))
    } else if s.sequence == u64::MAX {
        Some(overflow())
    } else {
        None
    }
}

pub open spec fn updated(s: StoreView, u: Update) -> StoreView {
    StoreView { records: u.records, monitors: u.monitors, sequence: (s.sequence + 1) as u64, ..s }
}

/// The line for an event, nothing where it repeats the latest commit of its
/// monitor, or why it is refused.
pub open spec fn planned(s: StoreView, event: EventView) -> Result<Option<EntryView>, Fault> {
    let sequence = (s.sequence + 1) as u64;
    if unavailable(s) is Some {
        Err(unavailable(s)->0)
    } else {
        match outcome(s, event, sequence) {
            Err(f) => Err(f),
            Ok(None) => Ok(None),
            Ok(Some(_)) => Ok(Some(EntryView { format: 1, sequence, event })),
        }
    }
}

/// The store while a line of `line` bytes is being written, or why there is no
/// room for it.
pub open spec fn reservation(s: StoreView, line: nat) -> Result<StoreView, Fault> {
    if s.reserved is Some || s.closed {
        Err(Fault::Unavailable("previous write failed; reopen after checking storage"@))
    } else if line > MAX_RECORD_BYTES {
        Err(Fault::Capacity("single journal record bytes"@))
    } else if s.bytes + line > s.max_journal_bytes {
        Err(Fault::Capacity("journal bytes"@))
    } else {
        Ok(StoreView { reserved: Some(line as u64), ..s })
    }
}

/// The store once a reserved line is on disk, or why it is not installed.
pub open spec fn installation(s: StoreView, entry: EntryView) -> Result<StoreView, Fault> {
    if s.reserved is None {
        Err(Fault::Unavailable("no line was reserved"@))
    } else if s.sequence + 1 != entry.sequence {
        Err(Fault::Conflict("journal sequence"@))
    } else if s.bytes + s.reserved->0 > u64::MAX {
        Err(Fault::Capacity("journal bytes"@))
    } else {
        match outcome(s, entry.event, entry.sequence) {
            Err(f) => Err(f),
            Ok(None) => Err(Fault::Conflict("journal sequence"@)),
            Ok(Some(u)) => Ok(StoreView { bytes: (s.bytes + s.reserved->0) as u64, reserved: None, ..updated(s, u) }),
        }
    }
}

/// A closed store: what it holds can still be read.
pub open spec fn closed(s: StoreView) -> StoreView {
    StoreView { closed: true, ..s }
}

pub open spec fn ids_of(list: Seq<IncidentView>) -> Seq<Seq<char>> {
    list.map_values(|r: IncidentView| r.id)
}

impl View for IncidentStore {
    type V = StoreView;

    closed spec fn view(&self) -> StoreView {
        StoreView {
            max_incidents: self.config.max_incidents,
            max_monitors: self.config.max_monitors,
            max_journal_bytes: self.config.max_journal_bytes,
            bytes: self.bytes,
            sequence: self.sequence,
            reserved: self.reserved,
            closed: self.closed,
            records: incidents_of(self.records),
            monitors: monitors_of(self.monitors),
        }
    }
}

/// The answer to a request for a line.
pub open spec fn plans(r: Result<Option<JournalEntry>, IncidentError>, plan: Result<Option<EntryView>, Fault>) -> bool {
    match r {
        Ok(Some(entry)) => plan == Ok::<Option<EntryView>, Fault>(Some(entry@)),
        Ok(None) => plan == Ok::<Option<EntryView>, Fault>(None),
        Err(e) => plan == Err::<Option<EntryView>, Fault>(e@),
    }
}

/// The update a prepared event stands for.
spec fn update_of(s: StoreView, p: Prepared) -> Update {
    Update {
        records: inserted(s.records, written(p.records@)),
        monitors: match p.monitor {
            Some(m) => s.monitors.insert(m.commit.monitor_id@, m@),
            None => s.monitors,
        },
    }
}

impl IncidentStore {
    pub closed spec fn wf(&self) -> bool {
        &&& self.records.wf()
        &&& self.monitors.wf()
        &&& sound(incidents_of(self.records), self.sequence)
    }

    /// The incidents in order of their ids.
    pub closed spec fn listing(&self) -> Seq<IncidentView> {
        self.records.listed().map_values(|e: (String, IncidentRecord)| e.1@)
    }

    /// The listing holds every incident, once, in ascending order of the ids, and nothing else.
    pub proof fn listing_is_whole(&self)
        requires
            self.wf(),
        ensures
            lists(ids_of(self.listing()), self.listing(), self@.records),
    {
        let list = self.listing();
        let ids = ids_of(list);
        let map = incidents_of(self.records);
        assert forall|i: int| 0 <= i < ids.len() implies map.contains_key(#[trigger] ids[i]) && map[ids[i]] == list[i]
            && ids[i] == self.records.listed()[i].0@ by {
            self.records.entry_at(i);
            assert(map.contains_key(self.records.listed()[i].0@));
        }
        assert forall|i: int, j: int| 0 <= i < j < ids.len() implies less(#[trigger] ids[i], #[trigger] ids[j]) by {
            assert(less(self.records.listed()[i].0@, self.records.listed()[j].0@));
        }
        assert forall|k: Seq<char>| #[trigger] map.contains_key(k) implies ids.contains(k) by {
            let p = self.records.entry_of(k);
            assert(ids[p] == k);
        }
    }

    /// What holds of every store: see `sound`.
    pub proof fn records_are_sound(&self)
        requires
            self.wf(),
        ensures
            sound(self@.records, self@.sequence),
            self@.records.dom().finite(),
    {
        self.records.lists_its_entries();
        assert(incidents_of(self.records).dom() =~= self.records@.dom());
    }

    /// An empty store over a journal of `bytes` bytes.
    pub fn open(config: IncidentStoreConfig, bytes: u64) -> (r: Result<Self, IncidentError>)
        ensures
            ({
                let limits = 1 <= config.max_incidents <= 100000 && 1 <= config.max_monitors <= 4096 && 1
                    <= config.max_journal_bytes <= 1073741824;
                match r {
                    Ok(store) => limits && bytes <= config.max_journal_bytes && store.wf() && store@ == (StoreView {
                        max_incidents: config.max_incidents,
                        max_monitors: config.max_monitors,
                        max_journal_bytes: config.max_journal_bytes,
                        bytes,
                        sequence: 0,
                        reserved: None,
                        closed: false,
                        records: Map::empty(),
                        monitors: Map::empty(),
                    }),
                    Err(e) => if !limits {
                        e@ == Fault::Invalid("store limits out of range"@)
                    } else {
                        bytes > config.max_journal_bytes && e@ == Fault::Capacity("journal bytes"@)
                    },
                }
            }),
    {
        if config.max_incidents < 1 || config.max_incidents > 100000 || config.max_monitors < 1 || config.max_monitors > 4096
            || config.max_journal_bytes < 1 || config.max_journal_bytes > 1073741824 {
            return Err(IncidentError::Invalid(copied("store limits out of range")));
        }
        if bytes > config.max_journal_bytes {
            return Err(IncidentError::Capacity(copied("journal bytes")));
        }
        let store = IncidentStore {
            config,
            bytes,
            sequence: 0,
            reserved: None,
            closed: false,
            records: Table::new(),
            monitors: Table::new(),
        };
        proof {
            assert(incidents_of(store.records) =~= Map::<Seq<char>, IncidentView>::empty());
            assert(monitors_of(store.monitors) =~= Map::<Seq<char>, MonitorView>::empty());
        }
        Ok(store)
    }

    pub fn checkpoint(&self, monitor_id: &str) -> (r: Option<Checkpoint>)
        requires
            self.wf(),
        ensures
            match r {
                Some(c) => self@.monitors.contains_key(monitor_id@) && c.sequence == self@.monitors[monitor_id@].commit.sequence
                    && c.value@ == self@.monitors[monitor_id@].commit.checkpoint && c.updated_at_ms
                    == self@.monitors[monitor_id@].updated_at_ms,
                None => !self@.monitors.contains_key(monitor_id@),
            },
    {
        match self.monitors.get(monitor_id) {
            Some(state) => Some(
                Checkpoint {
                    sequence: state.commit.sequence,
                    value: state.commit.checkpoint.copy(),
                    updated_at_ms: state.updated_at_ms,
                },
            ),
            None => None,
        }
    }

    pub fn get(&self, id: &str) -> (r: Option<IncidentRecord>)
        requires
            self.wf(),
        ensures
            match r {
                Some(record) => self@.records.contains_key(id@) && record@ == self@.records[id@],
                None => !self@.records.contains_key(id@),
            },
    {
        match self.records.get(id) {
            Some(record) => Some(record.clone()),
            None => None,
        }
    }

    /// Every incident, in order of the ids.
    pub fn list(&self) -> (r: Vec<IncidentRecord>)
        requires
            self.wf(),
        ensures
            written(r@) == self.listing(),
    {
        let mut r: Vec<IncidentRecord> = Vec::new();
        let mut i: usize = 0;
        while i < self.records.len()
            invariant
                i <= self.records.listed().len(),
                r.len() == i,
                forall|j: int| 0 <= j < i ==> (#[trigger] r@[j])@ == self.records.listed()[j].1@,
            decreases self.records.listed().len() - i,
        {
            r.push(self.records.value(i).clone());
            i = i + 1;
        }
        assert(written(r@) =~= self.listing());
        r
    }

    /// Releases storage while keeping the final read view; nothing is accepted any more.
    pub fn close(&mut self) -> (r: Result<(), IncidentError>)
        requires
            old(self).wf(),
        ensures
            r is Ok,
            final(self).wf(),
            final(self)@ == closed(old(self)@),
            final(self).listing() == old(self).listing(),
    {
        self.closed = true;
        Ok(())
    }

    fn prepare_monitor(&self, commit: &MonitorCommit, sequence: u64) -> (r: Result<Option<Prepared>, IncidentError>)
        requires
            self.wf(),
            self@.sequence < u64::MAX,
            sequence == self@.sequence + 1,
        ensures
            match r {
                Ok(Some(p)) => committed(self@, commit@, sequence) == Ok::<Option<Update>, Fault>(Some(update_of(self@, p))),
                Ok(None) => committed(self@, commit@, sequence) == Ok::<Option<Update>, Fault>(None),
                Err(e) => committed(self@, commit@, sequence) == Err::<Option<Update>, Fault>(e@),
            },
    {
        if let Err(e) = bounded_text(&commit.monitor_id, 256, "monitor id", false) {
            return Err(e);
        }
        if let Err(e) = bounded_object(&commit.checkpoint, MAX_CHECKPOINT_BYTES, "checkpoint") {
            return Err(e);
        }
        if commit.signals.len() > 128 {
            return Err(IncidentError::Capacity(copied("signals per commit")));
        }
        let mut timestamp: u64 = commit.now_ms;
        proof {
            self.monitors.lists_its_entries();
            assert(monitors_of(self.monitors).dom() =~= self.monitors@.dom());
            self.records.lists_its_entries();
            assert(incidents_of(self.records).dom() =~= self.records@.dom());
        }
        match self.monitors.get(&commit.monitor_id) {
            Some(previous) => {
                if previous.commit.equals(commit) {
                    return Ok(None);
                }
                if previous.commit.sequence == u64::MAX {
                    return Err(IncidentError::Capacity(copied("sequence overflow")));
                }
                if commit.sequence != previous.commit.sequence + 1 {
                    return Err(IncidentError::Conflict(copied("monitor sequence")));
                }
                timestamp = max_of(commit.now_ms, previous.updated_at_ms);
            },
            None => {
                if commit.sequence != 1 {
                    return Err(IncidentError::Conflict(copied("first monitor sequence must be one")));
                }
                if self.monitors.len() >= self.config.max_monitors {
                    return Err(IncidentError::Capacity(copied("monitors")));
                }
            },
        }
        proof {
            sound_is_consistent(self@.records, self@.sequence);
        }
        let ghost base = commit_base(self@, commit@);
        match draft(&self.records, &commit.signals, &commit.monitor_id, sequence, timestamp) {
            Ok((changed, at, added)) => {
                let held: usize = self.records.len();
                proof {
                    draft_is_insertion(base, commit@.signals, commit.monitor_id@, sequence);
                }
                if held > self.config.max_incidents || added > self.config.max_incidents - held {
                    return Err(IncidentError::Capacity(copied("incident episodes")));
                }
                Ok(
                    Some(
                        Prepared {
                            records: changed,
                            monitor: Some(MonitorState { commit: commit.clone(), updated_at_ms: at }),
                        },
                    ),
                )
            },
            Err(e) => Err(e),
        }
    }

    fn prepare(&self, event: &Event, sequence: u64) -> (r: Result<Option<Prepared>, IncidentError>)
        requires
            self.wf(),
            self@.sequence < u64::MAX,
            sequence == self@.sequence + 1,
        ensures
            match r {
                Ok(Some(p)) => outcome(self@, event@, sequence) == Ok::<Option<Update>, Fault>(Some(update_of(self@, p))),
                Ok(None) => outcome(self@, event@, sequence) == Ok::<Option<Update>, Fault>(None),
                Err(e) => outcome(self@, event@, sequence) == Err::<Option<Update>, Fault>(e@),
            },
    {
        match event {
            Event::Monitor { commit } => self.prepare_monitor(commit, sequence),
            Event::Acknowledge { id, expected_revision, actor, note, now_ms } => {
                if let Err(e) = bounded_text(id, 256, "incident id", false) {
                    return Err(e);
                }
                if let Err(e) = bounded_text(actor, 256, "actor", false) {
                    return Err(e);
                }
                if let Err(e) = bounded_text(note, MAX_ACK_NOTE_BYTES, "acknowledgement note", true) {
                    return Err(e);
                }
                let mut record = match self.records.get(id) {
                    Some(record) => record.clone(),
                    None => {
                        return Err(IncidentError::NotFound(id.clone()));
                    },
                };
                if record.revision != *expected_revision || record.status != IncidentStatus::Open {
                    return Err(IncidentError::Conflict(copied("revision changed or incident is not open")));
                }
                if record.revision == u64::MAX {
                    return Err(IncidentError::Capacity(copied("sequence overflow")));
                }
                record.revision = record.revision + 1;
                record.status = IncidentStatus::Acknowledged;
                record.acknowledgement = Some(
                    IncidentAcknowledgement {
                        actor: actor.clone(),
                        note: note.clone(),
                        at_ms: max_of(*now_ms, record.last_seen),
                    },
                );
                let ghost view = record@;
                let mut records: Vec<IncidentRecord> = Vec::new();
                records.push(record);
                proof {
                    assert(written(records@) =~= seq![view]);
                    assert(seq![view].drop_last() =~= Seq::<IncidentView>::empty());
                    reveal_with_fuel(inserted, 2);
                    assert(self@.monitors == monitors_of(self.monitors));
                }
                Ok(Some(Prepared { records, monitor: None }))
            },
        }
    }

    fn put(&mut self, prepared: Prepared)
        requires
            old(self).records.wf(),
            old(self).monitors.wf(),
        ensures
            final(self).records.wf(),
            final(self).monitors.wf(),
            final(self)@ == (StoreView {
                records: update_of(old(self)@, prepared).records,
                monitors: update_of(old(self)@, prepared).monitors,
                ..old(self)@
            }),
    {
        let ghost base = incidents_of(self.records);
        let ghost all = written(prepared.records@);
        let ghost was = self@;
        let mut i: usize = 0;
        assert(all.subrange(0, 0) =~= Seq::<IncidentView>::empty());
        while i < prepared.records.len()
            invariant
                i <= prepared.records.len(),
                all == written(prepared.records@),
                self.records.wf(),
                self.monitors.wf(),
                incidents_of(self.records) == inserted(base, all.subrange(0, i as int)),
                self@ == (StoreView { records: incidents_of(self.records), ..was }),
                self.monitors == old(self).monitors,
            decreases prepared.records.len() - i,
        {
            let record = prepared.records[i].clone();
            let ghost view = record@;
            let ghost had = incidents_of(self.records);
            let key = record.id.clone();
            self.records.insert(key, record);
            proof {
                assert(incidents_of(self.records) =~= had.insert(view.id, view));
                let now = all.subrange(0, i + 1);
                assert(now.drop_last() =~= all.subrange(0, i as int));
                assert(now.last() == view);
            }
            i = i + 1;
        }
        assert(all.subrange(0, prepared.records.len() as int) =~= all);
        if let Some(state) = prepared.monitor {
            let ghost had = monitors_of(self.monitors);
            let ghost view = state@;
            let key = state.commit.monitor_id.clone();
            self.monitors.insert(key, state);
            assert(monitors_of(self.monitors) =~= had.insert(view.commit.monitor_id, view));
        }
    }

    /// The line for an event; nothing for a repeated commit.
    pub fn plan(&self, event: Event) -> (r: Result<Option<JournalEntry>, IncidentError>)
        requires
            self.wf(),
        ensures
            plans(r, planned(self@, event@)),
    {
        if self.reserved.is_some() || self.closed {
            return Err(IncidentError::Unavailable(copied("previous write failed; reopen after checking storage")));
        }
        if self.sequence == u64::MAX {
            return Err(IncidentError::Capacity(copied("sequence overflow")));
        }
        let sequence: u64 = self.sequence + 1;
        match self.prepare(&event, sequence) {
            Ok(Some(_)) => Ok(Some(JournalEntry { format: 1, sequence, event })),
            Ok(None) => Ok(None),
            Err(e) => Err(e),
        }
    }

    /// Starts at one and advances exactly one sequence per monitor. Only the
    /// latest identical full commit can be retried without another journal write.
    pub fn commit(&self, commit: MonitorCommit) -> (r: Result<Option<JournalEntry>, IncidentError>)
        requires
            self.wf(),
        ensures
            plans(r, planned(self@, EventView::Monitor { commit: commit@ })),
    {
        self.plan(Event::Monitor { commit })
    }

    /// The caller supplies its authenticated host identity. Acknowledgement
    /// records attention only; it does not clear the condition or grant actions.
    pub fn acknowledge(&self, id: &str, expected_revision: u64, actor: &str, note: &str, now_ms: u64) -> (r: Result<
        JournalEntry,
        IncidentError,
    >)
        requires
            self.wf(),
        ensures
            ({
                let event = EventView::Acknowledge { id: id@, expected_revision, actor: actor@, note: note@, now_ms };
                match r {
                    Ok(entry) => planned(self@, event) == Ok::<Option<EntryView>, Fault>(Some(entry@)),
                    Err(e) => planned(self@, event) == Err::<Option<EntryView>, Fault>(e@),
                }
            }),
    {
        let event = Event::Acknowledge {
            id: copied(id),
            expected_revision,
            actor: copied(actor),
            note: copied(note),
            now_ms,
        };
        match self.plan(event) {
            Ok(Some(entry)) => Ok(entry),
            Ok(None) => Err(IncidentError::NotFound(copied(id))),
            Err(e) => Err(e),
        }
    }

    /// Reserves room for an encoded line of `line` bytes, line feed included.
    pub fn reserve(&mut self, line: usize) -> (r: Result<(), IncidentError>)
        requires
            old(self).wf(),
        ensures
            final(self).wf(),
            match r {
                Ok(_) => reservation(old(self)@, line as nat) == Ok::<StoreView, Fault>(final(self)@),
                Err(e) => final(self)@ == old(self)@ && reservation(old(self)@, line as nat) == Err::<StoreView, Fault>(e@),
            },
    {
        if self.reserved.is_some() || self.closed {
            return Err(IncidentError::Unavailable(copied("previous write failed; reopen after checking storage")));
        }
        if line > MAX_RECORD_BYTES {
            return Err(IncidentError::Capacity(copied("single journal record bytes")));
        }
        let total: u64 = match self.bytes.checked_add(line as u64) {
            Some(total) => total,
            None => {
                return Err(IncidentError::Capacity(copied("journal bytes")));
            },
        };
        if total > self.config.max_journal_bytes {
            return Err(IncidentError::Capacity(copied("journal bytes")));
        }
        self.reserved = Some(line as u64);
        Ok(())
    }

    /// Installs a line whose write has been synced.
    pub fn install(&mut self, entry: &JournalEntry) -> (r: Result<(), IncidentError>)
        requires
            old(self).wf(),
        ensures
            final(self).wf(),
            match r {
                Ok(_) => installation(old(self)@, entry@) == Ok::<StoreView, Fault>(final(self)@),
                Err(e) => final(self)@ == old(self)@ && installation(old(self)@, entry@) == Err::<StoreView, Fault>(e@),
            },
    {
        let reserved: u64 = match self.reserved {
            Some(n) => n,
            None => {
                return Err(IncidentError::Unavailable(copied("no line was reserved")));
            },
        };
        if self.sequence == u64::MAX || self.sequence + 1 != entry.sequence {
            return Err(IncidentError::Conflict(copied("journal sequence")));
        }
        let total: u64 = match self.bytes.checked_add(reserved) {
            Some(total) => total,
            None => {
                return Err(IncidentError::Capacity(copied("journal bytes")));
            },
        };
        match self.prepare(&entry.event, entry.sequence) {
            Ok(Some(prepared)) => {
                proof {
                    super::laws::outcome_keeps_sound(self@, entry.event@, entry.sequence);
                }
                self.put(prepared);
                self.sequence = entry.sequence;
                self.bytes = total;
                self.reserved = None;
                Ok(())
            },
            Ok(None) => Err(IncidentError::Conflict(copied("journal sequence"))),
            Err(e) => Err(e),
        }
    }

    /// Replays one journal line.
    pub fn replay(&mut self, entry: &JournalEntry) -> (r: Result<(), IncidentError>)
        requires
            old(self).wf(),
        ensures
            final(self).wf(),
            ({
                let s = old(self)@;
                match r {
                    Ok(_) => {
                        &&& entry.format == 1
                        &&& s.sequence < u64::MAX
                        &&& entry.sequence == s.sequence + 1
                        &&& outcome(s, entry.event@, entry.sequence) is Ok
                        &&& outcome(s, entry.event@, entry.sequence)->Ok_0 is Some
                        &&& final(self)@ == updated(s, outcome(s, entry.event@, entry.sequence)->Ok_0->0)
                    },
                    Err(e) => final(self)@ == s && if entry.format == 1 && s.sequence == u64::MAX {
                        e@ == overflow()
                    } else if entry.format != 1 || entry.sequence != s.sequence + 1 {
                        e@ == Fault::Corrupt("format or journal sequence"@)
                    } else {
                        match outcome(s, entry.event@, entry.sequence) {
                            Err(f) => e@ == Fault::Corrupt(fault_message(f)),
                            Ok(u) => u is None && e@ == Fault::Corrupt("duplicate committed event"@),
                        }
                    },
                }
            }),
    {
        if entry.format != 1 {
            return Err(IncidentError::Corrupt(copied("format or journal sequence")));
        }
        if self.sequence == u64::MAX {
            return Err(IncidentError::Capacity(copied("sequence overflow")));
        }
        if entry.sequence != self.sequence + 1 {
            return Err(IncidentError::Corrupt(copied("format or journal sequence")));
        }
        match self.prepare(&entry.event, entry.sequence) {
            Ok(Some(prepared)) => {
                proof {
                    super::laws::outcome_keeps_sound(self@, entry.event@, entry.sequence);
                }
                self.put(prepared);
                self.sequence = entry.sequence;
                Ok(())
            },
            Ok(None) => Err(IncidentError::Corrupt(copied("duplicate committed event"))),
            Err(e) => Err(IncidentError::Corrupt(e.message())),
        }
    }

    /// Counts one line that was read, `count` bytes long with its newline, if it has one.
    pub fn line_read(&self, read: u64, count: usize, ended: bool) -> (r: Result<u64, IncidentError>)
        ensures
            match r {
                Ok(total) => count <= MAX_RECORD_BYTES && ended && total == read + count && total <= self@.max_journal_bytes,
                Err(e) => if count > MAX_RECORD_BYTES || !ended {
                    e@ == Fault::Corrupt("oversized or incomplete record"@)
                } else {
                    read + count > self@.max_journal_bytes && e@ == Fault::Capacity("journal bytes during replay"@)
                },
            },
    {
        if count > MAX_RECORD_BYTES || !ended {
            return Err(IncidentError::Corrupt(copied("oversized or incomplete record")));
        }
        let limit = self.config.max_journal_bytes;
        if read > limit || count as u64 > limit - read {
            return Err(IncidentError::Capacity(copied("journal bytes during replay")));
        }
        Ok(read + count as u64)
    }

    /// Checks the number of bytes that a replay read.
    pub fn replayed(&self, read: u64) -> (r: Result<(), IncidentError>)
        ensures
            match r {
                Ok(_) => read == self@.bytes,
                Err(e) => read != self@.bytes && e@ == Fault::Corrupt("journal length changed during replay"@),
            },
    {
        if read != self.bytes {
            return Err(IncidentError::Corrupt(copied("journal length changed during replay")));
        }
        Ok(())
    }
}

} // verus!
