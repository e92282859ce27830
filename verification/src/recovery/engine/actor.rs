//! The scheduler's decisions. The caller writes the journal and runs the workers.
//!
//! Every change of a task is planned as a record, written by the caller, and then
//! installed.
use super::{
    fault_message, interruption, limits_valid, may_follow, spec_fault, terminal, EngineConfig, EngineError, Fault, JournalRecord,
    Outcome, SnapshotView, SpecView, TaskSnapshot, TaskSpec, TaskState,
};
use crate::table::Table;
use crate::text::{copied, less, listed, same, texts};
use vstd::prelude::*;

verus! {

pub struct Engine {
    config: EngineConfig,
    bytes: u64,
    sequence: u64,
    records: Table<TaskSnapshot>,
    queue: Vec<String>,
    active: Vec<String>,
    targets: Vec<String>,
    waiters: Table<usize>,
}

pub struct EngineView {
    pub config: EngineConfig,
    pub bytes: u64,
    pub sequence: u64,
    pub records: Map<Seq<char>, SnapshotView>,
    /// Accepted tasks that wait, the oldest first.
    pub queue: Seq<Seq<char>>,
    /// Tasks with a worker.
    pub active: Seq<Seq<char>>,
    /// Targets that no further task may touch.
    pub targets: Set<Seq<char>>,
    /// Callers that wait for a cancelled task's end.
    pub waiters: Map<Seq<char>, usize>,
}

impl View for Engine {
    type V = EngineView;

    closed spec fn view(&self) -> EngineView {
        EngineView {
            config: self.config,
            bytes: self.bytes,
            sequence: self.sequence,
            records: self.records@.map_values(|s: TaskSnapshot| s@),
            queue: texts(self.queue@),
            active: texts(self.active@),
            targets: texts(self.targets@).to_set(),
            waiters: self.waiters@,
        }
    }
}

/// A task under its own id, with a revision that counts its steps.
pub open spec fn task_sound(id: Seq<char>, s: SnapshotView) -> bool {
    &&& s.spec.id == id
    &&& spec_fault(s.spec) is None
    &&& match s.state {
        TaskState::Queued => s.revision == 0,
        TaskState::Diagnosing => s.revision == 1,
        TaskState::Executing => s.revision == 2,
        TaskState::Verifying => s.revision == 3,
        TaskState::Succeeded => s.revision == 4,
        TaskState::Failed => 2 <= s.revision <= 4,
        TaskState::Denied => s.revision == 0,
        TaskState::Canceled => 1 <= s.revision <= 2,
        TaskState::TimedOut => s.revision == 2,
        TaskState::Unknown => 3 <= s.revision <= 4,
    }
    &&& s.state is Denied <==> !s.spec.simulation_authorized
}

/// What holds of the tasks of every engine.
pub open spec fn sound(records: Map<Seq<char>, SnapshotView>) -> bool {
    forall|id: Seq<char>| #[trigger] records.contains_key(id) ==> task_sound(id, records[id])
}

/// The state of a newly accepted task.
pub open spec fn first_state(t: SpecView) -> TaskState {
    if t.simulation_authorized { TaskState::Queued } else { TaskState::Denied }
}

pub open spec fn first_snapshot(t: SpecView) -> SnapshotView {
    SnapshotView { spec: t, state: first_state(t), revision: 0 }
}

pub open spec fn stepped(s: SnapshotView, state: TaskState) -> SnapshotView {
    SnapshotView { state, revision: (s.revision + 1) as u64, ..s }
}

/// A snapshot that may follow what the journal holds so far.
pub open spec fn continues(records: Map<Seq<char>, SnapshotView>, s: SnapshotView) -> bool {
    if records.contains_key(s.spec.id) {
        let previous = records[s.spec.id];
        previous.spec == s.spec && previous.revision + 1 == s.revision && may_follow(previous.state, s.state)
    } else {
        s == first_snapshot(s.spec)
    }
}

/// Why a journal record is not taken in.
pub open spec fn replay_fault(e: EngineView, format: u32, sequence: u64, s: SnapshotView) -> Option<Fault> {
    if format != 1 || sequence != e.sequence + 1 {
        Some(Fault::Corrupt("unsupported format or nonsequential record"@))
    } else if spec_fault(s.spec) is Some {
        Some(Fault::Corrupt(fault_message(spec_fault(s.spec)->0)))
    } else if !continues(e.records, s) {
        Some(Fault::Corrupt("invalid task revision or transition"@))
    } else {
        None
    }
}

/// The engine with one more record, which took `line` bytes.
pub open spec fn installed(e: EngineView, s: SnapshotView, line: u64) -> EngineView {
    EngineView {
        records: e.records.insert(s.spec.id, s),
        bytes: (e.bytes + line) as u64,
        sequence: (e.sequence + 1) as u64,
        ..e
    }
}

/// A waiting task that could run: its target is free.
pub open spec fn runnable(e: EngineView, id: Seq<char>) -> bool {
    e.records.contains_key(id) && !e.targets.contains(e.records[id].spec.target)
}

/// The position of the oldest task that could run, from `from` on.
pub open spec fn oldest(e: EngineView, from: int) -> Option<int>
    decreases e.queue.len() - from,
{
    if from >= e.queue.len() {
        None
    } else if runnable(e, e.queue[from]) {
        Some(from)
    } else {
        oldest(e, from + 1)
    }
}

/// The next task to run.
pub open spec fn next_task(e: EngineView) -> Option<int> {
    if e.active.len() >= e.config.max_concurrency { None } else { oldest(e, 0) }
}

/// The state in which a worker's end leaves its task.
pub open spec fn end_state(s: TaskState, outcome: Outcome) -> TaskState {
    match outcome {
        Outcome::Succeeded => TaskState::Succeeded,
        Outcome::Failed => TaskState::Failed,
        Outcome::MissingReceipt => interruption(s, false),
        Outcome::TimedOut => interruption(s, true),
        Outcome::Aborted => interruption(s, false),
    }
}

/// The list without an item.
pub open spec fn without(list: Seq<Seq<char>>, item: Seq<char>) -> Seq<Seq<char>>
    decreases list.len(),
{
    if list.len() == 0 {
        list
    } else {
        let front = without(list.drop_last(), item);
        if list.last() == item { front } else { front.push(list.last()) }
    }
}

/// A transition of a task, or why there is none.
pub open spec fn transition_of(e: EngineView, id: Seq<char>, state: TaskState) -> Result<SnapshotView, Fault> {
    if !e.records.contains_key(id) {
        Err(Fault::Internal("missing task"@))
    } else if !may_follow(e.records[id].state, state) {
        Err(Fault::Internal("invalid state transition"@))
    } else {
        Ok(stepped(e.records[id], state))
    }
}

/// What becomes of a submission.
pub enum Submission {
    /// The same task is known; this is its state.
    Known(TaskSnapshot),
    Refused(EngineError),
    /// This record has to become durable first.
    Append(JournalRecord),
}

/// What becomes of a cancellation.
pub enum Cancellation {
    /// A worker runs: abort it, and answer when it has ended.
    Abort,
    /// Too many callers wait already.
    Refused,
    /// The task waits: this record has to become durable first.
    Append(JournalRecord),
    /// Nothing is left to cancel; this is what is known.
    Answer(Option<TaskSnapshot>),
}

fn remove_text(list: &mut Vec<String>, text: &str)
    ensures
        texts(final(list)@) == without(texts(old(list)@), text@),
{
    let ghost all = texts(list@);
    let mut kept: Vec<String> = Vec::new();
    let mut i: usize = 0;
    assert(texts(kept@) =~= without(all.subrange(0, 0), text@));
    while i < list.len()
        invariant
            i <= list.len(),
            all == texts(list@),
            texts(kept@) == without(all.subrange(0, i as int), text@),
        decreases list.len() - i,
    {
        proof {
            assert(all.subrange(0, i + 1).drop_last() =~= all.subrange(0, i as int));
            assert(all.subrange(0, i + 1).last() == all[i as int]);
        }
        if !same(&list[i], text) {
            let ghost before = texts(kept@);
            kept.push(list[i].clone());
            assert(texts(kept@) =~= before.push(all[i as int]));
        }
        i = i + 1;
    }
    assert(all.subrange(0, i as int) =~= all);
    *list = kept;
}

/// The items left are the others.
pub proof fn without_holds(list: Seq<Seq<char>>, item: Seq<char>)
    ensures
        forall|x: Seq<char>| #[trigger] without(list, item).contains(x) <==> list.contains(x) && x != item,
    decreases list.len(),
{
    if list.len() > 0 {
        let front = list.drop_last();
        without_holds(front, item);
        let rest = without(front, item);
        let out = without(list, item);
        assert forall|x: Seq<char>| #[trigger] out.contains(x) <==> list.contains(x) && x != item by {
            if out.contains(x) {
                let i = choose|i: int| 0 <= i < out.len() && out[i] == x;
                if i < rest.len() {
                    assert(rest[i] == x);
                    assert(rest.contains(x));
                    let j = choose|j: int| 0 <= j < front.len() && front[j] == x;
                    assert(list[j] == x);
                } else {
                    assert(list[list.len() - 1] == x);
                }
            }
            if list.contains(x) && x != item {
                let j = choose|j: int| 0 <= j < list.len() && list[j] == x;
                if j < front.len() {
                    assert(front[j] == x);
                    assert(rest.contains(x));
                    let i = choose|i: int| 0 <= i < rest.len() && rest[i] == x;
                    assert(out[i] == x);
                } else {
                    assert(out[out.len() - 1] == x);
                }
            }
        }
    }
}

/// How a task is taken in: an accepted one that is new and has room becomes the next entry.
pub open spec fn submitted(e: EngineView, t: SpecView, r: Submission) -> bool {
    if spec_fault(t) is Some {
        r is Refused && r->Refused_0@ == spec_fault(t)->0
    } else if e.records.contains_key(t.id) {
        if e.records[t.id].spec == t {
            r is Known && r->Known_0@ == e.records[t.id]
        } else {
            r is Refused && r->Refused_0@ == Fault::Conflict
        }
    } else if e.records.dom().len() >= e.config.max_tasks || (t.simulation_authorized && e.queue.len()
        >= e.config.max_queued) {
        r is Refused && r->Refused_0@ == Fault::Capacity
    } else {
        &&& r is Append
        &&& r->Append_0.format == 1
        &&& r->Append_0.sequence == e.sequence + 1
        &&& r->Append_0.snapshot@ == first_snapshot(t)
        &&& task_sound(t.id, r->Append_0.snapshot@)
    }
}

/// How many wait for the end of a task.
pub open spec fn waiting_for(e: EngineView, id: Seq<char>) -> usize {
    if e.waiters.contains_key(id) { e.waiters[id] } else { 0 }
}

/// How a task is cancelled: one that runs is told to stop, one that waits is cancelled at
/// once, and any other is left as it is.
pub open spec fn cancelled(e: EngineView, id: Seq<char>, r: Cancellation, after: EngineView) -> bool {
    let waiting = waiting_for(e, id);
    if e.active.contains(id) {
        if waiting >= 64 {
            r is Refused && after == e
        } else {
            r is Abort && after == (EngineView {
                waiters: e.waiters.insert(id, (waiting + 1) as usize),
                ..e
            })
        }
    } else if e.records.contains_key(id) && e.records[id].state is Queued {
        &&& r is Append
        &&& r->Append_0.format == 1
        &&& r->Append_0.sequence == e.sequence + 1
        &&& r->Append_0.snapshot@ == stepped(e.records[id], TaskState::Canceled)
        &&& task_sound(id, r->Append_0.snapshot@)
        &&& after == (EngineView { queue: without(e.queue, id), ..e })
    } else {
        &&& r is Answer
        &&& after == e
        &&& match r->Answer_0 {
            Some(s) => e.records.contains_key(id) && s@ == e.records[id],
            None => !e.records.contains_key(id),
        }
    }
}

/// The engine once a task has ended: its place is free, and its target unless the outcome is
/// unknown.
pub open spec fn released(e: EngineView, id: Seq<char>) -> EngineView {
    let s = e.records[id];
    EngineView {
        active: without(e.active, id),
        targets: if s.state is Unknown { e.targets } else { e.targets.remove(s.spec.target) },
        waiters: e.waiters.remove(id),
        ..e
    }
}

impl Engine {
    pub closed spec fn wf(&self) -> bool {
        &&& self.records.wf()
        &&& self.waiters.wf()
        &&& limits_valid(self.config)
        &&& sound(self.records@.map_values(|s: TaskSnapshot| s@))
    }

    /// What holds of the tasks of every engine.
    pub proof fn tasks_are_sound(&self)
        requires
            self.wf(),
        ensures
            sound(self@.records),
            limits_valid(self@.config),
    {
    }

    /// An engine with an empty journal.
    pub fn open(config: EngineConfig) -> (r: Result<Self, EngineError>)
        ensures
            match r {
                Ok(e) => limits_valid(config) && e.wf() && e@ == (EngineView {
                    config,
                    bytes: 0,
                    sequence: 0,
                    records: Map::empty(),
                    queue: Seq::empty(),
                    active: Seq::empty(),
                    targets: Set::empty(),
                    waiters: Map::empty(),
                }),
                Err(e) => !limits_valid(config) && e@ == Fault::Invalid("invalid engine capacity limits"@),
            },
    {
        if let Err(e) = config.validate() {
            return Err(e);
        }
        let r = Engine {
            config,
            bytes: 0,
            sequence: 0,
            records: Table::new(),
            queue: Vec::new(),
            active: Vec::new(),
            targets: Vec::new(),
            waiters: Table::new(),
        };
        assert(r@.records =~= Map::<Seq<char>, SnapshotView>::empty());
        assert(r@.queue =~= Seq::<Seq<char>>::empty());
        assert(r@.active =~= Seq::<Seq<char>>::empty());
        assert(r@.targets =~= Set::<Seq<char>>::empty());
        Ok(r)
    }

    /// Checks that a line still fits into the journal.
    pub fn reserve(&self, line: u64) -> (r: Result<(), EngineError>)
        ensures
            match r {
                Ok(_) => self@.bytes + line <= self@.config.max_journal_bytes,
                Err(e) => self@.bytes + line > self@.config.max_journal_bytes && e@ == Fault::JournalFull,
            },
    {
        let limit = self.config.max_journal_bytes;
        if self.bytes > limit || line > limit - self.bytes { Err(EngineError::JournalFull) } else { Ok(()) }
    }

    fn put(&mut self, snapshot: TaskSnapshot, line: u64)
        requires
            old(self).wf(),
            task_sound(snapshot@.spec.id, snapshot@),
            old(self)@.bytes + line <= u64::MAX,
            old(self)@.sequence < u64::MAX,
        ensures
            final(self).wf(),
            final(self)@ == installed(old(self)@, snapshot@, line),
    {
        let ghost v = snapshot@;
        let ghost was = self.records@;
        let key = snapshot.spec.id.clone();
        self.records.insert(key, snapshot);
        self.bytes = self.bytes + line;
        self.sequence = self.sequence + 1;
        proof {
            let now = self.records@.map_values(|s: TaskSnapshot| s@);
            let before = was.map_values(|s: TaskSnapshot| s@);
            assert(now =~= before.insert(v.spec.id, v));
            assert forall|id: Seq<char>| #[trigger] now.contains_key(id) implies task_sound(id, now[id]) by {
                if id != v.spec.id {
                    assert(before.contains_key(id));
                }
            }
        }
    }

    /// Takes a record of an existing journal in.
    pub fn replay(&mut self, record: JournalRecord, line: u64) -> (r: Result<(), EngineError>)
        requires
            old(self).wf(),
            old(self)@.bytes + line <= u64::MAX,
        ensures
            final(self).wf(),
            ({
                let s = record.snapshot@;
                let fault = replay_fault(old(self)@, record.format, record.sequence, s);
                match r {
                    Ok(_) => fault is None && final(self)@ == installed(old(self)@, s, line) && final(self)@.records.dom().len()
                        <= old(self)@.config.max_tasks,
                    Err(e) => if fault is Some {
                        fault == Some(e@) && final(self)@ == old(self)@
                    } else {
                        &&& e@ == Fault::Capacity
                        &&& final(self)@ == installed(old(self)@, s, line)
                        &&& final(self)@.records.dom().len() > old(self)@.config.max_tasks
                    },
                }
            }),
    {
        if record.format != 1 || self.sequence == u64::MAX || record.sequence != self.sequence + 1 {
            return Err(EngineError::Corrupt(copied("unsupported format or nonsequential record")));
        }
        if let Err(e) = record.snapshot.spec.validate() {
            return Err(EngineError::Corrupt(e.message()));
        }
        let s = &record.snapshot;
        let follows = match self.records.get(&s.spec.id) {
            Some(previous) => {
                assert(old(self)@.records.contains_key(s@.spec.id));
                assert(task_sound(s@.spec.id, previous@));
                previous.spec.equals(&s.spec) && previous.revision < u64::MAX && previous.revision + 1 == s.revision
                    && previous.state.allows(s.state)
            },
            None => s.revision == 0 && s.state == (if s.spec.simulation_authorized {
                TaskState::Queued
            } else {
                TaskState::Denied
            }),
        };
        if !follows {
            return Err(EngineError::Corrupt(copied("invalid task revision or transition")));
        }
        assert(task_sound(s@.spec.id, s@));
        self.put(record.snapshot, line);
        proof {
            self.records.lists_its_entries();
            assert(self@.records.dom() =~= self.records@.dom());
        }
        if self.records.len() > self.config.max_tasks {
            return Err(EngineError::Capacity);
        }
        Ok(())
    }

    fn record(&self, snapshot: TaskSnapshot) -> (r: JournalRecord)
        requires
            self@.sequence < u64::MAX,
        ensures
            r.format == 1,
            r.sequence == self@.sequence + 1,
            r.snapshot@ == snapshot@,
    {
        JournalRecord { format: 1, sequence: self.sequence + 1, snapshot }
    }

    /// Makes a written record part of the engine.
    pub fn install(&mut self, record: JournalRecord, line: u64)
        requires
            old(self).wf(),
            task_sound(record.snapshot@.spec.id, record.snapshot@),
            old(self)@.bytes + line <= old(self)@.config.max_journal_bytes,
            old(self)@.sequence < u64::MAX,
        ensures
            final(self).wf(),
            final(self)@ == installed(old(self)@, record.snapshot@, line),
    {
        self.put(record.snapshot, line);
    }

    /// Accepted or uncertain work is never replayed after a restart: the first open task
    /// by id, interrupted.
    pub fn next_interrupted(&self) -> (r: Option<JournalRecord>)
        requires
            self.wf(),
            self@.sequence < u64::MAX,
        ensures
            match r {
                Some(record) => {
                    let id = record.snapshot@.spec.id;
                    &&& record.format == 1
                    &&& record.sequence == self@.sequence + 1
                    &&& self@.records.contains_key(id)
                    &&& !terminal(self@.records[id].state)
                    &&& record.snapshot@ == stepped(self@.records[id], interruption(self@.records[id].state, false))
                    &&& task_sound(id, record.snapshot@)
                    &&& forall|other: Seq<char>| #[trigger]
                        self@.records.contains_key(other) && !terminal(self@.records[other].state) ==> other == id || less(
                            id,
                            other,
                        )
                },
                None => forall|id: Seq<char>| #[trigger]
                    self@.records.contains_key(id) ==> terminal(self@.records[id].state),
            },
    {
        let mut i: usize = 0;
        while i < self.records.len()
            invariant
                self.wf(),
                self@.sequence < u64::MAX,
                i <= self.records.listed().len(),
                forall|j: int| 0 <= j < i ==> terminal((#[trigger] self.records.listed()[j]).1.state),
            decreases self.records.listed().len() - i,
        {
            let s = self.records.value(i);
            if !s.state.is_terminal() {
                proof {
                    self.records.entry_at(i as int);
                    let id = self.records.listed()[i as int].0@;
                    assert(self@.records.contains_key(id));
                    assert(task_sound(id, s@));
                    assert forall|other: Seq<char>| #[trigger]
                        self@.records.contains_key(other) && !terminal(self@.records[other].state) implies other == id || less(
                        id,
                        other,
                    ) by {
                        let j = self.records.entry_of(other);
                        if j < i {
                            assert(terminal(self.records.listed()[j].1.state));
                        } else if j > i {
                            assert(less(self.records.listed()[i as int].0@, self.records.listed()[j].0@));
                        }
                    }
                }
                let mut next = s.clone();
                next.state = s.state.interrupted(false);
                next.revision = s.revision + 1;
                return Some(self.record(next));
            }
            i = i + 1;
        }
        proof {
            assert forall|id: Seq<char>| #[trigger] self@.records.contains_key(id) implies terminal(self@.records[id].state) by {
                let j = self.records.entry_of(id);
                assert(terminal(self.records.listed()[j].1.state));
            }
        }
        None
    }

    /// Blocks the targets of all unknown tasks, which must be reconciled first.
    pub fn block_unknown(&mut self)
        requires
            old(self).wf(),
        ensures
            final(self).wf(),
            final(self)@.targets == Set::new(
                |t: Seq<char>|
                    old(self)@.targets.contains(t) || exists|id: Seq<char>| #[trigger]
                        old(self)@.records.contains_key(id) && old(self)@.records[id].state is Unknown
                            && old(self)@.records[id].spec.target == t,
            ),
            final(self)@ == (EngineView { targets: final(self)@.targets, ..old(self)@ }),
    {
        let ghost start = self@.targets;
        let ghost e0 = self@;
        let mut i: usize = 0;
        while i < self.records.len()
            invariant
                self.wf(),
                self.records == old(self).records,
                self.config == old(self).config,
                self.bytes == old(self).bytes,
                self.sequence == old(self).sequence,
                self.queue == old(self).queue,
                self.active == old(self).active,
                self.waiters == old(self).waiters,
                i <= self.records.listed().len(),
                start == old(self)@.targets,
                e0 == old(self)@,
                forall|t: Seq<char>| #[trigger]
                    self@.targets.contains(t) ==> start.contains(t) || exists|j: int|
                        0 <= j < i && (#[trigger] self.records.listed()[j]).1.state is Unknown
                            && self.records.listed()[j].1.spec.target@ == t,
                forall|t: Seq<char>| start.contains(t) ==> #[trigger] self@.targets.contains(t),
                forall|j: int|
                    0 <= j < i && (#[trigger] self.records.listed()[j]).1.state is Unknown ==> self@.targets.contains(
                        self.records.listed()[j].1.spec.target@,
                    ),
            decreases self.records.listed().len() - i,
        {
            let unknown = self.records.value(i).state == TaskState::Unknown;
            if unknown {
                let target = self.records.value(i).spec.target.clone();
                let ghost before = texts(self.targets@);
                let ghost held = self@.targets;
                self.targets.push(target);
                proof {
                    let now = texts(self.targets@);
                    assert(now =~= before.push(target@));
                    assert forall|t: Seq<char>| #[trigger] self@.targets.contains(t) <==> held.contains(t) || t == target@ by {
                        if before.contains(t) {
                            let k = choose|k: int| 0 <= k < before.len() && before[k] == t;
                            assert(now[k] == t);
                        }
                        if t == target@ {
                            assert(now[before.len() as int] == t);
                        }
                        if now.contains(t) {
                            let k = choose|k: int| 0 <= k < now.len() && now[k] == t;
                            if k < before.len() {
                                assert(before[k] == t);
                            }
                        }
                    }
                }
            }
            i = i + 1;
        }
        proof {
            let want = Set::new(
                |t: Seq<char>|
                    start.contains(t) || exists|id: Seq<char>| #[trigger]
                        e0.records.contains_key(id) && e0.records[id].state is Unknown && e0.records[id].spec.target == t,
            );
            assert forall|t: Seq<char>| self@.targets.contains(t) <==> want.contains(t) by {
                if self@.targets.contains(t) && !start.contains(t) {
                    let j = choose|j: int|
                        0 <= j < i && (#[trigger] self.records.listed()[j]).1.state is Unknown
                            && self.records.listed()[j].1.spec.target@ == t;
                    self.records.entry_at(j);
                    assert(e0.records.contains_key(self.records.listed()[j].0@));
                }
                if want.contains(t) && !start.contains(t) {
                    let id = choose|id: Seq<char>| #[trigger]
                        e0.records.contains_key(id) && e0.records[id].state is Unknown && e0.records[id].spec.target == t;
                    let j = self.records.entry_of(id);
                    assert(self.records.listed()[j].1.state is Unknown);
                }
            }
            assert(self@.targets =~= want);
        }
    }

    /// What is known of a task.
    pub fn query(&self, id: &str) -> (r: Option<TaskSnapshot>)
        requires
            self.wf(),
        ensures
            match r {
                Some(s) => self@.records.contains_key(id@) && s@ == self@.records[id@],
                None => !self@.records.contains_key(id@),
            },
    {
        match self.records.get(id) {
            Some(s) => Some(s.clone()),
            None => None,
        }
    }

    /// A task is submitted.
    pub fn submit(&self, spec: TaskSpec) -> (r: Submission)
        requires
            self.wf(),
            self@.sequence < u64::MAX,
        ensures
            submitted(self@, spec@, r),
    {
        if let Err(e) = spec.validate() {
            return Submission::Refused(e);
        }
        proof {
            self.records.lists_its_entries();
            assert(self@.records.dom() =~= self.records@.dom());
        }
        if let Some(previous) = self.records.get(&spec.id) {
            if previous.spec.equals(&spec) {
                return Submission::Known(previous.clone());
            }
            return Submission::Refused(EngineError::Conflict);
        }
        if self.records.len() >= self.config.max_tasks || (spec.simulation_authorized && self.queue.len()
            >= self.config.max_queued) {
            return Submission::Refused(EngineError::Capacity);
        }
        let state = if spec.simulation_authorized { TaskState::Queued } else { TaskState::Denied };
        Submission::Append(self.record(TaskSnapshot { spec, state, revision: 0 }))
    }

    /// A submitted task is durable: an authorized one waits from now on.
    pub fn accepted(&mut self, record: JournalRecord, line: u64)
        requires
            old(self).wf(),
            task_sound(record.snapshot@.spec.id, record.snapshot@),
            old(self)@.bytes + line <= old(self)@.config.max_journal_bytes,
            old(self)@.sequence < u64::MAX,
        ensures
            final(self).wf(),
            ({
                let s = record.snapshot@;
                let e = installed(old(self)@, s, line);
                final(self)@ == (EngineView {
                    queue: if s.state is Queued { e.queue.push(s.spec.id) } else { e.queue },
                    ..e
                })
            }),
    {
        let ghost s = record.snapshot@;
        let queued = record.snapshot.state == TaskState::Queued;
        let id = record.snapshot.spec.id.clone();
        self.put(record.snapshot, line);
        if queued {
            let ghost before = texts(self.queue@);
            self.queue.push(id);
            assert(texts(self.queue@) =~= before.push(s.spec.id));
        }
    }

    /// A step of a task, to be written.
    pub fn transition(&self, id: &str, state: TaskState) -> (r: Result<JournalRecord, EngineError>)
        requires
            self.wf(),
            self@.sequence < u64::MAX,
        ensures
            match r {
                Ok(record) => {
                    &&& transition_of(self@, id@, state) == Ok::<SnapshotView, Fault>(record.snapshot@)
                    &&& record.format == 1
                    &&& record.sequence == self@.sequence + 1
                    &&& task_sound(id@, record.snapshot@)
                },
                Err(e) => transition_of(self@, id@, state) == Err::<SnapshotView, Fault>(e@),
            },
    {
        match self.records.get(id) {
            None => Err(EngineError::Internal(copied("missing task"))),
            Some(previous) => {
                proof {
                    assert(self@.records.contains_key(id@));
                    assert(task_sound(id@, previous@));
                }
                if !previous.state.allows(state) {
                    return Err(EngineError::Internal(copied("invalid state transition")));
                }
                let mut next = previous.clone();
                next.state = state;
                next.revision = previous.revision + 1;
                Ok(self.record(next))
            },
        }
    }

    /// The next task to run, while a worker is free: the oldest whose target is free.
    pub fn next_dispatch(&self) -> (r: Option<String>)
        requires
            self.wf(),
        ensures
            match r {
                Some(id) => next_task(self@) is Some && 0 <= next_task(self@)->0 < self@.queue.len()
                    && self@.queue[next_task(self@)->0] == id@,
                None => next_task(self@) is None,
            },
    {
        if self.active.len() >= self.config.max_concurrency {
            return None;
        }
        let mut i: usize = 0;
        while i < self.queue.len()
            invariant
                self.wf(),
                i <= self.queue.len(),
                self@.active.len() < self@.config.max_concurrency,
                oldest(self@, 0) == oldest(self@, i as int),
            decreases self.queue.len() - i,
        {
            let id = &self.queue[i];
            assert(self@.queue[i as int] == id@);
            let free = match self.records.get(id) {
                Some(record) => !listed(&self.targets, &record.spec.target),
                None => false,
            };
            assert(free == runnable(self@, id@));
            if free {
                return Some(id.clone());
            }
            i = i + 1;
        }
        None
    }

    /// A task's diagnosis is on record: it leaves the queue and owns its target.
    pub fn dispatched(&mut self, id: &str)
        requires
            old(self).wf(),
            old(self)@.records.contains_key(id@),
        ensures
            final(self).wf(),
            final(self)@ == (EngineView {
                queue: without(old(self)@.queue, id@),
                active: old(self)@.active.push(id@),
                targets: old(self)@.targets.insert(old(self)@.records[id@].spec.target),
                ..old(self)@
            }),
    {
        remove_text(&mut self.queue, id);
        let ghost a = texts(self.active@);
        self.active.push(copied(id));
        assert(texts(self.active@) =~= a.push(id@));
        let found = match self.records.get(id) {
            Some(record) => Some(record.spec.target.clone()),
            None => None,
        };
        if let Some(target) = found {
            let ghost before = texts(self.targets@);
            self.targets.push(target);
            proof {
                let now = texts(self.targets@);
                assert(now =~= before.push(target@));
                assert(now.to_set() =~= before.to_set().insert(target@)) by {
                    assert forall|t: Seq<char>| now.contains(t) <==> before.contains(t) || t == target@ by {
                        if before.contains(t) {
                            let k = choose|k: int| 0 <= k < before.len() && before[k] == t;
                            assert(now[k] == t);
                        }
                        if t == target@ {
                            assert(now[before.len() as int] == t);
                        }
                        if now.contains(t) {
                            let k = choose|k: int| 0 <= k < now.len() && now[k] == t;
                            if k < before.len() {
                                assert(before[k] == t);
                            }
                        }
                    }
                }
            }
        }
    }

    /// A cancellation is asked for.
    pub fn cancel(&mut self, id: &str) -> (r: Cancellation)
        requires
            old(self).wf(),
            old(self)@.sequence < u64::MAX,
        ensures
            final(self).wf(),
            cancelled(old(self)@, id@, r, final(self)@),
    {
        if listed(&self.active, id) {
            let waiting: usize = match self.waiters.get(id) {
                Some(n) => *n,
                None => 0,
            };
            if waiting >= 64 {
                return Cancellation::Refused;
            }
            self.waiters.insert(copied(id), waiting + 1);
            return Cancellation::Abort;
        }
        let queued = match self.records.get(id) {
            Some(record) => record.state == TaskState::Queued,
            None => false,
        };
        if queued {
            let planned = self.transition(id, TaskState::Canceled);
            remove_text(&mut self.queue, id);
            match planned {
                Ok(record) => {
                    return Cancellation::Append(record);
                },
                Err(_) => {},
            }
        }
        Cancellation::Answer(self.query(id))
    }

    /// A running worker asks for the next stage of its task. `gone` says that it no longer
    /// waits for the answer.
    pub fn stage(&self, id: &str, state: TaskState, gone: bool) -> (r: Result<JournalRecord, EngineError>)
        requires
            self.wf(),
            self@.sequence < u64::MAX,
        ensures
            ({
                let live = self@.active.contains(id@) && !self@.waiters.contains_key(id@) && !gone;
                match r {
                    Ok(record) => {
                        &&& live
                        &&& transition_of(self@, id@, state) == Ok::<SnapshotView, Fault>(record.snapshot@)
                        &&& record.format == 1
                        &&& record.sequence == self@.sequence + 1
                        &&& task_sound(id@, record.snapshot@)
                    },
                    Err(e) => if live {
                        transition_of(self@, id@, state) == Err::<SnapshotView, Fault>(e@)
                    } else {
                        e@ == Fault::Unavailable
                    },
                }
            }),
    {
        if listed(&self.active, id) && !self.waiters.has(id) && !gone {
            self.transition(id, state)
        } else {
            Err(EngineError::Unavailable)
        }
    }

    /// A worker has ended: its task's last step, to be written.
    pub fn complete(&self, id: &str, outcome: Outcome) -> (r: Result<JournalRecord, EngineError>)
        requires
            self.wf(),
            self@.sequence < u64::MAX,
        ensures
            match r {
                Ok(record) => {
                    &&& self@.records.contains_key(id@)
                    &&& transition_of(self@, id@, end_state(self@.records[id@].state, outcome)) == Ok::<SnapshotView, Fault>(
                        record.snapshot@,
                    )
                    &&& record.format == 1
                    &&& record.sequence == self@.sequence + 1
                    &&& task_sound(id@, record.snapshot@)
                },
                Err(e) => if self@.records.contains_key(id@) {
                    transition_of(self@, id@, end_state(self@.records[id@].state, outcome)) == Err::<SnapshotView, Fault>(e@)
                } else {
                    e@ == Fault::Internal("missing completed task"@)
                },
            },
    {
        let state = match self.records.get(id) {
            None => {
                return Err(EngineError::Internal(copied("missing completed task")));
            },
            Some(previous) => match outcome {
                Outcome::Succeeded => TaskState::Succeeded,
                Outcome::Failed => TaskState::Failed,
                Outcome::MissingReceipt => previous.state.interrupted(false),
                Outcome::TimedOut => previous.state.interrupted(true),
                Outcome::Aborted => previous.state.interrupted(false),
            },
        };
        self.transition(id, state)
    }

    /// A worker's last step is on record: the worker is gone, and so is the claim on its
    /// target unless the outcome is unknown. Tells how many callers wait for the answer.
    pub fn completed(&mut self, id: &str) -> (waiting: usize)
        requires
            old(self).wf(),
            old(self)@.records.contains_key(id@),
        ensures
            final(self).wf(),
            waiting == waiting_for(old(self)@, id@),
            final(self)@ == released(old(self)@, id@),
    {
        remove_text(&mut self.active, id);
        let found = match self.records.get(id) {
            Some(record) => if record.state == TaskState::Unknown { None } else { Some(record.spec.target.clone()) },
            None => None,
        };
        if let Some(target) = found {
            let ghost before = texts(self.targets@);
            remove_text(&mut self.targets, &target);
            proof {
                without_holds(before, target@);
                let now = texts(self.targets@);
                assert forall|t: Seq<char>| now.to_set().contains(t) <==> before.to_set().remove(target@).contains(t) by {
                    assert(now.contains(t) <==> before.contains(t) && t != target@);
                }
                assert(now.to_set() =~= before.to_set().remove(target@));
            }
        }
        let waiting: usize = match self.waiters.get(id) {
            Some(n) => *n,
            None => 0,
        };
        self.waiters.remove(id);
        waiting
    }

    /// The workers to abort when the engine stops.
    pub fn running(&self) -> (r: Vec<String>)
        ensures
            texts(r@) == self@.active,
    {
        crate::text::copied_list(&self.active)
    }

    /// The next waiting task to cancel when the engine stops.
    pub fn next_queued(&mut self) -> (r: Option<String>)
        requires
            old(self).wf(),
        ensures
            final(self).wf(),
            match r {
                Some(id) => old(self)@.queue.len() > 0 && id@ == old(self)@.queue[0] && final(self)@ == (EngineView {
                    queue: old(self)@.queue.drop_first(),
                    ..old(self)@
                }),
                None => old(self)@.queue.len() == 0 && final(self)@ == old(self)@,
            },
    {
        if self.queue.len() == 0 {
            return None;
        }
        let ghost before = texts(self.queue@);
        let id = self.queue.remove(0);
        assert(texts(self.queue@) =~= before.drop_first());
        Some(id)
    }
}

} // verus!
