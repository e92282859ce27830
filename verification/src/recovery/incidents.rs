//! Durable monitoring facts. Acknowledgement is attribution, never repair authority.
pub mod bounds;
pub mod episodes;
pub mod laws;
pub mod places;
pub mod store;

use crate::json::{alike, Json, Tree};
use crate::text::{joined, same};
use vstd::prelude::*;

verus! {

pub const MAX_RECORD_BYTES: usize = 524288;
pub const MAX_CHECKPOINT_BYTES: usize = 131072;
pub const MAX_EVIDENCE_BYTES: usize = 16384;
pub const MAX_ACK_NOTE_BYTES: usize = 4096;

#[derive(Debug, Clone, Copy, PartialEq, Eq, Structural)]
pub enum IncidentKind {
    Target,
    Coverage,
}

#[derive(Debug, Clone, Copy, PartialEq, Eq, Structural)]
pub enum SignalCondition {
    Active,
    Clear,
    Unknown,
}

#[derive(Debug, Clone, Copy, PartialEq, Eq, Structural)]
pub enum IncidentStatus {
    Open,
    Acknowledged,
    Resolved,
}

pub struct IncidentSignal {
    pub monitor_id: String,
    pub target_id: String,
    pub rule_id: String,
    pub kind: IncidentKind,
    pub condition: SignalCondition,
    pub summary: String,
    pub evidence: Json,
}

pub struct IncidentAcknowledgement {
    pub actor: String,
    pub note: String,
    pub at_ms: u64,
}

pub struct IncidentRecord {
    pub id: String,
    pub revision: u64,
    pub monitor_id: String,
    pub target_id: String,
    pub rule_id: String,
    pub kind: IncidentKind,
    pub status: IncidentStatus,
    pub condition: SignalCondition,
    pub summary: String,
    pub evidence: Json,
    pub first_seen: u64,
    pub last_seen: u64,
    pub resolved_at: Option<u64>,
    pub acknowledgement: Option<IncidentAcknowledgement>,
    pub occurrences: u64,
}

pub struct Checkpoint {
    pub sequence: u64,
    pub value: Json,
    pub updated_at_ms: u64,
}

pub struct MonitorCommit {
    pub monitor_id: String,
    pub sequence: u64,
    pub checkpoint: Json,
    pub signals: Vec<IncidentSignal>,
    pub now_ms: u64,
}

#[derive(Debug, Clone, Copy)]
pub struct IncidentStoreConfig {
    pub max_incidents: usize,
    pub max_monitors: usize,
    pub max_journal_bytes: u64,
}

impl Default for IncidentStoreConfig {
    fn default() -> (r: Self)
        ensures
            r.max_incidents == 10000,
            r.max_monitors == 256,
            r.max_journal_bytes == 67108864,
    {
        IncidentStoreConfig { max_incidents: 10000, max_monitors: 256, max_journal_bytes: 67108864 }
    }
}

/// Why an incident step was refused. `Io` carries the text of a storage failure.
#[derive(Debug)]
pub enum IncidentError {
    Invalid(String),
    Conflict(String),
    NotFound(String),
    Capacity(String),
    Corrupt(String),
    Io(String),
    Unavailable(String),
}

/// One durable step of the store.
pub enum Event {
    Monitor { commit: MonitorCommit },
    Acknowledge { id: String, expected_revision: u64, actor: String, note: String, now_ms: u64 },
}

// Mathematical models.

pub struct SignalView {
    pub monitor_id: Seq<char>,
    pub target_id: Seq<char>,
    pub rule_id: Seq<char>,
    pub kind: IncidentKind,
    pub condition: SignalCondition,
    pub summary: Seq<char>,
    pub evidence: Tree,
}

pub struct AckView {
    pub actor: Seq<char>,
    pub note: Seq<char>,
    pub at_ms: u64,
}

pub struct IncidentView {
    pub id: Seq<char>,
    pub revision: u64,
    pub monitor_id: Seq<char>,
    pub target_id: Seq<char>,
    pub rule_id: Seq<char>,
    pub kind: IncidentKind,
    pub status: IncidentStatus,
    pub condition: SignalCondition,
    pub summary: Seq<char>,
    pub evidence: Tree,
    pub first_seen: u64,
    pub last_seen: u64,
    pub resolved_at: Option<u64>,
    pub acknowledgement: Option<AckView>,
    pub occurrences: u64,
}

pub struct CommitView {
    pub monitor_id: Seq<char>,
    pub sequence: u64,
    pub checkpoint: Tree,
    pub signals: Seq<SignalView>,
    pub now_ms: u64,
}

pub enum EventView {
    Monitor { commit: CommitView },
    Acknowledge { id: Seq<char>, expected_revision: u64, actor: Seq<char>, note: Seq<char>, now_ms: u64 },
}

pub enum Fault {
    Invalid(Seq<char>),
    Conflict(Seq<char>),
    NotFound(Seq<char>),
    Capacity(Seq<char>),
    Corrupt(Seq<char>),
    Io(Seq<char>),
    Unavailable(Seq<char>),
}

impl View for IncidentSignal {
    type V = SignalView;

    open spec fn view(&self) -> SignalView {
        SignalView {
            monitor_id: self.monitor_id@,
            target_id: self.target_id@,
            rule_id: self.rule_id@,
            kind: self.kind,
            condition: self.condition,
            summary: self.summary@,
            evidence: self.evidence@,
        }
    }
}

impl View for IncidentAcknowledgement {
    type V = AckView;

    open spec fn view(&self) -> AckView {
        AckView { actor: self.actor@, note: self.note@, at_ms: self.at_ms }
    }
}

impl View for IncidentRecord {
    type V = IncidentView;

    open spec fn view(&self) -> IncidentView {
        IncidentView {
            id: self.id@,
            revision: self.revision,
            monitor_id: self.monitor_id@,
            target_id: self.target_id@,
            rule_id: self.rule_id@,
            kind: self.kind,
            status: self.status,
            condition: self.condition,
            summary: self.summary@,
            evidence: self.evidence@,
            first_seen: self.first_seen,
            last_seen: self.last_seen,
            resolved_at: self.resolved_at,
            acknowledgement: match self.acknowledgement {
                Some(a) => Some(a@),
                None => None,
            },
            occurrences: self.occurrences,
        }
    }
}

pub open spec fn signals_of(list: Seq<IncidentSignal>) -> Seq<SignalView> {
    list.map_values(|s: IncidentSignal| s@)
}

impl View for MonitorCommit {
    type V = CommitView;

    open spec fn view(&self) -> CommitView {
        CommitView {
            monitor_id: self.monitor_id@,
            sequence: self.sequence,
            checkpoint: self.checkpoint@,
            signals: signals_of(self.signals@),
            now_ms: self.now_ms,
        }
    }
}

impl View for Event {
    type V = EventView;

    open spec fn view(&self) -> EventView {
        match self {
            Event::Monitor { commit } => EventView::Monitor { commit: commit@ },
            Event::Acknowledge { id, expected_revision, actor, note, now_ms } => EventView::Acknowledge {
                id: id@,
                expected_revision: *expected_revision,
                actor: actor@,
                note: note@,
                now_ms: *now_ms,
            },
        }
    }
}

impl View for IncidentError {
    type V = Fault;

    open spec fn view(&self) -> Fault {
        match self {
            IncidentError::Invalid(m) => Fault::Invalid(m@),
            IncidentError::Conflict(m) => Fault::Conflict(m@),
            IncidentError::NotFound(m) => Fault::NotFound(m@),
            IncidentError::Capacity(m) => Fault::Capacity(m@),
            IncidentError::Corrupt(m) => Fault::Corrupt(m@),
            IncidentError::Io(m) => Fault::Io(m@),
            IncidentError::Unavailable(m) => Fault::Unavailable(m@),
        }
    }
}

/// The text shown for a refusal.
pub open spec fn fault_message(fault: Fault) -> Seq<char> {
    match fault {
        Fault::Invalid(m) => "invalid incident input: "@ + m,
        Fault::Conflict(m) => "incident state conflict: "@ + m,
        Fault::NotFound(m) => "incident not found: "@ + m,
        Fault::Capacity(m) => "incident capacity exhausted: "@ + m,
        Fault::Corrupt(m) => "corrupt incident journal: "@ + m,
        Fault::Io(m) => "incident storage I/O: "@ + m,
        Fault::Unavailable(m) => "incident storage unavailable: "@ + m,
    }
}

impl IncidentError {
    /// The text shown for this refusal.
    pub fn message(&self) -> (r: String)
        ensures
            r@ == fault_message(self@),
    {
        match self {
            IncidentError::Invalid(m) => joined("invalid incident input: ", m),
            IncidentError::Conflict(m) => joined("incident state conflict: ", m),
            IncidentError::NotFound(m) => joined("incident not found: ", m),
            IncidentError::Capacity(m) => joined("incident capacity exhausted: ", m),
            IncidentError::Corrupt(m) => joined("corrupt incident journal: ", m),
            IncidentError::Io(m) => joined("incident storage I/O: ", m),
            IncidentError::Unavailable(m) => joined("incident storage unavailable: ", m),
        }
    }
}

pub open spec fn same_signal(a: SignalView, b: SignalView) -> bool {
    &&& a.monitor_id == b.monitor_id
    &&& a.target_id == b.target_id
    &&& a.rule_id == b.rule_id
    &&& a.kind == b.kind
    &&& a.condition == b.condition
    &&& a.summary == b.summary
    &&& alike(a.evidence, b.evidence)
}

/// The same commit, with JSON compared as values.
pub open spec fn same_commit(a: CommitView, b: CommitView) -> bool {
    &&& a.monitor_id == b.monitor_id
    &&& a.sequence == b.sequence
    &&& alike(a.checkpoint, b.checkpoint)
    &&& a.signals.len() == b.signals.len()
    &&& forall|i: int| 0 <= i < a.signals.len() && i < b.signals.len() ==> same_signal(#[trigger] a.signals[i], b.signals[i])
    &&& a.now_ms == b.now_ms
}

impl IncidentSignal {
    pub fn equals(&self, other: &IncidentSignal) -> (r: bool)
        ensures
            r == same_signal(self@, other@),
    {
        same(&self.monitor_id, &other.monitor_id) && same(&self.target_id, &other.target_id) && same(
            &self.rule_id,
            &other.rule_id,
        ) && self.kind == other.kind && self.condition == other.condition && same(&self.summary, &other.summary)
            && self.evidence.equals(&other.evidence)
    }
}

impl MonitorCommit {
    pub fn equals(&self, other: &MonitorCommit) -> (r: bool)
        ensures
            r == same_commit(self@, other@),
    {
        if !same(&self.monitor_id, &other.monitor_id) || self.sequence != other.sequence || self.now_ms != other.now_ms
            || self.signals.len() != other.signals.len() || !self.checkpoint.equals(&other.checkpoint) {
            return false;
        }
        let mut i: usize = 0;
        while i < self.signals.len()
            invariant
                i <= self.signals.len() == other.signals.len(),
                forall|j: int| 0 <= j < i ==> same_signal((#[trigger] self.signals@[j])@, other.signals@[j]@),
            decreases self.signals.len() - i,
        {
            if !self.signals[i].equals(&other.signals[i]) {
                assert(!same_signal(self@.signals[i as int], other@.signals[i as int]));
                return false;
            }
            i = i + 1;
        }
        assert forall|j: int| 0 <= j < self@.signals.len() implies same_signal(#[trigger] self@.signals[j], other@.signals[j]) by {
            assert(same_signal(self.signals@[j]@, other.signals@[j]@));
        }
        true
    }
}

impl Clone for IncidentSignal {
    fn clone(&self) -> (r: Self)
        ensures
            r@ == self@,
    {
        IncidentSignal {
            monitor_id: self.monitor_id.clone(),
            target_id: self.target_id.clone(),
            rule_id: self.rule_id.clone(),
            kind: self.kind,
            condition: self.condition,
            summary: self.summary.clone(),
            evidence: self.evidence.copy(),
        }
    }
}

impl Clone for IncidentAcknowledgement {
    fn clone(&self) -> (r: Self)
        ensures
            r@ == self@,
    {
        IncidentAcknowledgement { actor: self.actor.clone(), note: self.note.clone(), at_ms: self.at_ms }
    }
}

impl Clone for IncidentRecord {
    fn clone(&self) -> (r: Self)
        ensures
            r@ == self@,
    {
        IncidentRecord {
            id: self.id.clone(),
            revision: self.revision,
            monitor_id: self.monitor_id.clone(),
            target_id: self.target_id.clone(),
            rule_id: self.rule_id.clone(),
            kind: self.kind,
            status: self.status,
            condition: self.condition,
            summary: self.summary.clone(),
            evidence: self.evidence.copy(),
            first_seen: self.first_seen,
            last_seen: self.last_seen,
            resolved_at: self.resolved_at,
            acknowledgement: match &self.acknowledgement {
                Some(a) => Some(a.clone()),
                None => None,
            },
            occurrences: self.occurrences,
        }
    }
}

impl Clone for MonitorCommit {
    fn clone(&self) -> (r: Self)
        ensures
            r@ == self@,
    {
        let mut signals: Vec<IncidentSignal> = Vec::new();
        let mut i: usize = 0;
        while i < self.signals.len()
            invariant
                i <= self.signals.len(),
                signals.len() == i,
                forall|j: int| 0 <= j < i ==> (#[trigger] signals@[j])@ == self.signals@[j]@,
            decreases self.signals.len() - i,
        {
            signals.push(self.signals[i].clone());
            i = i + 1;
        }
        assert(signals_of(signals@) =~= signals_of(self.signals@));
        MonitorCommit {
            monitor_id: self.monitor_id.clone(),
            sequence: self.sequence,
            checkpoint: self.checkpoint.copy(),
            signals,
            now_ms: self.now_ms,
        }
    }
}

} // verus!
