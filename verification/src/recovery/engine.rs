//! A closed, side-effect-free simulation of recovery tasks with a durable journal.
pub mod actor;
pub mod laws;

use crate::text::{byte_len, controlled, copied, has_control, joined, same, utf8_len};
use crate::time::Span;
use vstd::prelude::*;

verus! {

pub const MAX_TEXT_BYTES: usize = 128;
pub const MAX_TIMEOUT_MS: u64 = 3600000;

#[derive(Debug, Clone, Copy, PartialEq, Eq, Structural)]
pub enum Simulation {
    Succeed,
    Fail,
    Hang,
    /// Simulates a missing executor receipt; never terminates the host process.
    Exit,
    VerificationFailed,
    Delay { millis: u64 },
}

pub struct TaskSpec {
    pub id: String,
    pub target: String,
    pub simulation: Simulation,
    /// Only authorizes the closed, side-effect-free simulations above.
    pub simulation_authorized: bool,
    pub timeout_ms: u64,
}

pub struct SpecView {
    pub id: Seq<char>,
    pub target: Seq<char>,
    pub simulation: Simulation,
    pub simulation_authorized: bool,
    pub timeout_ms: u64,
}

impl View for TaskSpec {
    type V = SpecView;

    open spec fn view(&self) -> SpecView {
        SpecView {
            id: self.id@,
            target: self.target@,
            simulation: self.simulation,
            simulation_authorized: self.simulation_authorized,
            timeout_ms: self.timeout_ms,
        }
    }
}

/// Why an engine step was refused. `Locked` and `Storage` carry the text of an I/O failure.
#[derive(Debug)]
pub enum EngineError {
    Invalid(String),
    Capacity,
    Conflict,
    Unavailable,
    Locked(String),
    Storage(String),
    Corrupt(String),
    JournalFull,
    Internal(String),
}

pub enum Fault {
    Invalid(Seq<char>),
    Capacity,
    Conflict,
    Unavailable,
    Locked(Seq<char>),
    Storage(Seq<char>),
    Corrupt(Seq<char>),
    JournalFull,
    Internal(Seq<char>),
}

impl View for EngineError {
    type V = Fault;

    open spec fn view(&self) -> Fault {
        match self {
            EngineError::Invalid(m) => Fault::Invalid(m@),
            EngineError::Capacity => Fault::Capacity,
            EngineError::Conflict => Fault::Conflict,
            EngineError::Unavailable => Fault::Unavailable,
            EngineError::Locked(m) => Fault::Locked(m@),
            EngineError::Storage(m) => Fault::Storage(m@),
            EngineError::Corrupt(m) => Fault::Corrupt(m@),
            EngineError::JournalFull => Fault::JournalFull,
            EngineError::Internal(m) => Fault::Internal(m@),
        }
    }
}

/// The text shown for a failure.
pub open spec fn fault_message(fault: Fault) -> Seq<char> {
    match fault {
        Fault::Invalid(m) => "invalid configuration or task: "@ + m,
        Fault::Capacity => "task capacity or submission queue is full"@,
        Fault::Conflict => "task ID already exists with different content"@,
        Fault::Unavailable => "engine is stopped or its durable store is unavailable"@,
        Fault::Locked(m) => "another engine owns the runtime directory: "@ + m,
        Fault::Storage(m) => "journal error: "@ + m,
        Fault::Corrupt(m) => "invalid journal: "@ + m,
        Fault::JournalFull => "journal size limit reached"@,
        Fault::Internal(m) => "internal task failed: "@ + m,
    }
}

impl EngineError {
    /// The text shown for this failure.
    pub fn message(&self) -> (r: String)
        ensures
            r@ == fault_message(self@),
    {
        match self {
            EngineError::Invalid(m) => joined("invalid configuration or task: ", m),
            EngineError::Capacity => copied("task capacity or submission queue is full"),
            EngineError::Conflict => copied("task ID already exists with different content"),
            EngineError::Unavailable => copied("engine is stopped or its durable store is unavailable"),
            EngineError::Locked(m) => joined("another engine owns the runtime directory: ", m),
            EngineError::Storage(m) => joined("journal error: ", m),
            EngineError::Corrupt(m) => joined("invalid journal: ", m),
            EngineError::JournalFull => copied("journal size limit reached"),
            EngineError::Internal(m) => joined("internal task failed: ", m),
        }
    }
}

/// One to 128 bytes without control characters.
pub open spec fn is_printable(text: Seq<char>) -> bool {
    0 < text.len() && byte_len(text) <= MAX_TEXT_BYTES && !has_control(text)
}

/// The first rule that a task breaks.
pub open spec fn spec_fault(t: SpecView) -> Option<Fault> {
    if !is_printable(t.id) || !is_printable(t.target) {
        Some(Fault::Invalid("ID and target must contain 1..128 printable bytes"@))
    } else if t.timeout_ms == 0 || t.timeout_ms > MAX_TIMEOUT_MS {
        Some(Fault::Invalid("timeout must be between 1 ms and one hour"@))
    } else if t.simulation is Delay && t.simulation->millis > MAX_TIMEOUT_MS {
        Some(Fault::Invalid("simulation delay exceeds one hour"@))
    } else {
        None
    }
}

fn printable(text: &str) -> (r: bool)
    ensures
        r == is_printable(text@),
{
    !text.is_empty() && utf8_len(text) <= MAX_TEXT_BYTES && !controlled(text)
}

/// Checks the id of a query or a cancellation.
pub fn validate_lookup_id(id: &str) -> (r: Result<(), EngineError>)
    ensures
        match r {
            Ok(_) => is_printable(id@),
            Err(e) => !is_printable(id@) && e@ == Fault::Invalid("ID must contain 1..128 printable bytes"@),
        },
{
    if printable(id) {
        Ok(())
    } else {
        Err(EngineError::Invalid(copied("ID must contain 1..128 printable bytes")))
    }
}

impl TaskSpec {
    pub fn simulated(id: String, target: String, simulation: Simulation) -> (r: Self)
        ensures
            r@ == (SpecView { id: id@, target: target@, simulation, simulation_authorized: false, timeout_ms: 30000 }),
    {
        TaskSpec { id, target, simulation, simulation_authorized: false, timeout_ms: 30000 }
    }

    /// This is NOT identity verification or authorization for any real action.
    pub fn authorize_simulation(self) -> (r: Self)
        ensures
            r@ == (SpecView { simulation_authorized: true, ..self@ }),
    {
        let mut r = self;
        r.simulation_authorized = true;
        r
    }

    pub fn with_timeout(self, timeout: Span) -> (r: Self)
        ensures
            r@ == (SpecView {
                timeout_ms: if timeout.total() / 1000000 <= u64::MAX { (timeout.total() / 1000000) as u64 } else { u64::MAX },
                ..self@
            }),
    {
        let mut r = self;
        r.timeout_ms = timeout.millis();
        r
    }

    pub fn validate(&self) -> (r: Result<(), EngineError>)
        ensures
            match r {
                Ok(_) => spec_fault(self@) is None,
                Err(e) => spec_fault(self@) == Some(e@),
            },
    {
        if !printable(&self.id) || !printable(&self.target) {
            return Err(EngineError::Invalid(copied("ID and target must contain 1..128 printable bytes")));
        }
        if self.timeout_ms == 0 || self.timeout_ms > MAX_TIMEOUT_MS {
            return Err(EngineError::Invalid(copied("timeout must be between 1 ms and one hour")));
        }
        if let Simulation::Delay { millis } = self.simulation {
            if millis > MAX_TIMEOUT_MS {
                return Err(EngineError::Invalid(copied("simulation delay exceeds one hour")));
            }
        }
        Ok(())
    }

    pub fn equals(&self, other: &TaskSpec) -> (r: bool)
        ensures
            r == (self@ == other@),
    {
        same(&self.id, &other.id) && same(&self.target, &other.target) && self.simulation == other.simulation
            && self.simulation_authorized == other.simulation_authorized && self.timeout_ms == other.timeout_ms
    }
}

impl Clone for TaskSpec {
    fn clone(&self) -> (r: Self)
        ensures
            r@ == self@,
    {
        TaskSpec {
            id: self.id.clone(),
            target: self.target.clone(),
            simulation: self.simulation,
            simulation_authorized: self.simulation_authorized,
            timeout_ms: self.timeout_ms,
        }
    }
}

#[derive(Debug, Clone, Copy, PartialEq, Eq, Structural)]
pub enum TaskState {
    Queued,
    Diagnosing,
    Executing,
    Verifying,
    Succeeded,
    Failed,
    Denied,
    Canceled,
    TimedOut,
    Unknown,
}

pub open spec fn terminal(s: TaskState) -> bool {
    !(s is Queued || s is Diagnosing || s is Executing || s is Verifying)
}

/// What an interruption leaves: work whose effects are open becomes unknown.
pub open spec fn interruption(s: TaskState, timeout: bool) -> TaskState {
    match s {
        TaskState::Executing => TaskState::Unknown,
        TaskState::Verifying => TaskState::Unknown,
        _ => if timeout { TaskState::TimedOut } else { TaskState::Canceled },
    }
}

/// The steps a task may take.
pub open spec fn may_follow(s: TaskState, next: TaskState) -> bool {
    match s {
        TaskState::Queued => next is Diagnosing || next is Canceled,
        TaskState::Diagnosing => next is Executing || next is Canceled || next is TimedOut || next is Failed,
        TaskState::Executing => next is Verifying || next is Failed || next is Unknown,
        TaskState::Verifying => next is Succeeded || next is Failed || next is Unknown,
        _ => false,
    }
}

impl TaskState {
    pub fn is_terminal(self) -> (r: bool)
        ensures
            r == terminal(self),
    {
        match self {
            TaskState::Queued => false,
            TaskState::Diagnosing => false,
            TaskState::Executing => false,
            TaskState::Verifying => false,
            _ => true,
        }
    }

    pub fn interrupted(self, timeout: bool) -> (r: Self)
        ensures
            r == interruption(self, timeout),
    {
        match self {
            TaskState::Executing => TaskState::Unknown,
            TaskState::Verifying => TaskState::Unknown,
            _ => if timeout { TaskState::TimedOut } else { TaskState::Canceled },
        }
    }

    pub fn allows(self, next: Self) -> (r: bool)
        ensures
            r == may_follow(self, next),
    {
        match self {
            TaskState::Queued => next == TaskState::Diagnosing || next == TaskState::Canceled,
            TaskState::Diagnosing => next == TaskState::Executing || next == TaskState::Canceled || next == TaskState::TimedOut
                || next == TaskState::Failed,
            TaskState::Executing => next == TaskState::Verifying || next == TaskState::Failed || next == TaskState::Unknown,
            TaskState::Verifying => next == TaskState::Succeeded || next == TaskState::Failed || next == TaskState::Unknown,
            _ => false,
        }
    }
}

pub struct TaskSnapshot {
    pub spec: TaskSpec,
    pub state: TaskState,
    pub revision: u64,
}

pub struct SnapshotView {
    pub spec: SpecView,
    pub state: TaskState,
    pub revision: u64,
}

impl View for TaskSnapshot {
    type V = SnapshotView;

    open spec fn view(&self) -> SnapshotView {
        SnapshotView { spec: self.spec@, state: self.state, revision: self.revision }
    }
}

impl Clone for TaskSnapshot {
    fn clone(&self) -> (r: Self)
        ensures
            r@ == self@,
    {
        TaskSnapshot { spec: self.spec.clone(), state: self.state, revision: self.revision }
    }
}

#[derive(Debug, Clone, Copy)]
pub struct EngineConfig {
    pub max_concurrency: usize,
    pub max_queued: usize,
    pub max_tasks: usize,
    pub max_journal_bytes: u64,
}

impl Default for EngineConfig {
    fn default() -> (r: Self)
        ensures
            r.max_concurrency == 4,
            r.max_queued == 64,
            r.max_tasks == 10000,
            r.max_journal_bytes == 16777216,
    {
        EngineConfig { max_concurrency: 4, max_queued: 64, max_tasks: 10000, max_journal_bytes: 16777216 }
    }
}

pub open spec fn limits_valid(c: EngineConfig) -> bool {
    &&& 1 <= c.max_concurrency <= 256
    &&& 1 <= c.max_queued <= 100000
    &&& 1 <= c.max_tasks <= 1000000
    &&& 128 <= c.max_journal_bytes <= 1073741824
}

impl EngineConfig {
    pub fn validate(&self) -> (r: Result<(), EngineError>)
        ensures
            match r {
                Ok(_) => limits_valid(*self),
                Err(e) => !limits_valid(*self) && e@ == Fault::Invalid("invalid engine capacity limits"@),
            },
    {
        if 1 <= self.max_concurrency && self.max_concurrency <= 256 && 1 <= self.max_queued && self.max_queued <= 100000 && 1
            <= self.max_tasks && self.max_tasks <= 1000000 && 128 <= self.max_journal_bytes && self.max_journal_bytes
            <= 1073741824 {
            Ok(())
        } else {
            Err(EngineError::Invalid(copied("invalid engine capacity limits")))
        }
    }

    /// How many commands may wait for the scheduler.
    pub fn command_slots(&self) -> (r: usize)
        ensures
            r == if self.max_queued + self.max_concurrency <= 4096 { self.max_queued + self.max_concurrency } else { 4096 },
    {
        if self.max_queued <= 4096 && self.max_concurrency <= 4096 - self.max_queued {
            self.max_queued + self.max_concurrency
        } else {
            4096
        }
    }
}

pub struct JournalRecord {
    pub format: u32,
    pub sequence: u64,
    pub snapshot: TaskSnapshot,
}

/// How a simulated task ended.
#[derive(Debug, Clone, Copy, PartialEq, Eq, Structural)]
pub enum Outcome {
    Succeeded,
    Failed,
    MissingReceipt,
    TimedOut,
    /// The worker itself was aborted or failed.
    Aborted,
}

/// What a simulated worker does once its execution is on record.
#[derive(Debug, Clone, Copy, PartialEq, Eq, Structural)]
pub enum Work {
    End(Outcome),
    /// Never ends by itself.
    Forever,
    Sleep(u64),
    Verify,
}

/// The worker's part between execution and verification.
pub fn execute(simulation: Simulation) -> (r: Work)
    ensures
        match simulation {
            Simulation::Fail => r == Work::End(Outcome::Failed),
            Simulation::Exit => r == Work::End(Outcome::MissingReceipt),
            Simulation::Hang => r == Work::Forever,
            Simulation::Delay { millis } => r == Work::Sleep(millis),
            _ => r == Work::Verify,
        },
{
    match simulation {
        Simulation::Fail => Work::End(Outcome::Failed),
        Simulation::Exit => Work::End(Outcome::MissingReceipt),
        Simulation::Hang => Work::Forever,
        Simulation::Delay { millis } => Work::Sleep(millis),
        _ => Work::Verify,
    }
}

/// How a simulated task ends once its verification is on record.
pub fn verify(simulation: Simulation) -> (r: Outcome)
    ensures
        r == if simulation is VerificationFailed { Outcome::Failed } else { Outcome::Succeeded },
{
    match simulation {
        Simulation::VerificationFailed => Outcome::Failed,
        _ => Outcome::Succeeded,
    }
}

} // verus!
