//! Read-only observation polling and evidence-based monitoring. No repair dispatch.
pub mod batch;
pub mod config;
pub mod discovery;
pub mod engine;
pub mod laws;
pub mod limits;
pub mod rule;
pub mod schedule;
pub mod state;

use crate::json::{Json, Tree};
use crate::recovery::incidents::IncidentError;
use crate::text::{joined, opt};
use vstd::prelude::*;

verus! {

pub const MAX_CONFIG: usize = 262144;
pub const MAX_BATCH: usize = 262144;
pub const MAX_SAMPLES: usize = 32;

#[derive(Debug)]
pub enum MonitorError {
    Configuration(String),
    Observation(String),
    Runtime(String),
    Stopped,
    Incident(IncidentError),
}

pub enum Fault {
    Configuration(Seq<char>),
    Observation(Seq<char>),
    Runtime(Seq<char>),
    Stopped,
    Incident(crate::recovery::incidents::Fault),
}

impl View for MonitorError {
    type V = Fault;

    open spec fn view(&self) -> Fault {
        match self {
            MonitorError::Configuration(m) => Fault::Configuration(m@),
            MonitorError::Observation(m) => Fault::Observation(m@),
            MonitorError::Runtime(m) => Fault::Runtime(m@),
            MonitorError::Stopped => Fault::Stopped,
            MonitorError::Incident(e) => Fault::Incident(e@),
        }
    }
}

/// The text shown for a failure.
pub open spec fn fault_message(fault: Fault) -> Seq<char> {
    match fault {
        Fault::Configuration(m) => "invalid monitoring configuration: "@ + m,
        Fault::Observation(m) => "invalid observation: "@ + m,
        Fault::Runtime(m) => "monitoring runtime: "@ + m,
        Fault::Stopped => "monitoring is stopped"@,
        Fault::Incident(f) => crate::recovery::incidents::fault_message(f),
    }
}

impl MonitorError {
    /// The text shown for this failure.
    pub fn message(&self) -> (r: String)
        ensures
            r@ == fault_message(self@),
    {
        match self {
            MonitorError::Configuration(m) => joined("invalid monitoring configuration: ", m),
            MonitorError::Observation(m) => joined("invalid observation: ", m),
            MonitorError::Runtime(m) => joined("monitoring runtime: ", m),
            MonitorError::Stopped => crate::text::copied("monitoring is stopped"),
            MonitorError::Incident(e) => e.message(),
        }
    }
}

pub struct MonitorsConfig {
    pub schema_version: u32,
    pub monitors: Vec<MonitorDefinition>,
    pub discoveries: Vec<MonitorDiscovery>,
}

pub struct MonitorDefinition {
    pub id: String,
    pub target_id: String,
    pub source_id: String,
    pub view_role: Option<String>,
    pub extension_id: String,
    pub contract: String,
    pub version: u32,
    pub method: String,
    pub params: Json,
    pub interval_ms: u64,
    pub timeout_ms: u64,
    pub stale_after_ms: u64,
    pub startup_grace_ms: u64,
    pub rule: MonitorRule,
}

pub struct MonitorRule {
    /// JSON pointer into each sample's value; comparison true means healthy.
    pub pointer: String,
    pub operator: RuleOperator,
    pub value: Json,
    pub failure_samples: u32,
    pub success_samples: u32,
}

#[derive(Debug, Clone, Copy, PartialEq, Eq, Structural)]
pub enum RuleOperator {
    Eq,
    Ne,
    Gt,
    Ge,
    Lt,
    Le,
}

pub struct MonitorDiscovery {
    pub id: String,
    pub extension_id: String,
    pub contract: String,
    pub version: u32,
    pub method: String,
    pub params: Json,
    pub interval_ms: u64,
    pub timeout_ms: u64,
    pub max_targets: usize,
    pub parameter: String,
    pub template: MonitorDefinition,
}

pub struct ObservationBatch {
    pub schema_version: u32,
    pub target_id: String,
    pub source_id: String,
    pub generation: String,
    /// Echo of the requested cursor. None on the first request.
    pub cursor: Option<String>,
    pub next_cursor: String,
    pub coverage: BatchCoverage,
    pub has_more: bool,
    pub error: Option<String>,
    pub samples: Vec<ObservationSample>,
}

#[derive(Debug, Clone, Copy, PartialEq, Eq, Structural)]
pub enum BatchCoverage {
    Complete,
    Partial,
}

pub struct ObservationSample {
    pub id: String,
    pub sequence: u64,
    /// Age measured by the source when it assembles the reply, not a wall clock timestamp.
    pub age_ms: u64,
    pub value: Json,
    pub evidence: Json,
}

pub struct ObservationRequest {
    pub extension_id: String,
    pub contract: String,
    pub version: u32,
    pub method: String,
    pub params: Json,
    pub timeout_ms: u64,
}

#[derive(Debug, Clone, Copy, PartialEq, Eq, Structural)]
pub enum TargetHealth {
    Unknown,
    Healthy,
    Unhealthy,
}

#[derive(Debug, Clone, Copy, PartialEq, Eq, Structural)]
pub enum Freshness {
    Missing,
    Fresh,
    Stale,
}

#[derive(Debug, Clone, Copy, PartialEq, Eq, Structural)]
pub enum Coverage {
    Unknown,
    Complete,
    Partial,
    Unavailable,
}

// Mathematical models.

pub struct RuleView {
    pub pointer: Seq<char>,
    pub operator: RuleOperator,
    pub value: Tree,
    pub failure_samples: u32,
    pub success_samples: u32,
}

pub struct DefinitionView {
    pub id: Seq<char>,
    pub target_id: Seq<char>,
    pub source_id: Seq<char>,
    pub view_role: Option<Seq<char>>,
    pub extension_id: Seq<char>,
    pub contract: Seq<char>,
    pub version: u32,
    pub method: Seq<char>,
    pub params: Tree,
    pub interval_ms: u64,
    pub timeout_ms: u64,
    pub stale_after_ms: u64,
    pub startup_grace_ms: u64,
    pub rule: RuleView,
}

pub struct DiscoveryView {
    pub id: Seq<char>,
    pub extension_id: Seq<char>,
    pub contract: Seq<char>,
    pub version: u32,
    pub method: Seq<char>,
    pub params: Tree,
    pub interval_ms: u64,
    pub timeout_ms: u64,
    pub max_targets: usize,
    pub parameter: Seq<char>,
    pub template: DefinitionView,
}

pub struct SampleView {
    pub id: Seq<char>,
    pub sequence: u64,
    pub age_ms: u64,
    pub value: Tree,
    pub evidence: Tree,
}

pub struct BatchView {
    pub schema_version: u32,
    pub target_id: Seq<char>,
    pub source_id: Seq<char>,
    pub generation: Seq<char>,
    pub cursor: Option<Seq<char>>,
    pub next_cursor: Seq<char>,
    pub coverage: BatchCoverage,
    pub has_more: bool,
    pub error: Option<Seq<char>>,
    pub samples: Seq<SampleView>,
}

impl View for MonitorRule {
    type V = RuleView;

    open spec fn view(&self) -> RuleView {
        RuleView {
            pointer: self.pointer@,
            operator: self.operator,
            value: self.value@,
            failure_samples: self.failure_samples,
            success_samples: self.success_samples,
        }
    }
}

impl View for MonitorDefinition {
    type V = DefinitionView;

    open spec fn view(&self) -> DefinitionView {
        DefinitionView {
            id: self.id@,
            target_id: self.target_id@,
            source_id: self.source_id@,
            view_role: opt(self.view_role),
            extension_id: self.extension_id@,
            contract: self.contract@,
            version: self.version,
            method: self.method@,
            params: self.params@,
            interval_ms: self.interval_ms,
            timeout_ms: self.timeout_ms,
            stale_after_ms: self.stale_after_ms,
            startup_grace_ms: self.startup_grace_ms,
            rule: self.rule@,
        }
    }
}

impl View for MonitorDiscovery {
    type V = DiscoveryView;

    open spec fn view(&self) -> DiscoveryView {
        DiscoveryView {
            id: self.id@,
            extension_id: self.extension_id@,
            contract: self.contract@,
            version: self.version,
            method: self.method@,
            params: self.params@,
            interval_ms: self.interval_ms,
            timeout_ms: self.timeout_ms,
            max_targets: self.max_targets,
            parameter: self.parameter@,
            template: self.template@,
        }
    }
}

impl View for ObservationSample {
    type V = SampleView;

    open spec fn view(&self) -> SampleView {
        SampleView {
            id: self.id@,
            sequence: self.sequence,
            age_ms: self.age_ms,
            value: self.value@,
            evidence: self.evidence@,
        }
    }
}

pub open spec fn samples_of(list: Seq<ObservationSample>) -> Seq<SampleView> {
    list.map_values(|s: ObservationSample| s@)
}

impl View for ObservationBatch {
    type V = BatchView;

    open spec fn view(&self) -> BatchView {
        BatchView {
            schema_version: self.schema_version,
            target_id: self.target_id@,
            source_id: self.source_id@,
            generation: self.generation@,
            cursor: opt(self.cursor),
            next_cursor: self.next_cursor@,
            coverage: self.coverage,
            has_more: self.has_more,
            error: opt(self.error),
            samples: samples_of(self.samples@),
        }
    }
}

pub fn copied_opt(text: &Option<String>) -> (r: Option<String>)
    ensures
        opt(r) == opt(*text),
{
    match text {
        Some(t) => Some(t.clone()),
        None => None,
    }
}

impl Clone for MonitorRule {
    fn clone(&self) -> (r: Self)
        ensures
            r@ == self@,
    {
        MonitorRule {
            pointer: self.pointer.clone(),
            operator: self.operator,
            value: self.value.copy(),
            failure_samples: self.failure_samples,
            success_samples: self.success_samples,
        }
    }
}

impl Clone for MonitorDefinition {
    fn clone(&self) -> (r: Self)
        ensures
            r@ == self@,
    {
        MonitorDefinition {
            id: self.id.clone(),
            target_id: self.target_id.clone(),
            source_id: self.source_id.clone(),
            view_role: copied_opt(&self.view_role),
            extension_id: self.extension_id.clone(),
            contract: self.contract.clone(),
            version: self.version,
            method: self.method.clone(),
            params: self.params.copy(),
            interval_ms: self.interval_ms,
            timeout_ms: self.timeout_ms,
            stale_after_ms: self.stale_after_ms,
            startup_grace_ms: self.startup_grace_ms,
            rule: self.rule.clone(),
        }
    }
}

} // verus!
