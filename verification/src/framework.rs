//! Lifecycle and service composition for trusted, cooperative in-process modules.
//!
//! A runtime has one startup/shutdown cycle. Scope is an exact string namespace;
//! there is no hierarchy, hot replacement, or process isolation.
pub mod calls;
pub mod laws;
pub mod order;
pub mod runtime;
pub mod shutdown;
pub mod state;

use crate::text::{copied, debug_quoted, debug_quoting, decimal, decimal_text, joined, same};
use crate::time::Span;
use vstd::prelude::*;

verus! {

pub struct InstanceId(pub String);

impl InstanceId {
    pub fn new(value: String) -> (r: Self)
        ensures
            r@ == value@,
    {
        InstanceId(value)
    }
}

impl View for InstanceId {
    type V = Seq<char>;

    open spec fn view(&self) -> Seq<char> {
        self.0@
    }
}

impl Clone for InstanceId {
    fn clone(&self) -> (r: Self)
        ensures
            r@ == self@,
    {
        InstanceId(self.0.clone())
    }
}

/// Exact service identity. Major versions and scopes never implicitly fall back.
pub struct ServiceKey {
    pub name: String,
    pub major: u32,
    pub scope: String,
}

pub struct KeyView {
    pub name: Seq<char>,
    pub major: u32,
    pub scope: Seq<char>,
}

impl View for ServiceKey {
    type V = KeyView;

    open spec fn view(&self) -> KeyView {
        KeyView { name: self.name@, major: self.major, scope: self.scope@ }
    }
}

impl ServiceKey {
    pub fn new(name: String, major: u32, scope: String) -> (r: Self)
        ensures
            r@ == (KeyView { name: name@, major, scope: scope@ }),
    {
        ServiceKey { name, major, scope }
    }

    pub fn equals(&self, other: &ServiceKey) -> (r: bool)
        ensures
            r == (self@ == other@),
    {
        same(&self.name, &other.name) && self.major == other.major && same(&self.scope, &other.scope)
    }

    /// The key as text.
    pub fn text(&self) -> (r: String)
        ensures
            r@ == key_text(self@),
    {
        let r = joined(&self.name, "@");
        let r = joined(&r, &decimal_text(self.major as u64));
        let r = joined(&r, "[");
        let r = joined(&r, &self.scope);
        joined(&r, "]")
    }
}

impl Clone for ServiceKey {
    fn clone(&self) -> (r: Self)
        ensures
            r@ == self@,
    {
        ServiceKey { name: self.name.clone(), major: self.major, scope: self.scope.clone() }
    }
}

pub open spec fn key_text(k: KeyView) -> Seq<char> {
    k.name + "@"@ + decimal(k.major as nat) + "["@ + k.scope + "]"@
}

pub struct ModuleMetadata {
    pub instance: InstanceId,
    pub provides: Vec<ServiceKey>,
    pub required: Vec<ServiceKey>,
}

pub struct ModuleView {
    pub instance: Seq<char>,
    pub provides: Seq<KeyView>,
    pub required: Seq<KeyView>,
}

pub open spec fn keys_of(list: Seq<ServiceKey>) -> Seq<KeyView> {
    list.map_values(|k: ServiceKey| k@)
}

impl View for ModuleMetadata {
    type V = ModuleView;

    open spec fn view(&self) -> ModuleView {
        ModuleView { instance: self.instance@, provides: keys_of(self.provides@), required: keys_of(self.required@) }
    }
}

pub fn copied_keys(list: &Vec<ServiceKey>) -> (r: Vec<ServiceKey>)
    ensures
        keys_of(r@) == keys_of(list@),
{
    let mut r: Vec<ServiceKey> = Vec::new();
    let mut i: usize = 0;
    while i < list.len()
        invariant
            i <= list.len(),
            r.len() == i,
            forall|j: int| 0 <= j < i ==> (#[trigger] r@[j])@ == list@[j]@,
        decreases list.len() - i,
    {
        r.push(list[i].clone());
        i = i + 1;
    }
    assert(keys_of(r@) =~= keys_of(list@));
    r
}

/// Whether a list holds a key.
pub fn lists_key(list: &Vec<ServiceKey>, key: &ServiceKey) -> (r: bool)
    ensures
        r == keys_of(list@).contains(key@),
{
    let mut i: usize = 0;
    while i < list.len()
        invariant
            i <= list.len(),
            forall|j: int| 0 <= j < i ==> #[trigger] keys_of(list@)[j] != key@,
        decreases list.len() - i,
    {
        if list[i].equals(key) {
            assert(keys_of(list@)[i as int] == key@);
            return true;
        }
        i = i + 1;
    }
    false
}

impl Clone for ModuleMetadata {
    fn clone(&self) -> (r: Self)
        ensures
            r@ == self@,
    {
        ModuleMetadata {
            instance: self.instance.clone(),
            provides: copied_keys(&self.provides),
            required: copied_keys(&self.required),
        }
    }
}

impl ModuleMetadata {
    pub fn new(instance: InstanceId) -> (r: Self)
        ensures
            r@ == (ModuleView { instance: instance@, provides: Seq::empty(), required: Seq::empty() }),
    {
        let r = ModuleMetadata { instance, provides: Vec::new(), required: Vec::new() };
        assert(r@.provides =~= Seq::<KeyView>::empty());
        assert(r@.required =~= Seq::<KeyView>::empty());
        r
    }

    pub fn provides(self, service: ServiceKey) -> (r: Self)
        ensures
            r@ == (ModuleView { provides: self@.provides.push(service@), ..self@ }),
    {
        let mut r = self;
        r.provides.push(service);
        assert(r@.provides =~= self@.provides.push(service@));
        r
    }

    /// Adds a service that the module needs.
    pub fn require(self, service: ServiceKey) -> (r: Self)
        ensures
            r@ == (ModuleView { required: self@.required.push(service@), ..self@ }),
    {
        let mut r = self;
        r.required.push(service);
        assert(r@.required =~= self@.required.push(service@));
        r
    }
}

#[derive(Debug)]
pub struct ModuleError {
    pub message: String,
}

impl ModuleError {
    pub fn new(message: String) -> (r: Self)
        ensures
            r.message@ == message@,
    {
        ModuleError { message }
    }

    /// The failure of the framework as a module reports it.
    pub fn of(error: &FrameworkError) -> (r: Self)
        ensures
            r.message@ == fault_message(error@),
    {
        ModuleError { message: error.message() }
    }
}

pub struct LifecycleOptions {
    pub start_timeout: Span,
    pub stop_timeout: Span,
    pub cleanup_timeout: Span,
    pub max_modules: usize,
    pub max_resources_per_module: usize,
    pub max_subscriptions_per_module: usize,
    pub max_event_queue: usize,
    pub max_event_bytes: usize,
}

impl Default for LifecycleOptions {
    fn default() -> (r: Self)
        ensures
            r.start_timeout.total() == 5000000000,
            r.stop_timeout.total() == 5000000000,
            r.cleanup_timeout.total() == 2000000000,
            r.max_modules == 64,
            r.max_resources_per_module == 128,
            r.max_subscriptions_per_module == 64,
            r.max_event_queue == 256,
            r.max_event_bytes == 65536,
    {
        LifecycleOptions {
            start_timeout: Span::from_secs(5),
            stop_timeout: Span::from_secs(5),
            cleanup_timeout: Span::from_secs(2),
            max_modules: 64,
            max_resources_per_module: 128,
            max_subscriptions_per_module: 64,
            max_event_queue: 256,
            max_event_bytes: 65536,
        }
    }
}

/// The part of a module's life in which something went wrong.
#[derive(Debug, Clone, Copy, PartialEq, Eq, Structural)]
pub enum Phase {
    Start,
    Stop,
    Task,
    Cleanup,
}

pub enum FrameworkError {
    InvalidConfiguration(String),
    RuntimeNotFresh,
    DuplicateInstance(InstanceId),
    ProviderConflict(ServiceKey),
    MissingDependency { instance: InstanceId, service: ServiceKey },
    DependencyCycle(Vec<InstanceId>),
    UnpublishedService { instance: InstanceId, service: ServiceKey },
    UndeclaredService { instance: InstanceId, service: ServiceKey },
    ServiceUnavailable(ServiceKey),
    ServiceTypeMismatch(ServiceKey),
    InstanceInactive(InstanceId),
    CapacityExceeded(String),
    LifecycleFailure { instance: InstanceId, phase: Phase, message: String },
    LifecycleTimeout { instance: InstanceId, phase: Phase },
    StatePoisoned,
}

pub enum Fault {
    InvalidConfiguration(Seq<char>),
    RuntimeNotFresh,
    DuplicateInstance(Seq<char>),
    ProviderConflict(KeyView),
    MissingDependency { instance: Seq<char>, service: KeyView },
    DependencyCycle(Seq<Seq<char>>),
    UnpublishedService { instance: Seq<char>, service: KeyView },
    UndeclaredService { instance: Seq<char>, service: KeyView },
    ServiceUnavailable(KeyView),
    ServiceTypeMismatch(KeyView),
    InstanceInactive(Seq<char>),
    CapacityExceeded(Seq<char>),
    LifecycleFailure { instance: Seq<char>, phase: Phase, message: Seq<char> },
    LifecycleTimeout { instance: Seq<char>, phase: Phase },
    StatePoisoned,
}

pub open spec fn ids_of(list: Seq<InstanceId>) -> Seq<Seq<char>> {
    list.map_values(|i: InstanceId| i@)
}

impl View for FrameworkError {
    type V = Fault;

    open spec fn view(&self) -> Fault {
        match self {
            FrameworkError::InvalidConfiguration(m) => Fault::InvalidConfiguration(m@),
            FrameworkError::RuntimeNotFresh => Fault::RuntimeNotFresh,
            FrameworkError::DuplicateInstance(i) => Fault::DuplicateInstance(i@),
            FrameworkError::ProviderConflict(k) => Fault::ProviderConflict(k@),
            FrameworkError::MissingDependency { instance, service } => Fault::MissingDependency {
                instance: instance@,
                service: service@,
            },
            FrameworkError::DependencyCycle(list) => Fault::DependencyCycle(ids_of(list@)),
            FrameworkError::UnpublishedService { instance, service } => Fault::UnpublishedService {
                instance: instance@,
                service: service@,
            },
            FrameworkError::UndeclaredService { instance, service } => Fault::UndeclaredService {
                instance: instance@,
                service: service@,
            },
            FrameworkError::ServiceUnavailable(k) => Fault::ServiceUnavailable(k@),
            FrameworkError::ServiceTypeMismatch(k) => Fault::ServiceTypeMismatch(k@),
            FrameworkError::InstanceInactive(i) => Fault::InstanceInactive(i@),
            FrameworkError::CapacityExceeded(m) => Fault::CapacityExceeded(m@),
            FrameworkError::LifecycleFailure { instance, phase, message } => Fault::LifecycleFailure {
                instance: instance@,
                phase: *phase,
                message: message@,
            },
            FrameworkError::LifecycleTimeout { instance, phase } => Fault::LifecycleTimeout {
                instance: instance@,
                phase: *phase,
            },
            FrameworkError::StatePoisoned => Fault::StatePoisoned,
        }
    }
}

pub open spec fn phase_name(phase: Phase) -> Seq<char> {
    match phase {
        Phase::Start => "start"@,
        Phase::Stop => "stop"@,
        Phase::Task => "background task"@,
        Phase::Cleanup => "cleanup"@,
    }
}

/// A list of instances as shown in messages.
pub open spec fn cycle_text(list: Seq<Seq<char>>) -> Seq<char>
    decreases list.len(),
{
    if list.len() == 0 {
        Seq::empty()
    } else {
        let item = "InstanceId("@ + debug_quoted(list.last()) + ")"@;
        if list.len() == 1 { item } else { cycle_text(list.drop_last()) + ", "@ + item }
    }
}

/// The text shown for a failure.
pub open spec fn fault_message(fault: Fault) -> Seq<char> {
    match fault {
        Fault::InvalidConfiguration(m) => "invalid configuration: "@ + m,
        Fault::RuntimeNotFresh => "runtime already started or closed"@,
        Fault::DuplicateInstance(i) => "duplicate instance: "@ + i,
        Fault::ProviderConflict(k) => "service provider conflict: "@ + key_text(k),
        Fault::MissingDependency { instance, service } => instance + " requires missing service "@ + key_text(service),
        Fault::DependencyCycle(list) => "cyclic module dependencies: ["@ + cycle_text(list) + "]"@,
        Fault::UnpublishedService { instance, service } => "module "@ + instance + " did not publish declared service "@
            + key_text(service),
        Fault::UndeclaredService { instance, service } => "service "@ + key_text(service) + " is not declared by "@ + instance,
        Fault::ServiceUnavailable(k) => "service is unavailable: "@ + key_text(k),
        Fault::ServiceTypeMismatch(k) => "service Rust type does not match: "@ + key_text(k),
        Fault::InstanceInactive(i) => "instance is no longer accepting work: "@ + i,
        Fault::CapacityExceeded(m) => "capacity exceeded: "@ + m,
        Fault::LifecycleFailure { instance, phase, message } => instance + " "@ + phase_name(phase) + " failed: "@ + message,
        Fault::LifecycleTimeout { instance, phase } => instance + " "@ + phase_name(phase) + " timed out"@,
        Fault::StatePoisoned => "framework state lock was poisoned"@,
    }
}

fn phase_text(phase: Phase) -> (r: String)
    ensures
        r@ == phase_name(phase),
{
    match phase {
        Phase::Start => copied("start"),
        Phase::Stop => copied("stop"),
        Phase::Task => copied("background task"),
        Phase::Cleanup => copied("cleanup"),
    }
}

fn cycle_message(list: &Vec<InstanceId>) -> (r: String)
    ensures
        r@ == cycle_text(ids_of(list@)),
{
    let ghost all = ids_of(list@);
    let mut r = String::new();
    let mut i: usize = 0;
    assert(r@ =~= cycle_text(all.subrange(0, 0)));
    while i < list.len()
        invariant
            i <= list.len(),
            all == ids_of(list@),
            r@ == cycle_text(all.subrange(0, i as int)),
        decreases list.len() - i,
    {
        let item = joined("InstanceId(", &debug_quoting(&list[i].0));
        let item = joined(&item, ")");
        proof {
            assert(all.subrange(0, i + 1).drop_last() =~= all.subrange(0, i as int));
            assert(all.subrange(0, i + 1).last() == list@[i as int]@);
        }
        if i > 0 {
            r = joined(&r, ", ");
            r = joined(&r, &item);
        } else {
            r = item;
        }
        i = i + 1;
    }
    assert(all.subrange(0, i as int) =~= all);
    r
}

impl FrameworkError {
    /// The text shown for this failure.
    pub fn message(&self) -> (r: String)
        ensures
            r@ == fault_message(self@),
    {
        match self {
            FrameworkError::InvalidConfiguration(m) => joined("invalid configuration: ", m),
            FrameworkError::RuntimeNotFresh => copied("runtime already started or closed"),
            FrameworkError::DuplicateInstance(i) => joined("duplicate instance: ", &i.0),
            FrameworkError::ProviderConflict(k) => joined("service provider conflict: ", &k.text()),
            FrameworkError::MissingDependency { instance, service } => {
                let r = joined(&instance.0, " requires missing service ");
                joined(&r, &service.text())
            },
            FrameworkError::DependencyCycle(list) => {
                let r = joined("cyclic module dependencies: [", &cycle_message(list));
                joined(&r, "]")
            },
            FrameworkError::UnpublishedService { instance, service } => {
                let r = joined("module ", &instance.0);
                let r = joined(&r, " did not publish declared service ");
                joined(&r, &service.text())
            },
            FrameworkError::UndeclaredService { instance, service } => {
                let r = joined("service ", &service.text());
                let r = joined(&r, " is not declared by ");
                joined(&r, &instance.0)
            },
            FrameworkError::ServiceUnavailable(k) => joined("service is unavailable: ", &k.text()),
            FrameworkError::ServiceTypeMismatch(k) => joined("service Rust type does not match: ", &k.text()),
            FrameworkError::InstanceInactive(i) => joined("instance is no longer accepting work: ", &i.0),
            FrameworkError::CapacityExceeded(m) => joined("capacity exceeded: ", m),
            FrameworkError::LifecycleFailure { instance, phase, message } => {
                let r = joined(&instance.0, " ");
                let r = joined(&r, &phase_text(*phase));
                let r = joined(&r, " failed: ");
                joined(&r, message)
            },
            FrameworkError::LifecycleTimeout { instance, phase } => {
                let r = joined(&instance.0, " ");
                let r = joined(&r, &phase_text(*phase));
                joined(&r, " timed out")
            },
            FrameworkError::StatePoisoned => copied("framework state lock was poisoned"),
        }
    }
}

pub struct ShutdownReport {
    pub issues: Vec<FrameworkError>,
}

pub open spec fn faults_of(list: Seq<FrameworkError>) -> Seq<Fault> {
    list.map_values(|e: FrameworkError| e@)
}

impl ShutdownReport {
    pub fn is_clean(&self) -> (r: bool)
        ensures
            r == (self.issues@.len() == 0),
    {
        self.issues.len() == 0
    }
}

impl Default for ShutdownReport {
    fn default() -> (r: Self)
        ensures
            r.issues@.len() == 0,
    {
        ShutdownReport { issues: Vec::new() }
    }
}

pub struct StartupError {
    pub cause: FrameworkError,
    pub cleanup: ShutdownReport,
}

pub struct Event {
    pub topic: String,
    pub data: String,
}

/// An event is ephemeral. Full queues drop this event and are reported to its sender.
#[derive(Debug, Clone, Copy, PartialEq, Eq, Structural)]
pub struct DeliveryReport {
    pub delivered: usize,
    pub full: usize,
    pub closed: usize,
}

#[derive(Debug, Clone, Copy, PartialEq, Eq, Structural)]
pub struct RuntimeSnapshot {
    pub active_instances: usize,
    pub pending_cleanup_instances: usize,
    pub services: usize,
    pub subscriptions: usize,
    pub disposers: usize,
    pub background_tasks: usize,
}

impl Default for RuntimeSnapshot {
    /// Nothing is alive.
    fn default() -> (r: Self)
        ensures
            r == (RuntimeSnapshot {
                active_instances: 0,
                pending_cleanup_instances: 0,
                services: 0,
                subscriptions: 0,
                disposers: 0,
                background_tasks: 0,
            }),
    {
        RuntimeSnapshot {
            active_instances: 0,
            pending_cleanup_instances: 0,
            services: 0,
            subscriptions: 0,
            disposers: 0,
            background_tasks: 0,
        }
    }
}

} // verus!
