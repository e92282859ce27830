//! Shared runtime composition for command-line and HTTP capabilities.
use crate::framework::{
    InstanceId, KeyView, LifecycleOptions, ModuleMetadata, ModuleView, RuntimeSnapshot, ServiceKey,
};
use crate::harnesses::{HarnessError, HarnessRegistryConfig};
use crate::monitors::MonitorsConfig;
use crate::nodes::ExtensionsConfig;
use crate::text::{copied, joined};
use crate::time::Span;
use vstd::prelude::*;

verus! {

/// Seconds that services may take to drain.
pub const DRAIN_SECONDS: u64 = 30;

pub struct MonitoringHostConfig {
    pub config: MonitorsConfig,
    pub data_dir: String,
}

pub struct HostConfig {
    pub harnesses: Option<HarnessRegistryConfig>,
    pub extensions: Option<ExtensionsConfig>,
    pub monitoring: Option<MonitoringHostConfig>,
}

impl Default for HostConfig {
    fn default() -> (r: Self)
        ensures
            r.harnesses is None && r.extensions is None && r.monitoring is None,
    {
        HostConfig { harnesses: None, extensions: None, monitoring: None }
    }
}

#[derive(Debug)]
pub enum HostError {
    Harness(HarnessError),
    Lifecycle(String),
}

pub enum Fault {
    Harness(crate::harnesses::Fault),
    Lifecycle(Seq<char>),
}

impl View for HostError {
    type V = Fault;

    open spec fn view(&self) -> Fault {
        match self {
            HostError::Harness(e) => Fault::Harness(e@),
            HostError::Lifecycle(m) => Fault::Lifecycle(m@),
        }
    }
}

/// The text shown for a failure.
pub open spec fn fault_message(fault: Fault) -> Seq<char> {
    match fault {
        Fault::Harness(f) => crate::harnesses::fault_message(f),
        Fault::Lifecycle(m) => "host lifecycle: "@ + m,
    }
}

impl HostError {
    /// The text shown for this failure.
    pub fn message(&self) -> (r: String)
        ensures
            r@ == fault_message(self@),
    {
        match self {
            HostError::Harness(e) => e.message(),
            HostError::Lifecycle(m) => joined("host lifecycle: ", m),
        }
    }
}

impl HostConfig {
    /// Monitoring always has a registry of extensions to read from, if an empty one.
    pub fn settled(self) -> (r: Self)
        ensures
            r.harnesses == self.harnesses,
            r.monitoring == self.monitoring,
            match self.extensions {
                Some(e) => r.extensions == Some(e),
                None => if self.monitoring is Some {
                    r.extensions is Some && r.extensions->0.schema_version == 1 && r.extensions->0.extensions@.len() == 0
                } else {
                    r.extensions is None
                },
            },
    {
        let mut r = self;
        if r.extensions.is_none() && r.monitoring.is_some() {
            r.extensions = Some(ExtensionsConfig { schema_version: 1, extensions: Vec::new() });
        }
        r
    }

    /// The modules of a host, consumers first: only declared dependencies order them.
    pub fn modules(&self) -> (r: Vec<ModuleMetadata>)
        ensures
            modules_of(r@) == host_modules(self.harnesses is Some, self.extensions is Some, self.monitoring is Some),
    {
        let harnesses = self.harnesses.is_some();
        let extensions = self.extensions.is_some();
        let monitoring = self.monitoring.is_some();
        let mut r: Vec<ModuleMetadata> = Vec::new();
        r.push(bindings(harnesses, extensions, monitoring));
        let ghost so_far = modules_of(r@);
        assert(so_far =~= seq![bindings_module(harnesses, extensions, monitoring)]);
        if harnesses {
            let m = ModuleMetadata::new(InstanceId::new(copied("host-harnesses"))).provides(harness_service());
            r.push(if extensions { m.require(extensions_service()) } else { m });
        }
        assert(modules_of(r@) =~= so_far + (if harnesses { seq![harness_module(extensions)] } else { Seq::empty() }));
        let ghost so_far = modules_of(r@);
        if monitoring {
            r.push(
                ModuleMetadata::new(InstanceId::new(copied("host-monitoring"))).require(extensions_service()).provides(
                    monitoring_service(),
                ),
            );
        }
        assert(modules_of(r@) =~= so_far + (if monitoring { seq![monitoring_module()] } else { Seq::empty() }));
        let ghost so_far = modules_of(r@);
        if extensions {
            r.push(ModuleMetadata::new(InstanceId::new(copied("host-extensions"))).provides(extensions_service()));
        }
        assert(modules_of(r@) =~= so_far + (if extensions { seq![extensions_module()] } else { Seq::empty() }));
        r
    }
}

pub open spec fn modules_of(list: Seq<ModuleMetadata>) -> Seq<ModuleView> {
    list.map_values(|m: ModuleMetadata| m@)
}

pub open spec fn key(name: Seq<char>, scope: Seq<char>) -> KeyView {
    KeyView { name, major: 1, scope }
}

pub open spec fn harness_key() -> KeyView {
    key("harness.registry"@, "host"@)
}

pub open spec fn extensions_key() -> KeyView {
    key("extensions.registry"@, "host"@)
}

pub open spec fn monitoring_key() -> KeyView {
    key("monitoring.service"@, "host"@)
}

pub fn harness_service() -> (r: ServiceKey)
    ensures
        r@ == harness_key(),
{
    ServiceKey::new(copied("harness.registry"), 1, copied("host"))
}

pub fn extensions_service() -> (r: ServiceKey)
    ensures
        r@ == extensions_key(),
{
    ServiceKey::new(copied("extensions.registry"), 1, copied("host"))
}

pub fn monitoring_service() -> (r: ServiceKey)
    ensures
        r@ == monitoring_key(),
{
    ServiceKey::new(copied("monitoring.service"), 1, copied("host"))
}

/// The simulation engine as a service.
pub fn task_service() -> (r: ServiceKey)
    ensures
        r@ == key("recovery.simulation"@, "local"@),
{
    ServiceKey::new(copied("recovery.simulation"), 1, copied("local"))
}

pub open spec fn requiring(m: ModuleView, k: KeyView, needed: bool) -> ModuleView {
    if needed { ModuleView { required: m.required.push(k), ..m } } else { m }
}

pub open spec fn plain(instance: Seq<char>) -> ModuleView {
    ModuleView { instance, provides: Seq::empty(), required: Seq::empty() }
}

pub open spec fn bindings_module(harnesses: bool, extensions: bool, monitoring: bool) -> ModuleView {
    requiring(
        requiring(
            requiring(plain("host-bindings"@), harness_key(), harnesses),
            extensions_key(),
            extensions,
        ),
        monitoring_key(),
        monitoring,
    )
}

pub open spec fn harness_module(extensions: bool) -> ModuleView {
    requiring(
        ModuleView { provides: seq![harness_key()], ..plain("host-harnesses"@) },
        extensions_key(),
        extensions,
    )
}

pub open spec fn monitoring_module() -> ModuleView {
    ModuleView {
        instance: "host-monitoring"@,
        provides: seq![monitoring_key()],
        required: seq![extensions_key()],
    }
}

pub open spec fn extensions_module() -> ModuleView {
    ModuleView { provides: seq![extensions_key()], ..plain("host-extensions"@) }
}

pub open spec fn host_modules(harnesses: bool, extensions: bool, monitoring: bool) -> Seq<ModuleView> {
    seq![bindings_module(harnesses, extensions, monitoring)] + (if harnesses {
        seq![harness_module(extensions)]
    } else {
        Seq::empty()
    }) + (if monitoring { seq![monitoring_module()] } else { Seq::empty() }) + (if extensions {
        seq![extensions_module()]
    } else {
        Seq::empty()
    })
}

fn bindings(harnesses: bool, extensions: bool, monitoring: bool) -> (r: ModuleMetadata)
    ensures
        r@ == bindings_module(harnesses, extensions, monitoring),
{
    let mut m = ModuleMetadata::new(InstanceId::new(copied("host-bindings")));
    if harnesses {
        m = m.require(harness_service());
    }
    if extensions {
        m = m.require(extensions_service());
    }
    if monitoring {
        m = m.require(monitoring_service());
    }
    m
}

/// How long a host's modules may take: each of 64 extensions has a bounded handshake and
/// drain.
pub fn host_options() -> (r: LifecycleOptions)
    ensures
        r.start_timeout.total() == 1920000000000,
        r.stop_timeout.total() == 30000000000,
        r.cleanup_timeout.total() == 2000000000,
        r.max_modules == 64,
{
    let mut r = LifecycleOptions::default();
    r.start_timeout = Span::from_secs(1920);
    r.stop_timeout = Span::from_secs(30);
    r
}

/// What a failed start is reported as. The category of an adapter or configuration failure
/// is kept if the cleanup succeeded; cleanup failures take precedence.
pub fn startup_error(clean: bool, harness: Option<HarnessError>, message: String) -> (e: HostError)
    ensures
        e@ == (match harness {
            Some(h) => if clean { Fault::Harness(h@) } else { Fault::Lifecycle(message@) },
            None => Fault::Lifecycle(message@),
        }),
{
    match harness {
        Some(h) => if clean {
            HostError::Harness(h)
        } else {
            HostError::Lifecycle(message)
        },
        None => HostError::Lifecycle(message),
    }
}

/// The first failure of revoking all service entry points; every one was revoked.
pub fn close(monitoring: Option<String>, harnesses: Option<HarnessError>, extensions: Option<String>) -> (r: Result<(), HostError>)
    ensures
        match r {
            Ok(_) => monitoring is None && harnesses is None && extensions is None,
            Err(e) => match monitoring {
                Some(m) => e@ == Fault::Lifecycle(m@),
                None => match harnesses {
                    Some(h) => e@ == Fault::Harness(h@),
                    None => extensions is Some && e@ == Fault::Lifecycle(extensions->0@),
                },
            },
        },
{
    if let Some(m) = monitoring {
        return Err(HostError::Lifecycle(m));
    }
    if let Some(h) = harnesses {
        return Err(HostError::Harness(h));
    }
    if let Some(m) = extensions {
        return Err(HostError::Lifecycle(m));
    }
    Ok(())
}

/// What an expired drain is reported as: never as a clean result.
pub fn drain_expired() -> (e: HostError)
    ensures
        e@ == Fault::Lifecycle("service drain timed out; cleanup remains pending"@),
{
    HostError::Lifecycle(copied("service drain timed out; cleanup remains pending"))
}

pub open spec fn nothing_left(s: RuntimeSnapshot) -> bool {
    &&& s.active_instances == 0
    &&& s.pending_cleanup_instances == 0
    &&& s.services == 0
    &&& s.subscriptions == 0
    &&& s.disposers == 0
    &&& s.background_tasks == 0
}

/// Whether a runtime holds nothing any more.
pub fn is_empty(s: &RuntimeSnapshot) -> (r: bool)
    ensures
        r == nothing_left(*s),
{
    s.active_instances == 0 && s.pending_cleanup_instances == 0 && s.services == 0 && s.subscriptions == 0 && s.disposers == 0
        && s.background_tasks == 0
}

/// Decides whether a shutdown was clean; `issues` shows what it reported.
pub fn shutdown_result(clean: bool, issues: &str, left: &RuntimeSnapshot) -> (r: Result<(), HostError>)
    ensures
        match r {
            Ok(_) => clean && nothing_left(*left),
            Err(e) => if !clean {
                e@ == Fault::Lifecycle("shutdown reported: "@ + issues@)
            } else {
                !nothing_left(*left) && e@ == Fault::Lifecycle("shutdown left runtime resources"@)
            },
        },
{
    if !clean {
        return Err(HostError::Lifecycle(joined("shutdown reported: ", issues)));
    }
    if !is_empty(left) {
        return Err(HostError::Lifecycle(copied("shutdown left runtime resources")));
    }
    Ok(())
}

/// Every service that a host's module needs is provided by one of its modules, whatever is
/// configured, as long as monitoring has its extensions.
pub proof fn host_dependencies_are_met(harnesses: bool, extensions: bool, monitoring: bool, i: int, j: int)
    requires
        monitoring ==> extensions,
        0 <= i < host_modules(harnesses, extensions, monitoring).len(),
        0 <= j < host_modules(harnesses, extensions, monitoring)[i].required.len(),
    ensures
        exists|k: int|
            0 <= k < host_modules(harnesses, extensions, monitoring).len() && (#[trigger] host_modules(
                harnesses,
                extensions,
                monitoring,
            )[k]).provides.contains(host_modules(harnesses, extensions, monitoring)[i].required[j]),
{
    let list = host_modules(harnesses, extensions, monitoring);
    let wanted = list[i].required[j];
    let h: int = if harnesses { 1 } else { 0 };
    let m: int = if monitoring { 1 } else { 0 };
    if harnesses {
        assert(list[1] == harness_module(extensions));
        assert(list[1].provides[0] == harness_key());
        assert(list[1].provides.contains(harness_key()));
    }
    if monitoring {
        assert(list[1 + h] == monitoring_module());
        assert(list[1 + h].provides[0] == monitoring_key());
        assert(list[1 + h].provides.contains(monitoring_key()));
    }
    if extensions {
        assert(list[1 + h + m] == extensions_module());
        assert(list[1 + h + m].provides[0] == extensions_key());
        assert(list[1 + h + m].provides.contains(extensions_key()));
    }
    assert(wanted == harness_key() && harnesses || wanted == monitoring_key() && monitoring || wanted == extensions_key()
        && extensions) by {
        if i == 0 {
            assert(list[0] == bindings_module(harnesses, extensions, monitoring));
        } else if harnesses && i == 1 {
        } else if monitoring && i == 1 + h {
        } else {
            assert(i == 1 + h + m);
        }
    }
}

} // verus!
