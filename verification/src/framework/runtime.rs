//! One startup/shutdown cycle of a set of modules.
//!
//! The caller runs the hooks, joins the tasks and calls the disposers; the runtime
//! says which comes next and remembers what went wrong.
use super::order::{indices, modules_of, ordering, start_order};
use super::state::{released, revoked, InstanceState, InstanceView, SharedState, SharedView};
use super::{
    faults_of, ids_of, keys_of, Fault, FrameworkError, InstanceId, KeyView, LifecycleOptions, ModuleMetadata, ModuleView, Phase,
    RuntimeSnapshot, ServiceKey, ShutdownReport,
};
use crate::text::{copied, opt};
use vstd::prelude::*;

verus! {

/// What a module still has to give back: disposers and background tasks.
#[derive(Debug, Clone, Copy, PartialEq, Eq, Structural)]
pub struct Resources {
    pub disposers: usize,
    pub tasks: usize,
}

pub struct Entry {
    pub metadata: ModuleMetadata,
    pub stop_finished: bool,
    pub cleanup: Option<Resources>,
}

pub struct EntryView {
    pub metadata: ModuleView,
    pub stop_finished: bool,
    pub cleanup: Option<Resources>,
}

impl View for Entry {
    type V = EntryView;

    open spec fn view(&self) -> EntryView {
        EntryView { metadata: self.metadata@, stop_finished: self.stop_finished, cleanup: self.cleanup }
    }
}

pub struct Runtime {
    pub options: LifecycleOptions,
    pub state: SharedState,
    pub entries: Vec<Entry>,
    /// Modules that started, in that order.
    pub active: Vec<usize>,
    pub fresh: bool,
    pub issues: Vec<FrameworkError>,
}

pub struct RuntimeView {
    pub options: LifecycleOptions,
    pub state: SharedView,
    pub entries: Seq<EntryView>,
    pub active: Seq<int>,
    pub fresh: bool,
    pub issues: Seq<Fault>,
}

pub open spec fn entries_of(list: Seq<Entry>) -> Seq<EntryView> {
    list.map_values(|e: Entry| e@)
}

impl View for Runtime {
    type V = RuntimeView;

    open spec fn view(&self) -> RuntimeView {
        RuntimeView {
            options: self.options,
            state: self.state@,
            entries: entries_of(self.entries@),
            active: indices(self.active@),
            fresh: self.fresh,
            issues: faults_of(self.issues@),
        }
    }
}

/// The declarations of all modules.
pub open spec fn graph(r: RuntimeView) -> Seq<ModuleView> {
    r.entries.map_values(|e: EntryView| e.metadata)
}

pub open spec fn key_valid(k: KeyView) -> bool {
    k.name.len() > 0 && k.scope.len() > 0 && k.major != 0
}

pub open spec fn keys_valid(list: Seq<KeyView>) -> bool {
    forall|i: int| 0 <= i < list.len() ==> key_valid(#[trigger] list[i])
}

pub open spec fn add_fault(r: RuntimeView, m: ModuleView) -> Option<Fault> {
    if !r.fresh {
        Some(Fault::RuntimeNotFresh)
    } else if r.entries.len() >= r.options.max_modules {
        Some(Fault::CapacityExceeded("modules"@))
    } else if m.instance.len() == 0 || !keys_valid(m.provides) || !keys_valid(m.required) {
        Some(Fault::InvalidConfiguration("empty identity or zero service major"@))
    } else if r.state.instances.contains_key(m.instance) {
        Some(Fault::DuplicateInstance(m.instance))
    } else {
        None
    }
}

pub open spec fn added(r: RuntimeView, m: ModuleView) -> RuntimeView {
    RuntimeView {
        state: SharedView {
            instances: r.state.instances.insert(
                m.instance,
                InstanceView { metadata: m, accepting: false, disposers: 0, tasks: 0 },
            ),
            ..r.state
        },
        entries: r.entries.push(EntryView { metadata: m, stop_finished: false, cleanup: None }),
        ..r
    }
}

/// How a hook ended.
pub enum Hook {
    Finished,
    Failed(String),
    TimedOut,
}

/// What went wrong in a hook.
pub open spec fn hook_fault(instance: Seq<char>, phase: Phase, hook: Hook) -> Option<Fault> {
    match hook {
        Hook::Finished => None,
        Hook::Failed(m) => Some(Fault::LifecycleFailure { instance, phase, message: m@ }),
        Hook::TimedOut => Some(Fault::LifecycleTimeout { instance, phase }),
    }
}

/// The service is published by somebody.
pub open spec fn is_published(s: SharedView, key: KeyView) -> bool {
    super::state::holder(s.services, key) is Some
}

pub open spec fn unpublished_at(r: RuntimeView, index: int, j: int) -> Option<Fault> {
    let m = r.entries[index].metadata;
    if is_published(r.state, m.provides[j]) {
        None
    } else {
        Some(Fault::UnpublishedService { instance: m.instance, service: m.provides[j] })
    }
}

/// Why a module whose start hook ended is not started.
pub open spec fn start_fault(r: RuntimeView, index: int, hook: Hook) -> Option<Fault> {
    let m = r.entries[index].metadata;
    match hook {
        Hook::Finished => crate::faults::earliest(m.provides.len(), |j: int| unpublished_at(r, index, j)),
        _ => hook_fault(m.instance, Phase::Start, hook),
    }
}

/// What the caller does next to shut down.
#[derive(Debug, Clone, Copy, PartialEq, Eq, Structural)]
pub enum Step {
    /// Run the module's stop hook.
    Stop(usize),
    /// Abort the module's tasks and join the last one.
    Join(usize),
    /// Call one disposer of the module; its disposers are numbered as they were registered.
    Dispose(usize, usize),
    /// Forget the module: it has nothing left.
    Remove(usize),
    /// Nothing is left.
    Done,
}

pub open spec fn with_entry(r: RuntimeView, index: int, e: EntryView) -> RuntimeView {
    RuntimeView { entries: r.entries.update(index, e), ..r }
}

pub open spec fn noted(r: RuntimeView, fault: Option<Fault>) -> RuntimeView {
    match fault {
        Some(f) => RuntimeView { issues: r.issues.push(f), ..r },
        None => r,
    }
}

/// The resources an instance holds.
pub open spec fn held(s: SharedView, instance: Seq<char>) -> Resources {
    if s.instances.contains_key(instance) {
        Resources { disposers: s.instances[instance].disposers, tasks: s.instances[instance].tasks }
    } else {
        Resources { disposers: 0, tasks: 0 }
    }
}

/// The next step of a shutdown, and the runtime once it is under way.
pub open spec fn stepped(r: RuntimeView) -> (RuntimeView, Step) {
    let closed = RuntimeView { fresh: false, ..r };
    if r.active.len() == 0 {
        (closed, Step::Done)
    } else {
        let index = r.active.last();
        let e = r.entries[index];
        if !e.stop_finished {
            (RuntimeView { state: revoked(r.state, e.metadata.instance), ..closed }, Step::Stop(index as usize))
        } else {
            let (taken, cleanup) = match e.cleanup {
                Some(c) => (closed, c),
                None => {
                    let c = held(r.state, e.metadata.instance);
                    (
                        with_entry(
                            RuntimeView { state: released(r.state, e.metadata.instance), ..closed },
                            index,
                            EntryView { cleanup: Some(c), ..e },
                        ),
                        c,
                    )
                },
            };
            if cleanup.tasks > 0 {
                (taken, Step::Join(index as usize))
            } else if cleanup.disposers > 0 {
                (taken, Step::Dispose(index as usize, (cleanup.disposers - 1) as usize))
            } else {
                (taken, Step::Remove(index as usize))
            }
        }
    }
}

/// The runtime once a stop hook has ended.
pub open spec fn after_stop(r: RuntimeView, index: int, hook: Hook) -> RuntimeView {
    let e = r.entries[index];
    with_entry(
        noted(r, hook_fault(e.metadata.instance, Phase::Stop, hook)),
        index,
        EntryView { stop_finished: true, ..e },
    )
}

/// What a task that failed leaves behind.
pub open spec fn task_fault(instance: Seq<char>, failure: Option<Seq<char>>) -> Option<Fault> {
    match failure {
        Some(message) => Some(Fault::LifecycleFailure { instance, phase: Phase::Task, message }),
        None => None,
    }
}

/// The runtime once the last task of a module has ended.
pub open spec fn after_join(r: RuntimeView, index: int, failure: Option<Seq<char>>) -> RuntimeView {
    let e = r.entries[index];
    let cleanup = match e.cleanup {
        Some(c) => Some(Resources { tasks: if c.tasks > 0 { (c.tasks - 1) as usize } else { 0 }, ..c }),
        None => None,
    };
    with_entry(noted(r, task_fault(e.metadata.instance, failure)), index, EntryView { cleanup, ..e })
}

/// The runtime once the latest remaining disposer of a module has run.
pub open spec fn after_disposal(r: RuntimeView, index: int) -> RuntimeView {
    let e = r.entries[index];
    let cleanup = match e.cleanup {
        Some(c) => Some(Resources { disposers: if c.disposers > 0 { (c.disposers - 1) as usize } else { 0 }, ..c }),
        None => None,
    };
    with_entry(r, index, EntryView { cleanup, ..e })
}

/// The runtime once the module that started last is gone.
pub open spec fn after_removal(r: RuntimeView) -> RuntimeView {
    let index = r.active.last();
    RuntimeView {
        active: r.active.drop_last(),
        ..with_entry(r, index, EntryView { cleanup: None, ..r.entries[index] })
    }
}

/// The order of the one startup, or why there is none.
pub open spec fn startup(r: RuntimeView, representable: bool) -> Result<Seq<int>, Fault> {
    if !r.fresh { Err(Fault::RuntimeNotFresh) } else { ordering(r.options, representable, graph(r)) }
}

/// The runtime with a module that takes work.
pub open spec fn activated(r: RuntimeView, index: int) -> RuntimeView {
    let instance = r.entries[index].metadata.instance;
    RuntimeView {
        state: SharedView {
            instances: r.state.instances.insert(
                instance,
                InstanceView { accepting: true, ..r.state.instances[instance] },
            ),
            ..r.state
        },
        active: r.active.push(index),
        ..r
    }
}

fn all_valid(list: &Vec<ServiceKey>) -> (r: bool)
    ensures
        r == keys_valid(keys_of(list@)),
{
    let mut i: usize = 0;
    while i < list.len()
        invariant
            i <= list.len(),
            forall|j: int| 0 <= j < i ==> key_valid(#[trigger] keys_of(list@)[j]),
        decreases list.len() - i,
    {
        if list[i].name.as_str().is_empty() || list[i].scope.as_str().is_empty() || list[i].major == 0 {
            assert(!key_valid(keys_of(list@)[i as int]));
            return false;
        }
        i = i + 1;
    }
    true
}

impl Runtime {
    pub open spec fn wf(&self) -> bool {
        &&& self.state.wf()
        &&& forall|i: int| 0 <= i < self.active@.len() ==> (#[trigger] self.active@[i]) < self.entries@.len()
    }

    pub fn new(options: LifecycleOptions) -> (r: Self)
        ensures
            r.wf(),
            r@ == (RuntimeView {
                options,
                state: SharedView { instances: Map::empty(), services: Seq::empty(), listeners: Seq::empty() },
                entries: Seq::empty(),
                active: Seq::empty(),
                fresh: true,
                issues: Seq::empty(),
            }),
    {
        let r = Runtime {
            options,
            state: SharedState::new(),
            entries: Vec::new(),
            active: Vec::new(),
            fresh: true,
            issues: Vec::new(),
        };
        assert(r@.entries =~= Seq::<EntryView>::empty());
        assert(r@.active =~= Seq::<int>::empty());
        assert(r@.issues =~= Seq::<Fault>::empty());
        r
    }

    /// Adds a module by its declarations.
    pub fn add(&mut self, metadata: ModuleMetadata) -> (r: Result<(), FrameworkError>)
        requires
            old(self).wf(),
        ensures
            final(self).wf(),
            match r {
                Ok(_) => add_fault(old(self)@, metadata@) is None && final(self)@ == added(old(self)@, metadata@),
                Err(e) => add_fault(old(self)@, metadata@) == Some(e@) && final(self)@ == old(self)@,
            },
    {
        if !self.fresh {
            return Err(FrameworkError::RuntimeNotFresh);
        }
        if self.entries.len() >= self.options.max_modules {
            return Err(FrameworkError::CapacityExceeded(copied("modules")));
        }
        if metadata.instance.0.as_str().is_empty() || !all_valid(&metadata.provides) || !all_valid(&metadata.required) {
            return Err(FrameworkError::InvalidConfiguration(copied("empty identity or zero service major")));
        }
        if self.state.instances.has(&metadata.instance.0) {
            return Err(FrameworkError::DuplicateInstance(metadata.instance));
        }
        let ghost m = metadata@;
        let entry = InstanceState { metadata: metadata.clone(), accepting: false, disposers: 0, tasks: 0 };
        let ghost v = entry@;
        self.state.instances.insert(metadata.instance.0.clone(), entry);
        assert(self.state@.instances =~= old(self)@.state.instances.insert(m.instance, v));
        self.entries.push(Entry { metadata, stop_finished: false, cleanup: None });
        assert(self@.entries =~= added(old(self)@, m).entries);
        Ok(())
    }

    fn modules(&self) -> (r: Vec<ModuleMetadata>)
        ensures
            modules_of(r@) == graph(self@),
    {
        let mut r: Vec<ModuleMetadata> = Vec::new();
        let mut i: usize = 0;
        while i < self.entries.len()
            invariant
                i <= self.entries.len(),
                r.len() == i,
                forall|j: int| 0 <= j < i ==> (#[trigger] r@[j])@ == self.entries@[j].metadata@,
            decreases self.entries.len() - i,
        {
            r.push(self.entries[i].metadata.clone());
            i = i + 1;
        }
        assert(modules_of(r@) =~= graph(self@));
        r
    }

    /// Validates the entire graph before any hook runs, and names the modules in the
    /// order in which they would start.
    pub fn validate(&self, representable: bool) -> (r: Result<Vec<InstanceId>, FrameworkError>)
        ensures
            match r {
                Ok(list) => {
                    let order = ordering(self@.options, representable, graph(self@));
                    &&& order is Ok
                    &&& ids_of(list@) == order->Ok_0.map_values(|i: int| graph(self@)[i].instance)
                },
                Err(e) => ordering(self@.options, representable, graph(self@)) == Err::<Seq<int>, Fault>(e@),
            },
    {
        let modules = self.modules();
        match start_order(&self.options, representable, &modules) {
            Ok(order) => {
                let mut list: Vec<InstanceId> = Vec::new();
                let mut i: usize = 0;
                proof {
                    super::laws::orders_are_complete(self@.options, representable, graph(self@));
                }
                while i < order.len()
                    invariant
                        i <= order.len(),
                        list.len() == i,
                        modules_of(modules@) == graph(self@),
                        forall|k: int| 0 <= k < order.len() ==> (#[trigger] indices(order@)[k]) < modules.len(),
                        forall|j: int| 0 <= j < i ==> (#[trigger] list@[j])@ == graph(self@)[order@[j] as int].instance,
                    decreases order.len() - i,
                {
                    assert(indices(order@)[i as int] < modules.len());
                    assert(graph(self@)[order@[i as int] as int] == modules@[order@[i as int] as int]@);
                    list.push(modules[order[i]].instance.clone());
                    i = i + 1;
                }
                assert(ids_of(list@) =~= indices(order@).map_values(|i: int| graph(self@)[i].instance));
                Ok(list)
            },
            Err(e) => Err(e),
        }
    }

    /// Begins the one startup: the modules in the order in which to start them.
    pub fn begin_start(&mut self, representable: bool) -> (r: Result<Vec<usize>, FrameworkError>)
        requires
            old(self).wf(),
        ensures
            final(self).wf(),
            match r {
                Ok(order) => startup(old(self)@, representable) == Ok::<Seq<int>, Fault>(indices(order@)) && final(self)@ == (
                RuntimeView { fresh: false, ..old(self)@ }),
                Err(e) => startup(old(self)@, representable) == Err::<Seq<int>, Fault>(e@) && final(self)@ == old(self)@,
            },
    {
        if !self.fresh {
            return Err(FrameworkError::RuntimeNotFresh);
        }
        let modules = self.modules();
        match start_order(&self.options, representable, &modules) {
            Ok(order) => {
                self.fresh = false;
                Ok(order)
            },
            Err(e) => Err(e),
        }
    }

    /// Lets a module take work, right before its start hook runs. From here on it is
    /// part of every shutdown.
    pub fn activate(&mut self, index: usize) -> (r: Result<(), FrameworkError>)
        requires
            old(self).wf(),
            index < old(self)@.entries.len(),
        ensures
            final(self).wf(),
            ({
                let instance = old(self)@.entries[index as int].metadata.instance;
                let s = old(self)@.state;
                match r {
                    Ok(_) => s.instances.contains_key(instance) && final(self)@ == activated(old(self)@, index as int),
                    Err(e) => !s.instances.contains_key(instance) && e@ == Fault::InstanceInactive(instance) && final(self)@
                        == old(self)@,
                }
            }),
    {
        let instance = self.entries[index].metadata.instance.clone();
        assert(instance@ == old(self)@.entries[index as int].metadata.instance);
        let found = match self.state.instances.get(&instance.0) {
            Some(state) => Some(
                InstanceState {
                    metadata: state.metadata.clone(),
                    accepting: true,
                    disposers: state.disposers,
                    tasks: state.tasks,
                },
            ),
            None => None,
        };
        match found {
            Some(state) => {
                let ghost v = state@;
                self.state.instances.insert(instance.0.clone(), state);
                assert(self.state@.instances =~= old(self)@.state.instances.insert(instance@, v));
                self.active.push(index);
                assert(self@.active =~= old(self)@.active.push(index as int));
                Ok(())
            },
            None => Err(FrameworkError::InstanceInactive(instance)),
        }
    }

    fn published(&self, key: &ServiceKey) -> (r: bool)
        ensures
            r == is_published(self@.state, key@),
    {
        let ghost all = self@.state.services;
        let mut i: usize = self.state.services.len();
        assert(all.subrange(0, i as int) =~= all);
        while i > 0
            invariant
                i <= self.state.services.len(),
                all == super::state::services_of(self.state.services@),
                super::state::holder(all, key@) == super::state::holder(all.subrange(0, i as int), key@),
            decreases i,
        {
            i = i - 1;
            proof {
                assert(all.subrange(0, i + 1).drop_last() =~= all.subrange(0, i as int));
                assert(all.subrange(0, i + 1).last() == all[i as int]);
            }
            if self.state.services[i].0.equals(key) {
                return true;
            }
        }
        false
    }

    fn unpublished(&self, index: usize) -> (r: Option<FrameworkError>)
        requires
            index < self@.entries.len(),
        ensures
            match r {
                Some(e) => start_fault(self@, index as int, Hook::Finished) == Some(e@),
                None => start_fault(self@, index as int, Hook::Finished) is None,
            },
    {
        let metadata = &self.entries[index].metadata;
        assert(metadata@ == self@.entries[index as int].metadata);
        let ghost f = |j: int| unpublished_at(self@, index as int, j);
        let mut j: usize = 0;
        while j < metadata.provides.len()
            invariant
                index < self.entries.len(),
                metadata@ == self@.entries[index as int].metadata,
                j <= metadata.provides.len(),
                f == (|k: int| unpublished_at(self@, index as int, k)),
                crate::faults::earliest(j as nat, f) is None,
            decreases metadata.provides.len() - j,
        {
            let known = self.published(&metadata.provides[j]);
            assert(metadata@.provides[j as int] == metadata.provides@[j as int]@);
            assert(f(j as int) == unpublished_at(self@, index as int, j as int));
            if !known {
                proof {
                    assert(crate::faults::earliest((j + 1) as nat, f) == f(j as int));
                    crate::faults::earliest_sticks((j + 1) as nat, metadata@.provides.len(), f);
                }
                return Some(
                    FrameworkError::UnpublishedService {
                        instance: metadata.instance.clone(),
                        service: metadata.provides[j].clone(),
                    },
                );
            }
            j = j + 1;
        }
        None
    }

    /// Why a module is not started although its hook ended; none if it is.
    pub fn started(&self, index: usize, hook: Hook) -> (r: Option<FrameworkError>)
        requires
            index < self@.entries.len(),
        ensures
            match r {
                Some(e) => start_fault(self@, index as int, hook) == Some(e@),
                None => start_fault(self@, index as int, hook) is None,
            },
    {
        let metadata = &self.entries[index].metadata;
        assert(metadata@ == self@.entries[index as int].metadata);
        match hook {
            Hook::Finished => self.unpublished(index),
            Hook::Failed(message) => Some(
                FrameworkError::LifecycleFailure { instance: metadata.instance.clone(), phase: Phase::Start, message },
            ),
            Hook::TimedOut => Some(
                FrameworkError::LifecycleTimeout { instance: metadata.instance.clone(), phase: Phase::Start },
            ),
        }
    }

    /// The next step of a shutdown. A shutdown can be taken up again where it stopped.
    pub fn shutdown_step(&mut self) -> (r: Step)
        requires
            old(self).wf(),
        ensures
            final(self).wf(),
            stepped(old(self)@) == (final(self)@, r),
    {
        self.fresh = false;
        if self.active.len() == 0 {
            return Step::Done;
        }
        let last: usize = self.active.len() - 1;
        let index = self.active[last];
        let ghost r0 = old(self)@;
        assert(r0.active.last() == index as int);
        assert(r0.entries[index as int] == self.entries@[index as int]@);
        let instance = self.entries[index].metadata.instance.clone();
        if !self.entries[index].stop_finished {
            self.state.revoke(&instance);
            return Step::Stop(index);
        }
        let cleanup = match self.entries[index].cleanup {
            Some(c) => c,
            None => {
                let (disposers, tasks) = self.state.take_resources(&instance);
                let c = Resources { disposers, tasks };
                let e = Entry {
                    metadata: self.entries[index].metadata.clone(),
                    stop_finished: self.entries[index].stop_finished,
                    cleanup: Some(c),
                };
                let ghost ev = e@;
                self.entries.set(index, e);
                assert(self@.entries =~= r0.entries.update(index as int, ev));
                c
            },
        };
        if cleanup.tasks > 0 {
            Step::Join(index)
        } else if cleanup.disposers > 0 {
            Step::Dispose(index, cleanup.disposers - 1)
        } else {
            Step::Remove(index)
        }
    }

    fn note(&mut self, issue: FrameworkError)
        requires
            old(self).wf(),
        ensures
            final(self).wf(),
            final(self)@ == noted(old(self)@, Some(issue@)),
    {
        let ghost before = self@.issues;
        self.issues.push(issue);
        assert(self@.issues =~= before.push(issue@));
    }

    fn replace(&mut self, index: usize, stop_finished: bool, cleanup: Option<Resources>)
        requires
            old(self).wf(),
            index < old(self)@.entries.len(),
        ensures
            final(self).wf(),
            final(self)@ == with_entry(
                old(self)@,
                index as int,
                EntryView { stop_finished, cleanup, ..old(self)@.entries[index as int] },
            ),
    {
        let e = Entry { metadata: self.entries[index].metadata.clone(), stop_finished, cleanup };
        let ghost ev = e@;
        self.entries.set(index, e);
        assert(self@.entries =~= old(self)@.entries.update(index as int, ev));
    }

    /// The stop hook has ended.
    pub fn stopped(&mut self, index: usize, hook: Hook)
        requires
            old(self).wf(),
            index < old(self)@.entries.len(),
        ensures
            final(self).wf(),
            final(self)@ == after_stop(old(self)@, index as int, hook),
    {
        let instance = self.entries[index].metadata.instance.clone();
        match hook {
            Hook::Finished => {},
            Hook::Failed(message) => {
                self.note(FrameworkError::LifecycleFailure { instance, phase: Phase::Stop, message });
            },
            Hook::TimedOut => {
                self.note(FrameworkError::LifecycleTimeout { instance, phase: Phase::Stop });
            },
        }
        let cleanup = self.entries[index].cleanup;
        self.replace(index, true, cleanup);
    }

    /// The last task of a module has ended, perhaps with a failure other than its abort.
    pub fn joined(&mut self, index: usize, failure: Option<String>)
        requires
            old(self).wf(),
            index < old(self)@.entries.len(),
        ensures
            final(self).wf(),
            final(self)@ == after_join(old(self)@, index as int, opt(failure)),
    {
        let instance = self.entries[index].metadata.instance.clone();
        if let Some(message) = failure {
            self.note(FrameworkError::LifecycleFailure { instance, phase: Phase::Task, message });
        }
        let cleanup = match self.entries[index].cleanup {
            Some(c) => Some(Resources { disposers: c.disposers, tasks: if c.tasks > 0 { c.tasks - 1 } else { 0 } }),
            None => None,
        };
        let stop_finished = self.entries[index].stop_finished;
        self.replace(index, stop_finished, cleanup);
    }

    /// A module's tasks did not end in time. It and all that started before it stay until
    /// a later shutdown finishes the cleanup.
    pub fn cleanup_timed_out(&mut self, index: usize)
        requires
            old(self).wf(),
            index < old(self)@.entries.len(),
        ensures
            final(self).wf(),
            final(self)@ == noted(
                old(self)@,
                Some(
                    Fault::LifecycleTimeout {
                        instance: old(self)@.entries[index as int].metadata.instance,
                        phase: Phase::Cleanup,
                    },
                ),
            ),
    {
        let instance = self.entries[index].metadata.instance.clone();
        self.note(FrameworkError::LifecycleTimeout { instance, phase: Phase::Cleanup });
    }

    /// The latest remaining disposer of a module has run.
    pub fn disposed(&mut self, index: usize)
        requires
            old(self).wf(),
            index < old(self)@.entries.len(),
        ensures
            final(self).wf(),
            final(self)@ == after_disposal(old(self)@, index as int),
    {
        let cleanup = match self.entries[index].cleanup {
            Some(c) => Some(
                Resources { disposers: if c.disposers > 0 { c.disposers - 1 } else { 0 }, tasks: c.tasks },
            ),
            None => None,
        };
        let stop_finished = self.entries[index].stop_finished;
        self.replace(index, stop_finished, cleanup);
    }

    /// The module that started last has nothing left and is gone.
    pub fn removed(&mut self)
        requires
            old(self).wf(),
            old(self)@.active.len() > 0,
        ensures
            final(self).wf(),
            final(self)@ == after_removal(old(self)@),
    {
        let last: usize = self.active.len() - 1;
        let index = self.active[last];
        assert(old(self)@.active.last() == index as int);
        let stop_finished = self.entries[index].stop_finished;
        self.replace(index, stop_finished, None);
        let gone = self.active.pop();
        assert(self@.active =~= old(self)@.active.drop_last());
    }

    /// What went wrong since the last report.
    pub fn report(&mut self) -> (r: ShutdownReport)
        requires
            old(self).wf(),
        ensures
            final(self).wf(),
            faults_of(r.issues@) == old(self)@.issues,
            final(self)@ == (RuntimeView { issues: Seq::empty(), ..old(self)@ }),
    {
        let mut issues: Vec<FrameworkError> = Vec::new();
        std::mem::swap(&mut issues, &mut self.issues);
        assert(self@.issues =~= Seq::<Fault>::empty());
        ShutdownReport { issues }
    }

    fn accepting_count(&self) -> (n: usize)
        ensures
            n == accepting(self.state.instances.listed(), self.state.instances.listed().len()),
    {
        let mut n: usize = 0;
        let mut i: usize = 0;
        while i < self.state.instances.len()
            invariant
                i <= self.state.instances.listed().len(),
                n <= i,
                n == accepting(self.state.instances.listed(), i as nat),
            decreases self.state.instances.listed().len() - i,
        {
            if self.state.instances.value(i).accepting {
                n = n + 1;
            }
            i = i + 1;
        }
        n
    }

    /// The numbers of what is alive.
    pub fn snapshot(&self) -> (r: RuntimeSnapshot)
        requires
            resource_total(*self, true) <= usize::MAX,
            resource_total(*self, false) <= usize::MAX,
        ensures
            r.active_instances == accepting(self.state.instances.listed(), self.state.instances.listed().len()),
            r.pending_cleanup_instances == pending(self@.entries, self@.entries.len()),
            r.services == self@.state.services.len(),
            r.subscriptions == self@.state.listeners.len(),
            r.disposers == resource_total(*self, true),
            r.background_tasks == resource_total(*self, false),
    {
        let mut disposers: usize = 0;
        let mut tasks: usize = 0;
        let mut i: usize = 0;
        let ghost all = self.state.instances.listed();
        while i < self.state.instances.len()
            invariant
                i <= all.len(),
                all == self.state.instances.listed(),
                disposers == live_total(all, i as nat, true),
                tasks == live_total(all, i as nat, false),
                live_total(all, all.len(), true) <= usize::MAX,
                live_total(all, all.len(), false) <= usize::MAX,
            decreases all.len() - i,
        {
            proof {
                live_grows(all, (i + 1) as nat, all.len(), true);
                live_grows(all, (i + 1) as nat, all.len(), false);
            }
            disposers = disposers + self.state.instances.value(i).disposers;
            tasks = tasks + self.state.instances.value(i).tasks;
            i = i + 1;
        }
        let mut waiting: usize = 0;
        let mut k: usize = 0;
        let ghost entries = self@.entries;
        while k < self.entries.len()
            invariant
                k <= self.entries.len(),
                waiting <= k,
                entries == entries_of(self.entries@),
                waiting == pending(entries, k as nat),
                disposers == live_total(all, all.len(), true) + held_total(entries, k as nat, true),
                tasks == live_total(all, all.len(), false) + held_total(entries, k as nat, false),
                live_total(all, all.len(), true) + held_total(entries, entries.len(), true) <= usize::MAX,
                live_total(all, all.len(), false) + held_total(entries, entries.len(), false) <= usize::MAX,
            decreases self.entries.len() - k,
        {
            proof {
                held_grows(entries, (k + 1) as nat, entries.len(), true);
                held_grows(entries, (k + 1) as nat, entries.len(), false);
                assert(entries[k as int] == self.entries@[k as int]@);
            }
            if let Some(c) = self.entries[k].cleanup {
                waiting = waiting + 1;
                disposers = disposers + c.disposers;
                tasks = tasks + c.tasks;
            }
            k = k + 1;
        }
        RuntimeSnapshot {
            active_instances: self.accepting_count(),
            pending_cleanup_instances: waiting,
            services: self.state.services.len(),
            subscriptions: self.state.listeners.len(),
            disposers,
            background_tasks: tasks,
        }
    }
}

/// Instances that take work, among the first `n`.
pub open spec fn accepting(list: Seq<(String, InstanceState)>, n: nat) -> nat
    decreases n,
{
    if n == 0 {
        0
    } else {
        accepting(list, (n - 1) as nat) + (if list[n - 1].1.accepting { 1nat } else { 0 })
    }
}

/// Modules whose cleanup has begun, among the first `n`.
pub open spec fn pending(list: Seq<EntryView>, n: nat) -> nat
    decreases n,
{
    if n == 0 { 0 } else { pending(list, (n - 1) as nat) + (if list[n - 1].cleanup is Some { 1nat } else { 0 }) }
}

/// Disposers or tasks of running instances, among the first `n`.
pub open spec fn live_total(list: Seq<(String, InstanceState)>, n: nat, disposers: bool) -> nat
    decreases n,
{
    if n == 0 {
        0
    } else {
        live_total(list, (n - 1) as nat, disposers) + (if disposers { list[n - 1].1.disposers as nat } else {
            list[n - 1].1.tasks as nat
        })
    }
}

/// Disposers or tasks of modules in cleanup, among the first `n`.
pub open spec fn held_total(list: Seq<EntryView>, n: nat, disposers: bool) -> nat
    decreases n,
{
    if n == 0 {
        0
    } else {
        held_total(list, (n - 1) as nat, disposers) + (match list[n - 1].cleanup {
            Some(c) => if disposers { c.disposers as nat } else { c.tasks as nat },
            None => 0,
        })
    }
}

pub open spec fn resource_total(r: Runtime, disposers: bool) -> nat {
    live_total(r.state.instances.listed(), r.state.instances.listed().len(), disposers) + held_total(
        r@.entries,
        r@.entries.len(),
        disposers,
    )
}

proof fn live_grows(list: Seq<(String, InstanceState)>, m: nat, n: nat, disposers: bool)
    requires
        m <= n,
    ensures
        live_total(list, m, disposers) <= live_total(list, n, disposers),
    decreases n - m,
{
    if m < n {
        live_grows(list, m, (n - 1) as nat, disposers);
    }
}

proof fn held_grows(list: Seq<EntryView>, m: nat, n: nat, disposers: bool)
    requires
        m <= n,
    ensures
        held_total(list, m, disposers) <= held_total(list, n, disposers),
    decreases n - m,
{
    if m < n {
        held_grows(list, m, (n - 1) as nat, disposers);
    }
}

} // verus!
