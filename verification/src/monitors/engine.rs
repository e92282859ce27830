//! What all workers of a monitoring engine share.
use super::discovery::{DiscoverySnapshot, DiscoverySnapshotView, DiscoveryState};
use super::state::{published, MonitorSnapshot, MonitorState, SnapshotView};
use super::{copied_opt, DefinitionView, Fault, MonitorDefinition, MonitorError, TargetHealth};
use crate::recovery::incidents::{Fault as IncidentFault, IncidentError};
use crate::table::Table;
use crate::text::{copied, opt};
use vstd::prelude::*;

verus! {

pub struct MonitoringSnapshot {
    pub monitors: Vec<MonitorSnapshot>,
    pub discoveries: Vec<DiscoverySnapshot>,
    pub runtime_error: Option<String>,
    pub running: bool,
}

/// The published state of an engine. `workers` counts the loops still running.
pub struct MonitorEngine {
    pub definitions: Table<MonitorDefinition>,
    pub views: Table<MonitorSnapshot>,
    pub discoveries: Table<DiscoverySnapshot>,
    pub error: Option<String>,
    pub accepting: bool,
    pub workers: usize,
}

pub struct EngineView {
    pub definitions: Map<Seq<char>, DefinitionView>,
    pub views: Map<Seq<char>, SnapshotView>,
    pub discoveries: Map<Seq<char>, DiscoverySnapshotView>,
    pub error: Option<Seq<char>>,
    pub accepting: bool,
    pub workers: usize,
}

impl View for MonitorEngine {
    type V = EngineView;

    open spec fn view(&self) -> EngineView {
        EngineView {
            definitions: self.definitions@.map_values(|d: MonitorDefinition| d@),
            views: self.views@.map_values(|v: MonitorSnapshot| v@),
            discoveries: self.discoveries@.map_values(|v: DiscoverySnapshot| v@),
            error: opt(self.error),
            accepting: self.accepting,
            workers: self.workers,
        }
    }
}

pub open spec fn snapshots_of(list: Seq<MonitorSnapshot>) -> Seq<SnapshotView> {
    list.map_values(|v: MonitorSnapshot| v@)
}

pub open spec fn discovery_snapshots_of(list: Seq<DiscoverySnapshot>) -> Seq<DiscoverySnapshotView> {
    list.map_values(|v: DiscoverySnapshot| v@)
}

/// A monitor of a stopped engine, with the engine's failure if there is one.
pub open spec fn halted(v: SnapshotView, error: Option<Seq<char>>) -> SnapshotView {
    SnapshotView {
        running: false,
        health: TargetHealth::Unknown,
        last_error: if error is Some { error } else { v.last_error },
        ..v
    }
}

pub open spec fn idle(v: DiscoverySnapshotView) -> DiscoverySnapshotView {
    DiscoverySnapshotView { running: false, ..v }
}

/// The engine after it stopped accepting, with the failure if there is one.
pub open spec fn closed_down(e: EngineView, error: Option<Seq<char>>) -> EngineView {
    EngineView {
        views: e.views.map_values(|v: SnapshotView| halted(v, error)),
        discoveries: e.discoveries.map_values(|v: DiscoverySnapshotView| idle(v)),
        error: if error is Some { error } else { e.error },
        accepting: false,
        ..e
    }
}

/// Failures of the incident store after which nothing may go on.
pub open spec fn is_fatal(fault: IncidentFault) -> bool {
    fault is Io || fault is Unavailable || fault is Corrupt || fault is Capacity
}

/// Whether a failure of the incident store ends the engine.
pub fn fatal(error: &IncidentError) -> (r: bool)
    ensures
        r == is_fatal(error@),
{
    match error {
        IncidentError::Io(_) => true,
        IncidentError::Unavailable(_) => true,
        IncidentError::Corrupt(_) => true,
        IncidentError::Capacity(_) => true,
        _ => false,
    }
}

fn halt_views(views: &mut Table<MonitorSnapshot>, error: &Option<String>)
    requires
        old(views).wf(),
    ensures
        final(views).wf(),
        final(views)@.map_values(|v: MonitorSnapshot| v@) == old(views)@.map_values(|v: MonitorSnapshot| v@).map_values(
            |v: SnapshotView| halted(v, opt(*error)),
        ),
{
    let ghost start = *views;
    let mut i: usize = 0;
    while i < views.len()
        invariant
            views.wf(),
            start.wf(),
            i <= views.listed().len(),
            views.listed().len() == start.listed().len(),
            forall|j: int| 0 <= j < views.listed().len() ==> (#[trigger] views.listed()[j]).0@ == start.listed()[j].0@,
            forall|j: int|
                0 <= j < i ==> (#[trigger] views.listed()[j]).1@ == halted(start.listed()[j].1@, opt(*error)),
            forall|j: int| i <= j < views.listed().len() ==> (#[trigger] views.listed()[j]).1 == start.listed()[j].1,
        decreases views.listed().len() - i,
    {
        let mut v = views.value(i).clone();
        v.running = false;
        v.health = TargetHealth::Unknown;
        if let Some(error) = error {
            v.last_error = Some(error.clone());
        }
        views.replace(i, v);
        i = i + 1;
    }
    proof {
        let ghost got = views@.map_values(|v: MonitorSnapshot| v@);
        let ghost want = start@.map_values(|v: MonitorSnapshot| v@).map_values(|v: SnapshotView| halted(v, opt(*error)));
        assert forall|k: Seq<char>| got.contains_key(k) <==> want.contains_key(k) by {
            if views@.contains_key(k) {
                let j = views.entry_of(k);
                start.entry_at(j);
            }
            if start@.contains_key(k) {
                let j = start.entry_of(k);
                views.entry_at(j);
            }
        }
        assert forall|k: Seq<char>| want.contains_key(k) implies got[k] == want[k] by {
            let j = start.entry_of(k);
            views.entry_at(j);
        }
        assert(got =~= want);
    }
}

fn halt_discoveries(views: &mut Table<DiscoverySnapshot>)
    requires
        old(views).wf(),
    ensures
        final(views).wf(),
        final(views)@.map_values(|v: DiscoverySnapshot| v@) == old(views)@.map_values(|v: DiscoverySnapshot| v@).map_values(
            |v: DiscoverySnapshotView| idle(v),
        ),
{
    let ghost start = *views;
    let mut i: usize = 0;
    while i < views.len()
        invariant
            views.wf(),
            start.wf(),
            i <= views.listed().len(),
            views.listed().len() == start.listed().len(),
            forall|j: int| 0 <= j < views.listed().len() ==> (#[trigger] views.listed()[j]).0@ == start.listed()[j].0@,
            forall|j: int| 0 <= j < i ==> (#[trigger] views.listed()[j]).1@ == idle(start.listed()[j].1@),
            forall|j: int| i <= j < views.listed().len() ==> (#[trigger] views.listed()[j]).1 == start.listed()[j].1,
        decreases views.listed().len() - i,
    {
        let mut v = views.value(i).clone();
        v.running = false;
        views.replace(i, v);
        i = i + 1;
    }
    proof {
        let ghost got = views@.map_values(|v: DiscoverySnapshot| v@);
        let ghost want = start@.map_values(|v: DiscoverySnapshot| v@).map_values(|v: DiscoverySnapshotView| idle(v));
        assert forall|k: Seq<char>| got.contains_key(k) <==> want.contains_key(k) by {
            if views@.contains_key(k) {
                let j = views.entry_of(k);
                start.entry_at(j);
            }
            if start@.contains_key(k) {
                let j = start.entry_of(k);
                views.entry_at(j);
            }
        }
        assert forall|k: Seq<char>| want.contains_key(k) implies got[k] == want[k] by {
            let j = start.entry_of(k);
            views.entry_at(j);
        }
        assert(got =~= want);
    }
}

impl MonitorEngine {
    pub open spec fn wf(&self) -> bool {
        self.definitions.wf() && self.views.wf() && self.discoveries.wf()
    }

    /// An engine with nothing to watch yet.
    pub fn new() -> (r: Self)
        ensures
            r.wf(),
            r@ == (EngineView {
                definitions: Map::empty(),
                views: Map::empty(),
                discoveries: Map::empty(),
                error: None,
                accepting: true,
                workers: 0,
            }),
    {
        let r = MonitorEngine {
            definitions: Table::new(),
            views: Table::new(),
            discoveries: Table::new(),
            error: None,
            accepting: true,
            workers: 0,
        };
        assert(r@.definitions =~= Map::<Seq<char>, DefinitionView>::empty());
        assert(r@.views =~= Map::<Seq<char>, SnapshotView>::empty());
        assert(r@.discoveries =~= Map::<Seq<char>, DiscoverySnapshotView>::empty());
        r
    }

    /// Enrolls a monitor and counts its worker before it runs, so that shutdown
    /// never finds no worker while one can still be added.
    pub fn register(&mut self, state: &MonitorState)
        requires
            old(self).wf(),
            old(self)@.workers < usize::MAX,
        ensures
            final(self).wf(),
            final(self)@ == (EngineView {
                definitions: old(self)@.definitions.insert(state@.config.id, state@.config),
                views: old(self)@.views.insert(state@.config.id, state@.view),
                workers: (old(self)@.workers + 1) as usize,
                ..old(self)@
            }),
    {
        self.definitions.insert(state.config.id.clone(), state.config.clone());
        self.views.insert(state.config.id.clone(), state.view.clone());
        self.workers = self.workers + 1;
        assert(self@.definitions =~= old(self)@.definitions.insert(state@.config.id, state@.config));
        assert(self@.views =~= old(self)@.views.insert(state@.config.id, state@.view));
    }

    /// Enrolls an inventory source and counts its worker.
    pub fn register_discovery(&mut self, state: &DiscoveryState)
        requires
            old(self).wf(),
            old(self)@.workers < usize::MAX,
        ensures
            final(self).wf(),
            final(self)@ == (EngineView {
                discoveries: old(self)@.discoveries.insert(state@.config.id, state@.view),
                workers: (old(self)@.workers + 1) as usize,
                ..old(self)@
            }),
    {
        self.discoveries.insert(state.config.id.clone(), state.view.clone());
        self.workers = self.workers + 1;
        assert(self@.discoveries =~= old(self)@.discoveries.insert(state@.config.id, state@.view));
    }

    /// Publishes what a monitor believes.
    pub fn publish(&mut self, state: &MonitorState)
        requires
            old(self).wf(),
        ensures
            final(self).wf(),
            final(self)@ == (EngineView {
                views: old(self)@.views.insert(
                    state@.config.id,
                    published(state@.view, old(self)@.accepting, old(self)@.error),
                ),
                ..old(self)@
            }),
    {
        let view = state.publish(self.accepting, &self.error);
        self.views.insert(state.config.id.clone(), view);
        assert(self@.views =~= old(self)@.views.insert(
            state@.config.id,
            published(state@.view, old(self)@.accepting, old(self)@.error),
        ));
    }

    pub fn publish_discovery(&mut self, view: DiscoverySnapshot)
        requires
            old(self).wf(),
        ensures
            final(self).wf(),
            final(self)@ == (EngineView { discoveries: old(self)@.discoveries.insert(view@.id, view@), ..old(self)@ }),
    {
        let ghost v = view@;
        self.discoveries.insert(view.id.clone(), view);
        assert(self@.discoveries =~= old(self)@.discoveries.insert(v.id, v));
    }

    /// Records a failure that ends the engine.
    pub fn fail(&mut self, message: &str)
        requires
            old(self).wf(),
        ensures
            final(self).wf(),
            final(self)@ == closed_down(old(self)@, Some(message@)),
    {
        let error = Some(copied(message));
        halt_views(&mut self.views, &error);
        halt_discoveries(&mut self.discoveries);
        self.error = error;
        self.accepting = false;
    }

    /// Stops accepting; tells whether the store can be closed at once.
    pub fn begin_shutdown(&mut self) -> (close: bool)
        requires
            old(self).wf(),
        ensures
            final(self).wf(),
            final(self)@ == closed_down(old(self)@, None),
            close == (old(self)@.workers == 0),
    {
        let none: Option<String> = None;
        halt_views(&mut self.views, &none);
        halt_discoveries(&mut self.discoveries);
        self.accepting = false;
        self.workers == 0
    }

    /// A monitor's loop has ended; tells whether it was the last of a stopped engine.
    pub fn monitor_finished(&mut self, id: &str) -> (close: bool)
        requires
            old(self).wf(),
        ensures
            final(self).wf(),
            ({
                let views = if old(self)@.views.contains_key(id@) {
                    old(self)@.views.insert(id@, halted(old(self)@.views[id@], None))
                } else {
                    old(self)@.views
                };
                let workers = if old(self)@.workers > 0 { (old(self)@.workers - 1) as usize } else { 0 };
                &&& final(self)@ == (EngineView { views, workers, ..old(self)@ })
                &&& close == (workers == 0 && !old(self)@.accepting)
            }),
    {
        let found = match self.views.get(id) {
            Some(view) => Some(view.clone()),
            None => None,
        };
        if let Some(found) = found {
            let mut view = found;
            view.running = false;
            view.health = TargetHealth::Unknown;
            self.views.insert(copied(id), view);
            assert(self@.views =~= old(self)@.views.insert(id@, halted(old(self)@.views[id@], None)));
        }
        self.workers = if self.workers > 0 { self.workers - 1 } else { 0 };
        self.workers == 0 && !self.accepting
    }

    /// An inventory loop has ended; tells whether it was the last of a stopped engine.
    pub fn discovery_finished(&mut self, id: &str) -> (close: bool)
        requires
            old(self).wf(),
        ensures
            final(self).wf(),
            ({
                let discoveries = if old(self)@.discoveries.contains_key(id@) {
                    old(self)@.discoveries.insert(id@, idle(old(self)@.discoveries[id@]))
                } else {
                    old(self)@.discoveries
                };
                let workers = if old(self)@.workers > 0 { (old(self)@.workers - 1) as usize } else { 0 };
                &&& final(self)@ == (EngineView { discoveries, workers, ..old(self)@ })
                &&& close == (workers == 0 && !old(self)@.accepting)
            }),
    {
        let found = match self.discoveries.get(id) {
            Some(view) => Some(view.clone()),
            None => None,
        };
        if let Some(found) = found {
            let mut view = found;
            view.running = false;
            self.discoveries.insert(copied(id), view);
            assert(self@.discoveries =~= old(self)@.discoveries.insert(id@, idle(old(self)@.discoveries[id@])));
        }
        self.workers = if self.workers > 0 { self.workers - 1 } else { 0 };
        self.workers == 0 && !self.accepting
    }

    /// Everything published, in order of the ids.
    pub fn snapshot(&self) -> (r: MonitoringSnapshot)
        requires
            self.wf(),
        ensures
            snapshots_of(r.monitors@) == self.views.listed().map_values(|e: (String, MonitorSnapshot)| e.1@),
            discovery_snapshots_of(r.discoveries@) == self.discoveries.listed().map_values(
                |e: (String, DiscoverySnapshot)| e.1@,
            ),
            opt(r.runtime_error) == self@.error,
            r.running == self@.accepting,
    {
        let mut monitors: Vec<MonitorSnapshot> = Vec::new();
        let mut i: usize = 0;
        while i < self.views.len()
            invariant
                i <= self.views.listed().len(),
                monitors.len() == i,
                forall|j: int| 0 <= j < i ==> (#[trigger] monitors@[j])@ == self.views.listed()[j].1@,
            decreases self.views.listed().len() - i,
        {
            monitors.push(self.views.value(i).clone());
            i = i + 1;
        }
        let mut discoveries: Vec<DiscoverySnapshot> = Vec::new();
        let mut i: usize = 0;
        while i < self.discoveries.len()
            invariant
                i <= self.discoveries.listed().len(),
                discoveries.len() == i,
                forall|j: int| 0 <= j < i ==> (#[trigger] discoveries@[j])@ == self.discoveries.listed()[j].1@,
            decreases self.discoveries.listed().len() - i,
        {
            discoveries.push(self.discoveries.value(i).clone());
            i = i + 1;
        }
        assert(snapshots_of(monitors@) =~= self.views.listed().map_values(|e: (String, MonitorSnapshot)| e.1@));
        assert(discovery_snapshots_of(discoveries@) =~= self.discoveries.listed().map_values(
            |e: (String, DiscoverySnapshot)| e.1@,
        ));
        MonitoringSnapshot { monitors, discoveries, runtime_error: copied_opt(&self.error), running: self.accepting }
    }

    pub fn monitor(&self, id: &str) -> (r: Option<MonitorSnapshot>)
        requires
            self.wf(),
        ensures
            match r {
                Some(v) => self@.views.contains_key(id@) && v@ == self@.views[id@],
                None => !self@.views.contains_key(id@),
            },
    {
        match self.views.get(id) {
            Some(view) => Some(view.clone()),
            None => None,
        }
    }

    /// The trusted enrolled definition, including fixed target parameters.
    pub fn definition(&self, id: &str) -> (r: Option<MonitorDefinition>)
        requires
            self.wf(),
        ensures
            match r {
                Some(d) => self@.definitions.contains_key(id@) && d@ == self@.definitions[id@],
                None => !self@.definitions.contains_key(id@),
            },
    {
        match self.definitions.get(id) {
            Some(definition) => Some(definition.clone()),
            None => None,
        }
    }

    /// How the engine ended, once no worker is left.
    pub fn drained(&self) -> (r: Option<Result<(), MonitorError>>)
        ensures
            match r {
                None => self@.workers > 0,
                Some(Ok(_)) => self@.workers == 0 && self@.error is None,
                Some(Err(e)) => self@.workers == 0 && self@.error is Some && e@ == Fault::Runtime(self@.error->0),
            },
    {
        if self.workers > 0 {
            return None;
        }
        match &self.error {
            Some(error) => Some(Err(MonitorError::Runtime(error.clone()))),
            None => Some(Ok(())),
        }
    }
}

} // verus!
