//! The set of configured instances: what goes to which provider, and what its answer means.
use super::projects::{
    grouping_fault, normalize_project, normalized, probes_of, validate_client_project_grouping, HarnessProject, Platform, Probe,
    ProbeView, ProjectView,
};
use super::remote::{remote_definition_fault, validate_remote_definition, REMOTE_NODE_ADAPTER};
use super::requests::{
    accepted_create, accepted_list, accepted_run, is_project_id, valid_project_id, validate_project_create_request,
    validate_project_list_request, validate_run_request, CreateView, HarnessProjectCreateRequest,
    HarnessProjectListRequest, HarnessRunRequest, ListView, Resolution, RunView,
};
use super::{
    config_fault, definitions_of, fault_message, identifier_fault, misconfigured, placed_in, validate_identifier,
    ClientProjectGrouping, ConversationUncertainty, ConversationView, ConversationVisibility, CreationView,
    DefinitionView, Fault, GroupingView, HarnessDefinition, HarnessError, HarnessRegistryConfig,
    ProjectCreationUncertainty,
};
use crate::faults::{earliest, earliest_sticks};
use crate::framework::calls::{dispatch_message, CallScope, CallsView, DispatchError, DispatchFault};
use crate::paths::{locations_of, ordered, sort_unique, Location, LocationView};
use crate::table::Table;
use crate::text::{copied, joined, listed, opt, same, texts};
use vstd::prelude::*;

verus! {

/// What became of looking for a workspace root.
pub enum RootProbe {
    NoWorkingDirectory(String),
    Unresolved(String),
    Resolved { location: Location, directory: bool },
}

pub enum RootView {
    NoWorkingDirectory(Seq<char>),
    Unresolved(Seq<char>),
    Resolved { location: LocationView, directory: bool },
}

impl View for RootProbe {
    type V = RootView;

    open spec fn view(&self) -> RootView {
        match self {
            RootProbe::NoWorkingDirectory(m) => RootView::NoWorkingDirectory(m@),
            RootProbe::Unresolved(m) => RootView::Unresolved(m@),
            RootProbe::Resolved { location, directory } => RootView::Resolved {
                location: location@,
                directory: *directory,
            },
        }
    }
}

pub open spec fn roots_of(list: Seq<RootProbe>) -> Seq<RootView> {
    list.map_values(|p: RootProbe| p@)
}

pub open spec fn root_at(list: Seq<RootView>, i: int) -> RootView {
    if 0 <= i < list.len() { list[i] } else { RootView::Unresolved(Seq::empty()) }
}

/// Why a workspace root is refused.
pub open spec fn workspace_root_fault(d: DefinitionView, p: RootView) -> Option<Fault> {
    match p {
        RootView::NoWorkingDirectory(m) => Some(misconfigured(m)),
        RootView::Unresolved(m) => Some(
            misconfigured("cannot resolve workspace root for Harness "@ + d.id + ": "@ + m),
        ),
        RootView::Resolved { directory, .. } => if directory {
            None
        } else {
            Some(misconfigured("workspace root for Harness "@ + d.id + " is not a directory"@))
        },
    }
}

/// The instance as its adapter is given it, or why it is refused.
pub open spec fn prepared(adapters: Seq<Seq<char>>, d: DefinitionView, probes: Seq<RootView>) -> Result<DefinitionView, Fault> {
    if !adapters.contains(d.adapter) {
        Err(Fault::UnsupportedAdapter(d.adapter))
    } else if d.adapter == REMOTE_NODE_ADAPTER@ {
        match remote_definition_fault(d) {
            Some(f) => Err(f),
            None => Ok(d),
        }
    } else {
        match earliest(d.workspace_roots.len(), |i: int| workspace_root_fault(d, root_at(probes, i))) {
            Some(f) => Err(f),
            None => Ok(
                DefinitionView {
                    workspace_roots: ordered(
                        Seq::new(d.workspace_roots.len(), |i: int| root_at(probes, i)->location),
                    ),
                    ..d
                },
            ),
        }
    }
}

/// The adapters that trusted code registered. A configuration can select one but cannot
/// bring in another.
pub struct HarnessRegistryBuilder {
    pub adapters: Vec<String>,
}

impl Default for HarnessRegistryBuilder {
    fn default() -> (r: Self)
        ensures
            r.adapters@.len() == 0,
    {
        HarnessRegistryBuilder::new()
    }
}

impl HarnessRegistryBuilder {
    pub fn new() -> (r: Self)
        ensures
            r.adapters@.len() == 0,
    {
        HarnessRegistryBuilder { adapters: Vec::new() }
    }

    /// Adds an adapter, each id once.
    pub fn register(&mut self, id: String) -> (r: Result<(), HarnessError>)
        ensures
            match r {
                Ok(_) => identifier_fault("adapter"@, id@) is None && !texts(old(self).adapters@).contains(id@) && texts(
                    final(self).adapters@,
                ) == texts(old(self).adapters@).push(id@),
                Err(e) => *final(self) == *old(self) && (match identifier_fault("adapter"@, id@) {
                    Some(f) => e@ == f,
                    None => texts(old(self).adapters@).contains(id@) && e@ == Fault::DuplicateAdapter(id@),
                }),
            },
    {
        if let Err(e) = validate_identifier("adapter", &id) {
            return Err(e);
        }
        if listed(&self.adapters, &id) {
            return Err(HarnessError::DuplicateAdapter(id));
        }
        let ghost before = texts(self.adapters@);
        self.adapters.push(id);
        assert(texts(self.adapters@) =~= before.push(id@));
        Ok(())
    }

    /// Checks a configuration and begins a registry without instances.
    pub fn begin(&self, config: &HarnessRegistryConfig) -> (r: Result<HarnessRegistry, HarnessError>)
        ensures
            ({
                let fault = config_fault(config.schema_version, opt(config.default_harness), definitions_of(config.harnesses@));
                match r {
                    Ok(g) => fault is None && g.wf() && g@ == (RegistryView {
                        default_harness: opt(config.default_harness),
                        entries: Map::empty(),
                        calls: CallsView { closed: false, next: 0, active: Seq::empty() },
                    }),
                    Err(e) => fault == Some(e@),
                }
            }),
    {
        if let Err(e) = config.validate() {
            return Err(e);
        }
        let g = HarnessRegistry {
            default_harness: config.default_harness.clone(),
            entries: Table::new(),
            calls: CallScope::default(),
        };
        assert(g@.entries =~= Map::empty());
        Ok(g)
    }

    fn resolve(definition: &HarnessDefinition, probes: &Vec<RootProbe>) -> (r: Result<Vec<Location>, HarnessError>)
        ensures
            ({
                let d = definition@;
                let seen = roots_of(probes@);
                let fault = earliest(d.workspace_roots.len(), |i: int| workspace_root_fault(d, root_at(seen, i)));
                match r {
                    Ok(list) => fault is None && locations_of(list@) == Seq::new(
                        d.workspace_roots.len(),
                        |i: int| root_at(seen, i)->location,
                    ),
                    Err(e) => fault == Some(e@),
                }
            }),
    {
        let ghost d = definition@;
        let ghost seen = roots_of(probes@);
        let ghost f = |i: int| workspace_root_fault(d, root_at(seen, i));
        let count = definition.workspace_roots.len();
        let mut list: Vec<Location> = Vec::new();
        let mut i: usize = 0;
        while i < count
            invariant
                i <= count,
                count == d.workspace_roots.len(),
                d == definition@,
                seen == roots_of(probes@),
                list.len() == i,
                f == (|k: int| workspace_root_fault(d, root_at(seen, k))),
                earliest(i as nat, f) is None,
                forall|j: int| 0 <= j < i ==> (#[trigger] list@[j])@ == root_at(seen, j)->location,
            decreases count - i,
        {
            assert(f(i as int) == workspace_root_fault(d, root_at(seen, i as int)));
            let empty = RootProbe::Unresolved(String::new());
            let probe = if i < probes.len() {
                assert(root_at(seen, i as int) == probes@[i as int]@);
                &probes[i]
            } else {
                assert(empty@ == RootView::Unresolved(Seq::empty()));
                &empty
            };
            let failed = match probe {
                RootProbe::NoWorkingDirectory(m) => Some(m.clone()),
                RootProbe::Unresolved(m) => {
                    let mut text = joined("cannot resolve workspace root for Harness ", &definition.id);
                    text.append(": ");
                    text.append(m.as_str());
                    Some(text)
                },
                RootProbe::Resolved { location, directory } => if *directory {
                    list.push(location.clone());
                    None
                } else {
                    let text = joined("workspace root for Harness ", &definition.id);
                    Some(joined(&text, " is not a directory"))
                },
            };
            if let Some(text) = failed {
                proof {
                    assert(earliest((i + 1) as nat, f) == f(i as int));
                    earliest_sticks((i + 1) as nat, d.workspace_roots.len(), f);
                }
                return Err(HarnessError::InvalidConfiguration(text));
            }
            i = i + 1;
        }
        assert(locations_of(list@) =~= Seq::new(d.workspace_roots.len(), |i: int| root_at(seen, i)->location));
        Ok(list)
    }

    /// Prepares an instance for its adapter; `probes` are what became of looking for its roots.
    pub fn prepare(&self, definition: &HarnessDefinition, probes: &Vec<RootProbe>) -> (r: Result<HarnessDefinition, HarnessError>)
        ensures
            match r {
                Ok(d) => prepared(texts(self.adapters@), definition@, roots_of(probes@)) == Ok::<DefinitionView, Fault>(d@),
                Err(e) => prepared(texts(self.adapters@), definition@, roots_of(probes@)) == Err::<DefinitionView, Fault>(e@),
            },
    {
        if !listed(&self.adapters, &definition.adapter) {
            return Err(HarnessError::UnsupportedAdapter(definition.adapter.clone()));
        }
        if same(&definition.adapter, REMOTE_NODE_ADAPTER) {
            return match validate_remote_definition(definition) {
                Err(e) => Err(e),
                Ok(_) => Ok(definition.clone()),
            };
        }
        match Self::resolve(definition, probes) {
            Err(e) => Err(e),
            Ok(list) => {
                let mut d = definition.clone();
                d.workspace_roots = sort_unique(&list);
                Ok(d)
            },
        }
    }
}

/// A bounded set of explicitly named Harness instances. Routing never falls
/// back to a different instance after a requested provider fails.
pub struct HarnessRegistry {
    pub default_harness: Option<String>,
    pub entries: Table<HarnessDefinition>,
    pub calls: CallScope,
}

pub struct RegistryView {
    pub default_harness: Option<Seq<char>>,
    pub entries: Map<Seq<char>, DefinitionView>,
    pub calls: CallsView,
}

impl View for HarnessRegistry {
    type V = RegistryView;

    open spec fn view(&self) -> RegistryView {
        RegistryView {
            default_harness: opt(self.default_harness),
            entries: self.entries@.map_values(|d: HarnessDefinition| d@),
            calls: self.calls@,
        }
    }
}

/// Every instance stands under its own id.
pub open spec fn registered(r: RegistryView) -> bool {
    forall|id: Seq<char>| r.entries.contains_key(id) ==> (#[trigger] r.entries[id]).id == id
}

/// The instance that a request goes to, or why there is none.
pub open spec fn selected(r: RegistryView, wanted: Option<Seq<char>>) -> Result<DefinitionView, Fault> {
    let id = match wanted {
        Some(id) => Some(id),
        None => r.default_harness,
    };
    match id {
        None => Err(Fault::NoDefaultHarness),
        Some(id) => if !r.entries.contains_key(id) {
            Err(Fault::UnknownHarness(id))
        } else if !r.entries[id].enabled {
            Err(Fault::HarnessDisabled(id))
        } else {
            Ok(r.entries[id])
        },
    }
}

pub open spec fn wanted(id: Option<&str>) -> Option<Seq<char>> {
    match id {
        Some(t) => Some(t@),
        None => None,
    }
}

/// How a failure names the instance that was meant.
pub open spec fn meant(r: RegistryView, id: Option<Seq<char>>) -> Seq<char> {
    match id {
        Some(t) => t,
        None => match r.default_harness {
            Some(t) => t,
            None => "selected"@,
        },
    }
}

/// The result of one turn.
pub struct HarnessRunResult {
    pub harness_id: String,
    pub adapter: String,
    pub address: String,
    pub thread_id: String,
    pub session_id: String,
    pub project_directory: Location,
    pub visibility: ConversationVisibility,
    /// The provider-native project id confirmed for the new thread, if any.
    /// This is not necessarily an id used by a separate desktop client.
    pub native_project_id: Option<String>,
    pub client_project_grouping: ClientProjectGrouping,
    pub final_response: String,
}

pub struct ResultView {
    pub harness_id: Seq<char>,
    pub adapter: Seq<char>,
    pub address: Seq<char>,
    pub thread_id: Seq<char>,
    pub session_id: Seq<char>,
    pub project_directory: LocationView,
    pub visibility: ConversationVisibility,
    pub native_project_id: Option<Seq<char>>,
    pub client_project_grouping: GroupingView,
    pub final_response: Seq<char>,
}

impl View for HarnessRunResult {
    type V = ResultView;

    open spec fn view(&self) -> ResultView {
        ResultView {
            harness_id: self.harness_id@,
            adapter: self.adapter@,
            address: self.address@,
            thread_id: self.thread_id@,
            session_id: self.session_id@,
            project_directory: self.project_directory@,
            visibility: self.visibility,
            native_project_id: opt(self.native_project_id),
            client_project_grouping: self.client_project_grouping@,
            final_response: self.final_response@,
        }
    }
}

/// The thread of a result, if its id can be one.
pub open spec fn observed(id: Seq<char>) -> Option<Seq<char>> {
    if is_project_id(id) { Some(id) } else { None }
}

/// A conversation that may have taken effect.
pub open spec fn run_unknown(
    harness: Seq<char>,
    thread: Option<Seq<char>>,
    q: RunView,
    message: Seq<char>,
) -> Fault {
    Fault::ConversationOutcomeUnknown(
        ConversationView {
            harness,
            thread_id: thread,
            project_directory: q.project_directory.text,
            visibility: q.visibility,
            native_project_id: placed_in(q.placement),
            message,
        },
    )
}

/// A result that is the answer of this instance to this request.
pub open spec fn answers(d: DefinitionView, q: RunView, x: ResultView) -> bool {
    &&& x.harness_id == d.id
    &&& x.adapter == d.adapter
    &&& x.address == d.address
    &&& x.project_directory.parts == q.project_directory.parts
    &&& x.visibility == q.visibility
    &&& x.native_project_id == placed_in(q.placement)
}

/// What a provider's result means.
pub open spec fn finished_run(d: DefinitionView, q: RunView, x: ResultView) -> Result<ResultView, Fault> {
    if !answers(d, q, x) {
        Err(
            run_unknown(
                d.id,
                observed(x.thread_id),
                q,
                "provider result does not match the selected Harness instance"@,
            ),
        )
    } else {
        match grouping_fault(d, q.visibility, x.client_project_grouping) {
            Some(f) => Err(run_unknown(d.id, observed(x.thread_id), q, fault_message(f))),
            None => Ok(x),
        }
    }
}

/// A project that may have been created.
pub open spec fn create_unknown(harness: Seq<char>, q: CreateView, project: Option<Seq<char>>, message: Seq<char>) -> Fault {
    Fault::ProjectCreationOutcomeUnknown(
        CreationView {
            harness,
            name: q.name,
            root_directory: q.root_directory.text,
            idempotency_key: q.idempotency_key,
            project_id: project,
            message,
        },
    )
}

/// What a provider's created project means.
pub open spec fn finished_create(
    platform: Platform,
    d: DefinitionView,
    q: CreateView,
    p: ProjectView,
    probes: Seq<ProbeView>,
) -> Result<ProjectView, Fault> {
    match normalized(platform, d, p, probes) {
        Err(f) => Err(create_unknown(d.id, q, observed(p.id), fault_message(f))),
        Ok(n) => if n.roots.len() != 1 {
            Err(create_unknown(d.id, q, Some(n.id), "created project did not return exactly one root"@))
        } else if n.name != q.name || (q.remote_workspace is None && n.roots[0].parts != q.root_directory.parts) {
            Err(create_unknown(d.id, q, Some(n.id), "created project does not match the requested name and root"@))
        } else {
            Ok(n)
        },
    }
}

pub open spec fn undispatched(fault: DispatchFault) -> Fault {
    Fault::Unavailable("registry"@, dispatch_message(fault))
}

/// What a refused dispatch means for the caller.
pub fn dispatch_error(error: &DispatchError) -> (e: HarnessError)
    ensures
        e@ == undispatched(error@),
{
    HarnessError::Unavailable { harness: copied("registry"), message: error.message() }
}

fn observe(id: &str) -> (r: Option<String>)
    ensures
        opt(r) == observed(id@),
{
    if valid_project_id(id) { Some(copied(id)) } else { None }
}

fn same_opt(a: &Option<String>, b: &Option<String>) -> (r: bool)
    ensures
        r == (opt(*a) == opt(*b)),
{
    match a {
        None => b.is_none(),
        Some(x) => match b {
            None => false,
            Some(y) => same(x, y),
        },
    }
}

pub(crate) fn conversation_unknown(harness: &str, thread: Option<String>, request: &HarnessRunRequest, message: String) -> (e: HarnessError)
    ensures
        e@ == run_unknown(harness@, opt(thread), request@, message@),
{
    HarnessError::ConversationOutcomeUnknown(
        ConversationUncertainty {
            harness: copied(harness),
            thread_id: thread,
            project_directory: request.project_directory.text.clone(),
            visibility: request.visibility,
            native_project_id: request.placement.project_id(),
            message,
        },
    )
}

pub(crate) fn creation_unknown(
    harness: &str,
    request: &HarnessProjectCreateRequest,
    project: Option<String>,
    message: String,
) -> (e: HarnessError)
    ensures
        e@ == create_unknown(harness@, request@, opt(project), message@),
{
    HarnessError::ProjectCreationOutcomeUnknown(
        ProjectCreationUncertainty {
            harness: copied(harness),
            name: request.name.clone(),
            root_directory: request.root_directory.text.clone(),
            idempotency_key: request.idempotency_key.clone(),
            project_id: project,
            message,
        },
    )
}

/// Decides what a provider's result means for an accepted run.
pub fn finish_run(definition: &HarnessDefinition, request: &HarnessRunRequest, result: HarnessRunResult) -> (r: Result<
    HarnessRunResult,
    HarnessError,
>)
    ensures
        match r {
            Ok(x) => finished_run(definition@, request@, result@) == Ok::<ResultView, Fault>(x@),
            Err(e) => finished_run(definition@, request@, result@) == Err::<ResultView, Fault>(e@),
        },
{
    let project = request.placement.project_id();
    if !same(&result.harness_id, &definition.id) || !same(&result.adapter, &definition.adapter) || !same(
        &result.address,
        &definition.address,
    ) || !result.project_directory.equals(&request.project_directory) || result.visibility != request.visibility || !same_opt(
        &result.native_project_id,
        &project,
    ) {
        return Err(
            conversation_unknown(
                &definition.id,
                observe(&result.thread_id),
                request,
                copied("provider result does not match the selected Harness instance"),
            ),
        );
    }
    match validate_client_project_grouping(definition, request.visibility, &result.client_project_grouping) {
        Err(e) => Err(conversation_unknown(&definition.id, observe(&result.thread_id), request, e.message())),
        Ok(_) => Ok(result),
    }
}

/// Decides what a provider's created project means for an accepted creation.
pub fn finish_create(
    platform: Platform,
    definition: &HarnessDefinition,
    request: &HarnessProjectCreateRequest,
    project: HarnessProject,
    probes: &Vec<Probe>,
) -> (r: Result<HarnessProject, HarnessError>)
    ensures
        match r {
            Ok(p) => finished_create(platform, definition@, request@, project@, probes_of(probes@)) == Ok::<ProjectView, Fault>(
                p@,
            ),
            Err(e) => finished_create(platform, definition@, request@, project@, probes_of(probes@)) == Err::<
                ProjectView,
                Fault,
            >(e@),
        },
{
    let seen = observe(&project.id);
    let p = match normalize_project(platform, definition, project, probes) {
        Err(e) => {
            return Err(creation_unknown(&definition.id, request, seen, e.message()));
        },
        Ok(p) => p,
    };
    if p.roots.len() != 1 {
        return Err(
            creation_unknown(
                &definition.id,
                request,
                Some(p.id.clone()),
                copied("created project did not return exactly one root"),
            ),
        );
    }
    if !same(&p.name, &request.name) || (request.remote_workspace.is_none() && !p.roots[0].equals(&request.root_directory)) {
        return Err(
            creation_unknown(
                &definition.id,
                request,
                Some(p.id.clone()),
                copied("created project does not match the requested name and root"),
            ),
        );
    }
    Ok(p)
}

impl HarnessRegistry {
    pub open spec fn wf(&self) -> bool {
        &&& self.entries.wf()
        &&& self.calls.wf()
        &&& registered(self@)
    }

    /// Takes a prepared instance whose provider was built.
    pub fn insert(&mut self, definition: HarnessDefinition)
        requires
            old(self).wf(),
        ensures
            final(self).wf(),
            final(self)@ == (RegistryView { entries: old(self)@.entries.insert(definition@.id, definition@), ..old(self)@ }),
    {
        let id = definition.id.clone();
        let ghost before = self@.entries;
        self.entries.insert(id, definition);
        assert(self@.entries =~= before.insert(definition@.id, definition@));
    }

    /// The instances in the order of their ids.
    pub fn definitions(&self) -> (r: Vec<HarnessDefinition>)
        requires
            self.wf(),
        ensures
            r.len() == self.entries.listed().len(),
            forall|i: int| 0 <= i < r.len() ==> (#[trigger] r@[i])@ == self.entries.listed()[i].1@,
    {
        let mut r: Vec<HarnessDefinition> = Vec::new();
        let mut i: usize = 0;
        while i < self.entries.len()
            invariant
                i <= self.entries.listed().len(),
                r.len() == i,
                forall|j: int| 0 <= j < i ==> (#[trigger] r@[j])@ == self.entries.listed()[j].1@,
            decreases self.entries.listed().len() - i,
        {
            r.push(self.entries.value(i).clone());
            i = i + 1;
        }
        r
    }

    pub fn default_harness(&self) -> (r: Option<&String>)
        ensures
            match r {
                Some(t) => self@.default_harness == Some(t@),
                None => self@.default_harness is None,
            },
    {
        self.default_harness.as_ref()
    }

    /// The instance that a request goes to.
    pub fn entry(&self, harness_id: Option<&str>) -> (r: Result<&HarnessDefinition, HarnessError>)
        requires
            self.wf(),
        ensures
            match r {
                Ok(d) => selected(self@, wanted(harness_id)) == Ok::<DefinitionView, Fault>(d@),
                Err(e) => selected(self@, wanted(harness_id)) == Err::<DefinitionView, Fault>(e@),
            },
    {
        let id = match harness_id {
            Some(id) => id,
            None => match &self.default_harness {
                Some(id) => id.as_str(),
                None => {
                    return Err(HarnessError::NoDefaultHarness);
                },
            },
        };
        match self.entries.get(id) {
            None => Err(HarnessError::UnknownHarness(copied(id))),
            Some(d) => if !d.enabled {
                Err(HarnessError::HarnessDisabled(copied(id)))
            } else {
                Ok(d)
            },
        }
    }

    /// Selects the instance for a run and accepts the run for it.
    pub fn run(&self, harness_id: Option<&str>, request: HarnessRunRequest, found: &Resolution) -> (r: Result<
        (HarnessDefinition, HarnessRunRequest),
        HarnessError,
    >)
        requires
            self.wf(),
        ensures
            match selected(self@, wanted(harness_id)) {
                Err(f) => r is Err && r->Err_0@ == f,
                Ok(d) => match r {
                    Ok(pair) => pair.0@ == d && accepted_run(d, request@, found@) == Ok::<RunView, Fault>(pair.1@),
                    Err(e) => accepted_run(d, request@, found@) == Err::<RunView, Fault>(e@),
                },
            },
    {
        match self.entry(harness_id) {
            Err(e) => Err(e),
            Ok(d) => match validate_run_request(d, request, found) {
                Err(e) => Err(e),
                Ok(q) => Ok((d.clone(), q)),
            },
        }
    }

    /// Selects the instance for a discovery and accepts it.
    pub fn list_projects(&self, harness_id: Option<&str>, request: HarnessProjectListRequest, found: &Resolution) -> (r: Result<
        (HarnessDefinition, HarnessProjectListRequest),
        HarnessError,
    >)
        requires
            self.wf(),
        ensures
            match selected(self@, wanted(harness_id)) {
                Err(f) => r is Err && r->Err_0@ == f,
                Ok(d) => match r {
                    Ok(pair) => pair.0@ == d && accepted_list(d, request@, found@) == Ok::<ListView, Fault>(pair.1@),
                    Err(e) => accepted_list(d, request@, found@) == Err::<ListView, Fault>(e@),
                },
            },
    {
        match self.entry(harness_id) {
            Err(e) => Err(e),
            Ok(d) => match validate_project_list_request(d, request, found) {
                Err(e) => Err(e),
                Ok(q) => Ok((d.clone(), q)),
            },
        }
    }

    /// Selects the instance for a creation and accepts it.
    pub fn create_project(&self, harness_id: Option<&str>, request: HarnessProjectCreateRequest, found: &Resolution) -> (r: Result<
        (HarnessDefinition, HarnessProjectCreateRequest),
        HarnessError,
    >)
        requires
            self.wf(),
        ensures
            match selected(self@, wanted(harness_id)) {
                Err(f) => r is Err && r->Err_0@ == f,
                Ok(d) => match r {
                    Ok(pair) => pair.0@ == d && accepted_create(d, request@, found@) == Ok::<CreateView, Fault>(pair.1@),
                    Err(e) => accepted_create(d, request@, found@) == Err::<CreateView, Fault>(e@),
                },
            },
    {
        match self.entry(harness_id) {
            Err(e) => Err(e),
            Ok(d) => match validate_project_create_request(d, request, found) {
                Err(e) => Err(e),
                Ok(q) => Ok((d.clone(), q)),
            },
        }
    }

    fn named(&self, harness_id: Option<&str>) -> (r: String)
        ensures
            r@ == meant(self@, wanted(harness_id)),
    {
        match harness_id {
            Some(id) => copied(id),
            None => match &self.default_harness {
                Some(id) => id.clone(),
                None => copied("selected"),
            },
        }
    }

    /// What a failed dispatch means for a run: if its supervisor was lost, the conversation
    /// may have taken effect.
    pub fn run_undispatched(&self, harness_id: Option<&str>, request: &HarnessRunRequest, error: &DispatchError) -> (e: HarnessError)
        ensures
            e@ == (match error@ {
                DispatchFault::Supervisor(_) => run_unknown(
                    meant(self@, wanted(harness_id)),
                    None,
                    request@,
                    "service supervisor terminated after dispatch; inspect the original conversation"@,
                ),
                other => undispatched(other),
            }),
    {
        match error {
            DispatchError::Supervisor(_) => conversation_unknown(
                &self.named(harness_id),
                None,
                request,
                copied("service supervisor terminated after dispatch; inspect the original conversation"),
            ),
            _ => dispatch_error(error),
        }
    }

    /// What a failed dispatch means for a creation.
    pub fn create_undispatched(
        &self,
        harness_id: Option<&str>,
        request: &HarnessProjectCreateRequest,
        error: &DispatchError,
    ) -> (e: HarnessError)
        ensures
            e@ == (match error@ {
                DispatchFault::Supervisor(_) => create_unknown(
                    meant(self@, wanted(harness_id)),
                    request@,
                    None,
                    "service supervisor terminated after dispatch; inspect the original project request"@,
                ),
                other => undispatched(other),
            }),
    {
        match error {
            DispatchError::Supervisor(_) => creation_unknown(
                &self.named(harness_id),
                request,
                None,
                copied("service supervisor terminated after dispatch; inspect the original project request"),
            ),
            _ => dispatch_error(error),
        }
    }

    /// Revokes dispatch; hands out the calls that must be cancelled.
    pub fn begin_shutdown(&mut self) -> (r: Vec<u64>)
        requires
            old(self).wf(),
        ensures
            final(self).wf(),
            r@ == old(self)@.calls.active,
            final(self)@ == (RegistryView { calls: CallsView { closed: true, ..old(self)@.calls }, ..old(self)@ }),
    {
        self.calls.close()
    }
}

} // verus!
