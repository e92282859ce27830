//! Projects that a provider reports, and the directories that it may name.
use super::remote::{is_remote_path, valid_remote_path, REMOTE_NODE_ADAPTER};
use super::requests::{is_project_id, is_project_name, valid_project_id, valid_project_name};
use super::{
    reports, ClientProjectGrouping, ConversationVisibility, DefinitionView, Fault, GroupingView, HarnessDefinition, HarnessError,
    MAX_WORKSPACE_ROOTS,
};
use crate::faults::{earliest, earliest_sticks};
use crate::paths::{
    climbs, has_parent, keyed_under, lexically_allowed, locations_of, ordered, sort_unique, under_any, under_one, Location,
    LocationView,
};
use crate::text::{copied, joined, same};
use vstd::prelude::*;

verus! {

pub const MAX_DISCOVERED_PROJECTS: usize = 512;

/// A provider-native project discovered or created by one Harness.
///
/// `id` is meaningful only together with `harness_id`. Roots are provider metadata and are
/// checked before they influence an execution scope.
pub struct HarnessProject {
    pub harness_id: String,
    pub id: String,
    pub name: String,
    pub roots: Vec<Location>,
}

pub struct ProjectView {
    pub harness_id: Seq<char>,
    pub id: Seq<char>,
    pub name: Seq<char>,
    pub roots: Seq<LocationView>,
}

impl View for HarnessProject {
    type V = ProjectView;

    open spec fn view(&self) -> ProjectView {
        ProjectView { harness_id: self.harness_id@, id: self.id@, name: self.name@, roots: locations_of(self.roots@) }
    }
}

pub open spec fn projects_of(list: Seq<HarnessProject>) -> Seq<ProjectView> {
    list.map_values(|p: HarnessProject| p@)
}

// Directories.

/// How the system compares paths.
#[derive(Debug, Clone, Copy, PartialEq, Eq, Structural)]
pub enum Platform {
    Windows,
    Unix,
}

/// What is known of a directory that a provider named. `canonical` is the resolved path and
/// whether it is a directory, or why it could not be resolved; it counts only for a path
/// that lies lexically within a workspace root, so that no other path is ever opened.
pub struct Probe {
    pub absolute: bool,
    pub canonical: Result<(Location, bool), String>,
}

pub struct ProbeView {
    pub absolute: bool,
    pub canonical: Result<(LocationView, bool), Seq<char>>,
}

impl View for Probe {
    type V = ProbeView;

    open spec fn view(&self) -> ProbeView {
        ProbeView {
            absolute: self.absolute,
            canonical: match self.canonical {
                Ok(pair) => Ok((pair.0@, pair.1)),
                Err(m) => Err(m@),
            },
        }
    }
}

pub open spec fn probes_of(list: Seq<Probe>) -> Seq<ProbeView> {
    list.map_values(|p: Probe| p@)
}

/// A path lies within the roots by its parts alone.
pub open spec fn lexically_within(
    platform: Platform,
    absolute: bool,
    given: LocationView,
    roots: Seq<LocationView>,
) -> bool {
    match platform {
        Platform::Windows => absolute && keyed_under(given.parts, roots),
        Platform::Unix => absolute && !climbs(given.parts) && under_any(given.parts, roots),
    }
}

pub open spec fn resolved_within(platform: Platform, canonical: LocationView, roots: Seq<LocationView>) -> bool {
    match platform {
        Platform::Windows => keyed_under(canonical.parts, roots),
        Platform::Unix => under_any(canonical.parts, roots),
    }
}

/// The directory that a provider's path stands for, or why it is refused.
pub open spec fn provider_directory(
    platform: Platform,
    given: LocationView,
    roots: Seq<LocationView>,
    probe: ProbeView,
) -> Result<LocationView, Seq<char>> {
    if !lexically_within(platform, probe.absolute, given, roots) {
        Err("provider directory is not lexically within an allowed workspace root"@)
    } else {
        match probe.canonical {
            Err(m) => Err(m),
            Ok((location, directory)) => if !directory || !resolved_within(platform, location, roots) {
                Err("provider directory resolves outside the allowed workspace roots"@)
            } else {
                Ok(location)
            },
        }
    }
}

/// Whether a path that a provider named may be opened at all.
pub fn may_open(platform: Platform, absolute: bool, given: &Location, roots: &Vec<Location>) -> (r: bool)
    ensures
        r == lexically_within(platform, absolute, given@, locations_of(roots@)),
{
    match platform {
        Platform::Windows => absolute && lexically_allowed(&given.parts, roots),
        Platform::Unix => absolute && !has_parent(&given.parts) && under_one(&given.parts, roots),
    }
}

/// Resolves a path that a provider named without letting it select an unrelated place.
pub fn canonicalize_provider_directory(platform: Platform, given: &Location, roots: &Vec<Location>, probe: &Probe) -> (r: Result<
    Location,
    String,
>)
    ensures
        match r {
            Ok(l) => provider_directory(platform, given@, locations_of(roots@), probe@) == Ok::<LocationView, Seq<char>>(l@),
            Err(m) => provider_directory(platform, given@, locations_of(roots@), probe@) == Err::<LocationView, Seq<char>>(
                m@,
            ),
        },
{
    if !may_open(platform, probe.absolute, given, roots) {
        return Err(copied("provider directory is not lexically within an allowed workspace root"));
    }
    match &probe.canonical {
        Err(m) => Err(m.clone()),
        Ok(pair) => {
            let within = match platform {
                Platform::Windows => lexically_allowed(&pair.0.parts, roots),
                Platform::Unix => under_one(&pair.0.parts, roots),
            };
            if !pair.1 || !within {
                Err(copied("provider directory resolves outside the allowed workspace roots"))
            } else {
                Ok(pair.0.clone())
            }
        },
    }
}

// Projects.

pub open spec fn violation(d: DefinitionView, message: Seq<char>) -> Fault {
    Fault::ProtocolViolation(d.id, message)
}

pub(crate) fn violate(definition: &HarnessDefinition, message: &str) -> (e: HarnessError)
    ensures
        e@ == violation(definition@, message@),
{
    HarnessError::ProtocolViolation { harness: definition.id.clone(), message: copied(message) }
}

pub open spec fn roots_remote(roots: Seq<LocationView>) -> bool {
    forall|i: int| 0 <= i < roots.len() ==> is_remote_path((#[trigger] roots[i]).text)
}

/// The probe of a root; a root that was not probed is not absolute.
pub open spec fn probe_at(probes: Seq<ProbeView>, i: int) -> ProbeView {
    if 0 <= i < probes.len() {
        probes[i]
    } else {
        ProbeView { absolute: false, canonical: Err(Seq::empty()) }
    }
}

pub open spec fn root_fault(platform: Platform, d: DefinitionView, roots: Seq<LocationView>, probes: Seq<ProbeView>, i: int) -> Option<
    Fault,
> {
    match provider_directory(platform, roots[i], d.workspace_roots, probe_at(probes, i)) {
        Ok(_) => None,
        Err(m) => Some(violation(d, "project result contains an invalid or disallowed root: "@ + m)),
    }
}

/// The directories that the roots stand for.
pub open spec fn resolved_roots(platform: Platform, d: DefinitionView, roots: Seq<LocationView>, probes: Seq<ProbeView>) -> Seq<
    LocationView,
> {
    Seq::new(
        roots.len(),
        |i: int| provider_directory(platform, roots[i], d.workspace_roots, probe_at(probes, i))->Ok_0,
    )
}

/// The project as it counts, or the first rule that it breaks.
#[verifier::opaque]
pub open spec fn normalized(platform: Platform, d: DefinitionView, p: ProjectView, probes: Seq<ProbeView>) -> Result<
    ProjectView,
    Fault,
> {
    if p.harness_id != d.id {
        Err(violation(d, "project result belongs to a different Harness instance"@))
    } else if !is_project_id(p.id) {
        Err(violation(d, "project result contains an invalid project id"@))
    } else if !is_project_name(p.name) {
        Err(violation(d, "project result contains an invalid project name"@))
    } else if p.roots.len() == 0 || p.roots.len() > MAX_WORKSPACE_ROOTS {
        Err(violation(d, "project result must contain bounded absolute roots"@))
    } else if d.adapter == REMOTE_NODE_ADAPTER@ {
        if !roots_remote(p.roots) {
            Err(violation(d, "invalid remote root metadata"@))
        } else {
            Ok(ProjectView { roots: ordered(p.roots), ..p })
        }
    } else {
        match earliest(p.roots.len(), |i: int| root_fault(platform, d, p.roots, probes, i)) {
            Some(f) => Err(f),
            None => Ok(ProjectView { roots: ordered(resolved_roots(platform, d, p.roots, probes)), ..p }),
        }
    }
}

fn remote_only(roots: &Vec<Location>) -> (r: bool)
    ensures
        r == roots_remote(locations_of(roots@)),
{
    let ghost all = locations_of(roots@);
    let mut i: usize = 0;
    while i < roots.len()
        invariant
            i <= roots.len(),
            all == locations_of(roots@),
            forall|j: int| 0 <= j < i ==> is_remote_path((#[trigger] all[j]).text),
        decreases roots.len() - i,
    {
        assert(all[i as int] == roots@[i as int]@);
        if !valid_remote_path(&roots[i].text) {
            return false;
        }
        i = i + 1;
    }
    true
}

fn resolve_root(platform: Platform, definition: &HarnessDefinition, roots: &Vec<Location>, probes: &Vec<Probe>, i: usize) -> (r:
    Result<Location, HarnessError>)
    requires
        i < roots.len(),
    ensures
        ({
            let d = definition@;
            let fault = root_fault(platform, d, locations_of(roots@), probes_of(probes@), i as int);
            match r {
                Ok(l) => fault is None && l@ == provider_directory(
                    platform,
                    roots@[i as int]@,
                    d.workspace_roots,
                    probe_at(probes_of(probes@), i as int),
                )->Ok_0,
                Err(e) => fault == Some(e@),
            }
        }),
{
    let ghost all = locations_of(roots@);
    assert(all[i as int] == roots@[i as int]@);
    let resolved = if i < probes.len() {
        assert(probe_at(probes_of(probes@), i as int) == probes@[i as int]@);
        canonicalize_provider_directory(platform, &roots[i], &definition.workspace_roots, &probes[i])
    } else {
        Err(copied("provider directory is not lexically within an allowed workspace root"))
    };
    match resolved {
        Ok(l) => Ok(l),
        Err(m) => Err(violate(definition, &joined("project result contains an invalid or disallowed root: ", &m))),
    }
}

fn resolve_roots(platform: Platform, definition: &HarnessDefinition, roots: &Vec<Location>, probes: &Vec<Probe>) -> (r: Result<
    Vec<Location>,
    HarnessError,
>)
    ensures
        ({
            let all = locations_of(roots@);
            let fault = earliest(all.len(), |i: int| root_fault(platform, definition@, all, probes_of(probes@), i));
            match r {
                Ok(list) => fault is None && locations_of(list@) == resolved_roots(
                    platform,
                    definition@,
                    all,
                    probes_of(probes@),
                ),
                Err(e) => fault == Some(e@),
            }
        }),
{
    let ghost all = locations_of(roots@);
    let ghost d = definition@;
    let ghost seen = probes_of(probes@);
    let ghost f = |i: int| root_fault(platform, d, all, seen, i);
    let ghost whole = resolved_roots(platform, d, all, seen);
    let mut list: Vec<Location> = Vec::new();
    let mut i: usize = 0;
    while i < roots.len()
        invariant
            i <= roots.len(),
            list.len() == i,
            all == locations_of(roots@),
            d == definition@,
            seen == probes_of(probes@),
            f == (|k: int| root_fault(platform, d, all, seen, k)),
            whole == resolved_roots(platform, d, all, seen),
            earliest(i as nat, f) is None,
            forall|j: int| 0 <= j < i ==> (#[trigger] list@[j])@ == whole[j],
        decreases roots.len() - i,
    {
        let resolved = resolve_root(platform, definition, roots, probes, i);
        assert(f(i as int) == root_fault(platform, d, all, seen, i as int));
        assert(all[i as int] == roots@[i as int]@);
        match resolved {
            Ok(l) => list.push(l),
            Err(e) => {
                proof {
                    assert(earliest((i + 1) as nat, f) == f(i as int));
                    earliest_sticks((i + 1) as nat, all.len(), f);
                }
                return Err(e);
            },
        }
        i = i + 1;
    }
    assert(locations_of(list@) =~= whole);
    Ok(list)
}

/// What counts of a project is its own name and id.
pub proof fn normalizing_keeps_names(platform: Platform, d: DefinitionView, p: ProjectView, probes: Seq<ProbeView>)
    ensures
        match normalized(platform, d, p, probes) {
            Ok(n) => n.id == p.id && n.name == p.name && n.harness_id == p.harness_id && p.harness_id == d.id,
            Err(_) => true,
        },
{
    reveal(normalized);
}

/// Checks a project that a provider reported and resolves its roots.
pub fn normalize_project(platform: Platform, definition: &HarnessDefinition, project: HarnessProject, probes: &Vec<Probe>) -> (r:
    Result<HarnessProject, HarnessError>)
    ensures
        match r {
            Ok(p) => normalized(platform, definition@, project@, probes_of(probes@)) == Ok::<ProjectView, Fault>(p@),
            Err(e) => normalized(platform, definition@, project@, probes_of(probes@)) == Err::<ProjectView, Fault>(e@),
        },
{
    reveal(normalized);
    if !same(&project.harness_id, &definition.id) {
        return Err(violate(definition, "project result belongs to a different Harness instance"));
    }
    if !valid_project_id(&project.id) {
        return Err(violate(definition, "project result contains an invalid project id"));
    }
    if !valid_project_name(&project.name) {
        return Err(violate(definition, "project result contains an invalid project name"));
    }
    if project.roots.len() == 0 || project.roots.len() > MAX_WORKSPACE_ROOTS {
        return Err(violate(definition, "project result must contain bounded absolute roots"));
    }
    let mut p = project;
    if same(&definition.adapter, REMOTE_NODE_ADAPTER) {
        if !remote_only(&p.roots) {
            return Err(violate(definition, "invalid remote root metadata"));
        }
        p.roots = sort_unique(&p.roots);
        return Ok(p);
    }
    match resolve_roots(platform, definition, &p.roots, probes) {
        Err(e) => Err(e),
        Ok(list) => {
            p.roots = sort_unique(&list);
            Ok(p)
        },
    }
}

pub open spec fn all_probes(list: Seq<Vec<Probe>>) -> Seq<Seq<ProbeView>> {
    list.map_values(|v: Vec<Probe>| probes_of(v@))
}

pub open spec fn probes_at(list: Seq<Seq<ProbeView>>, i: int) -> Seq<ProbeView> {
    if 0 <= i < list.len() { list[i] } else { Seq::empty() }
}

pub open spec fn id_repeats(list: Seq<ProjectView>, i: int) -> bool {
    exists|j: int| 0 <= j < i && (#[trigger] list[j]).id == list[i].id
}

/// The first rule that one project of a list breaks.
pub open spec fn project_fault(
    platform: Platform,
    d: DefinitionView,
    list: Seq<ProjectView>,
    probes: Seq<Seq<ProbeView>>,
    i: int,
) -> Option<Fault> {
    match normalized(platform, d, list[i], probes_at(probes, i)) {
        Err(f) => Some(f),
        Ok(_) => if id_repeats(list, i) {
            Some(violation(d, "project discovery returned a duplicate project id"@))
        } else {
            None
        },
    }
}

/// The projects as they count, or the first rule that the list breaks.
pub open spec fn normalized_list(
    platform: Platform,
    d: DefinitionView,
    list: Seq<ProjectView>,
    probes: Seq<Seq<ProbeView>>,
) -> Result<Seq<ProjectView>, Fault> {
    if list.len() > MAX_DISCOVERED_PROJECTS {
        Err(violation(d, "project discovery returned more than 512 projects"@))
    } else {
        match earliest(list.len(), |i: int| project_fault(platform, d, list, probes, i)) {
            Some(f) => Err(f),
            None => Ok(
                Seq::new(list.len(), |i: int| normalized(platform, d, list[i], probes_at(probes, i))->Ok_0),
            ),
        }
    }
}

fn repeats(list: &Vec<HarnessProject>, project: &HarnessProject) -> (r: bool)
    ensures
        r == exists|j: int| 0 <= j < list.len() && (#[trigger] projects_of(list@)[j]).id == project@.id,
{
    let ghost all = projects_of(list@);
    let mut j: usize = 0;
    while j < list.len()
        invariant
            j <= list.len(),
            all == projects_of(list@),
            forall|k: int| 0 <= k < j ==> (#[trigger] all[k]).id != project@.id,
        decreases list.len() - j,
    {
        assert(all[j as int] == list@[j as int]@);
        if same(&list[j].id, &project.id) {
            return true;
        }
        j = j + 1;
    }
    false
}

/// Checks the projects that a provider reported, each id once.
pub fn normalize_project_list_result(
    platform: Platform,
    definition: &HarnessDefinition,
    projects: Vec<HarnessProject>,
    probes: &Vec<Vec<Probe>>,
) -> (r: Result<Vec<HarnessProject>, HarnessError>)
    ensures
        match r {
            Ok(list) => normalized_list(platform, definition@, projects_of(projects@), all_probes(probes@)) == Ok::<
                Seq<ProjectView>,
                Fault,
            >(projects_of(list@)),
            Err(e) => normalized_list(platform, definition@, projects_of(projects@), all_probes(probes@)) == Err::<
                Seq<ProjectView>,
                Fault,
            >(e@),
        },
{
    if projects.len() > MAX_DISCOVERED_PROJECTS {
        return Err(violate(definition, "project discovery returned more than 512 projects"));
    }
    let ghost all = projects_of(projects@);
    let ghost d = definition@;
    let ghost seen = all_probes(probes@);
    let ghost f = |i: int| project_fault(platform, d, all, seen, i);
    let count = projects.len();
    let mut rest = projects;
    let mut turned: Vec<HarnessProject> = Vec::new();
    while rest.len() > 0
        invariant
            turned.len() + rest.len() == count,
            count == all.len(),
            forall|j: int| 0 <= j < rest.len() ==> (#[trigger] rest@[j])@ == all[j],
            forall|j: int| 0 <= j < turned.len() ==> (#[trigger] turned@[j])@ == all[count - 1 - j],
        decreases rest.len(),
    {
        let last = rest.pop().unwrap();
        turned.push(last);
    }
    let none: Vec<Probe> = Vec::new();
    let mut list: Vec<HarnessProject> = Vec::new();
    let mut i: usize = 0;
    while i < count
        invariant
            i <= count,
            count == all.len(),
            count <= MAX_DISCOVERED_PROJECTS,
            turned.len() == count - i,
            list.len() == i,
            none.len() == 0,
            all == projects_of(projects@),
            d == definition@,
            seen == all_probes(probes@),
            f == (|k: int| project_fault(platform, d, all, seen, k)),
            earliest(i as nat, f) is None,
            forall|j: int| 0 <= j < turned.len() ==> (#[trigger] turned@[j])@ == all[count - 1 - j],
            forall|j: int|
                0 <= j < i ==> (#[trigger] list@[j])@ == normalized(platform, d, all[j], probes_at(seen, j))->Ok_0,
            forall|j: int| 0 <= j < i ==> normalized(platform, d, #[trigger] all[j], probes_at(seen, j)) is Ok,
        decreases count - i,
    {
        let project = turned.pop().unwrap();
        assert(project@ == all[i as int]);
        assert(f(i as int) == project_fault(platform, d, all, seen, i as int));
        let known = if i < probes.len() {
            assert(probes_at(seen, i as int) == probes_of(probes@[i as int]@));
            &probes[i]
        } else {
            assert(probes_at(seen, i as int) =~= probes_of(none@));
            &none
        };
        match normalize_project(platform, definition, project, known) {
            Err(e) => {
                proof {
                    assert(earliest((i + 1) as nat, f) == f(i as int));
                    earliest_sticks((i + 1) as nat, all.len(), f);
                }
                return Err(e);
            },
            Ok(p) => {
                let again = repeats(&list, &p);
                proof {
                    let now = projects_of(list@);
                    normalizing_keeps_names(platform, d, all[i as int], probes_at(seen, i as int));
                    assert forall|j: int| 0 <= j < i implies (#[trigger] now[j]).id == all[j].id by {
                        assert(now[j] == list@[j]@);
                        normalizing_keeps_names(platform, d, all[j], probes_at(seen, j));
                        assert(normalized(platform, d, all[j], probes_at(seen, j)) is Ok);
                    }
                    if again {
                        let j = choose|j: int| 0 <= j < list.len() && (#[trigger] now[j]).id == p@.id;
                        assert(now[j].id == all[j].id);
                        assert(id_repeats(all, i as int));
                    } else if id_repeats(all, i as int) {
                        let j = choose|j: int| 0 <= j < i && (#[trigger] all[j]).id == all[i as int].id;
                        assert(now[j].id == all[j].id);
                        assert(false);
                    }
                }
                if again {
                    proof {
                        assert(earliest((i + 1) as nat, f) == f(i as int));
                        earliest_sticks((i + 1) as nat, all.len(), f);
                    }
                    return Err(violate(definition, "project discovery returned a duplicate project id"));
                }
                list.push(p);
            },
        }
        i = i + 1;
    }
    assert(projects_of(list@) =~= Seq::new(
        all.len(),
        |i: int| normalized(platform, d, all[i], probes_at(seen, i))->Ok_0,
    ));
    Ok(list)
}

// Grouping.

/// A grouping that fits the conversation's visibility.
pub open spec fn grouping_valid(visibility: ConversationVisibility, g: GroupingView) -> bool {
    match visibility {
        ConversationVisibility::Hidden => g is NotApplicable,
        ConversationVisibility::Client => match g {
            GroupingView::NotApplicable => false,
            GroupingView::Unverified => true,
            GroupingView::Confirmed(id) => id is Some ==> is_project_id(id->0),
        },
    }
}

pub open spec fn grouping_fault(d: DefinitionView, visibility: ConversationVisibility, g: GroupingView) -> Option<Fault> {
    if grouping_valid(visibility, g) {
        None
    } else {
        Some(violation(d, "provider returned an invalid client project grouping state"@))
    }
}

pub fn validate_client_project_grouping(
    definition: &HarnessDefinition,
    visibility: ConversationVisibility,
    grouping: &ClientProjectGrouping,
) -> (r: Result<(), HarnessError>)
    ensures
        reports(r, grouping_fault(definition@, visibility, grouping@)),
{
    let valid = match visibility {
        ConversationVisibility::Hidden => match grouping {
            ClientProjectGrouping::NotApplicable => true,
            _ => false,
        },
        ConversationVisibility::Client => match grouping {
            ClientProjectGrouping::NotApplicable => false,
            ClientProjectGrouping::Unverified => true,
            ClientProjectGrouping::Confirmed { client_project_id } => match client_project_id {
                None => true,
                Some(id) => valid_project_id(id),
            },
        },
    };
    if valid {
        Ok(())
    } else {
        Err(violate(definition, "provider returned an invalid client project grouping state"))
    }
}

} // verus!
