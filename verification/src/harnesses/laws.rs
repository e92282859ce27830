//! What holds of the Harness contracts as a whole.
use super::projects::{
    lexically_within, normalized, probe_at, provider_directory, resolved_roots, resolved_within, root_fault, Platform, ProbeView,
    ProjectView,
};
use super::provider::{
    call_fault, call_taken, placement_tree, received_run, role_text, run_needs, run_params, tool_tree, visibility_text,
    workspace_tree, CallView, ProviderView, ScopeView, WireView,
};
use super::registry::{
    answers, finished_create, finished_run, prepared, registered, selected, RegistryView, ResultView, RootView,
};
use super::remote::{names_root, WorkspaceView, REMOTE_NODE_ADAPTER};
use super::requests::{accepted_run, directory_for, tool_valid, CreateView, ResolutionView, RunView, ToolView};
use super::{ConversationVisibility, DefinitionView, Fault, HarnessRole, PlacementView};
use crate::faults::earliest_none;
use crate::json::laws::set_members_are_read_back;
use crate::json::values::{empty_object, text_or_null};
use crate::json::{member, with_member, Tree};
use crate::paths::{is_under, ordered_is_part, under_any, LocationView};
use crate::text::byte_len;
use vstd::prelude::*;

verus! {

/// A request that names an instance goes to that instance or nowhere, and what other
/// instances there are does not matter.
pub proof fn routing_never_falls_back(r: RegistryView, other: RegistryView, id: Seq<char>)
    requires
        registered(r),
        r.entries.contains_key(id) == other.entries.contains_key(id),
        r.entries.contains_key(id) ==> r.entries[id] == other.entries[id],
    ensures
        selected(r, Some(id)) == selected(other, Some(id)),
        match selected(r, Some(id)) {
            Ok(d) => d.id == id && d.enabled,
            Err(f) => f == Fault::UnknownHarness(id) || f == Fault::HarnessDisabled(id),
        },
{
}

/// An accepted approval is hidden, outside every project and without tools.
pub proof fn approvals_are_isolated(d: DefinitionView, q: RunView, found: ResolutionView)
    requires
        q.role == HarnessRole::Approval,
        accepted_run(d, q, found) is Ok,
    ensures
        q.visibility == ConversationVisibility::Hidden,
        q.placement == PlacementView::NoNativeProject,
        q.tools.len() == 0,
        !q.handled,
{
}

/// An accepted run changes nothing of the request but its directory, which lies under a
/// configured root or is a reference to a configured workspace.
pub proof fn accepted_runs_stay_in_scope(d: DefinitionView, q: RunView, found: ResolutionView)
    requires
        accepted_run(d, q, found) is Ok,
    ensures
        ({
            let n = accepted_run(d, q, found)->Ok_0;
            &&& n == (RunView { project_directory: n.project_directory, ..q })
            &&& if d.adapter == REMOTE_NODE_ADAPTER@ {
                &&& q.remote_workspace is Some
                &&& names_root(d.workspace_roots, q.remote_workspace->0.workspace_id)
                &&& d.address == "node://"@ + q.remote_workspace->0.node_id
            } else {
                q.remote_workspace is None && under_any(n.project_directory.parts, d.workspace_roots)
            }
        }),
{
}

/// An accepted run is accepted again as it is, for as long as its directory resolves to
/// itself.
pub proof fn acceptance_is_stable(d: DefinitionView, q: RunView, found: ResolutionView)
    requires
        accepted_run(d, q, found) is Ok,
    ensures
        ({
            let n = accepted_run(d, q, found)->Ok_0;
            let again = ResolutionView::Resolved { location: n.project_directory, directory: true };
            accepted_run(d, n, again) == Ok::<RunView, Fault>(n)
        }),
{
}

/// A result is handed on only if it answers the request, and then unchanged.
pub proof fn results_answer_their_request(d: DefinitionView, q: RunView, x: ResultView)
    ensures
        match finished_run(d, q, x) {
            Ok(y) => y == x && answers(d, q, x),
            Err(f) => f is ConversationOutcomeUnknown,
        },
{
}

/// What the remote provider hands on answers the request.
pub proof fn remote_results_answer(p: ProviderView, q: RunView, thread: Option<Seq<char>>, w: WireView)
    requires
        received_run(p, q, thread, w) is Ok,
    ensures
        answers(p.definition, q, received_run(p, q, thread, w)->Ok_0),
        finished_run(p.definition, q, received_run(p, q, thread, w)->Ok_0) is Ok,
{
}

/// A refused answer to a creation says that the project may exist; it never says that it
/// does not.
pub proof fn creations_are_not_forgotten(
    platform: Platform,
    d: DefinitionView,
    q: CreateView,
    p: ProjectView,
    probes: Seq<ProbeView>,
)
    ensures
        match finished_create(platform, d, q, p, probes) {
            Ok(n) => n.name == q.name && n.roots.len() == 1,
            Err(f) => f is ProjectCreationOutcomeUnknown && f->ProjectCreationOutcomeUnknown_0.idempotency_key
                == q.idempotency_key,
        },
{
}

/// Every root of a local project that counts lies within a configured root.
pub proof fn project_roots_stay_in_scope(
    platform: Platform,
    d: DefinitionView,
    p: ProjectView,
    probes: Seq<ProbeView>,
    i: int,
)
    requires
        d.adapter != REMOTE_NODE_ADAPTER@,
        normalized(platform, d, p, probes) is Ok,
        0 <= i < normalized(platform, d, p, probes)->Ok_0.roots.len(),
    ensures
        resolved_within(platform, normalized(platform, d, p, probes)->Ok_0.roots[i], d.workspace_roots),
{
    reveal(normalized);
    let f = |k: int| root_fault(platform, d, p.roots, probes, k);
    let list = resolved_roots(platform, d, p.roots, probes);
    earliest_none(p.roots.len(), f);
    let k = ordered_is_part(list, i);
    assert(f(k) is None);
    assert(provider_directory(platform, p.roots[k], d.workspace_roots, probe_at(probes, k)) is Ok);
}

/// Of a path outside the configured roots nothing is looked at: what resolving it would
/// have given does not matter.
pub proof fn outside_paths_are_not_opened(
    platform: Platform,
    given: LocationView,
    roots: Seq<LocationView>,
    absolute: bool,
    a: Result<(LocationView, bool), Seq<char>>,
    b: Result<(LocationView, bool), Seq<char>>,
)
    requires
        !lexically_within(platform, absolute, given, roots),
    ensures
        provider_directory(platform, given, roots, ProbeView { absolute, canonical: a }) == provider_directory(
            platform,
            given,
            roots,
            ProbeView { absolute, canonical: b },
        ),
{
}

/// A tool call is taken once, and every later one comes from the same turn.
pub proof fn tool_calls_are_taken_once(harness: Seq<char>, tools: Seq<ToolView>, s: ScopeView, a: CallView, b: CallView)
    requires
        call_fault(harness, tools, s, a) is None,
        call_fault(harness, tools, call_taken(s, a), b) is None,
    ensures
        a.call_id != b.call_id,
        a.thread_id == b.thread_id,
        a.turn_id == b.turn_id,
{
    assert(call_taken(s, a).calls.last() == a.call_id);
    assert(call_taken(s, a).calls.contains(a.call_id));
}

/// Only a registered adapter is ever given an instance.
pub proof fn only_registered_adapters_build(adapters: Seq<Seq<char>>, d: DefinitionView, probes: Seq<RootView>)
    requires
        prepared(adapters, d, probes) is Ok,
    ensures
        adapters.contains(d.adapter),
        ({
            let n = prepared(adapters, d, probes)->Ok_0;
            n == (DefinitionView { workspace_roots: n.workspace_roots, ..d })
        }),
{
}

/// Without a name the default is meant, and nothing else: a registry without one selects
/// nothing, and what is selected is the entry of that name, enabled.
pub proof fn selection_is_by_name_or_default(r: RegistryView, id: Seq<char>)
    ensures
        selected(r, None) == (match r.default_harness {
            Some(default) => selected(r, Some(default)),
            None => Err(Fault::NoDefaultHarness),
        }),
        selected(r, Some(id)) is Ok <==> r.entries.contains_key(id) && r.entries[id].enabled,
        selected(r, Some(id)) is Ok ==> selected(r, Some(id))->Ok_0 == r.entries[id],
        r.entries.contains_key(id) && !r.entries[id].enabled ==> selected(r, Some(id)) == Err::<DefinitionView, Fault>(
            Fault::HarnessDisabled(id),
        ),
{
}

/// A run is accepted only while it is not cancelled, with a prompt and a time of at most half an
/// hour; tools come with a handler, and a native project only in a visible conversation of the
/// same harness.
pub proof fn accepted_runs_are_bounded(d: DefinitionView, q: RunView, found: ResolutionView)
    requires
        accepted_run(d, q, found) is Ok,
    ensures
        !q.cancelled,
        q.prompt.len() > 0 && byte_len(q.prompt) <= 65536,
        0 < q.timeout.total() <= 1800 * 1000000000,
        q.tools.len() <= 32,
        q.tools.len() > 0 <==> q.handled,
        forall|i: int, j: int|
            0 <= i < j < q.tools.len() ==> (#[trigger] q.tools[i]).name != (#[trigger] q.tools[j]).name,
        q.placement is ExistingProject ==> q.visibility == ConversationVisibility::Client && q.placement->harness_id == d.id,
        q.model is Some ==> q.model->0.len() > 0 && byte_len(q.model->0) <= 128,
{
    assert forall|i: int, j: int| 0 <= i < j < q.tools.len() implies (#[trigger] q.tools[i]).name != (
    #[trigger] q.tools[j]).name by {
        assert(tool_valid(q.tools, j));
    }
}

/// A local harness works only in a directory that exists and lies under a configured root, a
/// remote one only in a workspace that its own node offers and the configuration names.
pub proof fn directories_are_configured(d: DefinitionView, remote: Option<WorkspaceView>, found: ResolutionView, kind: Seq<char>)
    requires
        directory_for(d, remote, found, kind) is Ok,
    ensures
        d.adapter == REMOTE_NODE_ADAPTER@ ==> {
            &&& remote is Some
            &&& d.address == "node://"@ + remote->0.node_id
            &&& exists|i: int|
                0 <= i < d.workspace_roots.len() && (#[trigger] d.workspace_roots[i]).text == remote->0.workspace_id
        },
        d.adapter != REMOTE_NODE_ADAPTER@ ==> {
            &&& remote is None
            &&& found is Resolved && found->directory
            &&& directory_for(d, remote, found, kind)->Ok_0 == found->location
            &&& exists|i: int|
                0 <= i < d.workspace_roots.len() && is_under(found->location.parts, (#[trigger] d.workspace_roots[i]).parts)
        },
{
}

/// A result counts only if it is of the harness that was asked, for the directory, visibility
/// and project that were asked for.
pub proof fn results_are_of_the_harness_asked(d: DefinitionView, q: RunView, x: ResultView)
    requires
        finished_run(d, q, x) is Ok,
    ensures
        x.harness_id == d.id,
        x.adapter == d.adapter,
        x.address == d.address,
        x.project_directory.parts == q.project_directory.parts,
        x.visibility == q.visibility,
        x.native_project_id == (match q.placement {
            PlacementView::NoNativeProject => None,
            PlacementView::ExistingProject { project_id, .. } => Some(project_id),
        }),
        q.visibility == ConversationVisibility::Hidden ==> x.client_project_grouping is NotApplicable,
        q.visibility == ConversationVisibility::Client ==> !(x.client_project_grouping is NotApplicable),
{
}

/// A created project counts only under the name asked for, with one root: the directory asked
/// for, unless a node chose it. What is not so may exist all the same.
pub proof fn created_projects_are_as_asked(
    platform: Platform,
    d: DefinitionView,
    q: CreateView,
    p: ProjectView,
    probes: Seq<ProbeView>,
)
    requires
        finished_create(platform, d, q, p, probes) is Ok,
    ensures
        ({
            let n = finished_create(platform, d, q, p, probes)->Ok_0;
            &&& n.name == q.name && n.roots.len() == 1
            &&& q.remote_workspace is None ==> n.roots[0].parts == q.root_directory.parts
            &&& p.harness_id == d.id && n.harness_id == d.id && n.id == p.id
        }),
{
    reveal(normalized);
}

/// What a node does not declare is not asked of it.
pub proof fn nodes_are_asked_for_what_they_declare(p: ProviderView, r: crate::nodes::registry::RegistryView, q: RunView)
    requires
        run_needs(p, r, q) is None,
    ensures
        ({
            let can = r.entries[p.node_id].metadata.capabilities;
            &&& r.entries.contains_key(p.node_id)
            &&& can.contains("text"@)
            &&& q.visibility == ConversationVisibility::Client ==> can.contains("client_visibility"@)
            &&& q.role == HarnessRole::Approval ==> can.contains("approval"@)
            &&& q.tools.len() > 0 ==> can.contains("tools"@)
            &&& q.placement is ExistingProject ==> can.contains("projects"@)
        }),
{
}

/// A tool call counts only for the harness that runs, for a declared tool, within its own
/// conversation and turn, and once.
pub proof fn tool_calls_are_of_their_run(harness: Seq<char>, tools: Seq<ToolView>, s: ScopeView, c: CallView)
    requires
        call_fault(harness, tools, s, c) is None,
    ensures
        c.harness_id == harness,
        c.arguments is Object,
        exists|i: int| 0 <= i < tools.len() && (#[trigger] tools[i]).name == c.tool,
        s.thread is Some ==> c.thread_id == s.thread->0,
        s.turn is Some ==> c.turn_id == s.turn->0,
        !s.calls.contains(c.call_id),
        call_taken(s, c).thread == Some(c.thread_id) && call_taken(s, c).turn == Some(c.turn_id),
        call_taken(s, c).calls == s.calls.push(c.call_id),
{
}

/// What is sent for a run names the harness, the prompt and how it is to run.
pub proof fn run_parameters_say_what_is_asked(d: DefinitionView, q: RunView)
    ensures
        member(run_params(d, q), "harness_id"@) == Some(Tree::Text(d.id)),
        member(run_params(d, q), "prompt"@) == Some(Tree::Text(q.prompt)),
        member(run_params(d, q), "role"@) == Some(
            Tree::Text(if q.role == HarnessRole::Approval { "approval"@ } else { "execution"@ }),
        ),
        member(run_params(d, q), "visibility"@) == Some(
            Tree::Text(if q.visibility == ConversationVisibility::Hidden { "hidden"@ } else { "client"@ }),
        ),
        member(run_params(d, q), "tools"@) is Some && member(run_params(d, q), "tools"@)->0 is Array && member(
            run_params(d, q),
            "tools"@,
        )->0->Array_0.len() == q.tools.len(),
{
    reveal_strlit("harness_id");
    reveal_strlit("workspace");
    reveal_strlit("prompt");
    reveal_strlit("model");
    reveal_strlit("visibility");
    reveal_strlit("placement");
    reveal_strlit("role");
    reveal_strlit("tools");
    assert("harness_id"@[0] == 'h' && "workspace"@[0] == 'w' && "prompt"@[0] == 'p' && "model"@[0] == 'm' && "visibility"@[0]
        == 'v' && "placement"@[0] == 'p' && "prompt"@[1] == 'r' && "placement"@[1] == 'l' && "role"@[0] == 'r' && "tools"@[0]
        == 't');
    let a = with_member(empty_object(), "harness_id"@, Tree::Text(d.id));
    let b = with_member(a, "workspace"@, workspace_tree(q.remote_workspace));
    let c = with_member(b, "prompt"@, Tree::Text(q.prompt));
    let e = with_member(c, "model"@, text_or_null(q.model));
    let f = with_member(e, "visibility"@, Tree::Text(visibility_text(q.visibility)));
    let g = with_member(f, "placement"@, placement_tree(q.placement));
    let h = with_member(g, "role"@, Tree::Text(role_text(q.role)));
    let tools = Tree::Array(Seq::new(q.tools.len(), |i: int| tool_tree(q.tools[i])));
    assert(run_params(d, q) == with_member(h, "tools"@, tools));
    let t = seq!["harness_id"@, "prompt"@, "visibility"@, "role"@];
    assert forall|i: int| 0 <= i < 4 implies member(run_params(d, q), #[trigger] t[i]) == member(h, t[i]) by {
        set_members_are_read_back(h, "tools"@, tools, t[i]);
    }
    set_members_are_read_back(h, "tools"@, tools, "role"@);
    set_members_are_read_back(g, "role"@, Tree::Text(role_text(q.role)), "harness_id"@);
    set_members_are_read_back(g, "role"@, Tree::Text(role_text(q.role)), "prompt"@);
    set_members_are_read_back(g, "role"@, Tree::Text(role_text(q.role)), "visibility"@);
    set_members_are_read_back(f, "placement"@, placement_tree(q.placement), "harness_id"@);
    set_members_are_read_back(f, "placement"@, placement_tree(q.placement), "prompt"@);
    set_members_are_read_back(f, "placement"@, placement_tree(q.placement), "visibility"@);
    set_members_are_read_back(e, "visibility"@, Tree::Text(visibility_text(q.visibility)), "harness_id"@);
    set_members_are_read_back(e, "visibility"@, Tree::Text(visibility_text(q.visibility)), "prompt"@);
    set_members_are_read_back(c, "model"@, text_or_null(q.model), "harness_id"@);
    set_members_are_read_back(c, "model"@, text_or_null(q.model), "prompt"@);
    set_members_are_read_back(b, "prompt"@, Tree::Text(q.prompt), "harness_id"@);
    set_members_are_read_back(a, "workspace"@, workspace_tree(q.remote_workspace), "harness_id"@);
    set_members_are_read_back(empty_object(), "harness_id"@, Tree::Text(d.id), "harness_id"@);
    assert(t[0] == "harness_id"@ && t[1] == "prompt"@ && t[2] == "visibility"@ && t[3] == "role"@);
}

} // verus!
