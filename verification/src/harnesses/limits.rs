//! What the Harness side accepts, and what it says of a request whose outcome is lost.
use super::projects::{
    grouping_fault, normalized, normalized_list, normalizing_keeps_names, probes_at, Platform, ProbeView, ProjectView,
};
use super::provider::{
    build_fault, call_fault, create_params, list_params, mapped, received_run, reply_tree, workspace_tree, CallView,
    ProviderView, ScopeView, WireView,
};
use super::registry::{create_unknown, meant, run_unknown, RegistryView};
use super::remote::{is_remote_path, node_of, referenced, remote_definition_fault, resource, workspace_fault, WorkspaceView};
use super::requests::{
    accepted_create, accepted_list, directory_for, is_project_id, placement_fault, run_new, timeout_fault, tools_fault,
    CreateView, ListView, ResolutionView, RunView, ToolView,
};
use super::{
    address_fault, config_fault, definition_fault, found, identifier_fault, ConversationVisibility, DefinitionView, Fault,
    GroupingView, HarnessRole, PlacementView,
};
use crate::faults::earliest_none;
use crate::json::laws::group_members;
use crate::json::{encoded_size, member, Tree};
use crate::paths::{LocationView, PartView};
use crate::protocol::{is_id, ExtensionKind};
use crate::text::laws::fronts_end_at_the_part;
use crate::text::{byte_len, front, has_control, is_blank, occurs, starts_with, trimmed};
use crate::time::Span;
use vstd::prelude::*;

verus! {

broadcast use group_members;

// Configurations.

/// An address is accepted only with a scheme of letters, digits and three marks before the
/// first `://`, without control characters, and within its limit.
pub proof fn accepted_addresses_have_a_scheme(value: Seq<char>, i: int)
    ensures
        address_fault(value) is None ==> {
            &&& 0 < value.len() && byte_len(value) <= 2048 && !has_control(value)
            &&& occurs(value, "://"@)
            &&& front(value, "://"@) is Some && starts_with(value, front(value, "://"@)->0 + "://"@)
            &&& 0 <= i < front(value, "://"@)->0.len() ==> {
                let c = front(value, "://"@)->0[i];
                97 <= c as int <= 122 || 65 <= c as int <= 90 || (i > 0 && (48 <= c as int <= 57 || c == '+' || c == '-' || c
                    == '.'))
            }
            &&& front(value, "://"@)->0.len() > 0
        },
        !occurs(value, "://"@) || value.len() == 0 || byte_len(value) > 2048 || has_control(value) ==> address_fault(
            value,
        ) is Some && address_fault(value)->0 is InvalidConfiguration,
{
    fronts_end_at_the_part(value, "://"@);
    if address_fault(value) is None && 0 <= i < front(value, "://"@)->0.len() {
        let c = front(value, "://"@)->0[i];
        crate::text::laws::characters_are_of_their_kind(c);
    }
}

/// An accepted configuration lists between 1 and 64 instances with different identifiers,
/// each with an adapter, an address and between 1 and 16 roots; its default is one of them,
/// and enabled.
pub proof fn accepted_configurations(schema_version: u32, default: Option<Seq<char>>, list: Seq<DefinitionView>, i: int, j: int)
    requires
        config_fault(schema_version, default, list) is None,
    ensures
        schema_version == 1,
        1 <= list.len() <= 64,
        0 <= i < list.len() ==> {
            let d = list[i];
            &&& 0 < d.id.len() && byte_len(d.id) <= 64 && 0 < d.adapter.len() && byte_len(d.adapter) <= 64
            &&& address_fault(d.address) is None
            &&& 1 <= d.workspace_roots.len() <= 16
        },
        0 <= j < i < list.len() ==> list[i].id != list[j].id,
        default is Some ==> exists|k: int| 0 <= k < list.len() && (#[trigger] list[k]).id == default->0 && list[k].enabled,
{
    let f = |k: int| definition_fault(list, k);
    earliest_none(list.len(), f);
    if 0 <= i < list.len() {
        assert(f(i) is None);
        assert(!super::id_repeats(list, i));
    }
    if default is Some {
        let id = default->0;
        let k = found_at(list, id);
        assert(list[k].id == id && list[k].enabled);
    }
}

proof fn found_at(list: Seq<DefinitionView>, id: Seq<char>) -> (k: int)
    requires
        found(list, id) is Some,
    ensures
        0 <= k < list.len(),
        list[k] == found(list, id)->0,
        list[k].id == id,
    decreases list.len(),
{
    if list[0].id == id {
        0
    } else {
        let k = found_at(list.drop_first(), id);
        k + 1
    }
}

/// A configuration that meets all of this is accepted.
pub proof fn plain_configurations_are_accepted(default: Option<Seq<char>>, list: Seq<DefinitionView>)
    requires
        1 <= list.len() <= 64,
        forall|i: int|
            0 <= i < list.len() ==> identifier_fault("Harness"@, (#[trigger] list[i]).id) is None && identifier_fault(
                "adapter"@,
                list[i].adapter,
            ) is None && address_fault(list[i].address) is None && 1 <= list[i].workspace_roots.len() <= 16 && list[i].enabled,
        forall|i: int, j: int| 0 <= j < i < list.len() ==> (#[trigger] list[i]).id != (#[trigger] list[j]).id,
        default is Some ==> exists|k: int| 0 <= k < list.len() && (#[trigger] list[k]).id == default->0,
    ensures
        config_fault(1, default, list) is None,
{
    let f = |k: int| definition_fault(list, k);
    earliest_none(list.len(), f);
    assert forall|i: int| 0 <= i < list.len() implies (#[trigger] f(i)) is None by {
        assert(list[i].enabled);
        assert(!super::id_repeats(list, i));
    }
    if default is Some {
        let k = choose|k: int| 0 <= k < list.len() && (#[trigger] list[k]).id == default->0;
        listed_is_found(list, default->0, k);
        let m = found_at(list, default->0);
        assert(list[m].enabled);
        assert(identifier_fault("Harness"@, list[k].id) is None);
    }
}

proof fn listed_is_found(list: Seq<DefinitionView>, id: Seq<char>, k: int)
    requires
        0 <= k < list.len(),
        list[k].id == id,
    ensures
        found(list, id) is Some,
    decreases list.len(),
{
    if list[0].id != id {
        listed_is_found(list.drop_first(), id, k - 1);
    }
}

/// An instance on a node has the node's identifier behind the scheme, and workspaces for
/// roots; it is built only if that node is registered, offers the Harness contract in its
/// first version, and all of those workspaces.
pub proof fn nodes_offer_what_is_configured(r: crate::nodes::registry::RegistryView, d: DefinitionView, i: int)
    ensures
        remote_definition_fault(d) is None ==> starts_with(d.address, "node://"@) && is_id(node_of(d.address)) && (0 <= i
            < d.workspace_roots.len() ==> is_id(d.workspace_roots[i].text)),
        !starts_with(d.address, "node://"@) ==> remote_definition_fault(d) == Some(
            Fault::UnsupportedAddress(d.adapter, d.address),
        ),
        build_fault(r, d) is None ==> {
            let n = node_of(d.address);
            &&& remote_definition_fault(d) is None
            &&& r.entries.contains_key(n)
            &&& r.entries[n].metadata.kind == ExtensionKind::Node
            &&& exists|k: int|
                0 <= k < r.entries[n].metadata.contracts.len() && (#[trigger] r.entries[n].metadata.contracts[k]).id
                    == "recuvora.harness"@ && r.entries[n].metadata.contracts[k].version == 1
            &&& 0 <= i < d.workspace_roots.len() ==> r.entries[n].metadata.workspaces.contains(d.workspace_roots[i].text)
        },
        !r.entries.contains_key(node_of(d.address)) ==> build_fault(r, d) is Some,
{
}

/// The node of an address, and the resource of a workspace, read back.
pub proof fn node_addresses_read_back(node: Seq<char>, w: WorkspaceView)
    ensures
        node_of("node://"@ + node) == node,
        resource(w) == "node://"@ + w.node_id + "/"@ + w.workspace_id,
        referenced(resource(w)).text == resource(w),
        referenced(resource(w)).parts == seq![PartView::Name(resource(w))],
{
    assert(("node://"@ + node).skip("node://"@.len() as int) =~= node);
}

/// Which paths of another machine are absolute: those from a root, from a share, or from a
/// drive.
pub proof fn remote_paths_are_absolute(text: Seq<char>)
    ensures
        is_remote_path(text) ==> 0 < text.len() && byte_len(text) <= 4096 && !has_control(text) && (text[0] == '/' || (text.len()
            >= 2 && text[0] == '\\' && text[1] == '\\') || (text.len() > 2 && text[1] == ':' && (text[2] == '\\' || text[2]
            == '/'))),
        0 < text.len() && byte_len(text) <= 4096 && !has_control(text) && text[0] == '/' ==> is_remote_path(text),
{
    reveal_strlit("/");
    reveal_strlit("\\\\");
    assert("/"@.len() == 1 && "/"@[0] == '/' && "\\\\"@.len() == 2 && "\\\\"@[0] == '\\' && "\\\\"@[1] == '\\');
    if text.len() > 0 {
        if starts_with(text, "/"@) {
            assert(text.subrange(0, 1)[0] == text[0]);
        }
        if text[0] == '/' {
            assert(text.subrange(0, 1) =~= "/"@);
        }
        if text.len() >= 2 && starts_with(text, "\\\\"@) {
            assert(text.subrange(0, 2)[0] == text[0]);
            assert(text.subrange(0, 2)[1] == text[1]);
        }
    }
}

// Requests.

/// A time is accepted exactly if it is not nothing and at most half an hour.
pub proof fn accepted_times(timeout: Span)
    ensures
        timeout_fault(timeout) is None <==> 0 < timeout.total() <= 1800 * 1000000000,
        timeout_fault(timeout) is Some ==> timeout_fault(timeout)->0 is InvalidRequest,
{
}

/// A run is placed in a project only of its own instance, in sight, and by an identifier.
pub proof fn accepted_placements(d: DefinitionView, visibility: ConversationVisibility, p: PlacementView)
    ensures
        p is NoNativeProject ==> placement_fault(d, visibility, p) is None,
        p is ExistingProject ==> (placement_fault(d, visibility, p) is None <==> visibility == ConversationVisibility::Client
            && p->harness_id == d.id && is_project_id(p->project_id)),
        p is ExistingProject && is_project_id(p->project_id) ==> !is_blank(p->project_id) && byte_len(p->project_id) <= 512
            && !has_control(p->project_id),
        placement_fault(d, visibility, p) is Some ==> placement_fault(d, visibility, p)->0 is InvalidRequest,
{
}

/// A review runs without tools, hidden and in no project; any other run has tools exactly if
/// someone handles them.
pub proof fn accepted_tools(q: RunView)
    ensures
        tools_fault(q) is None ==> {
            &&& q.role == HarnessRole::Approval ==> q.tools.len() == 0 && !q.handled && q.visibility
                == ConversationVisibility::Hidden && q.placement == PlacementView::NoNativeProject
            &&& q.tools.len() <= 32
            &&& q.handled <==> q.tools.len() > 0
        },
        q.tools.len() == 0 && !q.handled && q.role != HarnessRole::Approval ==> tools_fault(q) is None,
        q.tools.len() == 0 && !q.handled && q.visibility == ConversationVisibility::Hidden && q.placement
            == PlacementView::NoNativeProject ==> tools_fault(q) is None,
        tools_fault(q) is Some ==> tools_fault(q)->0 is InvalidRequest,
{
}

/// A fresh run: nothing but its directory, its prompt and its time.
pub proof fn fresh_runs_are_plain(directory: LocationView, prompt: Seq<char>, timeout: Span)
    ensures
        ({
            let q = run_new(directory, prompt, timeout);
            &&& q.project_directory == directory && q.prompt == prompt && q.timeout == timeout
            &&& q.model is None && q.remote_workspace is None && q.tools.len() == 0 && !q.handled && !q.cancelled
            &&& q.visibility == ConversationVisibility::Client && q.placement == PlacementView::NoNativeProject && q.role
                == HarnessRole::Execution
        }),
{
}

/// A project is created under the trimmed name and the same key, in an accepted directory, if
/// the request was not cancelled and its time is accepted.
pub proof fn accepted_creations(d: DefinitionView, q: CreateView, found: ResolutionView)
    ensures
        accepted_create(d, q, found) is Ok ==> {
            let r = accepted_create(d, q, found)->Ok_0;
            &&& !q.cancelled && timeout_fault(q.timeout) is None
            &&& r.name == trimmed(q.name) && !is_blank(r.name) && byte_len(r.name) <= 256 && !has_control(r.name)
            &&& r.idempotency_key == q.idempotency_key && !is_blank(q.idempotency_key) && byte_len(q.idempotency_key) <= 512
            &&& directory_for(d, q.remote_workspace, found, "project root directory"@) == Ok::<LocationView, Fault>(
                r.root_directory,
            )
            &&& r.timeout == q.timeout && r.remote_workspace == q.remote_workspace && r.cancelled == q.cancelled
        },
        q.cancelled ==> accepted_create(d, q, found) == Err::<CreateView, Fault>(Fault::Interrupted(d.id)),
        !q.cancelled && timeout_fault(q.timeout) is None && !is_blank(trimmed(q.name)) && byte_len(trimmed(q.name)) <= 256
            && !has_control(trimmed(q.name)) && !is_blank(q.idempotency_key) && byte_len(q.idempotency_key) <= 512
            && !has_control(q.idempotency_key) && directory_for(d, q.remote_workspace, found, "project root directory"@) is Ok
            ==> accepted_create(d, q, found) is Ok,
{
}

/// Projects are listed in an accepted directory, if the request was not cancelled and its
/// time is accepted.
pub proof fn accepted_listings(d: DefinitionView, q: ListView, found: ResolutionView)
    ensures
        accepted_list(d, q, found) is Ok <==> !q.cancelled && timeout_fault(q.timeout) is None && directory_for(
            d,
            q.remote_workspace,
            found,
            "project discovery context directory"@,
        ) is Ok,
        accepted_list(d, q, found) is Ok ==> Ok::<LocationView, Fault>(accepted_list(d, q, found)->Ok_0.context_directory)
            == directory_for(d, q.remote_workspace, found, "project discovery context directory"@),
        q.cancelled ==> accepted_list(d, q, found) == Err::<ListView, Fault>(Fault::Interrupted(d.id)),
{
}

/// A workspace is accepted exactly if it is on the node of the instance and among its roots.
pub proof fn accepted_workspaces(w: WorkspaceView, d: DefinitionView)
    ensures
        workspace_fault(w, d) is None <==> is_id(w.node_id) && is_id(w.workspace_id) && d.address == "node://"@ + w.node_id
            && exists|i: int| 0 <= i < d.workspace_roots.len() && (#[trigger] d.workspace_roots[i]).text == w.workspace_id,
{
}

// Answers.

/// What a node is asked for a listing and for a creation.
pub proof fn nodes_are_asked_what_is_wanted(q: ListView, c: CreateView, content: Seq<char>, success: bool)
    ensures
        member(list_params(q), "workspace"@) == Some(workspace_tree(q.remote_workspace)),
        member(create_params(c), "workspace"@) == Some(workspace_tree(c.remote_workspace)),
        member(create_params(c), "name"@) == Some(Tree::Text(c.name)),
        member(create_params(c), "idempotency_key"@) == Some(Tree::Text(c.idempotency_key)),
        member(reply_tree(content, success), "content"@) == Some(Tree::Text(content)),
        member(reply_tree(content, success), "success"@) == Some(Tree::Bool(success)),
{
    reveal_strlit("workspace");
    reveal_strlit("name");
    reveal_strlit("idempotency_key");
    reveal_strlit("content");
    reveal_strlit("success");
    assert("workspace"@.len() == 9 && "name"@.len() == 4 && "idempotency_key"@.len() == 15
        && "content"@.len() == 7 && "success"@.len() == 7 && "content"@[0] == 'c' && "success"@[0] == 's');
}

/// How a node's failure counts: a cancelled call as interrupted, a refused one as a failed
/// turn, a broken protocol as a violation, a wrong configuration as such, and anything else
/// as not available.
pub proof fn node_failures_count_by_kind(d: DefinitionView, fault: crate::protocol::Fault)
    ensures
        mapped(d, fault) is Interrupted <==> fault is Cancelled,
        mapped(d, fault) is InvalidConfiguration <==> fault is Configuration,
        mapped(d, fault) is TurnFailed <==> fault is Rejected,
        mapped(d, fault) is ProtocolViolation <==> fault is Protocol,
        !(fault is Cancelled) && !(fault is Configuration) && !(fault is Rejected) && !(fault is Protocol) ==> mapped(
            d,
            fault,
        ) is Unavailable && mapped(d, fault)->Unavailable_0 == d.id,
        fault is Cancelled ==> mapped(d, fault) == Fault::Interrupted(d.id),
        fault is Rejected ==> mapped(d, fault) == Fault::TurnFailed(d.id, fault->Rejected_0),
{
}

/// A lost outcome keeps everything by which it can be looked for: the instance, the
/// conversation or the key, the place, and what was asked.
pub proof fn lost_outcomes_can_be_looked_for(
    harness: Seq<char>,
    thread: Option<Seq<char>>,
    q: RunView,
    c: CreateView,
    project: Option<Seq<char>>,
    message: Seq<char>,
)
    ensures
        run_unknown(harness, thread, q, message) is ConversationOutcomeUnknown,
        ({
            let u = run_unknown(harness, thread, q, message)->ConversationOutcomeUnknown_0;
            &&& u.harness == harness && u.thread_id == thread && u.message == message
            &&& u.project_directory == q.project_directory.text && u.visibility == q.visibility
            &&& q.placement is NoNativeProject ==> u.native_project_id is None
            &&& q.placement is ExistingProject ==> u.native_project_id == Some(q.placement->project_id)
        }),
        create_unknown(harness, c, project, message) is ProjectCreationOutcomeUnknown,
        ({
            let u = create_unknown(harness, c, project, message)->ProjectCreationOutcomeUnknown_0;
            &&& u.harness == harness && u.project_id == project && u.message == message
            &&& u.name == c.name && u.idempotency_key == c.idempotency_key && u.root_directory == c.root_directory.text
        }),
{
}

/// Which instance a request meant, where it never got to one.
pub proof fn requests_mean_an_instance(r: RegistryView, id: Option<Seq<char>>)
    ensures
        id is Some ==> meant(r, id) == id->0,
        id is None && r.default_harness is Some ==> meant(r, id) == r.default_harness->0,
{
}

/// A listing is accepted only if every project in it is, at most 512 of them with different
/// identifiers, in their order.
pub proof fn accepted_project_lists(
    platform: Platform,
    d: DefinitionView,
    list: Seq<ProjectView>,
    probes: Seq<Seq<ProbeView>>,
    i: int,
    j: int,
)
    requires
        normalized_list(platform, d, list, probes) is Ok,
    ensures
        list.len() <= 512,
        normalized_list(platform, d, list, probes)->Ok_0.len() == list.len(),
        0 <= i < list.len() ==> normalized(platform, d, list[i], probes_at(probes, i)) == Ok::<ProjectView, Fault>(
            normalized_list(platform, d, list, probes)->Ok_0[i],
        ),
        0 <= i < list.len() ==> list[i].harness_id == d.id && normalized_list(platform, d, list, probes)->Ok_0[i].id
            == list[i].id && normalized_list(platform, d, list, probes)->Ok_0[i].name == list[i].name,
        0 <= j < i < list.len() ==> list[i].id != list[j].id,
{
    let f = |k: int| super::projects::project_fault(platform, d, list, probes, k);
    earliest_none(list.len(), f);
    if 0 <= i < list.len() {
        assert(f(i) is None);
        assert(!super::projects::id_repeats(list, i));
        normalizing_keeps_names(platform, d, list[i], probes_at(probes, i));
    }
}

/// A hidden conversation is in no group; one in sight is either not verified, or confirmed
/// with an identifier if it names one.
pub proof fn groupings_fit_the_visibility(d: DefinitionView, g: GroupingView)
    ensures
        grouping_fault(d, ConversationVisibility::Hidden, g) is None <==> g is NotApplicable,
        grouping_fault(d, ConversationVisibility::Client, g) is None <==> g is Unverified || (g is Confirmed && (
        g->Confirmed_0 is Some ==> is_project_id(g->Confirmed_0->0))),
        forall|v: ConversationVisibility|
            (#[trigger] grouping_fault(d, v, g)) is Some ==> grouping_fault(d, v, g)->0 is ProtocolViolation,
{
}

/// A tool is called only with bounded parameters, in a conversation that is named.
pub proof fn tool_calls_are_bounded(harness: Seq<char>, tools: Seq<ToolView>, s: ScopeView, c: CallView)
    requires
        call_fault(harness, tools, s, c) is None,
    ensures
        encoded_size(c.arguments) <= 65536,
        byte_len(c.thread_id) <= 512 && byte_len(c.turn_id) <= 512 && byte_len(c.call_id) <= 512,
        !is_blank(c.thread_id) && !is_blank(c.turn_id) && !is_blank(c.call_id),
{
}

/// What a node reports of a run counts only if it is what was asked for: the same visibility
/// and project, and the conversation that its tools were called in. Otherwise the outcome of
/// the run is unknown.
pub proof fn reported_runs_are_as_asked(p: ProviderView, q: RunView, thread: Option<Seq<char>>, w: WireView)
    ensures
        received_run(p, q, thread, w) is Err ==> received_run(p, q, thread, w)->Err_0 is ConversationOutcomeUnknown,
        received_run(p, q, thread, w) is Ok ==> {
            let x = received_run(p, q, thread, w)->Ok_0;
            &&& w.visibility == (if q.visibility == ConversationVisibility::Hidden { "hidden"@ } else { "client"@ })
            &&& q.placement is NoNativeProject ==> w.native_project_id is None
            &&& q.placement is ExistingProject ==> w.native_project_id == Some(q.placement->project_id)
            &&& thread is Some ==> w.thread_id == thread->0
            &&& x.harness_id == p.definition.id && x.thread_id == w.thread_id && x.session_id == w.session_id
            &&& x.final_response == w.final_response && x.visibility == q.visibility && x.native_project_id
                == w.native_project_id
            &&& is_remote_path(w.project_directory)
        },
{
}

} // verus!
