//! JSON views of the Harness contracts, and the steps of a command.
use super::{ArgumentsView, HarnessArguments};
use crate::harnesses::projects::{projects_of, HarnessProject, ProjectView};
use crate::harnesses::registry::{selected, HarnessRegistry, HarnessRunResult, RegistryView, ResultView};
use crate::harnesses::remote::{referenced, resource, WorkspaceView, REMOTE_NODE_ADAPTER};
use crate::harnesses::requests::{
    run_new, CreateView, HarnessProjectCreateRequest, HarnessProjectListRequest, HarnessRunRequest, ListView, RunView,
};
use crate::harnesses::{
    fault_message, ClientProjectGrouping, ConversationPlacement, ConversationVisibility, DefinitionView, Fault, GroupingView,
    HarnessDefinition, HarnessError, PlacementView,
};
use crate::json::values::{empty_object, object, opt_json, text_or_null, text_value, with};
use crate::json::{group_json, trees, with_member, Json, Tree};
use crate::paths::{locations_of, Location, LocationView};
use crate::text::{copied, opt, same, starts_with, strip};
use crate::time::Span;
use vstd::prelude::*;

verus! {

broadcast use group_json;

// Views.

pub open spec fn paths_tree(list: Seq<LocationView>) -> Tree {
    Tree::Array(list.map_values(|l: LocationView| Tree::Text(l.text)))
}

pub fn paths_json(list: &Vec<Location>) -> (r: Json)
    ensures
        r@ == paths_tree(locations_of(list@)),
{
    let ghost all = locations_of(list@);
    let mut items: Vec<Json> = Vec::new();
    let mut i: usize = 0;
    while i < list.len()
        invariant
            i <= list.len(),
            items.len() == i,
            all == locations_of(list@),
            forall|j: int| 0 <= j < i ==> (#[trigger] items@[j])@ == Tree::Text(all[j].text),
        decreases list.len() - i,
    {
        assert(all[i as int] == list@[i as int]@);
        items.push(text_value(&list[i].text));
        i = i + 1;
    }
    let ghost had = items@;
    let r = Json::Array(items);
    proof {
        let want = all.map_values(|l: LocationView| Tree::Text(l.text));
        assert(trees(had).len() == want.len());
        assert forall|j: int| 0 <= j < want.len() implies trees(had)[j] == want[j] by {
            assert(had[j]@ == Tree::Text(all[j].text));
        }
        assert(trees(had) =~= want);
    }
    r
}

pub open spec fn visibility_text(v: ConversationVisibility) -> Seq<char> {
    match v {
        ConversationVisibility::Hidden => "hidden"@,
        ConversationVisibility::Client => "client"@,
    }
}

pub fn visibility_name(v: ConversationVisibility) -> (r: &'static str)
    ensures
        r@ == visibility_text(v),
{
    match v {
        ConversationVisibility::Hidden => "hidden",
        ConversationVisibility::Client => "client",
    }
}

pub open spec fn grouping_tree(g: GroupingView) -> Tree {
    match g {
        GroupingView::NotApplicable => with_member(empty_object(), "status"@, Tree::Text("not_applicable"@)),
        GroupingView::Unverified => with_member(empty_object(), "status"@, Tree::Text("unverified"@)),
        GroupingView::Confirmed(id) => with_member(
            with_member(empty_object(), "status"@, Tree::Text("confirmed"@)),
            "client_project_id"@,
            text_or_null(id),
        ),
    }
}

pub fn grouping_json(grouping: &ClientProjectGrouping) -> (r: Json)
    ensures
        r@ == grouping_tree(grouping@),
{
    match grouping {
        ClientProjectGrouping::NotApplicable => with(object(), "status", text_value("not_applicable")),
        ClientProjectGrouping::Unverified => with(object(), "status", text_value("unverified")),
        ClientProjectGrouping::Confirmed { client_project_id } => with(
            with(object(), "status", text_value("confirmed")),
            "client_project_id",
            opt_json(client_project_id),
        ),
    }
}

pub open spec fn project_tree(p: ProjectView) -> Tree {
    let a = with_member(empty_object(), "harness_id"@, Tree::Text(p.harness_id));
    let b = with_member(a, "id"@, Tree::Text(p.id));
    let c = with_member(b, "name"@, Tree::Text(p.name));
    with_member(c, "roots"@, paths_tree(p.roots))
}

pub fn project_json(project: &HarnessProject) -> (r: Json)
    ensures
        r@ == project_tree(project@),
{
    let a = with(object(), "harness_id", text_value(&project.harness_id));
    let b = with(a, "id", text_value(&project.id));
    let c = with(b, "name", text_value(&project.name));
    with(c, "roots", paths_json(&project.roots))
}

/// One instance as `list` shows it. Nothing was probed.
pub open spec fn definition_tree(d: DefinitionView, default: Option<Seq<char>>) -> Tree {
    let a = with_member(empty_object(), "id"@, Tree::Text(d.id));
    let b = with_member(a, "adapter"@, Tree::Text(d.adapter));
    let c = with_member(b, "address"@, Tree::Text(d.address));
    let e = with_member(c, "enabled"@, Tree::Bool(d.enabled));
    let f = with_member(e, "default"@, Tree::Bool(default == Some(d.id)));
    let g = with_member(f, "workspace_roots"@, paths_tree(d.workspace_roots));
    let h = with_member(
        g,
        "availability"@,
        Tree::Text(if d.enabled { "configured"@ } else { "disabled"@ }),
    );
    with_member(h, "authentication"@, Tree::Text("not_checked"@))
}

fn definition_json(d: &HarnessDefinition, default: &Option<String>) -> (r: Json)
    ensures
        r@ == definition_tree(d@, opt(*default)),
{
    let is_default = match default {
        None => false,
        Some(id) => same(id, &d.id),
    };
    let availability = if d.enabled { "configured" } else { "disabled" };
    let a = with(object(), "id", text_value(&d.id));
    let b = with(a, "adapter", text_value(&d.adapter));
    let c = with(b, "address", text_value(&d.address));
    let e = with(c, "enabled", Json::Bool(d.enabled));
    let f = with(e, "default", Json::Bool(is_default));
    let g = with(f, "workspace_roots", paths_json(&d.workspace_roots));
    let h = with(g, "availability", text_value(availability));
    with(h, "authentication", text_value("not_checked"))
}

/// The instances of a registry as `list` shows them.
pub open spec fn registry_tree(list: Seq<DefinitionView>, default: Option<Seq<char>>) -> Tree {
    let a = with_member(empty_object(), "status"@, Tree::Text("ok"@));
    let b = with_member(a, "default_harness"@, text_or_null(default));
    with_member(b, "harnesses"@, Tree::Array(list.map_values(|d: DefinitionView| definition_tree(d, default))))
}

/// The instances in the order of their ids.
pub open spec fn listing(registry: HarnessRegistry) -> Seq<DefinitionView> {
    registry.entries.listed().map_values(|e: (String, HarnessDefinition)| e.1@)
}

pub fn list_json(registry: &HarnessRegistry) -> (r: Json)
    requires
        registry.wf(),
    ensures
        r@ == registry_tree(listing(*registry), registry@.default_harness),
{
    let list = registry.definitions();
    let ghost all = listing(*registry);
    let ghost default = registry@.default_harness;
    let mut items: Vec<Json> = Vec::new();
    let mut i: usize = 0;
    while i < list.len()
        invariant
            i <= list.len(),
            list.len() == all.len(),
            all == listing(*registry),
            default == opt(registry.default_harness),
            items.len() == i,
            forall|j: int| 0 <= j < list.len() ==> (#[trigger] list@[j])@ == registry.entries.listed()[j].1@,
            forall|j: int| 0 <= j < i ==> (#[trigger] items@[j])@ == definition_tree(all[j], default),
        decreases list.len() - i,
    {
        assert(all[i as int] == list@[i as int]@);
        items.push(definition_json(&list[i], &registry.default_harness));
        i = i + 1;
    }
    let ghost had = items@;
    let array = Json::Array(items);
    proof {
        let want = all.map_values(|d: DefinitionView| definition_tree(d, default));
        assert(trees(had).len() == want.len());
        assert forall|j: int| 0 <= j < want.len() implies trees(had)[j] == want[j] by {
            assert(had[j]@ == definition_tree(all[j], default));
        }
        assert(trees(had) =~= want);
    }
    let a = with(object(), "status", text_value("ok"));
    let b = with(a, "default_harness", opt_json(&registry.default_harness));
    with(b, "harnesses", array)
}

pub open spec fn projects_tree(harness: Seq<char>, list: Seq<ProjectView>) -> Tree {
    let a = with_member(empty_object(), "status"@, Tree::Text("ok"@));
    let b = with_member(a, "harness_id"@, Tree::Text(harness));
    with_member(b, "projects"@, Tree::Array(list.map_values(|p: ProjectView| project_tree(p))))
}

pub fn projects_json(harness: &str, list: &Vec<HarnessProject>) -> (r: Json)
    ensures
        r@ == projects_tree(harness@, projects_of(list@)),
{
    let ghost all = projects_of(list@);
    let mut items: Vec<Json> = Vec::new();
    let mut i: usize = 0;
    while i < list.len()
        invariant
            i <= list.len(),
            all == projects_of(list@),
            items.len() == i,
            forall|j: int| 0 <= j < i ==> (#[trigger] items@[j])@ == project_tree(all[j]),
        decreases list.len() - i,
    {
        assert(all[i as int] == list@[i as int]@);
        items.push(project_json(&list[i]));
        i = i + 1;
    }
    let ghost had = items@;
    let array = Json::Array(items);
    proof {
        let want = all.map_values(|p: ProjectView| project_tree(p));
        assert(trees(had).len() == want.len());
        assert forall|j: int| 0 <= j < want.len() implies trees(had)[j] == want[j] by {
            assert(had[j]@ == project_tree(all[j]));
        }
        assert(trees(had) =~= want);
    }
    let a = with(object(), "status", text_value("ok"));
    let b = with(a, "harness_id", text_value(harness));
    with(b, "projects", array)
}

pub open spec fn created_tree(harness: Seq<char>, key: Seq<char>, p: ProjectView) -> Tree {
    let a = with_member(empty_object(), "status"@, Tree::Text("ok"@));
    let b = with_member(a, "harness_id"@, Tree::Text(harness));
    let c = with_member(b, "idempotency_key"@, Tree::Text(key));
    let d = with_member(c, "project"@, project_tree(p));
    with_member(d, "client_project_grouping"@, grouping_tree(GroupingView::Unverified))
}

pub fn created_json(harness: &str, idempotency_key: &str, project: &HarnessProject) -> (r: Json)
    ensures
        r@ == created_tree(harness@, idempotency_key@, project@),
{
    let a = with(object(), "status", text_value("ok"));
    let b = with(a, "harness_id", text_value(harness));
    let c = with(b, "idempotency_key", text_value(idempotency_key));
    let d = with(c, "project", project_json(project));
    with(d, "client_project_grouping", grouping_json(&ClientProjectGrouping::Unverified))
}

pub open spec fn run_tree(x: ResultView) -> Tree {
    let a = with_member(empty_object(), "status"@, Tree::Text("ok"@));
    let b = with_member(a, "harness_id"@, Tree::Text(x.harness_id));
    let c = with_member(b, "adapter"@, Tree::Text(x.adapter));
    let d = with_member(c, "address"@, Tree::Text(x.address));
    let e = with_member(d, "session_id"@, Tree::Text(x.session_id));
    let f = with_member(e, "thread_id"@, Tree::Text(x.thread_id));
    let g = with_member(f, "cwd"@, Tree::Text(x.project_directory.text));
    let h = with_member(g, "visibility"@, Tree::Text(visibility_text(x.visibility)));
    let i = with_member(h, "native_project_id"@, text_or_null(x.native_project_id));
    let j = with_member(i, "client_project_grouping"@, grouping_tree(x.client_project_grouping));
    with_member(j, "final_response"@, Tree::Text(x.final_response))
}

pub fn run_json(x: &HarnessRunResult) -> (r: Json)
    ensures
        r@ == run_tree(x@),
{
    let a = with(object(), "status", text_value("ok"));
    let b = with(a, "harness_id", text_value(&x.harness_id));
    let c = with(b, "adapter", text_value(&x.adapter));
    let d = with(c, "address", text_value(&x.address));
    let e = with(d, "session_id", text_value(&x.session_id));
    let f = with(e, "thread_id", text_value(&x.thread_id));
    let g = with(f, "cwd", text_value(&x.project_directory.text));
    let h = with(g, "visibility", text_value(visibility_name(x.visibility)));
    let i = with(h, "native_project_id", opt_json(&x.native_project_id));
    let j = with(i, "client_project_grouping", grouping_json(&x.client_project_grouping));
    with(j, "final_response", text_value(&x.final_response))
}

// Failures.

/// The code of a failure.
pub open spec fn category_of(f: Fault) -> Seq<char> {
    match f {
        Fault::InvalidConfiguration(_) | Fault::DuplicateHarness(_) | Fault::DuplicateAdapter(_) => "configuration"@,
        Fault::UnsupportedAdapter(_) | Fault::UnsupportedAddress(..) => "unsupported_adapter"@,
        Fault::UnknownHarness(_) | Fault::HarnessDisabled(_) | Fault::NoDefaultHarness => "selection"@,
        Fault::WorkspaceDenied(_) => "workspace_denied"@,
        Fault::InvalidRequest(_) => "invalid_request"@,
        Fault::Unavailable(..) => "unavailable"@,
        Fault::AuthenticationRequired(_) => "authentication_required"@,
        Fault::ProjectDiscoveryUnsupported(_) => "project_discovery_unsupported"@,
        Fault::ProjectCreationUnsupported(_) => "project_creation_unsupported"@,
        Fault::ProjectPlacementUnsupported(_) => "project_placement_unsupported"@,
        Fault::UnknownProject(..) => "unknown_project"@,
        Fault::ProtocolViolation(..) => "protocol_violation"@,
        Fault::ToolRequestRejected(..) => "tool_request_rejected"@,
        Fault::DeadlineExceeded(..) => "deadline_exceeded"@,
        Fault::OutputLimitExceeded(_) => "output_limit_exceeded"@,
        Fault::Interrupted(_) => "interrupted"@,
        Fault::TurnFailed(..) => "turn_failed"@,
        Fault::ProjectCreationOutcomeUnknown(_) => "project_creation_outcome_unknown"@,
        Fault::ConversationOutcomeUnknown(_) => "conversation_outcome_unknown"@,
    }
}

/// Whether a failure leaves open what took effect.
pub open spec fn status_of(f: Fault) -> Seq<char> {
    match f {
        Fault::Interrupted(_) => "canceled"@,
        Fault::ProjectCreationOutcomeUnknown(_) | Fault::ConversationOutcomeUnknown(_) => "unknown"@,
        _ => "failed"@,
    }
}

pub open spec fn base_tree(f: Fault) -> Tree {
    let a = with_member(empty_object(), "status"@, Tree::Text(status_of(f)));
    let b = with_member(a, "code"@, Tree::Text(category_of(f)));
    let c = with_member(b, "category"@, Tree::Text(category_of(f)));
    let d = with_member(c, "message"@, Tree::Text(fault_message(f)));
    with_member(d, "auto_retry"@, Tree::Bool(false))
}

/// The instance that a failure is about, where it is shown.
pub open spec fn harness_in(f: Fault) -> Option<Seq<char>> {
    match f {
        Fault::UnknownHarness(h) | Fault::HarnessDisabled(h) | Fault::Unavailable(h, _) | Fault::AuthenticationRequired(h)
        | Fault::ProjectDiscoveryUnsupported(h) | Fault::ProjectCreationUnsupported(h) | Fault::ProjectPlacementUnsupported(h)
        | Fault::ProtocolViolation(h, _) | Fault::ToolRequestRejected(h, _) | Fault::OutputLimitExceeded(h)
        | Fault::Interrupted(h) | Fault::TurnFailed(h, _) => Some(h),
        _ => None,
    }
}

/// A failure as it is shown.
pub open spec fn error_tree(f: Fault) -> Tree {
    let base = base_tree(f);
    match f {
        Fault::ProjectCreationOutcomeUnknown(u) => {
            let a = with_member(base, "harness_id"@, Tree::Text(u.harness));
            let b = with_member(a, "name"@, Tree::Text(u.name));
            let c = with_member(b, "cwd"@, Tree::Text(u.root_directory));
            let d = with_member(c, "idempotency_key"@, Tree::Text(u.idempotency_key));
            let e = with_member(d, "native_project_id"@, text_or_null(u.project_id));
            let g = with_member(e, "reason"@, Tree::Text(u.message));
            with_member(g, "client_project_grouping"@, grouping_tree(GroupingView::Unverified))
        },
        Fault::ConversationOutcomeUnknown(u) => {
            let a = with_member(base, "harness_id"@, Tree::Text(u.harness));
            let b = with_member(a, "thread_id"@, text_or_null(u.thread_id));
            let c = with_member(b, "cwd"@, Tree::Text(u.project_directory));
            let d = with_member(c, "visibility"@, Tree::Text(visibility_text(u.visibility)));
            let e = with_member(d, "native_project_id"@, text_or_null(u.native_project_id));
            let g = with_member(e, "reason"@, Tree::Text(u.message));
            with_member(
                g,
                "client_project_grouping"@,
                grouping_tree(
                    if u.visibility == ConversationVisibility::Hidden {
                        GroupingView::NotApplicable
                    } else {
                        GroupingView::Unverified
                    },
                ),
            )
        },
        Fault::WorkspaceDenied(path) => with_member(base, "cwd"@, Tree::Text(path)),
        Fault::UnknownProject(h, p) => with_member(
            with_member(base, "harness_id"@, Tree::Text(h)),
            "native_project_id"@,
            Tree::Text(p),
        ),
        Fault::DeadlineExceeded(h, s) => with_member(
            with_member(base, "harness_id"@, Tree::Text(h)),
            "timeout_seconds"@,
            Tree::Unsigned(s),
        ),
        _ => match harness_in(f) {
            Some(h) => with_member(base, "harness_id"@, Tree::Text(h)),
            None => base,
        },
    }
}

fn category(error: &HarnessError) -> (r: &'static str)
    ensures
        r@ == category_of(error@),
{
    match error {
        HarnessError::InvalidConfiguration(_) | HarnessError::DuplicateHarness(_) | HarnessError::DuplicateAdapter(
            _,
        ) => "configuration",
        HarnessError::UnsupportedAdapter(_) | HarnessError::UnsupportedAddress { .. } => "unsupported_adapter",
        HarnessError::UnknownHarness(_) | HarnessError::HarnessDisabled(_) | HarnessError::NoDefaultHarness => "selection",
        HarnessError::WorkspaceDenied(_) => "workspace_denied",
        HarnessError::InvalidRequest(_) => "invalid_request",
        HarnessError::Unavailable { .. } => "unavailable",
        HarnessError::AuthenticationRequired { .. } => "authentication_required",
        HarnessError::ProjectDiscoveryUnsupported { .. } => "project_discovery_unsupported",
        HarnessError::ProjectCreationUnsupported { .. } => "project_creation_unsupported",
        HarnessError::ProjectPlacementUnsupported { .. } => "project_placement_unsupported",
        HarnessError::UnknownProject { .. } => "unknown_project",
        HarnessError::ProtocolViolation { .. } => "protocol_violation",
        HarnessError::ToolRequestRejected { .. } => "tool_request_rejected",
        HarnessError::DeadlineExceeded { .. } => "deadline_exceeded",
        HarnessError::OutputLimitExceeded { .. } => "output_limit_exceeded",
        HarnessError::Interrupted { .. } => "interrupted",
        HarnessError::TurnFailed { .. } => "turn_failed",
        HarnessError::ProjectCreationOutcomeUnknown(_) => "project_creation_outcome_unknown",
        HarnessError::ConversationOutcomeUnknown(_) => "conversation_outcome_unknown",
    }
}

fn base_json(error: &HarnessError) -> (r: Json)
    ensures
        r@ == base_tree(error@),
{
    let status = match error {
        HarnessError::Interrupted { .. } => "canceled",
        HarnessError::ProjectCreationOutcomeUnknown(_) | HarnessError::ConversationOutcomeUnknown(_) => "unknown",
        _ => "failed",
    };
    let a = with(object(), "status", text_value(status));
    let b = with(a, "code", text_value(category(error)));
    let c = with(b, "category", text_value(category(error)));
    let d = with(c, "message", text_value(&error.message()));
    with(d, "auto_retry", Json::Bool(false))
}

/// A failure as it is shown. What may have taken effect is always said.
pub fn error_json(error: &HarnessError) -> (r: Json)
    ensures
        r@ == error_tree(error@),
{
    let base = base_json(error);
    match error {
        HarnessError::ProjectCreationOutcomeUnknown(u) => {
            let a = with(base, "harness_id", text_value(&u.harness));
            let b = with(a, "name", text_value(&u.name));
            let c = with(b, "cwd", text_value(&u.root_directory));
            let d = with(c, "idempotency_key", text_value(&u.idempotency_key));
            let e = with(d, "native_project_id", opt_json(&u.project_id));
            let g = with(e, "reason", text_value(&u.message));
            with(g, "client_project_grouping", grouping_json(&ClientProjectGrouping::Unverified))
        },
        HarnessError::ConversationOutcomeUnknown(u) => {
            let a = with(base, "harness_id", text_value(&u.harness));
            let b = with(a, "thread_id", opt_json(&u.thread_id));
            let c = with(b, "cwd", text_value(&u.project_directory));
            let d = with(c, "visibility", text_value(visibility_name(u.visibility)));
            let e = with(d, "native_project_id", opt_json(&u.native_project_id));
            let g = with(e, "reason", text_value(&u.message));
            let grouping = if u.visibility == ConversationVisibility::Hidden {
                ClientProjectGrouping::NotApplicable
            } else {
                ClientProjectGrouping::Unverified
            };
            with(g, "client_project_grouping", grouping_json(&grouping))
        },
        HarnessError::WorkspaceDenied(path) => with(base, "cwd", text_value(path)),
        HarnessError::UnknownProject { harness, project_id } => with(
            with(base, "harness_id", text_value(harness)),
            "native_project_id",
            text_value(project_id),
        ),
        HarnessError::DeadlineExceeded { harness, seconds } => with(
            with(base, "harness_id", text_value(harness)),
            "timeout_seconds",
            Json::Unsigned(*seconds),
        ),
        HarnessError::UnknownHarness(harness) | HarnessError::HarnessDisabled(harness) | HarnessError::Unavailable {
            harness,
            ..
        } | HarnessError::AuthenticationRequired { harness } | HarnessError::ProjectDiscoveryUnsupported { harness }
        | HarnessError::ProjectCreationUnsupported { harness } | HarnessError::ProjectPlacementUnsupported { harness }
        | HarnessError::ProtocolViolation { harness, .. } | HarnessError::ToolRequestRejected { harness, .. }
        | HarnessError::OutputLimitExceeded { harness } | HarnessError::Interrupted { harness } | HarnessError::TurnFailed {
            harness,
            ..
        } => with(base, "harness_id", text_value(harness)),
        _ => base,
    }
}

// The steps of a command.

/// The instance that a command works on, and the node's workspace if it is a node's.
pub struct Selection {
    pub harness: String,
    pub remote: Option<(String, String)>,
}

pub struct SelectionView {
    pub harness: Seq<char>,
    pub remote: Option<WorkspaceView>,
}

impl View for Selection {
    type V = SelectionView;

    open spec fn view(&self) -> SelectionView {
        SelectionView {
            harness: self.harness@,
            remote: match self.remote {
                Some(pair) => Some(WorkspaceView { node_id: pair.0@, workspace_id: pair.1@ }),
                None => None,
            },
        }
    }
}

/// The text without any leading `prefix`, however often it stands there.
pub open spec fn unprefixed(text: Seq<char>, prefix: Seq<char>) -> Seq<char>
    decreases text.len(),
{
    if prefix.len() > 0 && starts_with(text, prefix) {
        unprefixed(text.skip(prefix.len() as int), prefix)
    } else {
        text
    }
}

fn unprefix(text: &str, prefix: &str) -> (r: String)
    requires
        prefix@.len() > 0,
    ensures
        r@ == unprefixed(text@, prefix@),
{
    let mut rest = copied(text);
    loop
        invariant
            prefix@.len() > 0,
            unprefixed(rest@, prefix@) == unprefixed(text@, prefix@),
        ensures
            rest@ == unprefixed(text@, prefix@),
        decreases rest@.len(),
    {
        match strip(&rest, prefix) {
            None => {
                break;
            },
            Some(t) => {
                rest = t;
            },
        }
    }
    rest
}

/// What a command works on, or why it cannot.
pub open spec fn chosen(r: RegistryView, a: ArgumentsView) -> Result<SelectionView, Fault> {
    match selected(r, a.harness) {
        Err(f) => Err(f),
        Ok(d) => if d.adapter == REMOTE_NODE_ADAPTER@ {
            match a.workspace {
                None => Err(Fault::InvalidRequest("remote Harness requires --workspace ID"@)),
                Some(w) => Ok(
                    SelectionView {
                        harness: d.id,
                        remote: Some(WorkspaceView { node_id: unprefixed(d.address, "node://"@), workspace_id: w }),
                    },
                ),
            }
        } else if a.workspace is Some {
            Err(Fault::InvalidRequest("local Harness requires --cwd PATH"@))
        } else {
            Ok(SelectionView { harness: d.id, remote: None })
        },
    }
}

/// Selects what a command works on.
pub fn choose_harness(registry: &HarnessRegistry, args: &HarnessArguments) -> (r: Result<Selection, HarnessError>)
    requires
        registry.wf(),
    ensures
        match r {
            Ok(s) => chosen(registry@, args@) == Ok::<SelectionView, Fault>(s@),
            Err(e) => chosen(registry@, args@) == Err::<SelectionView, Fault>(e@),
        },
{
    let wanted = match &args.harness {
        Some(id) => Some(id.as_str()),
        None => None,
    };
    let d = match registry.entry(wanted) {
        Err(e) => {
            return Err(e);
        },
        Ok(d) => d,
    };
    if same(&d.adapter, REMOTE_NODE_ADAPTER) {
        match &args.workspace {
            None => Err(HarnessError::InvalidRequest(copied("remote Harness requires --workspace ID"))),
            Some(w) => {
                proof {
                    reveal_strlit("node://");
                }
                Ok(
                    Selection {
                        harness: d.id.clone(),
                        remote: Some((unprefix(&d.address, "node://"), w.clone())),
                    },
                )
            },
        }
    } else if args.workspace.is_some() {
        Err(HarnessError::InvalidRequest(copied("local Harness requires --cwd PATH")))
    } else {
        Ok(Selection { harness: d.id.clone(), remote: None })
    }
}

/// The rest of a command's one budget; `left` is what remains until its deadline.
pub fn remaining(harness: &str, seconds: u64, cancelled: bool, left: Option<Span>) -> (r: Result<Span, HarnessError>)
    ensures
        match r {
            Ok(s) => !cancelled && left == Some(s) && s.total() > 0,
            Err(e) => if cancelled {
                e@ == Fault::Interrupted(harness@)
            } else {
                (left is None || left->0.total() == 0) && e@ == Fault::DeadlineExceeded(harness@, seconds)
            },
        },
{
    if cancelled {
        return Err(HarnessError::Interrupted { harness: copied(harness) });
    }
    match left {
        Some(s) => if s.is_zero() {
            Err(HarnessError::DeadlineExceeded { harness: copied(harness), seconds })
        } else {
            Ok(s)
        },
        None => Err(HarnessError::DeadlineExceeded { harness: copied(harness), seconds }),
    }
}

pub open spec fn list_made(s: SelectionView, cwd: LocationView, timeout: Span, cancelled: bool) -> ListView {
    ListView {
        context_directory: match s.remote {
            Some(w) => referenced(resource(w)),
            None => cwd,
        },
        remote_workspace: s.remote,
        timeout,
        cancelled,
    }
}

pub fn list_request(s: &Selection, cwd: &Location, timeout: Span, cancelled: bool) -> (r: HarnessProjectListRequest)
    ensures
        r@ == list_made(s@, cwd@, timeout, cancelled),
{
    let request = match &s.remote {
        Some(pair) => HarnessProjectListRequest::remote(pair.0.clone(), pair.1.clone()),
        None => HarnessProjectListRequest::new(cwd.clone()),
    };
    request.with_timeout(timeout).with_cancellation(cancelled)
}

pub open spec fn create_made(
    s: SelectionView,
    cwd: LocationView,
    name: Seq<char>,
    key: Seq<char>,
    timeout: Span,
    cancelled: bool,
) -> CreateView {
    CreateView {
        name,
        root_directory: match s.remote {
            Some(w) => referenced(resource(w)),
            None => cwd,
        },
        remote_workspace: s.remote,
        idempotency_key: key,
        timeout,
        cancelled,
    }
}

pub fn create_request(s: &Selection, cwd: &Location, name: &str, key: &str, timeout: Span, cancelled: bool) -> (r:
    HarnessProjectCreateRequest)
    ensures
        r@ == create_made(s@, cwd@, name@, key@, timeout, cancelled),
{
    let request = match &s.remote {
        Some(pair) => HarnessProjectCreateRequest::remote(pair.0.clone(), pair.1.clone(), copied(name), copied(key)),
        None => HarnessProjectCreateRequest::new(copied(name), cwd.clone(), copied(key)),
    };
    request.with_timeout(timeout).with_cancellation(cancelled)
}

/// A project of this instance with this id is among the discovered ones.
pub open spec fn discovered(list: Seq<ProjectView>, harness: Seq<char>, id: Seq<char>) -> bool {
    exists|i: int| 0 <= i < list.len() && (#[trigger] list[i]).id == id && list[i].harness_id == harness
}

/// Places a run in a discovered project, never in one that was not seen.
pub fn place_run(projects: &Vec<HarnessProject>, harness: &str, project_id: &str) -> (r: Result<ConversationPlacement, HarnessError>)
    ensures
        match r {
            Ok(p) => discovered(projects_of(projects@), harness@, project_id@) && p@ == (PlacementView::ExistingProject {
                harness_id: harness@,
                project_id: project_id@,
            }),
            Err(e) => !discovered(projects_of(projects@), harness@, project_id@) && e@ == Fault::UnknownProject(
                harness@,
                project_id@,
            ),
        },
{
    let ghost all = projects_of(projects@);
    let mut i: usize = 0;
    while i < projects.len()
        invariant
            i <= projects.len(),
            all == projects_of(projects@),
            forall|j: int|
                0 <= j < i ==> !((#[trigger] all[j]).id == project_id@ && all[j].harness_id == harness@),
        decreases projects.len() - i,
    {
        assert(all[i as int] == projects@[i as int]@);
        if same(&projects[i].id, project_id) && same(&projects[i].harness_id, harness) {
            return Ok(
                ConversationPlacement::ExistingProject { harness_id: copied(harness), project_id: copied(project_id) },
            );
        }
        i = i + 1;
    }
    Err(HarnessError::UnknownProject { harness: copied(harness), project_id: copied(project_id) })
}

pub open spec fn run_made(
    s: SelectionView,
    cwd: LocationView,
    prompt: Seq<char>,
    model: Option<Seq<char>>,
    visibility: ConversationVisibility,
    placement: PlacementView,
    timeout: Span,
    cancelled: bool,
) -> RunView {
    RunView {
        remote_workspace: s.remote,
        model,
        timeout,
        visibility,
        placement,
        cancelled,
        ..run_new(
            match s.remote {
                Some(w) => referenced(resource(w)),
                None => cwd,
            },
            prompt,
            timeout,
        )
    }
}

pub fn run_request(
    s: &Selection,
    cwd: &Location,
    prompt: &str,
    model: &Option<String>,
    visibility: ConversationVisibility,
    placement: ConversationPlacement,
    timeout: Span,
    cancelled: bool,
) -> (r: HarnessRunRequest)
    ensures
        r@ == run_made(s@, cwd@, prompt@, opt(*model), visibility, placement@, timeout, cancelled),
{
    let request = match &s.remote {
        Some(pair) => HarnessRunRequest::remote(pair.0.clone(), pair.1.clone(), copied(prompt)),
        None => HarnessRunRequest::new(cwd.clone(), copied(prompt)),
    };
    let request = request.with_timeout(timeout).with_visibility(visibility).with_placement(placement).with_cancellation(
        cancelled,
    );
    match model {
        Some(m) => request.with_model(m.clone()),
        None => request,
    }
}

} // verus!
