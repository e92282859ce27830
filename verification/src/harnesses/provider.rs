//! The provider behind a node: what it sends, and what the node's answers mean.
use super::projects::{normalize_project, normalized, violate, violation, HarnessProject, Platform, ProbeView, ProjectView};
use super::registry::{
    conversation_unknown, create_unknown, creation_unknown, run_unknown, HarnessRunResult, ResultView,
};
use super::remote::{
    is_remote_path, node_of, remote_definition_fault, valid_remote_path, validate_remote_definition, workspace_of,
    RemoteWorkspace, WorkspaceView,
};
use super::requests::{
    accepted_create, accepted_list, accepted_run, is_project_id, tools_of, valid_project_id,
    validate_project_create_request, validate_project_list_request, validate_run_request, CreateView,
    HarnessProjectCreateRequest, HarnessProjectListRequest, HarnessRunRequest, HarnessTool, ListView, Resolution,
    RunView, ToolView,
};
use super::{
    fault_message, misconfigured, placed_in, reports, ClientProjectGrouping, ConversationPlacement, ConversationVisibility,
    DefinitionView, Fault, GroupingView, HarnessDefinition, HarnessError, HarnessRole, PlacementView,
};
use crate::faults::either;
use crate::json::values::{empty_object, object, opt_json, text_or_null, text_value, with};
use crate::json::{encoded_size, group_json, trees, with_member, Json, Tree};
use crate::nodes::registry::{ExtensionRegistry, RegistryView};
use crate::paths::{locations_of, Location, LocationView};
use crate::protocol::{ContractDeclaration, ContractView, ExtensionError, ExtensionKind};
use crate::text::{byte_len, copied, joined, listed, opt, same, strip, texts, utf8_len};
use vstd::prelude::*;

verus! {

broadcast use group_json;

/// Bytes that a response, or a tool's output, may have at most.
pub const MAX_RESPONSE_BYTES: usize = 262144;

pub const MAX_TOOL_CALLS: usize = 64;

/// One instance that a node provides.
pub struct RemoteProvider {
    pub definition: HarnessDefinition,
    pub node_id: String,
}

pub struct ProviderView {
    pub definition: DefinitionView,
    pub node_id: Seq<char>,
}

impl View for RemoteProvider {
    type V = ProviderView;

    open spec fn view(&self) -> ProviderView {
        ProviderView { definition: self.definition@, node_id: self.node_id@ }
    }
}

// Building.

pub open spec fn offers_harness(contracts: Seq<ContractView>) -> bool {
    exists|i: int|
        0 <= i < contracts.len() && (#[trigger] contracts[i]).id == "recuvora.harness"@ && contracts[i].version == 1
}

pub open spec fn roots_offered(roots: Seq<LocationView>, workspaces: Seq<Seq<char>>) -> bool {
    forall|i: int| 0 <= i < roots.len() ==> workspaces.contains((#[trigger] roots[i]).text)
}

/// Why a node cannot provide an instance.
pub open spec fn build_fault(r: RegistryView, d: DefinitionView) -> Option<Fault> {
    let node = node_of(d.address);
    if remote_definition_fault(d) is Some {
        remote_definition_fault(d)
    } else if !r.entries.contains_key(node) {
        Some(Fault::Unavailable(d.id, "node not registered"@))
    } else {
        let m = r.entries[node].metadata;
        if m.kind == ExtensionKind::Node && offers_harness(m.contracts) && roots_offered(d.workspace_roots, m.workspaces) {
            None
        } else {
            Some(Fault::Unavailable(d.id, "node does not provide the Harness contract and configured workspaces"@))
        }
    }
}

fn harness_offered(contracts: &Vec<ContractDeclaration>) -> (r: bool)
    ensures
        r == offers_harness(contracts@.map_values(|c: ContractDeclaration| c@)),
{
    let ghost all = contracts@.map_values(|c: ContractDeclaration| c@);
    let mut i: usize = 0;
    while i < contracts.len()
        invariant
            i <= contracts.len(),
            all == contracts@.map_values(|c: ContractDeclaration| c@),
            forall|j: int|
                0 <= j < i ==> !((#[trigger] all[j]).id == "recuvora.harness"@ && all[j].version == 1),
        decreases contracts.len() - i,
    {
        assert(all[i as int] == contracts@[i as int]@);
        if same(&contracts[i].id, "recuvora.harness") && contracts[i].version == 1 {
            return true;
        }
        i = i + 1;
    }
    false
}

fn all_offered(roots: &Vec<Location>, workspaces: &Vec<String>) -> (r: bool)
    ensures
        r == roots_offered(locations_of(roots@), texts(workspaces@)),
{
    let ghost all = locations_of(roots@);
    let mut i: usize = 0;
    while i < roots.len()
        invariant
            i <= roots.len(),
            all == locations_of(roots@),
            forall|j: int| 0 <= j < i ==> texts(workspaces@).contains((#[trigger] all[j]).text),
        decreases roots.len() - i,
    {
        assert(all[i as int] == roots@[i as int]@);
        if !listed(workspaces, &roots[i].text) {
            return false;
        }
        i = i + 1;
    }
    true
}

/// Builds providers for the instances that nodes provide.
pub struct RemoteHarnessFactory {}

impl RemoteHarnessFactory {
    pub fn new() -> (r: Self)
        ensures
            r == (RemoteHarnessFactory {  }),
    {
        RemoteHarnessFactory {  }
    }

    pub fn adapter_id(&self) -> (r: &str)
        ensures
            r@ == super::remote::REMOTE_NODE_ADAPTER@,
    {
        super::remote::REMOTE_NODE_ADAPTER
    }

    /// Builds the provider of an instance from what its node declared.
    pub fn build(&self, registry: &ExtensionRegistry, definition: HarnessDefinition) -> (r: Result<RemoteProvider, HarnessError>)
        requires
            registry.wf(),
        ensures
            match r {
                Ok(p) => build_fault(registry@, definition@) is None && p@ == (ProviderView {
                    definition: definition@,
                    node_id: node_of(definition@.address),
                }),
                Err(e) => build_fault(registry@, definition@) == Some(e@),
            },
    {
        if let Err(e) = validate_remote_definition(&definition) {
            return Err(e);
        }
        let node_id = match strip(&definition.address, "node://") {
            Some(id) => id,
            None => String::new(),
        };
        match registry.metadata(&node_id) {
            None => Err(
                HarnessError::Unavailable { harness: definition.id.clone(), message: copied("node not registered") },
            ),
            Some(m) => if m.kind != ExtensionKind::Node || !harness_offered(&m.contracts) || !all_offered(
                &definition.workspace_roots,
                &m.workspaces,
            ) {
                Err(
                    HarnessError::Unavailable {
                        harness: definition.id.clone(),
                        message: copied("node does not provide the Harness contract and configured workspaces"),
                    },
                )
            } else {
                Ok(RemoteProvider { definition, node_id })
            },
        }
    }
}

// Requests to the node.

pub open spec fn capable(r: RegistryView, node: Seq<char>, capability: Seq<char>) -> bool {
    r.entries.contains_key(node) && r.entries[node].metadata.capabilities.contains(capability)
}

/// Why a capability that a request needs is missing.
pub open spec fn missing(p: ProviderView, r: RegistryView, capability: Seq<char>, needed: bool) -> Option<Fault> {
    if needed && !capable(r, p.node_id, capability) {
        Some(Fault::Unavailable(p.definition.id, "node does not declare "@ + capability))
    } else {
        None
    }
}

/// The first capability that a run needs and the node lacks.
pub open spec fn run_needs(p: ProviderView, r: RegistryView, q: RunView) -> Option<Fault> {
    either(
        missing(p, r, "text"@, true),
        either(
            missing(p, r, "client_visibility"@, q.visibility == ConversationVisibility::Client),
            either(
                missing(p, r, "approval"@, q.role == HarnessRole::Approval),
                either(
                    missing(p, r, "tools"@, q.tools.len() > 0),
                    missing(p, r, "projects"@, placed_in(q.placement) is Some),
                ),
            ),
        ),
    )
}

pub open spec fn visibility_text(v: ConversationVisibility) -> Seq<char> {
    match v {
        ConversationVisibility::Hidden => "hidden"@,
        ConversationVisibility::Client => "client"@,
    }
}

fn visibility(v: ConversationVisibility) -> (r: &'static str)
    ensures
        r@ == visibility_text(v),
{
    match v {
        ConversationVisibility::Hidden => "hidden",
        ConversationVisibility::Client => "client",
    }
}

pub open spec fn workspace_tree(w: Option<WorkspaceView>) -> Tree {
    match w {
        None => Tree::Null,
        Some(w) => with_member(
            with_member(empty_object(), "node_id"@, Tree::Text(w.node_id)),
            "workspace_id"@,
            Tree::Text(w.workspace_id),
        ),
    }
}

pub open spec fn placement_tree(p: PlacementView) -> Tree {
    match p {
        PlacementView::NoNativeProject => with_member(empty_object(), "type"@, Tree::Text("none"@)),
        PlacementView::ExistingProject { project_id, .. } => with_member(
            with_member(empty_object(), "type"@, Tree::Text("existing"@)),
            "project_id"@,
            Tree::Text(project_id),
        ),
    }
}

pub open spec fn tool_tree(t: ToolView) -> Tree {
    with_member(
        with_member(
            with_member(empty_object(), "name"@, Tree::Text(t.name)),
            "description"@,
            Tree::Text(t.description),
        ),
        "input_schema"@,
        t.input_schema,
    )
}

pub open spec fn role_text(role: HarnessRole) -> Seq<char> {
    if role == HarnessRole::Approval { "approval"@ } else { "execution"@ }
}

/// What the node is sent for a run.
pub open spec fn run_params(d: DefinitionView, q: RunView) -> Tree {
    let a = with_member(empty_object(), "harness_id"@, Tree::Text(d.id));
    let b = with_member(a, "workspace"@, workspace_tree(q.remote_workspace));
    let c = with_member(b, "prompt"@, Tree::Text(q.prompt));
    let e = with_member(c, "model"@, text_or_null(q.model));
    let f = with_member(e, "visibility"@, Tree::Text(visibility_text(q.visibility)));
    let g = with_member(f, "placement"@, placement_tree(q.placement));
    let h = with_member(g, "role"@, Tree::Text(role_text(q.role)));
    with_member(h, "tools"@, Tree::Array(Seq::new(q.tools.len(), |i: int| tool_tree(q.tools[i]))))
}

/// What the node is sent for a discovery.
pub open spec fn list_params(q: ListView) -> Tree {
    with_member(empty_object(), "workspace"@, workspace_tree(q.remote_workspace))
}

/// What the node is sent for a creation.
pub open spec fn create_params(q: CreateView) -> Tree {
    with_member(
        with_member(
            with_member(empty_object(), "workspace"@, workspace_tree(q.remote_workspace)),
            "name"@,
            Tree::Text(q.name),
        ),
        "idempotency_key"@,
        Tree::Text(q.idempotency_key),
    )
}

fn workspace_json(w: &Option<RemoteWorkspace>) -> (r: Json)
    ensures
        r@ == workspace_tree(workspace_of(*w)),
{
    match w {
        None => Json::Null,
        Some(w) => with(with(object(), "node_id", text_value(&w.node_id)), "workspace_id", text_value(&w.workspace_id)),
    }
}

fn placement_json(p: &ConversationPlacement) -> (r: Json)
    ensures
        r@ == placement_tree(p@),
{
    match p {
        ConversationPlacement::NoNativeProject => with(object(), "type", text_value("none")),
        ConversationPlacement::ExistingProject { project_id, .. } => with(
            with(object(), "type", text_value("existing")),
            "project_id",
            text_value(project_id),
        ),
    }
}

fn tools_json(tools: &Vec<HarnessTool>) -> (r: Json)
    ensures
        ({
            let all = tools_of(tools@);
            r@ == Tree::Array(Seq::new(all.len(), |i: int| tool_tree(all[i])))
        }),
{
    let ghost all = tools_of(tools@);
    let mut items: Vec<Json> = Vec::new();
    let mut i: usize = 0;
    while i < tools.len()
        invariant
            i <= tools.len(),
            items.len() == i,
            all == tools_of(tools@),
            forall|j: int| 0 <= j < i ==> (#[trigger] items@[j])@ == tool_tree(all[j]),
        decreases tools.len() - i,
    {
        let t = &tools[i];
        assert(all[i as int] == t@);
        let item = with(
            with(with(object(), "name", text_value(&t.name)), "description", text_value(&t.description)),
            "input_schema",
            t.input_schema.copy(),
        );
        items.push(item);
        i = i + 1;
    }
    let ghost list = items@;
    let r = Json::Array(items);
    proof {
        assert(trees(list).len() == all.len());
        assert forall|j: int| 0 <= j < all.len() implies trees(list)[j] == tool_tree(all[j]) by {
            assert(list[j]@ == tool_tree(all[j]));
        }
        assert(trees(list) =~= Seq::new(all.len(), |i: int| tool_tree(all[i])));
    }
    r
}

fn run_json(definition: &HarnessDefinition, q: &HarnessRunRequest) -> (r: Json)
    ensures
        r@ == run_params(definition@, q@),
{
    let a = with(object(), "harness_id", text_value(&definition.id));
    let b = with(a, "workspace", workspace_json(&q.remote_workspace));
    let c = with(b, "prompt", text_value(&q.prompt));
    let e = with(c, "model", opt_json(&q.model));
    let f = with(e, "visibility", text_value(visibility(q.visibility)));
    let g = with(f, "placement", placement_json(&q.placement));
    let role = if q.role == HarnessRole::Approval { "approval" } else { "execution" };
    let h = with(g, "role", text_value(role));
    with(h, "tools", tools_json(&q.tools))
}

// Answers of the node.

/// A node's project.
pub struct WireProject {
    pub id: String,
    pub name: String,
    pub roots: Vec<Location>,
}

/// A node's result of a run.
pub struct WireRunResult {
    pub thread_id: String,
    pub session_id: String,
    pub project_directory: String,
    pub visibility: String,
    pub native_project_id: Option<String>,
    pub client_project_grouping: ClientProjectGrouping,
    pub final_response: String,
}

pub struct WireView {
    pub thread_id: Seq<char>,
    pub session_id: Seq<char>,
    pub project_directory: Seq<char>,
    pub visibility: Seq<char>,
    pub native_project_id: Option<Seq<char>>,
    pub client_project_grouping: GroupingView,
    pub final_response: Seq<char>,
}

impl View for WireRunResult {
    type V = WireView;

    open spec fn view(&self) -> WireView {
        WireView {
            thread_id: self.thread_id@,
            session_id: self.session_id@,
            project_directory: self.project_directory@,
            visibility: self.visibility@,
            native_project_id: opt(self.native_project_id),
            client_project_grouping: self.client_project_grouping@,
            final_response: self.final_response@,
        }
    }
}

/// What a failed call means before anything could have taken effect.
pub open spec fn mapped(d: DefinitionView, fault: crate::protocol::Fault) -> Fault {
    match fault {
        crate::protocol::Fault::Cancelled => Fault::Interrupted(d.id),
        crate::protocol::Fault::Configuration(m) => misconfigured(m),
        crate::protocol::Fault::Rejected(m) => Fault::TurnFailed(d.id, m),
        crate::protocol::Fault::Protocol(m) => Fault::ProtocolViolation(d.id, m),
        other => Fault::Unavailable(d.id, crate::protocol::fault_message(other)),
    }
}

pub fn map_error(definition: &HarnessDefinition, error: ExtensionError) -> (e: HarnessError)
    ensures
        e@ == mapped(definition@, error@),
{
    let message = error.message();
    match error {
        ExtensionError::Cancelled => HarnessError::Interrupted { harness: definition.id.clone() },
        ExtensionError::Configuration(m) => HarnessError::InvalidConfiguration(m),
        ExtensionError::Rejected(m) => HarnessError::TurnFailed { harness: definition.id.clone(), message: m },
        ExtensionError::Protocol(m) => HarnessError::ProtocolViolation { harness: definition.id.clone(), message: m },
        _ => HarnessError::Unavailable { harness: definition.id.clone(), message },
    }
}

/// A node's result that fits the run.
pub open spec fn wire_valid(q: RunView, w: WireView) -> bool {
    &&& is_project_id(w.thread_id)
    &&& is_project_id(w.session_id)
    &&& is_remote_path(w.project_directory)
    &&& byte_len(w.final_response) <= MAX_RESPONSE_BYTES
    &&& w.visibility == visibility_text(q.visibility)
    &&& w.native_project_id == placed_in(q.placement)
}

/// What a node's result means; `thread` is the one that tools were called from. The
/// directory stays the request's: an explicit node resource reference, never a local path.
pub open spec fn received_run(p: ProviderView, q: RunView, thread: Option<Seq<char>>, w: WireView) -> Result<ResultView, Fault> {
    let d = p.definition;
    if !wire_valid(q, w) {
        Err(run_unknown(d.id, thread, q, "invalid or mismatched remote run result"@))
    } else if thread is Some && thread != Some(w.thread_id) {
        Err(run_unknown(d.id, thread, q, "tool thread differs from returned conversation"@))
    } else {
        match super::projects::grouping_fault(d, q.visibility, w.client_project_grouping) {
            Some(f) => Err(run_unknown(d.id, thread, q, fault_message(f))),
            None => Ok(
                ResultView {
                    harness_id: d.id,
                    adapter: d.adapter,
                    address: d.address,
                    thread_id: w.thread_id,
                    session_id: w.session_id,
                    project_directory: q.project_directory,
                    visibility: q.visibility,
                    native_project_id: w.native_project_id,
                    client_project_grouping: w.client_project_grouping,
                    final_response: w.final_response,
                },
            ),
        }
    }
}

pub open spec fn received_project(p: ProviderView, id: Seq<char>, name: Seq<char>, roots: Seq<LocationView>) -> ProjectView {
    ProjectView { harness_id: p.definition.id, id, name, roots }
}

impl RemoteProvider {
    fn require(&self, registry: &ExtensionRegistry, capability: &str, needed: bool) -> (r: Result<(), HarnessError>)
        requires
            registry.wf(),
        ensures
            reports(r, missing(self@, registry@, capability@, needed)),
    {
        if !needed {
            return Ok(());
        }
        let has = match registry.metadata(&self.node_id) {
            Some(m) => listed(&m.capabilities, capability),
            None => false,
        };
        if has {
            Ok(())
        } else {
            Err(
                HarnessError::Unavailable {
                    harness: self.definition.id.clone(),
                    message: joined("node does not declare ", capability),
                },
            )
        }
    }

    /// Accepts a run and says what the node is sent.
    pub fn run(&self, registry: &ExtensionRegistry, request: HarnessRunRequest, found: &Resolution) -> (r: Result<
        (HarnessRunRequest, Json),
        HarnessError,
    >)
        requires
            registry.wf(),
        ensures
            match accepted_run(self@.definition, request@, found@) {
                Err(f) => r is Err && r->Err_0@ == f,
                Ok(q) => match r {
                    Ok(pair) => run_needs(self@, registry@, q) is None && pair.0@ == q && pair.1@ == run_params(
                        self@.definition,
                        q,
                    ),
                    Err(e) => run_needs(self@, registry@, q) == Some(e@),
                },
            },
    {
        let q = match validate_run_request(&self.definition, request, found) {
            Err(e) => {
                return Err(e);
            },
            Ok(q) => q,
        };
        if let Err(e) = self.require(registry, "text", true) {
            return Err(e);
        }
        if let Err(e) = self.require(registry, "client_visibility", q.visibility == ConversationVisibility::Client) {
            return Err(e);
        }
        if let Err(e) = self.require(registry, "approval", q.role == HarnessRole::Approval) {
            return Err(e);
        }
        if let Err(e) = self.require(registry, "tools", q.tools.len() > 0) {
            return Err(e);
        }
        let placed = q.placement.project_id();
        if let Err(e) = self.require(registry, "projects", placed.is_some()) {
            return Err(e);
        }
        let params = run_json(&self.definition, &q);
        Ok((q, params))
    }

    /// What a failed run call means: only an unknown outcome may have taken effect.
    pub fn run_failed(&self, request: &HarnessRunRequest, thread: Option<String>, error: ExtensionError) -> (e: HarnessError)
        ensures
            e@ == (match error@ {
                crate::protocol::Fault::Unknown { .. } => run_unknown(
                    self@.definition.id,
                    opt(thread),
                    request@,
                    crate::protocol::fault_message(error@),
                ),
                other => mapped(self@.definition, other),
            }),
    {
        let message = error.message();
        match error {
            ExtensionError::Unknown { .. } => conversation_unknown(&self.definition.id, thread, request, message),
            _ => map_error(&self.definition, error),
        }
    }

    /// What a result that cannot be read means: the run may have taken effect.
    pub fn run_unreadable(&self, request: &HarnessRunRequest, thread: Option<String>, message: String) -> (e: HarnessError)
        ensures
            e@ == run_unknown(self@.definition.id, opt(thread), request@, message@),
    {
        conversation_unknown(&self.definition.id, thread, request, message)
    }

    /// Decides what a node's result of an accepted run means.
    pub fn run_result(&self, request: HarnessRunRequest, thread: Option<String>, result: WireRunResult) -> (r: Result<
        HarnessRunResult,
        HarnessError,
    >)
        ensures
            match r {
                Ok(x) => received_run(self@, request@, opt(thread), result@) == Ok::<ResultView, Fault>(x@),
                Err(e) => received_run(self@, request@, opt(thread), result@) == Err::<ResultView, Fault>(e@),
            },
    {
        let placed = request.placement.project_id();
        let project_matches = match &placed {
            None => result.native_project_id.is_none(),
            Some(a) => match &result.native_project_id {
                None => false,
                Some(b) => same(a, b),
            },
        };
        if !valid_project_id(&result.thread_id) || !valid_project_id(&result.session_id) || !valid_remote_path(
            &result.project_directory,
        ) || utf8_len(&result.final_response) > MAX_RESPONSE_BYTES || !same(&result.visibility, visibility(request.visibility))
            || !project_matches {
            return Err(
                conversation_unknown(
                    &self.definition.id,
                    thread,
                    &request,
                    copied("invalid or mismatched remote run result"),
                ),
            );
        }
        let moved = match &thread {
            None => false,
            Some(t) => !same(t, &result.thread_id),
        };
        if moved {
            return Err(
                conversation_unknown(
                    &self.definition.id,
                    thread,
                    &request,
                    copied("tool thread differs from returned conversation"),
                ),
            );
        }
        if let Err(e) = super::projects::validate_client_project_grouping(
            &self.definition,
            request.visibility,
            &result.client_project_grouping,
        ) {
            return Err(conversation_unknown(&self.definition.id, thread, &request, e.message()));
        }
        Ok(
            HarnessRunResult {
                harness_id: self.definition.id.clone(),
                adapter: self.definition.adapter.clone(),
                address: self.definition.address.clone(),
                thread_id: result.thread_id,
                session_id: result.session_id,
                project_directory: request.project_directory,
                visibility: request.visibility,
                native_project_id: result.native_project_id,
                client_project_grouping: result.client_project_grouping,
                final_response: result.final_response,
            },
        )
    }

    /// Accepts a discovery and says what the node is sent.
    pub fn list_projects(&self, registry: &ExtensionRegistry, request: HarnessProjectListRequest, found: &Resolution) -> (r: Result<
        (HarnessProjectListRequest, Json),
        HarnessError,
    >)
        requires
            registry.wf(),
        ensures
            match missing(self@, registry@, "projects"@, true) {
                Some(f) => r is Err && r->Err_0@ == f,
                None => match r {
                    Ok(pair) => accepted_list(self@.definition, request@, found@) == Ok::<ListView, Fault>(pair.0@)
                        && pair.1@ == list_params(pair.0@),
                    Err(e) => accepted_list(self@.definition, request@, found@) == Err::<ListView, Fault>(e@),
                },
            },
    {
        if let Err(e) = self.require(registry, "projects", true) {
            return Err(e);
        }
        match validate_project_list_request(&self.definition, request, found) {
            Err(e) => Err(e),
            Ok(q) => {
                let params = with(object(), "workspace", workspace_json(&q.remote_workspace));
                Ok((q, params))
            },
        }
    }

    /// Checks the shape of a discovery's answer before its items are decoded.
    pub fn check_projects(&self, value: &Json) -> (r: Result<usize, HarnessError>)
        ensures
            match r {
                Ok(n) => value@ is Array && n == value@->Array_0.len() && n <= 512,
                Err(e) => if value@ is Array {
                    value@->Array_0.len() > 512 && e@ == violation(self@.definition, "too many projects"@)
                } else {
                    e@ == violation(self@.definition, "projects result must be array"@)
                },
            },
    {
        match value {
            Json::Array(items) => {
                assert(value@ == Tree::Array(trees(items@)));
                if items.len() > 512 {
                    Err(violate(&self.definition, "too many projects"))
                } else {
                    Ok(items.len())
                }
            },
            _ => Err(violate(&self.definition, "projects result must be array")),
        }
    }

    /// Checks a project that the node reported. Nothing local is looked at.
    pub fn project(&self, wire: WireProject) -> (r: Result<HarnessProject, HarnessError>)
        ensures
            ({
                let p = received_project(self@, wire.id@, wire.name@, locations_of(wire.roots@));
                let n = normalized(Platform::Unix, self@.definition, p, Seq::empty());
                match r {
                    Ok(x) => n == Ok::<ProjectView, Fault>(x@),
                    Err(e) => n == Err::<ProjectView, Fault>(e@),
                }
            }),
    {
        let p = HarnessProject {
            harness_id: self.definition.id.clone(),
            id: wire.id,
            name: wire.name,
            roots: wire.roots,
        };
        let none: Vec<super::projects::Probe> = Vec::new();
        assert(super::projects::probes_of(none@) =~= Seq::<ProbeView>::empty());
        normalize_project(Platform::Unix, &self.definition, p, &none)
    }

    /// Accepts a creation and says what the node is sent.
    pub fn create_project(&self, registry: &ExtensionRegistry, request: HarnessProjectCreateRequest, found: &Resolution) -> (r:
        Result<(HarnessProjectCreateRequest, Json), HarnessError>)
        requires
            registry.wf(),
        ensures
            match missing(self@, registry@, "projects"@, true) {
                Some(f) => r is Err && r->Err_0@ == f,
                None => match r {
                    Ok(pair) => accepted_create(self@.definition, request@, found@) == Ok::<CreateView, Fault>(pair.0@)
                        && pair.1@ == create_params(pair.0@),
                    Err(e) => accepted_create(self@.definition, request@, found@) == Err::<CreateView, Fault>(e@),
                },
            },
    {
        if let Err(e) = self.require(registry, "projects", true) {
            return Err(e);
        }
        match validate_project_create_request(&self.definition, request, found) {
            Err(e) => Err(e),
            Ok(q) => {
                let params = with(
                    with(
                        with(object(), "workspace", workspace_json(&q.remote_workspace)),
                        "name",
                        text_value(&q.name),
                    ),
                    "idempotency_key",
                    text_value(&q.idempotency_key),
                );
                Ok((q, params))
            },
        }
    }

    /// What a failed creation call means: only an unknown outcome may have taken effect.
    pub fn create_failed(&self, request: &HarnessProjectCreateRequest, error: ExtensionError) -> (e: HarnessError)
        ensures
            e@ == (match error@ {
                crate::protocol::Fault::Unknown { .. } => create_unknown(
                    self@.definition.id,
                    request@,
                    None,
                    crate::protocol::fault_message(error@),
                ),
                other => mapped(self@.definition, other),
            }),
    {
        let message = error.message();
        match error {
            ExtensionError::Unknown { .. } => creation_unknown(&self.definition.id, request, None, message),
            _ => map_error(&self.definition, error),
        }
    }

    /// What a created project that does not hold up means: it may have been created.
    pub fn create_unreadable(&self, request: &HarnessProjectCreateRequest, error: &HarnessError) -> (e: HarnessError)
        ensures
            e@ == create_unknown(self@.definition.id, request@, None, fault_message(error@)),
    {
        creation_unknown(&self.definition.id, request, None, error.message())
    }
}

// Tools that a run's node calls back.

/// The conversation that a run's tool calls came from.
pub struct ToolScope {
    pub thread: Option<String>,
    pub turn: Option<String>,
    pub calls: Vec<String>,
}

pub struct ScopeView {
    pub thread: Option<Seq<char>>,
    pub turn: Option<Seq<char>>,
    pub calls: Seq<Seq<char>>,
}

impl View for ToolScope {
    type V = ScopeView;

    open spec fn view(&self) -> ScopeView {
        ScopeView { thread: opt(self.thread), turn: opt(self.turn), calls: texts(self.calls@) }
    }
}

impl Default for ToolScope {
    fn default() -> (r: Self)
        ensures
            r@ == (ScopeView { thread: None, turn: None, calls: Seq::empty() }),
    {
        let r = ToolScope { thread: None, turn: None, calls: Vec::new() };
        assert(r@.calls =~= Seq::<Seq<char>>::empty());
        r
    }
}

/// One call of a tool.
pub struct HarnessToolCall {
    pub harness_id: String,
    pub thread_id: String,
    pub turn_id: String,
    pub call_id: String,
    pub tool: String,
    pub arguments: Json,
}

pub struct CallView {
    pub harness_id: Seq<char>,
    pub thread_id: Seq<char>,
    pub turn_id: Seq<char>,
    pub call_id: Seq<char>,
    pub tool: Seq<char>,
    pub arguments: Tree,
}

impl View for HarnessToolCall {
    type V = CallView;

    open spec fn view(&self) -> CallView {
        CallView {
            harness_id: self.harness_id@,
            thread_id: self.thread_id@,
            turn_id: self.turn_id@,
            call_id: self.call_id@,
            tool: self.tool@,
            arguments: self.arguments@,
        }
    }
}

/// What a tool answers.
pub struct HarnessToolResult {
    pub content: String,
    pub success: bool,
}

pub open spec fn declares_tool(tools: Seq<ToolView>, name: Seq<char>) -> bool {
    exists|i: int| 0 <= i < tools.len() && (#[trigger] tools[i]).name == name
}

/// A call of one of the run's tools with bounded arguments.
pub open spec fn call_valid(harness: Seq<char>, tools: Seq<ToolView>, c: CallView) -> bool {
    &&& c.harness_id == harness
    &&& is_project_id(c.thread_id)
    &&& is_project_id(c.turn_id)
    &&& is_project_id(c.call_id)
    &&& encoded_size(c.arguments) <= 65536
    &&& c.arguments is Object
    &&& declares_tool(tools, c.tool)
}

/// A call that belongs to the conversation so far and was not made before.
pub open spec fn call_fits(s: ScopeView, c: CallView) -> bool {
    &&& s.thread is Some ==> s.thread == Some(c.thread_id)
    &&& s.turn is Some ==> s.turn == Some(c.turn_id)
    &&& s.calls.len() < MAX_TOOL_CALLS
    &&& !s.calls.contains(c.call_id)
}

pub open spec fn call_taken(s: ScopeView, c: CallView) -> ScopeView {
    ScopeView { thread: Some(c.thread_id), turn: Some(c.turn_id), calls: s.calls.push(c.call_id) }
}

pub open spec fn call_fault(harness: Seq<char>, tools: Seq<ToolView>, s: ScopeView, c: CallView) -> Option<
    crate::protocol::Fault,
> {
    if !call_valid(harness, tools, c) {
        Some(crate::protocol::Fault::Rejected("invalid tool scope, arguments or tool name"@))
    } else if !call_fits(s, c) {
        Some(crate::protocol::Fault::Rejected("duplicate tool or changed conversation scope"@))
    } else {
        None
    }
}

fn tool_declared(tools: &Vec<HarnessTool>, name: &str) -> (r: bool)
    ensures
        r == declares_tool(tools_of(tools@), name@),
{
    let ghost all = tools_of(tools@);
    let mut i: usize = 0;
    while i < tools.len()
        invariant
            i <= tools.len(),
            all == tools_of(tools@),
            forall|j: int| 0 <= j < i ==> (#[trigger] all[j]).name != name@,
        decreases tools.len() - i,
    {
        assert(all[i as int] == tools@[i as int]@);
        if same(&tools[i].name, name) {
            return true;
        }
        i = i + 1;
    }
    false
}

/// The one callback that a run's node may make.
pub fn check_tool_method(method: &str) -> (r: Result<(), ExtensionError>)
    ensures
        match r {
            Ok(_) => method@ == "tool"@,
            Err(e) => method@ != "tool"@ && e@ == crate::protocol::Fault::Rejected("only declared host tools are supported"@),
        },
{
    if same(method, "tool") {
        Ok(())
    } else {
        Err(ExtensionError::Rejected(copied("only declared host tools are supported")))
    }
}

impl ToolScope {
    /// Takes a tool call into the conversation; a refused call leaves the scope as it was.
    pub fn take(&mut self, harness_id: &str, tools: &Vec<HarnessTool>, call: &HarnessToolCall) -> (r: Result<(), ExtensionError>)
        ensures
            match r {
                Ok(_) => call_fault(harness_id@, tools_of(tools@), old(self)@, call@) is None && final(self)@ == call_taken(
                    old(self)@,
                    call@,
                ),
                Err(e) => call_fault(harness_id@, tools_of(tools@), old(self)@, call@) == Some(e@) && *final(self)
                    == *old(self),
            },
    {
        let object = match &call.arguments {
            Json::Object(_) => true,
            _ => false,
        };
        if !same(&call.harness_id, harness_id) || !valid_project_id(&call.thread_id) || !valid_project_id(&call.turn_id)
            || !valid_project_id(&call.call_id) || call.arguments.size() > 65536 || !object || !tool_declared(tools, &call.tool) {
            return Err(ExtensionError::Rejected(copied("invalid tool scope, arguments or tool name")));
        }
        let moved = match &self.thread {
            None => false,
            Some(t) => !same(t, &call.thread_id),
        };
        let turned = match &self.turn {
            None => false,
            Some(t) => !same(t, &call.turn_id),
        };
        if moved || turned || self.calls.len() >= MAX_TOOL_CALLS || listed(&self.calls, &call.call_id) {
            return Err(ExtensionError::Rejected(copied("duplicate tool or changed conversation scope")));
        }
        let ghost before = texts(self.calls@);
        self.calls.push(call.call_id.clone());
        assert(texts(self.calls@) =~= before.push(call@.call_id));
        self.thread = Some(call.thread_id.clone());
        self.turn = Some(call.turn_id.clone());
        Ok(())
    }
}

/// What the node is sent for a tool's answer.
pub open spec fn reply_tree(content: Seq<char>, success: bool) -> Tree {
    with_member(with_member(empty_object(), "content"@, Tree::Text(content)), "success"@, Tree::Bool(success))
}

/// Bounds a tool's answer.
pub fn tool_reply(result: &HarnessToolResult) -> (r: Result<Json, ExtensionError>)
    ensures
        match r {
            Ok(v) => byte_len(result.content@) <= MAX_RESPONSE_BYTES && v@ == reply_tree(result.content@, result.success),
            Err(e) => byte_len(result.content@) > MAX_RESPONSE_BYTES && e@ == crate::protocol::Fault::Rejected(
                "tool output exceeds 256 KiB"@,
            ),
        },
{
    if utf8_len(&result.content) > MAX_RESPONSE_BYTES {
        return Err(ExtensionError::Rejected(copied("tool output exceeds 256 KiB")));
    }
    Ok(with(with(object(), "content", text_value(&result.content)), "success", Json::Bool(result.success)))
}

} // verus!
