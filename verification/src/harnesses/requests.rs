//! Requests and what makes one acceptable.
use super::remote::{
    reference, referenced, resource, workspace_fault, workspace_of, RemoteWorkspace, WorkspaceView, REMOTE_NODE_ADAPTER,
};
use super::{
    reports, ConversationPlacement, ConversationVisibility, DefinitionView, Fault, HarnessDefinition, HarnessError,
    HarnessRole, PlacementView,
};
use crate::faults::either;
use crate::json::{encoded_size, group_json, member, Json, Tree};
use crate::paths::{under_any, under_one, Location, LocationView};
use crate::text::{
    alphanumeric, blank, byte_len, controlled, copied, has_control, is_alphanumeric, is_blank, joined, opt, same, trim,
    trimmed, utf8_len,
};
use crate::time::Span;
use vstd::prelude::*;

verus! {

broadcast use group_json;

pub const MAX_PROMPT_BYTES: usize = 65536;

/// Seconds that a turn may take at most, and by default.
pub const MAX_TURN_SECONDS: u64 = 1800;

pub const DEFAULT_TURN_SECONDS: u64 = 180;

#[derive(Clone)]
pub struct HarnessTool {
    pub name: String,
    pub description: String,
    pub input_schema: Json,
}

pub struct ToolView {
    pub name: Seq<char>,
    pub description: Seq<char>,
    pub input_schema: Tree,
}

impl View for HarnessTool {
    type V = ToolView;

    open spec fn view(&self) -> ToolView {
        ToolView { name: self.name@, description: self.description@, input_schema: self.input_schema@ }
    }
}

pub open spec fn tools_of(list: Seq<HarnessTool>) -> Seq<ToolView> {
    list.map_values(|t: HarnessTool| t@)
}

/// What became of looking for a directory.
pub enum Resolution {
    Failed(String),
    Resolved { location: Location, directory: bool },
}

pub enum ResolutionView {
    Failed(Seq<char>),
    Resolved { location: LocationView, directory: bool },
}

impl View for Resolution {
    type V = ResolutionView;

    open spec fn view(&self) -> ResolutionView {
        match self {
            Resolution::Failed(m) => ResolutionView::Failed(m@),
            Resolution::Resolved { location, directory } => ResolutionView::Resolved {
                location: location@,
                directory: *directory,
            },
        }
    }
}

/// One request to create a new provider conversation and run one turn. `cancelled` says
/// whether the caller's cancellation has been raised, `handled` whether a handler for the
/// tools is there.
#[derive(Clone)]
pub struct HarnessRunRequest {
    pub project_directory: Location,
    pub remote_workspace: Option<RemoteWorkspace>,
    pub prompt: String,
    pub model: Option<String>,
    pub timeout: Span,
    pub visibility: ConversationVisibility,
    pub placement: ConversationPlacement,
    pub cancelled: bool,
    pub role: HarnessRole,
    pub tools: Vec<HarnessTool>,
    pub handled: bool,
}

pub struct RunView {
    pub project_directory: LocationView,
    pub remote_workspace: Option<WorkspaceView>,
    pub prompt: Seq<char>,
    pub model: Option<Seq<char>>,
    pub timeout: Span,
    pub visibility: ConversationVisibility,
    pub placement: PlacementView,
    pub cancelled: bool,
    pub role: HarnessRole,
    pub tools: Seq<ToolView>,
    pub handled: bool,
}

impl View for HarnessRunRequest {
    type V = RunView;

    open spec fn view(&self) -> RunView {
        RunView {
            project_directory: self.project_directory@,
            remote_workspace: workspace_of(self.remote_workspace),
            prompt: self.prompt@,
            model: opt(self.model),
            timeout: self.timeout,
            visibility: self.visibility,
            placement: self.placement@,
            cancelled: self.cancelled,
            role: self.role,
            tools: tools_of(self.tools@),
            handled: self.handled,
        }
    }
}

pub open spec fn run_new(directory: LocationView, prompt: Seq<char>, timeout: Span) -> RunView {
    RunView {
        project_directory: directory,
        remote_workspace: None,
        prompt,
        model: None,
        timeout,
        visibility: ConversationVisibility::Client,
        placement: PlacementView::NoNativeProject,
        cancelled: false,
        role: HarnessRole::Execution,
        tools: Seq::empty(),
        handled: false,
    }
}

pub open spec fn default_timeout() -> Span {
    Span { secs: DEFAULT_TURN_SECONDS, nanos: 0 }
}

impl HarnessRunRequest {
    pub fn new(project_directory: Location, prompt: String) -> (r: Self)
        ensures
            r@ == run_new(project_directory@, prompt@, default_timeout()),
    {
        let r = HarnessRunRequest {
            project_directory,
            remote_workspace: None,
            prompt,
            model: None,
            timeout: Span { secs: DEFAULT_TURN_SECONDS, nanos: 0 },
            visibility: ConversationVisibility::Client,
            placement: ConversationPlacement::NoNativeProject,
            cancelled: false,
            role: HarnessRole::Execution,
            tools: Vec::new(),
            handled: false,
        };
        assert(r@.tools =~= Seq::<ToolView>::empty());
        r
    }

    /// Selects a node-owned workspace identifier, never a host filesystem path.
    pub fn remote(node_id: String, workspace_id: String, prompt: String) -> (r: Self)
        ensures
            ({
                let w = WorkspaceView { node_id: node_id@, workspace_id: workspace_id@ };
                r@ == (RunView {
                    remote_workspace: Some(w),
                    ..run_new(referenced(resource(w)), prompt@, default_timeout())
                })
            }),
    {
        let workspace = RemoteWorkspace { node_id, workspace_id };
        let mut r = HarnessRunRequest::new(reference(workspace.resource_path()), prompt);
        r.remote_workspace = Some(workspace);
        r
    }

    pub fn remote_workspace(&self) -> (r: Option<&RemoteWorkspace>)
        ensures
            match r {
                Some(w) => self@.remote_workspace == Some(w@),
                None => self@.remote_workspace is None,
            },
    {
        self.remote_workspace.as_ref()
    }

    /// Sets the role; an approval is always hidden and outside every project.
    pub fn with_role(self, role: HarnessRole) -> (r: Self)
        ensures
            r@ == (if role == HarnessRole::Approval {
                RunView {
                    role,
                    visibility: ConversationVisibility::Hidden,
                    placement: PlacementView::NoNativeProject,
                    ..self@
                }
            } else {
                RunView { role, ..self@ }
            }),
    {
        let mut r = self;
        r.role = role;
        if role == HarnessRole::Approval {
            r.visibility = ConversationVisibility::Hidden;
            r.placement = ConversationPlacement::NoNativeProject;
        }
        r
    }

    pub fn role(&self) -> (r: HarnessRole)
        ensures
            r == self@.role,
    {
        self.role
    }

    /// Offers tools for which a handler is there.
    pub fn with_tools(self, tools: Vec<HarnessTool>) -> (r: Self)
        ensures
            r@ == (RunView { tools: tools_of(tools@), handled: true, ..self@ }),
    {
        let mut r = self;
        r.tools = tools;
        r.handled = true;
        r
    }

    pub fn tools(&self) -> (r: &Vec<HarnessTool>)
        ensures
            tools_of(r@) == self@.tools,
    {
        &self.tools
    }

    pub fn tool_handler(&self) -> (r: bool)
        ensures
            r == self@.handled,
    {
        self.handled
    }

    pub fn with_model(self, model: String) -> (r: Self)
        ensures
            r@ == (RunView { model: Some(model@), ..self@ }),
    {
        let mut r = self;
        r.model = Some(model);
        r
    }

    pub fn with_timeout(self, timeout: Span) -> (r: Self)
        ensures
            r@ == (RunView { timeout, ..self@ }),
    {
        let mut r = self;
        r.timeout = timeout;
        r
    }

    pub fn with_cancellation(self, cancelled: bool) -> (r: Self)
        ensures
            r@ == (RunView { cancelled, ..self@ }),
    {
        let mut r = self;
        r.cancelled = cancelled;
        r
    }

    pub fn cancellation(&self) -> (r: bool)
        ensures
            r == self@.cancelled,
    {
        self.cancelled
    }

    pub fn with_visibility(self, visibility: ConversationVisibility) -> (r: Self)
        ensures
            r@ == (RunView { visibility, ..self@ }),
    {
        let mut r = self;
        r.visibility = visibility;
        r
    }

    pub fn with_placement(self, placement: ConversationPlacement) -> (r: Self)
        ensures
            r@ == (RunView { placement: placement@, ..self@ }),
    {
        let mut r = self;
        r.placement = placement;
        r
    }

    pub fn ephemeral(self, ephemeral: bool) -> (r: Self)
        ensures
            r@ == (RunView {
                visibility: if ephemeral { ConversationVisibility::Hidden } else { ConversationVisibility::Client },
                ..self@
            }),
    {
        let mut r = self;
        r.visibility = if ephemeral { ConversationVisibility::Hidden } else { ConversationVisibility::Client };
        r
    }

    pub fn project_directory(&self) -> (r: &Location)
        ensures
            r@ == self@.project_directory,
    {
        &self.project_directory
    }

    pub fn prompt(&self) -> (r: &str)
        ensures
            r@ == self@.prompt,
    {
        self.prompt.as_str()
    }

    pub fn model(&self) -> (r: Option<&String>)
        ensures
            match r {
                Some(m) => self@.model == Some(m@),
                None => self@.model is None,
            },
    {
        self.model.as_ref()
    }

    pub fn timeout(&self) -> (r: Span)
        ensures
            r == self@.timeout,
    {
        self.timeout
    }

    pub fn visibility(&self) -> (r: ConversationVisibility)
        ensures
            r == self@.visibility,
    {
        self.visibility
    }

    pub fn placement(&self) -> (r: &ConversationPlacement)
        ensures
            r@ == self@.placement,
    {
        &self.placement
    }

    pub fn is_ephemeral(&self) -> (r: bool)
        ensures
            r == (self@.visibility == ConversationVisibility::Hidden),
    {
        self.visibility == ConversationVisibility::Hidden
    }
}

/// Bounded request to discover the projects visible to one Harness instance.
pub struct HarnessProjectListRequest {
    pub context_directory: Location,
    pub remote_workspace: Option<RemoteWorkspace>,
    pub timeout: Span,
    pub cancelled: bool,
}

pub struct ListView {
    pub context_directory: LocationView,
    pub remote_workspace: Option<WorkspaceView>,
    pub timeout: Span,
    pub cancelled: bool,
}

impl View for HarnessProjectListRequest {
    type V = ListView;

    open spec fn view(&self) -> ListView {
        ListView {
            context_directory: self.context_directory@,
            remote_workspace: workspace_of(self.remote_workspace),
            timeout: self.timeout,
            cancelled: self.cancelled,
        }
    }
}

impl HarnessProjectListRequest {
    pub fn new(context_directory: Location) -> (r: Self)
        ensures
            r@ == (ListView {
                context_directory: context_directory@,
                remote_workspace: None,
                timeout: default_timeout(),
                cancelled: false,
            }),
    {
        HarnessProjectListRequest {
            context_directory,
            remote_workspace: None,
            timeout: Span { secs: DEFAULT_TURN_SECONDS, nanos: 0 },
            cancelled: false,
        }
    }

    pub fn remote(node_id: String, workspace_id: String) -> (r: Self)
        ensures
            ({
                let w = WorkspaceView { node_id: node_id@, workspace_id: workspace_id@ };
                r@ == (ListView {
                    context_directory: referenced(resource(w)),
                    remote_workspace: Some(w),
                    timeout: default_timeout(),
                    cancelled: false,
                })
            }),
    {
        let workspace = RemoteWorkspace { node_id, workspace_id };
        let mut r = HarnessProjectListRequest::new(reference(workspace.resource_path()));
        r.remote_workspace = Some(workspace);
        r
    }

    pub fn remote_workspace(&self) -> (r: Option<&RemoteWorkspace>)
        ensures
            match r {
                Some(w) => self@.remote_workspace == Some(w@),
                None => self@.remote_workspace is None,
            },
    {
        self.remote_workspace.as_ref()
    }

    pub fn with_timeout(self, timeout: Span) -> (r: Self)
        ensures
            r@ == (ListView { timeout, ..self@ }),
    {
        let mut r = self;
        r.timeout = timeout;
        r
    }

    pub fn context_directory(&self) -> (r: &Location)
        ensures
            r@ == self@.context_directory,
    {
        &self.context_directory
    }

    pub fn with_cancellation(self, cancelled: bool) -> (r: Self)
        ensures
            r@ == (ListView { cancelled, ..self@ }),
    {
        let mut r = self;
        r.cancelled = cancelled;
        r
    }

    pub fn cancellation(&self) -> (r: bool)
        ensures
            r == self@.cancelled,
    {
        self.cancelled
    }

    pub fn timeout(&self) -> (r: Span)
        ensures
            r == self@.timeout,
    {
        self.timeout
    }
}

/// Request to register one existing, allowed directory as a provider project.
///
/// The idempotency key lets a supporting provider make an explicit create request safe to
/// retry.
#[derive(Clone)]
pub struct HarnessProjectCreateRequest {
    pub name: String,
    pub root_directory: Location,
    pub remote_workspace: Option<RemoteWorkspace>,
    pub idempotency_key: String,
    pub timeout: Span,
    pub cancelled: bool,
}

pub struct CreateView {
    pub name: Seq<char>,
    pub root_directory: LocationView,
    pub remote_workspace: Option<WorkspaceView>,
    pub idempotency_key: Seq<char>,
    pub timeout: Span,
    pub cancelled: bool,
}

impl View for HarnessProjectCreateRequest {
    type V = CreateView;

    open spec fn view(&self) -> CreateView {
        CreateView {
            name: self.name@,
            root_directory: self.root_directory@,
            remote_workspace: workspace_of(self.remote_workspace),
            idempotency_key: self.idempotency_key@,
            timeout: self.timeout,
            cancelled: self.cancelled,
        }
    }
}

impl HarnessProjectCreateRequest {
    pub fn new(name: String, root_directory: Location, idempotency_key: String) -> (r: Self)
        ensures
            r@ == (CreateView {
                name: name@,
                root_directory: root_directory@,
                remote_workspace: None,
                idempotency_key: idempotency_key@,
                timeout: default_timeout(),
                cancelled: false,
            }),
    {
        HarnessProjectCreateRequest {
            name,
            root_directory,
            remote_workspace: None,
            idempotency_key,
            timeout: Span { secs: DEFAULT_TURN_SECONDS, nanos: 0 },
            cancelled: false,
        }
    }

    pub fn remote(node_id: String, workspace_id: String, name: String, idempotency_key: String) -> (r: Self)
        ensures
            ({
                let w = WorkspaceView { node_id: node_id@, workspace_id: workspace_id@ };
                r@ == (CreateView {
                    name: name@,
                    root_directory: referenced(resource(w)),
                    remote_workspace: Some(w),
                    idempotency_key: idempotency_key@,
                    timeout: default_timeout(),
                    cancelled: false,
                })
            }),
    {
        let workspace = RemoteWorkspace { node_id, workspace_id };
        let mut r = HarnessProjectCreateRequest::new(name, reference(workspace.resource_path()), idempotency_key);
        r.remote_workspace = Some(workspace);
        r
    }

    pub fn remote_workspace(&self) -> (r: Option<&RemoteWorkspace>)
        ensures
            match r {
                Some(w) => self@.remote_workspace == Some(w@),
                None => self@.remote_workspace is None,
            },
    {
        self.remote_workspace.as_ref()
    }

    pub fn with_timeout(self, timeout: Span) -> (r: Self)
        ensures
            r@ == (CreateView { timeout, ..self@ }),
    {
        let mut r = self;
        r.timeout = timeout;
        r
    }

    pub fn name(&self) -> (r: &str)
        ensures
            r@ == self@.name,
    {
        self.name.as_str()
    }

    pub fn with_cancellation(self, cancelled: bool) -> (r: Self)
        ensures
            r@ == (CreateView { cancelled, ..self@ }),
    {
        let mut r = self;
        r.cancelled = cancelled;
        r
    }

    pub fn cancellation(&self) -> (r: bool)
        ensures
            r == self@.cancelled,
    {
        self.cancelled
    }

    pub fn root_directory(&self) -> (r: &Location)
        ensures
            r@ == self@.root_directory,
    {
        &self.root_directory
    }

    pub fn idempotency_key(&self) -> (r: &str)
        ensures
            r@ == self@.idempotency_key,
    {
        self.idempotency_key.as_str()
    }

    pub fn timeout(&self) -> (r: Span)
        ensures
            r == self@.timeout,
    {
        self.timeout
    }
}

// Acceptance.

pub open spec fn invalid(message: Seq<char>) -> Fault {
    Fault::InvalidRequest(message)
}

fn refuse(message: &str) -> (e: HarnessError)
    ensures
        e@ == invalid(message@),
{
    HarnessError::InvalidRequest(copied(message))
}

/// A name of between one and `max` bytes without control characters.
pub open spec fn is_label(value: Seq<char>, max: nat) -> bool {
    !is_blank(value) && byte_len(value) <= max && !has_control(value)
}

pub fn label(value: &str, max: usize) -> (r: bool)
    ensures
        r == is_label(value@, max as nat),
{
    !blank(value) && utf8_len(value) <= max && !controlled(value)
}

pub open spec fn is_project_id(value: Seq<char>) -> bool {
    is_label(value, 512)
}

pub fn valid_project_id(value: &str) -> (r: bool)
    ensures
        r == is_project_id(value@),
{
    label(value, 512)
}

pub open spec fn is_project_name(value: Seq<char>) -> bool {
    is_label(value, 256)
}

pub fn valid_project_name(value: &str) -> (r: bool)
    ensures
        r == is_project_name(value@),
{
    label(value, 256)
}

pub open spec fn cancel_fault(d: DefinitionView, cancelled: bool) -> Option<Fault> {
    if cancelled { Some(Fault::Interrupted(d.id)) } else { None }
}

fn check_active(definition: &HarnessDefinition, cancelled: bool) -> (r: Result<(), HarnessError>)
    ensures
        reports(r, cancel_fault(definition@, cancelled)),
{
    if cancelled {
        Err(HarnessError::Interrupted { harness: definition.id.clone() })
    } else {
        Ok(())
    }
}

pub open spec fn timeout_fault(timeout: Span) -> Option<Fault> {
    if timeout.total() == 0 || timeout.total() > MAX_TURN_SECONDS * 1000000000 {
        Some(invalid("timeout must be between 1ns and 1800s"@))
    } else {
        None
    }
}

pub fn validate_timeout(timeout: Span) -> (r: Result<(), HarnessError>)
    ensures
        reports(r, timeout_fault(timeout)),
{
    if timeout.is_zero() || timeout.exceeds(MAX_TURN_SECONDS) {
        return Err(refuse("timeout must be between 1ns and 1800s"));
    }
    Ok(())
}

pub open spec fn is_tool_char(c: char) -> bool {
    is_alphanumeric(c) || c == '_' || c == '-'
}

pub open spec fn is_tool_name(name: Seq<char>) -> bool {
    &&& name.len() > 0
    &&& byte_len(name) <= 64
    &&& forall|i: int| 0 <= i < name.len() ==> is_tool_char(#[trigger] name[i])
}

fn tool_name(text: &str) -> (r: bool)
    ensures
        r == is_tool_name(text@),
{
    if text.is_empty() || utf8_len(text) > 64 {
        return false;
    }
    for c in iter: text.chars()
        invariant
            iter.seq() == text@,
            forall|i: int| 0 <= i < iter.index() ==> is_tool_char(#[trigger] text@[i]),
    {
        if !(alphanumeric(c) || c == '_' || c == '-') {
            assert(!is_tool_char(text@[iter.index()]));
            return false;
        }
    }
    true
}

pub open spec fn name_repeats(tools: Seq<ToolView>, i: int) -> bool {
    exists|j: int| 0 <= j < i && (#[trigger] tools[j]).name == tools[i].name
}

pub open spec fn tool_valid(tools: Seq<ToolView>, i: int) -> bool {
    let t = tools[i];
    &&& is_tool_name(t.name)
    &&& !name_repeats(tools, i)
    &&& !is_blank(t.description) && byte_len(t.description) <= 4096
    &&& t.input_schema is Object
    &&& member(t.input_schema, "type"@) == Some(Tree::Text("object"@))
}

pub open spec fn tools_valid(tools: Seq<ToolView>) -> bool {
    forall|i: int| 0 <= i < tools.len() ==> #[trigger] tool_valid(tools, i)
}

/// Bytes of the schemas of the first `n` tools.
pub open spec fn schema_bytes(tools: Seq<ToolView>, n: nat) -> nat
    decreases n,
{
    if n == 0 {
        0
    } else {
        schema_bytes(tools, (n - 1) as nat) + encoded_size(tools[n - 1].input_schema)
    }
}

/// Why the tools of a run are refused.
pub open spec fn tools_fault(q: RunView) -> Option<Fault> {
    if q.role == HarnessRole::Approval && (q.tools.len() > 0 || q.handled || q.visibility != ConversationVisibility::Hidden
        || q.placement != PlacementView::NoNativeProject) {
        Some(invalid("approval runs require a fresh hidden conversation without tools or native project"@))
    } else if q.tools.len() > 32 || (q.tools.len() == 0) == q.handled {
        Some(invalid("tools require a handler and between 1 and 32 definitions"@))
    } else if !tools_valid(q.tools) {
        Some(invalid("invalid or duplicate host tool definition"@))
    } else if schema_bytes(q.tools, q.tools.len()) > 65536 {
        Some(invalid("host tool schemas exceed 64 KiB"@))
    } else {
        None
    }
}

fn repeats(tools: &Vec<HarnessTool>, i: usize) -> (r: bool)
    requires
        i < tools.len(),
    ensures
        r == name_repeats(tools_of(tools@), i as int),
{
    let ghost all = tools_of(tools@);
    let mut j: usize = 0;
    while j < i
        invariant
            j <= i < tools.len(),
            all == tools_of(tools@),
            forall|k: int| 0 <= k < j ==> (#[trigger] all[k]).name != all[i as int].name,
        decreases i - j,
    {
        if same(&tools[j].name, &tools[i].name) {
            assert(all[j as int].name == all[i as int].name);
            return true;
        }
        assert(all[j as int].name != all[i as int].name);
        j = j + 1;
    }
    false
}

fn tool_ok(tools: &Vec<HarnessTool>, i: usize) -> (r: bool)
    requires
        i < tools.len(),
    ensures
        r == tool_valid(tools_of(tools@), i as int),
{
    let t = &tools[i];
    assert(tools_of(tools@)[i as int] == t@);
    if !tool_name(&t.name) || repeats(tools, i) || blank(&t.description) || utf8_len(&t.description) > 4096 {
        return false;
    }
    let object = match &t.input_schema {
        Json::Object(_) => true,
        _ => false,
    };
    if !object {
        return false;
    }
    match t.input_schema.get("type") {
        Some(v) => match v {
            Json::Text(s) => same(s, "object"),
            _ => false,
        },
        None => false,
    }
}

fn check_tools(tools: &Vec<HarnessTool>) -> (r: Result<(), HarnessError>)
    ensures
        ({
            let all = tools_of(tools@);
            reports(
                r,
                if !tools_valid(all) {
                    Some(invalid("invalid or duplicate host tool definition"@))
                } else if schema_bytes(all, all.len()) > 65536 {
                    Some(invalid("host tool schemas exceed 64 KiB"@))
                } else {
                    None
                },
            )
        }),
{
    let ghost all = tools_of(tools@);
    let mut total: usize = 0;
    let mut over = false;
    let mut i: usize = 0;
    while i < tools.len()
        invariant
            i <= tools.len(),
            all == tools_of(tools@),
            forall|k: int| 0 <= k < i ==> #[trigger] tool_valid(all, k),
            !over ==> total == schema_bytes(all, i as nat) && total <= 65536,
            over ==> schema_bytes(all, i as nat) > 65536,
        decreases tools.len() - i,
    {
        if !tool_ok(tools, i) {
            assert(!tool_valid(all, i as int));
            return Err(refuse("invalid or duplicate host tool definition"));
        }
        let size = tools[i].input_schema.size();
        assert(all[i as int] == tools@[i as int]@);
        if over || size > 65536 - total {
            over = true;
        } else {
            total = total + size;
        }
        i = i + 1;
    }
    if over {
        return Err(refuse("host tool schemas exceed 64 KiB"));
    }
    Ok(())
}

/// Checks the tools of a run.
pub fn validate_run_tools(request: &HarnessRunRequest) -> (r: Result<(), HarnessError>)
    ensures
        reports(r, tools_fault(request@)),
{
    let placed = match &request.placement {
        ConversationPlacement::NoNativeProject => false,
        _ => true,
    };
    if request.role == HarnessRole::Approval && (request.tools.len() > 0 || request.handled || request.visibility
        != ConversationVisibility::Hidden || placed) {
        return Err(refuse("approval runs require a fresh hidden conversation without tools or native project"));
    }
    if request.tools.len() > 32 || (request.tools.len() == 0) == request.handled {
        return Err(refuse("tools require a handler and between 1 and 32 definitions"));
    }
    check_tools(&request.tools)
}

pub open spec fn placement_fault(d: DefinitionView, visibility: ConversationVisibility, p: PlacementView) -> Option<Fault> {
    match p {
        PlacementView::NoNativeProject => None,
        PlacementView::ExistingProject { harness_id, project_id } => if visibility == ConversationVisibility::Hidden {
            Some(invalid("a hidden conversation cannot request a provider-native project"@))
        } else if harness_id != d.id {
            Some(invalid("provider-native project belongs to Harness "@ + harness_id + ", not "@ + d.id))
        } else if !is_project_id(project_id) {
            Some(invalid("project id must contain 1..=512 bytes and no control characters"@))
        } else {
            None
        },
    }
}

pub fn validate_placement(
    definition: &HarnessDefinition,
    visibility: ConversationVisibility,
    placement: &ConversationPlacement,
) -> (r: Result<(), HarnessError>)
    ensures
        reports(r, placement_fault(definition@, visibility, placement@)),
{
    match placement {
        ConversationPlacement::NoNativeProject => Ok(()),
        ConversationPlacement::ExistingProject { harness_id, project_id } => {
            if visibility == ConversationVisibility::Hidden {
                return Err(refuse("a hidden conversation cannot request a provider-native project"));
            }
            if !same(harness_id, &definition.id) {
                let mut text = joined("provider-native project belongs to Harness ", harness_id);
                text.append(", not ");
                text.append(definition.id.as_str());
                return Err(HarnessError::InvalidRequest(text));
            }
            if !valid_project_id(project_id) {
                return Err(refuse("project id must contain 1..=512 bytes and no control characters"));
            }
            Ok(())
        },
    }
}

/// The directory that a request runs in, or why there is none.
pub open spec fn directory_for(
    d: DefinitionView,
    remote: Option<WorkspaceView>,
    found: ResolutionView,
    kind: Seq<char>,
) -> Result<LocationView, Fault> {
    if d.adapter == REMOTE_NODE_ADAPTER@ {
        match remote {
            None => Err(invalid("remote Harness requires an explicit node-owned workspace"@)),
            Some(w) => match workspace_fault(w, d) {
                Some(f) => Err(f),
                None => Ok(referenced(resource(w))),
            },
        }
    } else if remote is Some {
        Err(invalid("local Harness does not accept remote workspaces"@))
    } else {
        match found {
            ResolutionView::Failed(m) => Err(invalid("cannot resolve "@ + kind + ": "@ + m)),
            ResolutionView::Resolved { location, directory } => if !directory {
                Err(invalid(kind + " must be an existing directory"@))
            } else if !under_any(location.parts, d.workspace_roots) {
                Err(Fault::WorkspaceDenied(location.text))
            } else {
                Ok(location)
            },
        }
    }
}

/// Decides on a request's directory; `found` is what became of looking for it.
pub fn validate_directory(
    definition: &HarnessDefinition,
    remote: &Option<RemoteWorkspace>,
    found: &Resolution,
    kind: &str,
) -> (r: Result<Location, HarnessError>)
    ensures
        match r {
            Ok(l) => directory_for(definition@, workspace_of(*remote), found@, kind@) == Ok::<LocationView, Fault>(l@),
            Err(e) => directory_for(definition@, workspace_of(*remote), found@, kind@) == Err::<LocationView, Fault>(e@),
        },
{
    if same(&definition.adapter, REMOTE_NODE_ADAPTER) {
        return match remote {
            None => Err(refuse("remote Harness requires an explicit node-owned workspace")),
            Some(w) => match w.validate(definition) {
                Err(e) => Err(e),
                Ok(_) => Ok(reference(w.resource_path())),
            },
        };
    }
    if remote.is_some() {
        return Err(refuse("local Harness does not accept remote workspaces"));
    }
    match found {
        Resolution::Failed(m) => {
            let mut text = joined("cannot resolve ", kind);
            text.append(": ");
            text.append(m.as_str());
            Err(HarnessError::InvalidRequest(text))
        },
        Resolution::Resolved { location, directory } => if !*directory {
            Err(HarnessError::InvalidRequest(joined(kind, " must be an existing directory")))
        } else if !under_one(&location.parts, &definition.workspace_roots) {
            Err(HarnessError::WorkspaceDenied(location.text.clone()))
        } else {
            Ok(location.clone())
        },
    }
}

pub open spec fn model_fault(model: Option<Seq<char>>) -> Option<Fault> {
    match model {
        None => None,
        Some(m) => if m.len() == 0 || byte_len(m) > 128 || has_control(m) {
            Some(invalid("model identifier is invalid"@))
        } else {
            None
        },
    }
}

pub open spec fn prompt_fault(prompt: Seq<char>) -> Option<Fault> {
    if is_blank(prompt) {
        Some(invalid("prompt must not be empty"@))
    } else if byte_len(prompt) > MAX_PROMPT_BYTES {
        Some(invalid("prompt exceeds 65536 bytes"@))
    } else {
        None
    }
}

/// The accepted run with its resolved directory, or the first rule that it breaks.
pub open spec fn accepted_run(d: DefinitionView, q: RunView, found: ResolutionView) -> Result<RunView, Fault> {
    let fault = either(
        cancel_fault(d, q.cancelled),
        either(
            tools_fault(q),
            either(
                prompt_fault(q.prompt),
                either(
                    timeout_fault(q.timeout),
                    either(model_fault(q.model), placement_fault(d, q.visibility, q.placement)),
                ),
            ),
        ),
    );
    match fault {
        Some(f) => Err(f),
        None => match directory_for(d, q.remote_workspace, found, "project directory"@) {
            Err(f) => Err(f),
            Ok(l) => Ok(RunView { project_directory: l, ..q }),
        },
    }
}

/// Accepts a run for an instance; its directory becomes the resolved one.
pub fn validate_run_request(definition: &HarnessDefinition, request: HarnessRunRequest, found: &Resolution) -> (r: Result<
    HarnessRunRequest,
    HarnessError,
>)
    ensures
        match r {
            Ok(q) => accepted_run(definition@, request@, found@) == Ok::<RunView, Fault>(q@),
            Err(e) => accepted_run(definition@, request@, found@) == Err::<RunView, Fault>(e@),
        },
{
    if let Err(e) = check_active(definition, request.cancelled) {
        return Err(e);
    }
    if let Err(e) = validate_run_tools(&request) {
        return Err(e);
    }
    if blank(&request.prompt) {
        return Err(refuse("prompt must not be empty"));
    }
    if utf8_len(&request.prompt) > MAX_PROMPT_BYTES {
        return Err(refuse("prompt exceeds 65536 bytes"));
    }
    if let Err(e) = validate_timeout(request.timeout) {
        return Err(e);
    }
    if let Some(m) = &request.model {
        if m.as_str().is_empty() || utf8_len(m) > 128 || controlled(m) {
            return Err(refuse("model identifier is invalid"));
        }
    }
    if let Err(e) = validate_placement(definition, request.visibility, &request.placement) {
        return Err(e);
    }
    match validate_directory(definition, &request.remote_workspace, found, "project directory") {
        Err(e) => Err(e),
        Ok(l) => {
            let mut q = request;
            q.project_directory = l;
            Ok(q)
        },
    }
}

/// The accepted discovery, or the first rule that it breaks.
pub open spec fn accepted_list(d: DefinitionView, q: ListView, found: ResolutionView) -> Result<ListView, Fault> {
    match either(cancel_fault(d, q.cancelled), timeout_fault(q.timeout)) {
        Some(f) => Err(f),
        None => match directory_for(d, q.remote_workspace, found, "project discovery context directory"@) {
            Err(f) => Err(f),
            Ok(l) => Ok(ListView { context_directory: l, ..q }),
        },
    }
}

pub fn validate_project_list_request(
    definition: &HarnessDefinition,
    request: HarnessProjectListRequest,
    found: &Resolution,
) -> (r: Result<HarnessProjectListRequest, HarnessError>)
    ensures
        match r {
            Ok(q) => accepted_list(definition@, request@, found@) == Ok::<ListView, Fault>(q@),
            Err(e) => accepted_list(definition@, request@, found@) == Err::<ListView, Fault>(e@),
        },
{
    if let Err(e) = check_active(definition, request.cancelled) {
        return Err(e);
    }
    if let Err(e) = validate_timeout(request.timeout) {
        return Err(e);
    }
    match validate_directory(definition, &request.remote_workspace, found, "project discovery context directory") {
        Err(e) => Err(e),
        Ok(l) => {
            let mut q = request;
            q.context_directory = l;
            Ok(q)
        },
    }
}

/// The accepted creation, or the first rule that it breaks.
pub open spec fn accepted_create(d: DefinitionView, q: CreateView, found: ResolutionView) -> Result<CreateView, Fault> {
    match either(cancel_fault(d, q.cancelled), timeout_fault(q.timeout)) {
        Some(f) => Err(f),
        None => if !is_project_name(trimmed(q.name)) {
            Err(invalid("project name must contain 1..=256 bytes and no control characters"@))
        } else if !is_label(q.idempotency_key, 512) {
            Err(invalid("project idempotency key must contain 1..=512 bytes and no control characters"@))
        } else {
            match directory_for(d, q.remote_workspace, found, "project root directory"@) {
                Err(f) => Err(f),
                Ok(l) => Ok(CreateView { name: trimmed(q.name), root_directory: l, ..q }),
            }
        },
    }
}

pub fn validate_project_create_request(
    definition: &HarnessDefinition,
    request: HarnessProjectCreateRequest,
    found: &Resolution,
) -> (r: Result<HarnessProjectCreateRequest, HarnessError>)
    ensures
        match r {
            Ok(q) => accepted_create(definition@, request@, found@) == Ok::<CreateView, Fault>(q@),
            Err(e) => accepted_create(definition@, request@, found@) == Err::<CreateView, Fault>(e@),
        },
{
    if let Err(e) = check_active(definition, request.cancelled) {
        return Err(e);
    }
    if let Err(e) = validate_timeout(request.timeout) {
        return Err(e);
    }
    let name = trim(&request.name);
    if !valid_project_name(&name) {
        return Err(refuse("project name must contain 1..=256 bytes and no control characters"));
    }
    if !label(&request.idempotency_key, 512) {
        return Err(refuse("project idempotency key must contain 1..=512 bytes and no control characters"));
    }
    match validate_directory(definition, &request.remote_workspace, found, "project root directory") {
        Err(e) => Err(e),
        Ok(l) => {
            let mut q = request;
            q.name = name;
            q.root_directory = l;
            Ok(q)
        },
    }
}

} // verus!
