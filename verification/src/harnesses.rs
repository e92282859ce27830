//! Stable multi-Harness contracts and provider selection.
//!
//! A configured address selects an instance of an adapter that was registered by the
//! trusted host. Provider-specific protocols stay in their adapter.
pub mod laws;
pub mod limits;
pub mod projects;
pub mod provider;
pub mod registry;
pub mod remote;
pub mod requests;

use crate::faults::{earliest, earliest_sticks, either};
use crate::paths::{copied_locations, locations_of, Location, LocationView};
use crate::text::{
    ahead, alphanumeric, ascii_letter, byte_len, controlled, copied, debug_quoted, debug_quoting, decimal, decimal_text, front,
    has_control, is_alphanumeric, is_ascii_letter, is_name, name, opt, path_quoted, path_quoting, same, utf8_len,
};
use vstd::prelude::*;

verus! {

pub const CONFIG_SCHEMA_VERSION: u32 = 1;

pub const MAX_CONFIG_BYTES: u64 = 65536;

pub const MAX_HARNESSES: usize = 64;

pub const MAX_WORKSPACE_ROOTS: usize = 16;

/// Roles share an instance but never share an approval/execution conversation.
#[derive(Debug, Clone, Copy, PartialEq, Eq, Structural)]
pub enum HarnessRole {
    Execution,
    Approval,
}

impl Default for HarnessRole {
    fn default() -> (r: Self)
        ensures
            r == HarnessRole::Execution,
    {
        HarnessRole::Execution
    }
}

/// Whether a provider conversation is stored for a conversation client.
///
/// `Hidden` maps to an ephemeral provider thread. It describes client history,
/// not data privacy: a provider still receives the request.
#[derive(Debug, Clone, Copy, PartialEq, Eq, Structural)]
pub enum ConversationVisibility {
    Hidden,
    Client,
}

/// What has been verified about a separate conversation client's project UI.
#[derive(Debug)]
pub enum ClientProjectGrouping {
    NotApplicable,
    Unverified,
    Confirmed { client_project_id: Option<String> },
}

pub enum GroupingView {
    NotApplicable,
    Unverified,
    Confirmed(Option<Seq<char>>),
}

impl View for ClientProjectGrouping {
    type V = GroupingView;

    open spec fn view(&self) -> GroupingView {
        match self {
            ClientProjectGrouping::NotApplicable => GroupingView::NotApplicable,
            ClientProjectGrouping::Unverified => GroupingView::Unverified,
            ClientProjectGrouping::Confirmed { client_project_id } => GroupingView::Confirmed(opt(*client_project_id)),
        }
    }
}

/// Optional provider-native project assignment for a conversation.
#[derive(Debug, Clone)]
pub enum ConversationPlacement {
    NoNativeProject,
    ExistingProject { harness_id: String, project_id: String },
}

pub enum PlacementView {
    NoNativeProject,
    ExistingProject { harness_id: Seq<char>, project_id: Seq<char> },
}

impl View for ConversationPlacement {
    type V = PlacementView;

    open spec fn view(&self) -> PlacementView {
        match self {
            ConversationPlacement::NoNativeProject => PlacementView::NoNativeProject,
            ConversationPlacement::ExistingProject { harness_id, project_id } => PlacementView::ExistingProject {
                harness_id: harness_id@,
                project_id: project_id@,
            },
        }
    }
}

/// The project that a placement names.
pub open spec fn placed_in(p: PlacementView) -> Option<Seq<char>> {
    match p {
        PlacementView::NoNativeProject => None,
        PlacementView::ExistingProject { project_id, .. } => Some(project_id),
    }
}

impl ConversationPlacement {
    pub fn project_id(&self) -> (r: Option<String>)
        ensures
            opt(r) == placed_in(self@),
    {
        match self {
            ConversationPlacement::NoNativeProject => None,
            ConversationPlacement::ExistingProject { project_id, .. } => Some(project_id.clone()),
        }
    }
}

/// A configured Harness instance. `adapter` names trusted code registered by
/// the host; `address` is interpreted only by that adapter.
pub struct HarnessDefinition {
    pub id: String,
    pub adapter: String,
    pub address: String,
    pub enabled: bool,
    pub workspace_roots: Vec<Location>,
}

pub struct DefinitionView {
    pub id: Seq<char>,
    pub adapter: Seq<char>,
    pub address: Seq<char>,
    pub enabled: bool,
    pub workspace_roots: Seq<LocationView>,
}

impl View for HarnessDefinition {
    type V = DefinitionView;

    open spec fn view(&self) -> DefinitionView {
        DefinitionView {
            id: self.id@,
            adapter: self.adapter@,
            address: self.address@,
            enabled: self.enabled,
            workspace_roots: locations_of(self.workspace_roots@),
        }
    }
}

pub open spec fn definitions_of(list: Seq<HarnessDefinition>) -> Seq<DefinitionView> {
    list.map_values(|d: HarnessDefinition| d@)
}

impl Clone for HarnessDefinition {
    fn clone(&self) -> (r: Self)
        ensures
            r@ == self@,
    {
        HarnessDefinition {
            id: self.id.clone(),
            adapter: self.adapter.clone(),
            address: self.address.clone(),
            enabled: self.enabled,
            workspace_roots: copied_locations(&self.workspace_roots),
        }
    }
}

impl HarnessDefinition {
    /// An enabled instance.
    pub fn new(id: String, adapter: String, address: String, workspace_roots: Vec<Location>) -> (r: Self)
        ensures
            r@ == (DefinitionView {
                id: id@,
                adapter: adapter@,
                address: address@,
                enabled: true,
                workspace_roots: locations_of(workspace_roots@),
            }),
    {
        HarnessDefinition { id, adapter, address, enabled: true, workspace_roots }
    }
}

/// User-editable configuration for a set of named Harness instances.
pub struct HarnessRegistryConfig {
    pub schema_version: u32,
    pub default_harness: Option<String>,
    pub harnesses: Vec<HarnessDefinition>,
}

/// A project creation that may have taken effect.
#[derive(Debug)]
pub struct ProjectCreationUncertainty {
    pub harness: String,
    pub name: String,
    pub root_directory: String,
    pub idempotency_key: String,
    pub project_id: Option<String>,
    pub message: String,
}

/// A conversation that may have taken effect.
#[derive(Debug)]
pub struct ConversationUncertainty {
    pub harness: String,
    pub thread_id: Option<String>,
    pub project_directory: String,
    pub visibility: ConversationVisibility,
    pub native_project_id: Option<String>,
    pub message: String,
}

pub struct CreationView {
    pub harness: Seq<char>,
    pub name: Seq<char>,
    pub root_directory: Seq<char>,
    pub idempotency_key: Seq<char>,
    pub project_id: Option<Seq<char>>,
    pub message: Seq<char>,
}

pub struct ConversationView {
    pub harness: Seq<char>,
    pub thread_id: Option<Seq<char>>,
    pub project_directory: Seq<char>,
    pub visibility: ConversationVisibility,
    pub native_project_id: Option<Seq<char>>,
    pub message: Seq<char>,
}

impl View for ProjectCreationUncertainty {
    type V = CreationView;

    open spec fn view(&self) -> CreationView {
        CreationView {
            harness: self.harness@,
            name: self.name@,
            root_directory: self.root_directory@,
            idempotency_key: self.idempotency_key@,
            project_id: opt(self.project_id),
            message: self.message@,
        }
    }
}

impl View for ConversationUncertainty {
    type V = ConversationView;

    open spec fn view(&self) -> ConversationView {
        ConversationView {
            harness: self.harness@,
            thread_id: opt(self.thread_id),
            project_directory: self.project_directory@,
            visibility: self.visibility,
            native_project_id: opt(self.native_project_id),
            message: self.message@,
        }
    }
}

#[derive(Debug)]
pub enum HarnessError {
    InvalidConfiguration(String),
    DuplicateHarness(String),
    DuplicateAdapter(String),
    UnsupportedAdapter(String),
    UnsupportedAddress { adapter: String, address: String },
    UnknownHarness(String),
    HarnessDisabled(String),
    NoDefaultHarness,
    WorkspaceDenied(String),
    InvalidRequest(String),
    Unavailable { harness: String, message: String },
    AuthenticationRequired { harness: String },
    ProjectDiscoveryUnsupported { harness: String },
    ProjectCreationUnsupported { harness: String },
    ProjectPlacementUnsupported { harness: String },
    UnknownProject { harness: String, project_id: String },
    ProtocolViolation { harness: String, message: String },
    ToolRequestRejected { harness: String, method: String },
    DeadlineExceeded { harness: String, seconds: u64 },
    OutputLimitExceeded { harness: String },
    Interrupted { harness: String },
    TurnFailed { harness: String, message: String },
    ProjectCreationOutcomeUnknown(ProjectCreationUncertainty),
    ConversationOutcomeUnknown(ConversationUncertainty),
}

pub enum Fault {
    InvalidConfiguration(Seq<char>),
    DuplicateHarness(Seq<char>),
    DuplicateAdapter(Seq<char>),
    UnsupportedAdapter(Seq<char>),
    UnsupportedAddress(Seq<char>, Seq<char>),
    UnknownHarness(Seq<char>),
    HarnessDisabled(Seq<char>),
    NoDefaultHarness,
    WorkspaceDenied(Seq<char>),
    InvalidRequest(Seq<char>),
    Unavailable(Seq<char>, Seq<char>),
    AuthenticationRequired(Seq<char>),
    ProjectDiscoveryUnsupported(Seq<char>),
    ProjectCreationUnsupported(Seq<char>),
    ProjectPlacementUnsupported(Seq<char>),
    UnknownProject(Seq<char>, Seq<char>),
    ProtocolViolation(Seq<char>, Seq<char>),
    ToolRequestRejected(Seq<char>, Seq<char>),
    DeadlineExceeded(Seq<char>, u64),
    OutputLimitExceeded(Seq<char>),
    Interrupted(Seq<char>),
    TurnFailed(Seq<char>, Seq<char>),
    ProjectCreationOutcomeUnknown(CreationView),
    ConversationOutcomeUnknown(ConversationView),
}

impl View for HarnessError {
    type V = Fault;

    open spec fn view(&self) -> Fault {
        match self {
            HarnessError::InvalidConfiguration(m) => Fault::InvalidConfiguration(m@),
            HarnessError::DuplicateHarness(m) => Fault::DuplicateHarness(m@),
            HarnessError::DuplicateAdapter(m) => Fault::DuplicateAdapter(m@),
            HarnessError::UnsupportedAdapter(m) => Fault::UnsupportedAdapter(m@),
            HarnessError::UnsupportedAddress { adapter, address } => Fault::UnsupportedAddress(adapter@, address@),
            HarnessError::UnknownHarness(m) => Fault::UnknownHarness(m@),
            HarnessError::HarnessDisabled(m) => Fault::HarnessDisabled(m@),
            HarnessError::NoDefaultHarness => Fault::NoDefaultHarness,
            HarnessError::WorkspaceDenied(m) => Fault::WorkspaceDenied(m@),
            HarnessError::InvalidRequest(m) => Fault::InvalidRequest(m@),
            HarnessError::Unavailable { harness, message } => Fault::Unavailable(harness@, message@),
            HarnessError::AuthenticationRequired { harness } => Fault::AuthenticationRequired(harness@),
            HarnessError::ProjectDiscoveryUnsupported { harness } => Fault::ProjectDiscoveryUnsupported(harness@),
            HarnessError::ProjectCreationUnsupported { harness } => Fault::ProjectCreationUnsupported(harness@),
            HarnessError::ProjectPlacementUnsupported { harness } => Fault::ProjectPlacementUnsupported(harness@),
            HarnessError::UnknownProject { harness, project_id } => Fault::UnknownProject(harness@, project_id@),
            HarnessError::ProtocolViolation { harness, message } => Fault::ProtocolViolation(harness@, message@),
            HarnessError::ToolRequestRejected { harness, method } => Fault::ToolRequestRejected(harness@, method@),
            HarnessError::DeadlineExceeded { harness, seconds } => Fault::DeadlineExceeded(harness@, *seconds),
            HarnessError::OutputLimitExceeded { harness } => Fault::OutputLimitExceeded(harness@),
            HarnessError::Interrupted { harness } => Fault::Interrupted(harness@),
            HarnessError::TurnFailed { harness, message } => Fault::TurnFailed(harness@, message@),
            HarnessError::ProjectCreationOutcomeUnknown(u) => Fault::ProjectCreationOutcomeUnknown(u@),
            HarnessError::ConversationOutcomeUnknown(u) => Fault::ConversationOutcomeUnknown(u@),
        }
    }
}

/// An optional text as debug formatting shows it.
pub open spec fn opt_quoted(text: Option<Seq<char>>) -> Seq<char> {
    match text {
        Some(t) => "Some("@ + debug_quoted(t) + ")"@,
        None => "None"@,
    }
}

pub open spec fn visibility_name(v: ConversationVisibility) -> Seq<char> {
    match v {
        ConversationVisibility::Hidden => "Hidden"@,
        ConversationVisibility::Client => "Client"@,
    }
}

pub open spec fn creation_message(u: CreationView) -> Seq<char> {
    "Harness "@ + u.harness + " project creation may have persisted (name="@ + u.name + ", root="@ + path_quoted(
        u.root_directory,
    ) + ", idempotency_key="@ + u.idempotency_key + ", project_id="@ + opt_quoted(u.project_id) + "): "@ + u.message
}

pub open spec fn conversation_message(u: ConversationView) -> Seq<char> {
    "Harness "@ + u.harness + " conversation may persist after an incomplete run (thread_id="@ + opt_quoted(u.thread_id)
        + ", cwd="@ + path_quoted(u.project_directory) + ", visibility="@ + visibility_name(u.visibility)
        + ", native_project_id="@ + opt_quoted(u.native_project_id) + "): "@ + u.message
}

/// The text shown for a failure.
pub open spec fn fault_message(fault: Fault) -> Seq<char> {
    match fault {
        Fault::InvalidConfiguration(m) => "invalid Harness configuration: "@ + m,
        Fault::DuplicateHarness(m) => "duplicate Harness id: "@ + m,
        Fault::DuplicateAdapter(m) => "duplicate Harness adapter registration: "@ + m,
        Fault::UnsupportedAdapter(m) => "Harness adapter is not installed: "@ + m,
        Fault::UnsupportedAddress(a, b) => "Harness address is not supported by adapter "@ + a + ": "@ + b,
        Fault::UnknownHarness(m) => "unknown Harness: "@ + m,
        Fault::HarnessDisabled(m) => "Harness is disabled: "@ + m,
        Fault::NoDefaultHarness => "no default Harness is configured"@,
        Fault::WorkspaceDenied(m) => "project directory is outside the configured workspace roots: "@ + m,
        Fault::InvalidRequest(m) => "invalid Harness request: "@ + m,
        Fault::Unavailable(h, m) => "Harness "@ + h + " is unavailable: "@ + m,
        Fault::AuthenticationRequired(h) => "Harness "@ + h + " requires authentication"@,
        Fault::ProjectDiscoveryUnsupported(h) => "Harness "@ + h + " does not support provider-native project discovery"@,
        Fault::ProjectCreationUnsupported(h) => "Harness "@ + h + " does not support provider-native project creation"@,
        Fault::ProjectPlacementUnsupported(h) => "Harness "@ + h + " does not support provider-native project placement"@,
        Fault::UnknownProject(h, p) => "Harness "@ + h + " has no provider-native project "@ + p,
        Fault::ProtocolViolation(h, m) => "Harness "@ + h + " protocol violation: "@ + m,
        Fault::ToolRequestRejected(h, m) => "Harness "@ + h + " rejected a server-initiated operation: "@ + m,
        Fault::DeadlineExceeded(h, s) => "Harness "@ + h + " turn exceeded its "@ + decimal(s as nat) + "s deadline"@,
        Fault::OutputLimitExceeded(h) => "Harness "@ + h + " output exceeded the configured limit"@,
        Fault::Interrupted(h) => "Harness "@ + h + " turn was interrupted"@,
        Fault::TurnFailed(h, m) => "Harness "@ + h + " turn failed: "@ + m,
        Fault::ProjectCreationOutcomeUnknown(u) => creation_message(u),
        Fault::ConversationOutcomeUnknown(u) => conversation_message(u),
    }
}

fn opt_quoting(text: &Option<String>) -> (r: String)
    ensures
        r@ == opt_quoted(opt(*text)),
{
    match text {
        Some(t) => three("Some(", &debug_quoting(t), ")"),
        None => copied("None"),
    }
}

fn two(a: &str, b: &str) -> (r: String)
    ensures
        r@ == a@ + b@,
{
    crate::text::joined(a, b)
}

fn three(a: &str, b: &str, c: &str) -> (r: String)
    ensures
        r@ == a@ + b@ + c@,
{
    let mut r = copied(a);
    r.append(b);
    r.append(c);
    r
}

fn four(a: &str, b: &str, c: &str, d: &str) -> (r: String)
    ensures
        r@ == a@ + b@ + c@ + d@,
{
    let mut r = copied(a);
    r.append(b);
    r.append(c);
    r.append(d);
    r
}

impl ProjectCreationUncertainty {
    pub fn message(&self) -> (r: String)
        ensures
            r@ == creation_message(self@),
    {
        let mut r = four("Harness ", &self.harness, " project creation may have persisted (name=", &self.name);
        r.append(", root=");
        r.append(path_quoting(&self.root_directory).as_str());
        r.append(", idempotency_key=");
        r.append(self.idempotency_key.as_str());
        r.append(", project_id=");
        r.append(opt_quoting(&self.project_id).as_str());
        r.append("): ");
        r.append(self.message.as_str());
        r
    }
}

impl ConversationUncertainty {
    pub fn message(&self) -> (r: String)
        ensures
            r@ == conversation_message(self@),
    {
        let mut r = three("Harness ", &self.harness, " conversation may persist after an incomplete run (thread_id=");
        r.append(opt_quoting(&self.thread_id).as_str());
        r.append(", cwd=");
        r.append(path_quoting(&self.project_directory).as_str());
        r.append(", visibility=");
        match self.visibility {
            ConversationVisibility::Hidden => r.append("Hidden"),
            ConversationVisibility::Client => r.append("Client"),
        }
        r.append(", native_project_id=");
        r.append(opt_quoting(&self.native_project_id).as_str());
        r.append("): ");
        r.append(self.message.as_str());
        r
    }
}

impl HarnessError {
    /// The text shown for this failure.
    pub fn message(&self) -> (r: String)
        ensures
            r@ == fault_message(self@),
    {
        match self {
            HarnessError::InvalidConfiguration(m) => two("invalid Harness configuration: ", m),
            HarnessError::DuplicateHarness(m) => two("duplicate Harness id: ", m),
            HarnessError::DuplicateAdapter(m) => two("duplicate Harness adapter registration: ", m),
            HarnessError::UnsupportedAdapter(m) => two("Harness adapter is not installed: ", m),
            HarnessError::UnsupportedAddress { adapter, address } => four(
                "Harness address is not supported by adapter ",
                adapter,
                ": ",
                address,
            ),
            HarnessError::UnknownHarness(m) => two("unknown Harness: ", m),
            HarnessError::HarnessDisabled(m) => two("Harness is disabled: ", m),
            HarnessError::NoDefaultHarness => copied("no default Harness is configured"),
            HarnessError::WorkspaceDenied(m) => two(
                "project directory is outside the configured workspace roots: ",
                m,
            ),
            HarnessError::InvalidRequest(m) => two("invalid Harness request: ", m),
            HarnessError::Unavailable { harness, message } => four("Harness ", harness, " is unavailable: ", message),
            HarnessError::AuthenticationRequired { harness } => three("Harness ", harness, " requires authentication"),
            HarnessError::ProjectDiscoveryUnsupported { harness } => three(
                "Harness ",
                harness,
                " does not support provider-native project discovery",
            ),
            HarnessError::ProjectCreationUnsupported { harness } => three(
                "Harness ",
                harness,
                " does not support provider-native project creation",
            ),
            HarnessError::ProjectPlacementUnsupported { harness } => three(
                "Harness ",
                harness,
                " does not support provider-native project placement",
            ),
            HarnessError::UnknownProject { harness, project_id } => four(
                "Harness ",
                harness,
                " has no provider-native project ",
                project_id,
            ),
            HarnessError::ProtocolViolation { harness, message } => four(
                "Harness ",
                harness,
                " protocol violation: ",
                message,
            ),
            HarnessError::ToolRequestRejected { harness, method } => four(
                "Harness ",
                harness,
                " rejected a server-initiated operation: ",
                method,
            ),
            HarnessError::DeadlineExceeded { harness, seconds } => {
                let mut r = four("Harness ", harness, " turn exceeded its ", &decimal_text(*seconds));
                r.append("s deadline");
                r
            },
            HarnessError::OutputLimitExceeded { harness } => three(
                "Harness ",
                harness,
                " output exceeded the configured limit",
            ),
            HarnessError::Interrupted { harness } => three("Harness ", harness, " turn was interrupted"),
            HarnessError::TurnFailed { harness, message } => four("Harness ", harness, " turn failed: ", message),
            HarnessError::ProjectCreationOutcomeUnknown(u) => u.message(),
            HarnessError::ConversationOutcomeUnknown(u) => u.message(),
        }
    }
}

// Configuration.

pub open spec fn reports(r: Result<(), HarnessError>, fault: Option<Fault>) -> bool {
    match r {
        Ok(_) => fault is None,
        Err(e) => fault == Some(e@),
    }
}

pub open spec fn misconfigured(message: Seq<char>) -> Fault {
    Fault::InvalidConfiguration(message)
}

pub(crate) fn misconfigure(message: &str) -> (e: HarnessError)
    ensures
        e@ == misconfigured(message@),
{
    HarnessError::InvalidConfiguration(copied(message))
}

/// Why an identifier is refused.
pub open spec fn identifier_fault(kind: Seq<char>, value: Seq<char>) -> Option<Fault> {
    if is_name(value, 64) {
        None
    } else {
        Some(misconfigured(kind + " identifier must use 1..=64 ASCII letters, digits, '.', '_' or '-'"@))
    }
}

pub fn validate_identifier(kind: &str, value: &str) -> (r: Result<(), HarnessError>)
    ensures
        reports(r, identifier_fault(kind@, value@)),
{
    if name(value, 64) {
        Ok(())
    } else {
        Err(
            HarnessError::InvalidConfiguration(
                two(kind, " identifier must use 1..=64 ASCII letters, digits, '.', '_' or '-'"),
            ),
        )
    }
}

pub open spec fn is_scheme_char(c: char) -> bool {
    is_alphanumeric(c) || c == '+' || c == '-' || c == '.'
}

/// A letter, followed by letters, digits, `+`, `-` and `.`.
pub open spec fn is_scheme(text: Seq<char>) -> bool {
    &&& text.len() > 0
    &&& is_ascii_letter(text[0])
    &&& forall|i: int| 1 <= i < text.len() ==> is_scheme_char(#[trigger] text[i])
}

/// Why an address is refused.
pub open spec fn address_fault(value: Seq<char>) -> Option<Fault> {
    if value.len() == 0 || byte_len(value) > 2048 || has_control(value) {
        Some(misconfigured("Harness address is empty, too long, or contains control characters"@))
    } else {
        match front(value, "://"@) {
            None => Some(misconfigured("Harness address must include a URI scheme"@)),
            Some(scheme) => if is_scheme(scheme) {
                None
            } else {
                Some(misconfigured("Harness address has an invalid URI scheme"@))
            },
        }
    }
}

fn scheme(text: &str) -> (r: bool)
    ensures
        r == is_scheme(text@),
{
    let list = crate::text::characters(text);
    if list.len() == 0 || !ascii_letter(list[0]) {
        return false;
    }
    let mut i: usize = 1;
    while i < list.len()
        invariant
            1 <= i <= list.len(),
            list@ == text@,
            forall|j: int| 1 <= j < i ==> is_scheme_char(#[trigger] text@[j]),
        decreases list.len() - i,
    {
        let c = list[i];
        if !(alphanumeric(c) || c == '+' || c == '-' || c == '.') {
            assert(!is_scheme_char(text@[i as int]));
            return false;
        }
        i = i + 1;
    }
    true
}

pub fn validate_address(value: &str) -> (r: Result<(), HarnessError>)
    ensures
        reports(r, address_fault(value@)),
{
    if value.is_empty() || utf8_len(value) > 2048 || controlled(value) {
        return Err(misconfigure("Harness address is empty, too long, or contains control characters"));
    }
    match ahead(value, "://") {
        None => Err(misconfigure("Harness address must include a URI scheme")),
        Some(text) => if scheme(&text) {
            Ok(())
        } else {
            Err(misconfigure("Harness address has an invalid URI scheme"))
        },
    }
}

pub open spec fn id_repeats(list: Seq<DefinitionView>, i: int) -> bool {
    exists|j: int| 0 <= j < i && (#[trigger] list[j]).id == list[i].id
}

/// The first instance with this id.
pub open spec fn found(list: Seq<DefinitionView>, id: Seq<char>) -> Option<DefinitionView>
    decreases list.len(),
{
    if list.len() == 0 {
        None
    } else if list[0].id == id {
        Some(list[0])
    } else {
        found(list.drop_first(), id)
    }
}

/// The first rule that one instance breaks.
pub open spec fn definition_fault(list: Seq<DefinitionView>, i: int) -> Option<Fault> {
    let d = list[i];
    either(
        identifier_fault("Harness"@, d.id),
        either(
            identifier_fault("adapter"@, d.adapter),
            either(
                address_fault(d.address),
                if d.workspace_roots.len() == 0 || d.workspace_roots.len() > MAX_WORKSPACE_ROOTS {
                    Some(misconfigured("Harness "@ + d.id + " must contain between 1 and 16 workspace roots"@))
                } else if id_repeats(list, i) {
                    Some(Fault::DuplicateHarness(d.id))
                } else {
                    None
                },
            ),
        ),
    )
}

/// Why the default choice is refused.
pub open spec fn default_fault(list: Seq<DefinitionView>, default: Option<Seq<char>>) -> Option<Fault> {
    match default {
        None => None,
        Some(id) => either(
            identifier_fault("default Harness"@, id),
            match found(list, id) {
                None => Some(misconfigured("default Harness "@ + id + " is not configured"@)),
                Some(d) => if d.enabled {
                    None
                } else {
                    Some(misconfigured("default Harness "@ + id + " is disabled"@))
                },
            },
        ),
    }
}

/// The first rule that a configuration breaks.
pub open spec fn config_fault(schema_version: u32, default: Option<Seq<char>>, list: Seq<DefinitionView>) -> Option<Fault> {
    if schema_version != CONFIG_SCHEMA_VERSION {
        Some(misconfigured("unsupported schema_version "@ + decimal(schema_version as nat) + "; expected 1"@))
    } else if list.len() == 0 || list.len() > MAX_HARNESSES {
        Some(misconfigured("configuration must contain between 1 and 64 Harnesses"@))
    } else {
        either(earliest(list.len(), |i: int| definition_fault(list, i)), default_fault(list, default))
    }
}

impl HarnessRegistryConfig {
    fn repeats(&self, i: usize) -> (r: bool)
        requires
            i < self.harnesses.len(),
        ensures
            r == id_repeats(definitions_of(self.harnesses@), i as int),
    {
        let ghost all = definitions_of(self.harnesses@);
        let mut j: usize = 0;
        while j < i
            invariant
                j <= i < self.harnesses.len(),
                all == definitions_of(self.harnesses@),
                forall|k: int| 0 <= k < j ==> (#[trigger] all[k]).id != all[i as int].id,
            decreases i - j,
        {
            if same(&self.harnesses[j].id, &self.harnesses[i].id) {
                assert(all[j as int].id == all[i as int].id);
                return true;
            }
            assert(all[j as int].id != all[i as int].id);
            j = j + 1;
        }
        false
    }

    fn check(&self, i: usize) -> (r: Result<(), HarnessError>)
        requires
            i < self.harnesses.len(),
        ensures
            reports(r, definition_fault(definitions_of(self.harnesses@), i as int)),
    {
        let d = &self.harnesses[i];
        assert(definitions_of(self.harnesses@)[i as int] == d@);
        if let Err(e) = validate_identifier("Harness", &d.id) {
            return Err(e);
        }
        if let Err(e) = validate_identifier("adapter", &d.adapter) {
            return Err(e);
        }
        if let Err(e) = validate_address(&d.address) {
            return Err(e);
        }
        if d.workspace_roots.len() == 0 || d.workspace_roots.len() > MAX_WORKSPACE_ROOTS {
            return Err(
                HarnessError::InvalidConfiguration(
                    three("Harness ", &d.id, " must contain between 1 and 16 workspace roots"),
                ),
            );
        }
        if self.repeats(i) {
            return Err(HarnessError::DuplicateHarness(d.id.clone()));
        }
        Ok(())
    }

    fn find(&self, id: &str) -> (r: Option<usize>)
        ensures
            match r {
                Some(i) => i < self.harnesses.len() && found(definitions_of(self.harnesses@), id@) == Some(
                    self.harnesses@[i as int]@,
                ),
                None => found(definitions_of(self.harnesses@), id@) is None,
            },
    {
        let ghost all = definitions_of(self.harnesses@);
        let mut i: usize = 0;
        assert(all.skip(0) =~= all);
        while i < self.harnesses.len()
            invariant
                i <= self.harnesses.len(),
                all == definitions_of(self.harnesses@),
                found(all, id@) == found(all.skip(i as int), id@),
            decreases self.harnesses.len() - i,
        {
            assert(all.skip(i as int)[0] == all[i as int]);
            if same(&self.harnesses[i].id, id) {
                return Some(i);
            }
            assert(all.skip(i as int).drop_first() =~= all.skip(i + 1));
            i = i + 1;
        }
        assert(all.skip(i as int).len() == 0);
        None
    }

    fn check_default(&self) -> (r: Result<(), HarnessError>)
        ensures
            reports(r, default_fault(definitions_of(self.harnesses@), opt(self.default_harness))),
    {
        match &self.default_harness {
            None => Ok(()),
            Some(id) => {
                if let Err(e) = validate_identifier("default Harness", id) {
                    return Err(e);
                }
                match self.find(id) {
                    None => Err(
                        HarnessError::InvalidConfiguration(three("default Harness ", id, " is not configured")),
                    ),
                    Some(i) => if self.harnesses[i].enabled {
                        Ok(())
                    } else {
                        Err(HarnessError::InvalidConfiguration(three("default Harness ", id, " is disabled")))
                    },
                }
            },
        }
    }

    /// Checks the registry schema and instance selection without constructing
    /// providers or contacting any configured Harness.
    pub fn validate(&self) -> (r: Result<(), HarnessError>)
        ensures
            reports(r, config_fault(self.schema_version, opt(self.default_harness), definitions_of(self.harnesses@))),
    {
        if self.schema_version != CONFIG_SCHEMA_VERSION {
            return Err(
                HarnessError::InvalidConfiguration(
                    three("unsupported schema_version ", &decimal_text(self.schema_version as u64), "; expected 1"),
                ),
            );
        }
        if self.harnesses.len() == 0 || self.harnesses.len() > MAX_HARNESSES {
            return Err(misconfigure("configuration must contain between 1 and 64 Harnesses"));
        }
        let ghost all = definitions_of(self.harnesses@);
        let ghost f = |i: int| definition_fault(all, i);
        let mut i: usize = 0;
        while i < self.harnesses.len()
            invariant
                i <= self.harnesses.len(),
                self.schema_version == CONFIG_SCHEMA_VERSION,
                0 < all.len() <= MAX_HARNESSES,
                all == definitions_of(self.harnesses@),
                f == (|k: int| definition_fault(all, k)),
                earliest(i as nat, f) is None,
            decreases self.harnesses.len() - i,
        {
            let checked = self.check(i);
            assert(f(i as int) == definition_fault(all, i as int));
            if let Err(e) = checked {
                proof {
                    assert(earliest((i + 1) as nat, f) == f(i as int));
                    earliest_sticks((i + 1) as nat, all.len(), f);
                }
                return Err(e);
            }
            i = i + 1;
        }
        self.check_default()
    }
}

/// Checks the size of a configuration document before it is decoded.
pub fn check_config_size(bytes: u64) -> (r: Result<(), HarnessError>)
    ensures
        match r {
            Ok(_) => bytes <= MAX_CONFIG_BYTES,
            Err(e) => bytes > MAX_CONFIG_BYTES && e@ == misconfigured("Harness configuration exceeds 65536 bytes"@),
        },
{
    if bytes > MAX_CONFIG_BYTES {
        return Err(misconfigure("Harness configuration exceeds 65536 bytes"));
    }
    Ok(())
}

} // verus!
