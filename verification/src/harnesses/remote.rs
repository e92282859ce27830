//! Vendor-neutral Harness mapping over the extension protocol.
use super::{misconfigure, misconfigured, reports, DefinitionView, Fault, HarnessDefinition, HarnessError};
use crate::paths::{locations_of, Location, LocationView, Part, PartView};
use crate::protocol::{is_id, valid_id};
use crate::text::{
    ascii_letter, begins, byte_len, characters, controlled, copied, has_control, is_ascii_letter, joined, same, starts_with,
    strip, utf8_len,
};
use vstd::prelude::*;

verus! {

pub const REMOTE_NODE_ADAPTER: &'static str = "remote-node";

/// A workspace that a node owns: identifiers, never a host path.
#[derive(Debug)]
pub struct RemoteWorkspace {
    pub node_id: String,
    pub workspace_id: String,
}

pub struct WorkspaceView {
    pub node_id: Seq<char>,
    pub workspace_id: Seq<char>,
}

impl View for RemoteWorkspace {
    type V = WorkspaceView;

    open spec fn view(&self) -> WorkspaceView {
        WorkspaceView { node_id: self.node_id@, workspace_id: self.workspace_id@ }
    }
}

impl Clone for RemoteWorkspace {
    fn clone(&self) -> (r: Self)
        ensures
            r@ == self@,
    {
        RemoteWorkspace { node_id: self.node_id.clone(), workspace_id: self.workspace_id.clone() }
    }
}

pub open spec fn workspace_of(w: Option<RemoteWorkspace>) -> Option<WorkspaceView> {
    match w {
        Some(w) => Some(w@),
        None => None,
    }
}

/// The reference of a node-owned workspace.
pub open spec fn resource(w: WorkspaceView) -> Seq<char> {
    "node://"@ + w.node_id + "/"@ + w.workspace_id
}

/// A reference as a directory: one name, which no local path is.
pub open spec fn referenced(text: Seq<char>) -> LocationView {
    LocationView { text, parts: seq![PartView::Name(text)] }
}

pub fn reference(text: String) -> (r: Location)
    ensures
        r@ == referenced(text@),
{
    let mut parts: Vec<Part> = Vec::new();
    parts.push(Part::Name(text.clone()));
    let r = Location { text, parts };
    assert(r@.parts =~= seq![PartView::Name(text@)]);
    r
}

/// A root whose text is the workspace's id is configured.
pub open spec fn names_root(roots: Seq<LocationView>, id: Seq<char>) -> bool {
    exists|i: int| 0 <= i < roots.len() && (#[trigger] roots[i]).text == id
}

pub fn root_named(roots: &Vec<Location>, id: &str) -> (r: bool)
    ensures
        r == names_root(locations_of(roots@), id@),
{
    let ghost all = locations_of(roots@);
    let mut i: usize = 0;
    while i < roots.len()
        invariant
            i <= roots.len(),
            all == locations_of(roots@),
            forall|j: int| 0 <= j < i ==> (#[trigger] all[j]).text != id@,
        decreases roots.len() - i,
    {
        assert(all[i as int] == roots@[i as int]@);
        if same(&roots[i].text, id) {
            return true;
        }
        i = i + 1;
    }
    false
}

/// Why a workspace is outside an instance's scope.
pub open spec fn workspace_fault(w: WorkspaceView, d: DefinitionView) -> Option<Fault> {
    if is_id(w.node_id) && is_id(w.workspace_id) && d.address == "node://"@ + w.node_id && names_root(
        d.workspace_roots,
        w.workspace_id,
    ) {
        None
    } else {
        Some(Fault::InvalidRequest("node/workspace is not in the selected Harness scope"@))
    }
}

impl RemoteWorkspace {
    /// The reference of this workspace.
    pub fn resource_path(&self) -> (r: String)
        ensures
            r@ == resource(self@),
    {
        let mut r = joined("node://", &self.node_id);
        r.append("/");
        r.append(self.workspace_id.as_str());
        r
    }

    /// Checks that the workspace is in an instance's scope.
    pub fn validate(&self, definition: &HarnessDefinition) -> (r: Result<(), HarnessError>)
        ensures
            reports(r, workspace_fault(self@, definition@)),
    {
        let address = joined("node://", &self.node_id);
        if !valid_id(&self.node_id) || !valid_id(&self.workspace_id) || !same(&definition.address, &address) || !root_named(
            &definition.workspace_roots,
            &self.workspace_id,
        ) {
            return Err(HarnessError::InvalidRequest(copied("node/workspace is not in the selected Harness scope")));
        }
        Ok(())
    }
}

pub open spec fn roots_are_ids(roots: Seq<LocationView>) -> bool {
    forall|i: int| 0 <= i < roots.len() ==> is_id((#[trigger] roots[i]).text)
}

/// The node that an address names.
pub open spec fn node_of(address: Seq<char>) -> Seq<char> {
    address.skip("node://"@.len() as int)
}

/// Why an instance cannot be a node's.
pub open spec fn remote_definition_fault(d: DefinitionView) -> Option<Fault> {
    if !starts_with(d.address, "node://"@) {
        Some(Fault::UnsupportedAddress(d.adapter, d.address))
    } else if !is_id(node_of(d.address)) || !roots_are_ids(d.workspace_roots) {
        Some(misconfigured("remote address must be node://ID and workspace_roots must contain workspace IDs"@))
    } else {
        None
    }
}

fn ids_only(roots: &Vec<Location>) -> (r: bool)
    ensures
        r == roots_are_ids(locations_of(roots@)),
{
    let ghost all = locations_of(roots@);
    let mut i: usize = 0;
    while i < roots.len()
        invariant
            i <= roots.len(),
            all == locations_of(roots@),
            forall|j: int| 0 <= j < i ==> is_id((#[trigger] all[j]).text),
        decreases roots.len() - i,
    {
        assert(all[i as int] == roots@[i as int]@);
        if !valid_id(&roots[i].text) {
            return false;
        }
        i = i + 1;
    }
    true
}

/// Checks that an instance can be a node's.
pub fn validate_remote_definition(definition: &HarnessDefinition) -> (r: Result<(), HarnessError>)
    ensures
        reports(r, remote_definition_fault(definition@)),
{
    match strip(&definition.address, "node://") {
        None => Err(
            HarnessError::UnsupportedAddress { adapter: definition.adapter.clone(), address: definition.address.clone() },
        ),
        Some(id) => if !valid_id(&id) || !ids_only(&definition.workspace_roots) {
            Err(misconfigure("remote address must be node://ID and workspace_roots must contain workspace IDs"))
        } else {
            Ok(())
        },
    }
}

/// A drive letter, a colon and a separator.
pub open spec fn has_drive(text: Seq<char>) -> bool {
    text.len() > 2 && is_ascii_letter(text[0]) && text[1] == ':' && (text[2] == '\\' || text[2] == '/')
}

/// A path that a node may report: bounded, absolute and without control characters.
pub open spec fn is_remote_path(text: Seq<char>) -> bool {
    &&& text.len() > 0
    &&& byte_len(text) <= 4096
    &&& !has_control(text)
    &&& starts_with(text, "/"@) || starts_with(text, "\\\\"@) || has_drive(text)
}

pub fn valid_remote_path(text: &str) -> (r: bool)
    ensures
        r == is_remote_path(text@),
{
    let list = characters(text);
    let drive = list.len() > 2 && ascii_letter(list[0]) && list[1] == ':' && (list[2] == '\\' || list[2] == '/');
    !text.is_empty() && utf8_len(text) <= 4096 && !controlled(text) && (begins(text, "/") || begins(text, "\\\\") || drive)
}

} // verus!
