//! Which extensions take part, what they own, and who may call what.
use super::{
    config_fault, extensions_of, metadata_fault, validate_metadata, view_capability, view_method, AllowedMethod, AllowedView,
    ExtensionDefinition, ExtensionStatus, ExtensionView, ExtensionsConfig, MonitoringViewRegistration, RegistrationView,
    StatusView,
};
use crate::framework::calls::{dispatch_message, DispatchError, DispatchFault};
use crate::json::values::{empty_object, object, with};
use crate::json::{Json, Tree};
use crate::monitors::config::reserved_contract;
use crate::monitors::config::contract_reserved;
use crate::protocol::schema::{check_fault, validate_value};
use crate::protocol::{
    same_contract, ContractDeclaration, ContractView, ExtensionCall, ExtensionError, ExtensionKind, ExtensionMetadata, Fault,
    MetadataView, MethodDeclaration, MethodView,
};
use crate::table::Table;
use crate::text::{begins, copied, joined, listed, same, starts_with, texts};
use crate::time::Span;
use vstd::prelude::*;

verus! {

/// Calls of one extension that may run at the same time, by role.
pub const ORDINARY_CALLS: usize = 4;
pub const MONITORING_VIEW_CALLS: usize = 1;
pub const APPROVAL_CALLS: usize = 2;

pub struct Entry {
    pub definition: ExtensionDefinition,
    pub metadata: ExtensionMetadata,
}

pub struct OwnedContract {
    pub contract: ContractDeclaration,
    pub owner: String,
}

pub struct ExtensionRegistry {
    pub definitions: Vec<ExtensionDefinition>,
    pub statuses: Vec<ExtensionStatus>,
    pub entries: Table<Entry>,
    pub contracts: Vec<OwnedContract>,
}

pub struct EntryView {
    pub definition: ExtensionView,
    pub metadata: MetadataView,
}

pub struct OwnedView {
    pub contract: ContractView,
    pub owner: Seq<char>,
}

pub struct RegistryView {
    pub definitions: Seq<ExtensionView>,
    pub statuses: Seq<StatusView>,
    pub entries: Map<Seq<char>, EntryView>,
    pub contracts: Seq<OwnedView>,
}

impl View for Entry {
    type V = EntryView;

    open spec fn view(&self) -> EntryView {
        EntryView { definition: self.definition@, metadata: self.metadata@ }
    }
}

impl View for OwnedContract {
    type V = OwnedView;

    open spec fn view(&self) -> OwnedView {
        OwnedView { contract: self.contract@, owner: self.owner@ }
    }
}

pub open spec fn owned_of(list: Seq<OwnedContract>) -> Seq<OwnedView> {
    list.map_values(|o: OwnedContract| o@)
}

pub open spec fn statuses_of(list: Seq<ExtensionStatus>) -> Seq<StatusView> {
    list.map_values(|s: ExtensionStatus| s@)
}

impl View for ExtensionRegistry {
    type V = RegistryView;

    open spec fn view(&self) -> RegistryView {
        RegistryView {
            definitions: extensions_of(self.definitions@),
            statuses: statuses_of(self.statuses@),
            entries: self.entries@.map_values(|e: Entry| e@),
            contracts: owned_of(self.contracts@),
        }
    }
}

// Registration.

/// The enabled extensions of one kind, in their order, among the first `n`.
pub open spec fn enabled_of(list: Seq<ExtensionView>, kind: ExtensionKind, n: nat) -> Seq<ExtensionView>
    decreases n,
{
    if n == 0 {
        Seq::empty()
    } else {
        let front = enabled_of(list, kind, (n - 1) as nat);
        if list[n - 1].enabled && list[n - 1].kind == kind { front.push(list[n - 1]) } else { front }
    }
}

/// The order of registration: plugins own new contracts, nodes implement them.
pub open spec fn connect_sequence(list: Seq<ExtensionView>) -> Seq<ExtensionView> {
    enabled_of(list, ExtensionKind::Plugin, list.len()) + enabled_of(list, ExtensionKind::Node, list.len())
}

/// The registered contract of an id and version.
pub open spec fn registered(list: Seq<OwnedView>, id: Seq<char>, version: u32) -> Option<OwnedView>
    decreases list.len(),
{
    if list.len() == 0 {
        None
    } else if list.last().contract.id == id && list.last().contract.version == version {
        Some(list.last())
    } else {
        registered(list.drop_last(), id, version)
    }
}

/// A contract lies in a namespace.
pub open spec fn in_namespace(contract: Seq<char>, namespace: Seq<char>) -> bool {
    contract == namespace || starts_with(contract, namespace + "."@)
}

pub open spec fn in_namespaces(contract: Seq<char>, namespaces: Seq<Seq<char>>) -> bool {
    exists|k: int| 0 <= k < namespaces.len() && in_namespace(contract, #[trigger] namespaces[k])
}

/// The contracts once a plugin's first `n` are added, or why they are not.
pub open spec fn plugin_staged(list: Seq<OwnedView>, d: ExtensionView, m: MetadataView, n: nat) -> Result<Seq<OwnedView>, Fault>
    decreases n,
{
    if n == 0 {
        Ok(list)
    } else {
        match plugin_staged(list, d, m, (n - 1) as nat) {
            Err(f) => Err(f),
            Ok(staged) => {
                let c = m.contracts[n - 1];
                if !in_namespaces(c.id, d.namespaces) {
                    Err(Fault::Rejected("contract outside configured plugin namespace"@))
                } else if registered(staged, c.id, c.version) is Some {
                    Err(Fault::Rejected("duplicate contract registration"@))
                } else {
                    Ok(staged.push(OwnedView { contract: c, owner: d.id }))
                }
            },
        }
    }
}

/// The node's contract has the same declaration as its consumer's.
pub open spec fn consumed(list: Seq<OwnedView>, c: ContractView) -> bool {
    match registered(list, c.id, c.version) {
        Some(o) => same_contract(o.contract, c),
        None => false,
    }
}

pub open spec fn node_contract_fault(list: Seq<OwnedView>, d: ExtensionView, c: ContractView) -> Option<Fault> {
    if c.id != "recuvora.harness"@ && !consumed(list, c) {
        Some(Fault::Rejected("node "@ + d.id + " has missing or incompatible consumer for "@ + c.id))
    } else if c.id == "recuvora.harness"@ && c.version != 1 {
        Some(Fault::Rejected("unsupported Harness contract version"@))
    } else {
        None
    }
}

pub open spec fn node_fault(list: Seq<OwnedView>, d: ExtensionView, m: MetadataView) -> Option<Fault> {
    crate::faults::earliest(m.contracts.len(), |i: int| node_contract_fault(list, d, m.contracts[i]))
}

/// The contracts after an extension joins, or why it does not.
pub open spec fn staged(list: Seq<OwnedView>, d: ExtensionView, m: MetadataView) -> Result<Seq<OwnedView>, Fault> {
    match metadata_fault(d.kind, m) {
        Some(f) => Err(f),
        None => match d.kind {
            ExtensionKind::Plugin => plugin_staged(list, d, m, m.contracts.len()),
            ExtensionKind::Node => match node_fault(list, d, m) {
                Some(f) => Err(f),
                None => Ok(list),
            },
        },
    }
}

pub open spec fn refused(r: RegistryView, d: ExtensionView, fault: Fault) -> RegistryView {
    RegistryView {
        statuses: r.statuses.push(
            StatusView { id: d.id, kind: d.kind, available: false, error: Some(crate::protocol::fault_message(fault)) },
        ),
        ..r
    }
}

/// The registry after one extension was asked about itself.
pub open spec fn connected(r: RegistryView, d: ExtensionView, probe: Result<MetadataView, Fault>) -> RegistryView {
    match probe {
        Err(f) => refused(r, d, f),
        Ok(m) => match staged(r.contracts, d, m) {
            Err(f) => refused(r, d, f),
            Ok(contracts) => RegistryView {
                statuses: r.statuses.push(StatusView { id: d.id, kind: d.kind, available: true, error: None }),
                entries: r.entries.insert(d.id, EntryView { definition: d, metadata: m }),
                contracts,
                ..r
            },
        },
    }
}

/// The statuses of disabled extensions among the first `n`.
pub open spec fn disabled_of(list: Seq<ExtensionView>, n: nat) -> Seq<StatusView>
    decreases n,
{
    if n == 0 {
        Seq::empty()
    } else {
        let front = disabled_of(list, (n - 1) as nat);
        if list[n - 1].enabled {
            front
        } else {
            front.push(
                StatusView {
                    id: list[n - 1].id,
                    kind: list[n - 1].kind,
                    available: false,
                    error: Some("disabled by configuration"@),
                },
            )
        }
    }
}

/// The registry before any extension was asked.
pub open spec fn unconnected(list: Seq<ExtensionView>) -> RegistryView {
    RegistryView { definitions: list, statuses: Seq::empty(), entries: Map::empty(), contracts: Seq::empty() }
}

/// The registry with the disabled extensions listed behind the others.
pub open spec fn finished(r: RegistryView) -> RegistryView {
    RegistryView { statuses: r.statuses + disabled_of(r.definitions, r.definitions.len()), ..r }
}

// Calls.

pub open spec fn unknown_extension(id: Seq<char>) -> Fault {
    Fault::Unavailable("extension "@ + id + " not registered"@)
}

pub open spec fn allows(list: Seq<AllowedView>, contract: Seq<char>, version: u32, method: Seq<char>) -> bool {
    list.contains(AllowedView { contract, version, method })
}

/// The first declared contract of an id and version.
pub open spec fn declared(contracts: Seq<ContractView>, id: Seq<char>, version: u32) -> Option<ContractView>
    decreases contracts.len(),
{
    if contracts.len() == 0 {
        None
    } else if contracts[0].id == id && contracts[0].version == version {
        Some(contracts[0])
    } else {
        declared(contracts.drop_first(), id, version)
    }
}

/// The first declared method of a name.
pub open spec fn method_named(methods: Seq<MethodView>, name: Seq<char>) -> Option<MethodView>
    decreases methods.len(),
{
    if methods.len() == 0 {
        None
    } else if methods[0].name == name {
        Some(methods[0])
    } else {
        method_named(methods.drop_first(), name)
    }
}

/// The declaration behind a call that the configuration allows.
pub open spec fn callable(e: EntryView, contract: Seq<char>, version: u32, method: Seq<char>) -> Result<MethodView, Fault> {
    if !allows(e.definition.allow_calls, contract, version, method) {
        Err(Fault::Rejected("method is not in the trusted configuration allowlist"@))
    } else {
        let found = match declared(e.metadata.contracts, contract, version) {
            Some(c) => method_named(c.methods, method),
            None => None,
        };
        match found {
            Some(m) => Ok(m),
            None => Err(Fault::Rejected("method was not registered"@)),
        }
    }
}

/// The view descriptors that an extension declares, with their contracts.
pub open spec fn descriptors(contracts: Seq<ContractView>) -> Seq<(ContractView, MethodView)>
    decreases contracts.len(),
{
    if contracts.len() == 0 {
        Seq::empty()
    } else {
        descriptors(contracts.drop_last()) + descriptors_in(contracts.last(), contracts.last().methods.len())
    }
}

pub open spec fn descriptors_in(c: ContractView, n: nat) -> Seq<(ContractView, MethodView)>
    decreases n,
{
    if n == 0 {
        Seq::empty()
    } else {
        let front = descriptors_in(c, (n - 1) as nat);
        if c.methods[n - 1].name == view_method() { front.push((c, c.methods[n - 1])) } else { front }
    }
}

/// The fixed input of every view descriptor.
pub open spec fn view_input() -> Tree {
    crate::json::with_member(empty_object(), "schema_version"@, Tree::Unsigned(1))
}

pub open spec fn owner_of(list: Seq<OwnedView>, id: Seq<char>, version: u32) -> Option<Seq<char>> {
    match registered(list, id, version) {
        Some(o) => Some(o.owner),
        None => None,
    }
}

/// The monitoring view that an extension offers, or why its offer is not taken.
pub open spec fn view_offer(r: RegistryView, id: Seq<char>) -> Result<Option<RegistrationView>, Fault> {
    if !r.entries.contains_key(id) {
        Err(unknown_extension(id))
    } else {
        let e = r.entries[id];
        let found = descriptors(e.metadata.contracts);
        if !e.metadata.capabilities.contains(view_capability()) {
            Ok(None)
        } else if e.definition.kind != ExtensionKind::Plugin {
            Err(Fault::Rejected("monitoring view registration requires a plugin"@))
        } else if found.len() != 1 {
            Err(Fault::Rejected("monitoring view capability requires exactly one descriptor method"@))
        } else {
            let (c, m) = found[0];
            if reserved_contract(c.id) || owner_of(r.contracts, c.id, c.version) != Some(e.definition.id) || !m.read_only {
                Err(
                    Fault::Rejected(
                        "monitoring view descriptor must be a read-only method in the plugin namespace"@,
                    ),
                )
            } else if check_fault(m.input_schema, view_input()) is Some {
                Err(
                    Fault::Rejected(
                        "monitoring view descriptor must accept the fixed schema_version 1 input"@,
                    ),
                )
            } else if !allows(e.definition.allow_calls, c.id, c.version, m.name) {
                Err(Fault::Rejected("monitoring view descriptor is not in the trusted call allowlist"@))
            } else {
                Ok(
                    Some(
                        RegistrationView {
                            extension_id: e.definition.id,
                            contract: c.id,
                            version: c.version,
                            method: m.name,
                        },
                    ),
                )
            }
        }
    }
}

pub open spec fn input_fault(schema: Tree, params: Tree) -> Option<Fault> {
    match check_fault(schema, params) {
        Some(m) => Some(Fault::Rejected(m)),
        None => None,
    }
}

/// The declaration behind a view call, or why it is refused.
pub open spec fn view_call(r: RegistryView, g: RegistrationView, params: Tree, room: bool) -> Result<MethodView, Fault> {
    match view_offer(r, g.extension_id) {
        Err(f) => Err(f),
        Ok(None) => Err(Fault::Rejected("extension did not register a monitoring view"@)),
        Ok(Some(current)) => if current != g {
            Err(Fault::Rejected("monitoring view registration does not match the current declaration"@))
        } else {
            match callable(r.entries[g.extension_id], g.contract, g.version, g.method) {
                Err(f) => Err(f),
                Ok(m) => if !m.read_only || reserved_contract(g.contract) {
                    Err(Fault::Rejected("monitoring view descriptor must be a non-reserved read-only method"@))
                } else if input_fault(m.input_schema, params) is Some {
                    Err(input_fault(m.input_schema, params)->0)
                } else if !room {
                    Err(Fault::Rejected("monitoring view capacity exhausted"@))
                } else {
                    Ok(m)
                },
            }
        },
    }
}

/// The declaration behind a read-only call, or why it is refused.
pub open spec fn read_call(
    r: RegistryView,
    id: Seq<char>,
    contract: Seq<char>,
    version: u32,
    method: Seq<char>,
    params: Tree,
    room: bool,
) -> Result<MethodView, Fault> {
    if !r.entries.contains_key(id) {
        Err(unknown_extension(id))
    } else {
        match callable(r.entries[id], contract, version, method) {
            Err(f) => Err(f),
            Ok(m) => if !m.read_only || starts_with(contract, "recuvora."@) {
                Err(Fault::Rejected("generic extension calls permit only non-reserved read-only contracts"@))
            } else if input_fault(m.input_schema, params) is Some {
                Err(input_fault(m.input_schema, params)->0)
            } else if !room {
                Err(Fault::Rejected("extension capacity exhausted"@))
            } else {
                Ok(m)
            },
        }
    }
}

/// Why a Harness call is refused.
pub open spec fn harness_fault(r: RegistryView, id: Seq<char>, method: Seq<char>, room: bool) -> Option<Fault> {
    if !r.entries.contains_key(id) {
        Some(unknown_extension(id))
    } else if r.entries[id].definition.kind != ExtensionKind::Node {
        Some(Fault::Rejected("Harness provider must be a node"@))
    } else {
        match callable(r.entries[id], "recuvora.harness"@, 1, method) {
            Err(f) => Some(f),
            Ok(_) => if room { None } else { Some(Fault::Rejected("Harness role capacity exhausted"@)) },
        }
    }
}

/// A plugin may read from a node: it is on the plugin's list and registered as a node.
pub open spec fn may_read(r: RegistryView, allowed: Seq<Seq<char>>, node: Seq<char>) -> bool {
    &&& allowed.contains(node)
    &&& r.entries.contains_key(node)
    &&& r.entries[node].metadata.kind == ExtensionKind::Node
}

/// What a dispatch failure means for the caller of an extension.
pub open spec fn dispatched(fault: DispatchFault) -> Fault {
    match fault {
        DispatchFault::Supervisor(m) => Fault::Unknown {
            call_id: Seq::empty(),
            message: "supervisor exited after dispatch; remote call ID unavailable: "@ + m,
        },
        other => Fault::Unavailable(dispatch_message(other)),
    }
}

// Executable steps.

fn reject(message: &str) -> (e: ExtensionError)
    ensures
        e@ == Fault::Rejected(message@),
{
    ExtensionError::Rejected(copied(message))
}

/// No wire identifier is made up: the supervisor may have ended before there was one.
pub fn dispatch_error(error: DispatchError) -> (r: ExtensionError)
    ensures
        r@ == dispatched(error@),
{
    match error {
        DispatchError::Supervisor(m) => {
            let r = ExtensionError::Unknown {
                call_id: String::new(),
                message: joined("supervisor exited after dispatch; remote call ID unavailable: ", &m),
            };
            assert(r@->call_id =~= Seq::<char>::empty());
            r
        },
        other => ExtensionError::Unavailable(other.message()),
    }
}

fn select(list: &Vec<ExtensionDefinition>, kind: ExtensionKind, out: &mut Vec<ExtensionDefinition>)
    ensures
        extensions_of(final(out)@) == extensions_of(old(out)@) + enabled_of(extensions_of(list@), kind, list@.len()),
{
    let ghost all = extensions_of(list@);
    let ghost start = extensions_of(out@);
    let mut i: usize = 0;
    assert(extensions_of(out@) =~= start + enabled_of(all, kind, 0));
    while i < list.len()
        invariant
            i <= list.len(),
            all == extensions_of(list@),
            extensions_of(out@) == start + enabled_of(all, kind, i as nat),
        decreases list.len() - i,
    {
        assert(all[i as int] == list@[i as int]@);
        if list[i].enabled && list[i].kind == kind {
            let ghost before = extensions_of(out@);
            out.push(list[i].clone());
            assert(extensions_of(out@) =~= before.push(all[i as int]));
            assert(before.push(all[i as int]) =~= start + enabled_of(all, kind, (i + 1) as nat));
        }
        i = i + 1;
    }
}

/// The enabled extensions in the order in which they are asked about themselves.
pub fn connect_order(config: &ExtensionsConfig) -> (r: Vec<ExtensionDefinition>)
    ensures
        extensions_of(r@) == connect_sequence(extensions_of(config.extensions@)),
{
    let mut r: Vec<ExtensionDefinition> = Vec::new();
    select(&config.extensions, ExtensionKind::Plugin, &mut r);
    select(&config.extensions, ExtensionKind::Node, &mut r);
    assert(extensions_of(r@) =~= connect_sequence(extensions_of(config.extensions@)));
    r
}

fn namespaced(contract: &str, namespaces: &Vec<String>) -> (r: bool)
    ensures
        r == in_namespaces(contract@, texts(namespaces@)),
{
    let ghost all = texts(namespaces@);
    let mut k: usize = 0;
    while k < namespaces.len()
        invariant
            k <= namespaces.len(),
            all == texts(namespaces@),
            forall|m: int| 0 <= m < k ==> !in_namespace(contract@, #[trigger] all[m]),
        decreases namespaces.len() - k,
    {
        let prefix = joined(&namespaces[k], ".");
        if same(contract, &namespaces[k]) || begins(contract, &prefix) {
            assert(in_namespace(contract@, all[k as int]));
            return true;
        }
        assert(!in_namespace(contract@, all[k as int]));
        k = k + 1;
    }
    false
}

fn find<'a>(list: &'a Vec<OwnedContract>, id: &str, version: u32) -> (r: Option<&'a OwnedContract>)
    ensures
        match r {
            Some(o) => registered(owned_of(list@), id@, version) == Some(o@),
            None => registered(owned_of(list@), id@, version) is None,
        },
{
    let ghost all = owned_of(list@);
    let mut i: usize = list.len();
    assert(all.subrange(0, i as int) =~= all);
    while i > 0
        invariant
            i <= list.len(),
            all == owned_of(list@),
            registered(all, id@, version) == registered(all.subrange(0, i as int), id@, version),
        decreases i,
    {
        i = i - 1;
        proof {
            assert(all.subrange(0, i + 1).drop_last() =~= all.subrange(0, i as int));
            assert(all.subrange(0, i + 1).last() == all[i as int]);
        }
        if same(&list[i].contract.id, id) && list[i].contract.version == version {
            return Some(&list[i]);
        }
    }
    None
}

fn copy_owned(list: &Vec<OwnedContract>) -> (r: Vec<OwnedContract>)
    ensures
        owned_of(r@) == owned_of(list@),
{
    let mut r: Vec<OwnedContract> = Vec::new();
    let mut i: usize = 0;
    while i < list.len()
        invariant
            i <= list.len(),
            r.len() == i,
            forall|j: int| 0 <= j < i ==> (#[trigger] r@[j])@ == list@[j]@,
        decreases list.len() - i,
    {
        r.push(OwnedContract { contract: list[i].contract.clone(), owner: list[i].owner.clone() });
        i = i + 1;
    }
    assert(owned_of(r@) =~= owned_of(list@));
    r
}

fn stage_plugin(list: &Vec<OwnedContract>, d: &ExtensionDefinition, m: &ExtensionMetadata) -> (r: Result<
    Vec<OwnedContract>,
    ExtensionError,
>)
    ensures
        ({
            let want = plugin_staged(owned_of(list@), d@, m@, m@.contracts.len());
            match r {
                Ok(next) => want == Ok::<Seq<OwnedView>, Fault>(owned_of(next@)),
                Err(e) => want == Err::<Seq<OwnedView>, Fault>(e@),
            }
        }),
{
    let ghost all = owned_of(list@);
    let mut next = copy_owned(list);
    let mut i: usize = 0;
    while i < m.contracts.len()
        invariant
            i <= m.contracts.len(),
            all == owned_of(list@),
            plugin_staged(all, d@, m@, i as nat) == Ok::<Seq<OwnedView>, Fault>(owned_of(next@)),
        decreases m.contracts.len() - i,
    {
        let c = &m.contracts[i];
        assert(m@.contracts[i as int] == c@);
        if !namespaced(&c.id, &d.namespaces) {
            proof {
                stage_sticks(all, d@, m@, (i + 1) as nat, m@.contracts.len());
            }
            return Err(reject("contract outside configured plugin namespace"));
        }
        if find(&next, &c.id, c.version).is_some() {
            proof {
                stage_sticks(all, d@, m@, (i + 1) as nat, m@.contracts.len());
            }
            return Err(reject("duplicate contract registration"));
        }
        let ghost before = owned_of(next@);
        let o = OwnedContract { contract: c.clone(), owner: d.id.clone() };
        let ghost ov = o@;
        next.push(o);
        assert(owned_of(next@) =~= before.push(ov));
        i = i + 1;
    }
    Ok(next)
}

proof fn stage_sticks(list: Seq<OwnedView>, d: ExtensionView, m: MetadataView, a: nat, b: nat)
    requires
        a <= b,
        plugin_staged(list, d, m, a) is Err,
    ensures
        plugin_staged(list, d, m, b) == plugin_staged(list, d, m, a),
    decreases b - a,
{
    if a < b {
        stage_sticks(list, d, m, a, (b - 1) as nat);
    }
}

fn check_node(list: &Vec<OwnedContract>, d: &ExtensionDefinition, m: &ExtensionMetadata) -> (r: Result<(), ExtensionError>)
    ensures
        super::reports(r, node_fault(owned_of(list@), d@, m@)),
{
    let ghost all = owned_of(list@);
    let ghost f = |i: int| node_contract_fault(all, d@, m@.contracts[i]);
    let mut i: usize = 0;
    while i < m.contracts.len()
        invariant
            i <= m.contracts.len(),
            all == owned_of(list@),
            f == (|k: int| node_contract_fault(all, d@, m@.contracts[k])),
            crate::faults::earliest(i as nat, f) is None,
        decreases m.contracts.len() - i,
    {
        let c = &m.contracts[i];
        assert(m@.contracts[i as int] == c@);
        assert(f(i as int) == node_contract_fault(all, d@, c@));
        let harness = same(&c.id, "recuvora.harness");
        let known = match find(list, &c.id, c.version) {
            Some(o) => o.contract.equals(c),
            None => false,
        };
        if (!harness && !known) || (harness && c.version != 1) {
            proof {
                assert(crate::faults::earliest((i + 1) as nat, f) == f(i as int));
                crate::faults::earliest_sticks((i + 1) as nat, m@.contracts.len(), f);
            }
            if harness {
                return Err(reject("unsupported Harness contract version"));
            }
            let text = joined("node ", &d.id);
            let text = joined(&text, " has missing or incompatible consumer for ");
            return Err(ExtensionError::Rejected(joined(&text, &c.id)));
        }
        i = i + 1;
    }
    Ok(())
}

fn stage(list: &Vec<OwnedContract>, d: &ExtensionDefinition, m: &ExtensionMetadata) -> (r: Result<
    Vec<OwnedContract>,
    ExtensionError,
>)
    ensures
        match r {
            Ok(next) => staged(owned_of(list@), d@, m@) == Ok::<Seq<OwnedView>, Fault>(owned_of(next@)),
            Err(e) => staged(owned_of(list@), d@, m@) == Err::<Seq<OwnedView>, Fault>(e@),
        },
{
    if let Err(e) = validate_metadata(d.kind, m) {
        return Err(e);
    }
    match d.kind {
        ExtensionKind::Plugin => stage_plugin(list, d, m),
        ExtensionKind::Node => match check_node(list, d, m) {
            Ok(_) => Ok(copy_owned(list)),
            Err(e) => Err(e),
        },
    }
}

fn permits(list: &Vec<AllowedMethod>, contract: &str, version: u32, method: &str) -> (r: bool)
    ensures
        r == allows(super::allowed_of(list@), contract@, version, method@),
{
    let ghost all = super::allowed_of(list@);
    let ghost wanted = AllowedView { contract: contract@, version, method: method@ };
    let mut i: usize = 0;
    while i < list.len()
        invariant
            i <= list.len(),
            all == super::allowed_of(list@),
            wanted == (AllowedView { contract: contract@, version, method: method@ }),
            forall|k: int| 0 <= k < i ==> #[trigger] all[k] != wanted,
        decreases list.len() - i,
    {
        if same(&list[i].contract, contract) && list[i].version == version && same(&list[i].method, method) {
            assert(all[i as int] == wanted);
            return true;
        }
        assert(all[i as int] != wanted);
        i = i + 1;
    }
    false
}

fn find_contract<'a>(list: &'a Vec<ContractDeclaration>, id: &str, version: u32, Ghost(all): Ghost<Seq<ContractView>>) -> (r:
    Option<&'a ContractDeclaration>)
    requires
        all == list@.map_values(|c: ContractDeclaration| c@),
    ensures
        match r {
            Some(c) => declared(all, id@, version) == Some(c@),
            None => declared(all, id@, version) is None,
        },
{
    let mut i: usize = 0;
    assert(all.subrange(0, all.len() as int) =~= all);
    while i < list.len()
        invariant
            i <= list.len(),
            all == list@.map_values(|c: ContractDeclaration| c@),
            declared(all, id@, version) == declared(all.subrange(i as int, all.len() as int), id@, version),
        decreases list.len() - i,
    {
        proof {
            let rest = all.subrange(i as int, all.len() as int);
            assert(rest[0] == all[i as int]);
            assert(rest.drop_first() =~= all.subrange(i + 1, all.len() as int));
        }
        if same(&list[i].id, id) && list[i].version == version {
            return Some(&list[i]);
        }
        i = i + 1;
    }
    None
}

fn find_method<'a>(list: &'a Vec<MethodDeclaration>, name: &str, Ghost(all): Ghost<Seq<MethodView>>) -> (r: Option<
    &'a MethodDeclaration,
>)
    requires
        all == list@.map_values(|m: MethodDeclaration| m@),
    ensures
        match r {
            Some(m) => method_named(all, name@) == Some(m@),
            None => method_named(all, name@) is None,
        },
{
    let mut i: usize = 0;
    assert(all.subrange(0, all.len() as int) =~= all);
    while i < list.len()
        invariant
            i <= list.len(),
            all == list@.map_values(|m: MethodDeclaration| m@),
            method_named(all, name@) == method_named(all.subrange(i as int, all.len() as int), name@),
        decreases list.len() - i,
    {
        proof {
            let rest = all.subrange(i as int, all.len() as int);
            assert(rest[0] == all[i as int]);
            assert(rest.drop_first() =~= all.subrange(i + 1, all.len() as int));
        }
        if same(&list[i].name, name) {
            return Some(&list[i]);
        }
        i = i + 1;
    }
    None
}

impl Entry {
    /// The declaration behind a call that the configuration allows.
    fn method(&self, contract: &str, version: u32, method: &str) -> (r: Result<&MethodDeclaration, ExtensionError>)
        ensures
            match r {
                Ok(m) => callable(self@, contract@, version, method@) == Ok::<MethodView, Fault>(m@),
                Err(e) => callable(self@, contract@, version, method@) == Err::<MethodView, Fault>(e@),
            },
    {
        if !permits(&self.definition.allow_calls, contract, version, method) {
            return Err(reject("method is not in the trusted configuration allowlist"));
        }
        let ghost all = self@.metadata.contracts;
        match find_contract(&self.metadata.contracts, contract, version, Ghost(all)) {
            Some(c) => match find_method(&c.methods, method, Ghost(c@.methods)) {
                Some(m) => Ok(m),
                None => Err(reject("method was not registered")),
            },
            None => Err(reject("method was not registered")),
        }
    }

    /// Where the view descriptors stand: contract and method.
    fn views(&self) -> (r: Vec<(usize, usize)>)
        ensures
            r@.len() == descriptors(self@.metadata.contracts).len(),
            forall|k: int|
                0 <= k < r@.len() ==> (#[trigger] r@[k]).0 < self.metadata.contracts@.len() && r@[k].1
                    < self.metadata.contracts@[r@[k].0 as int].methods@.len() && descriptors(self@.metadata.contracts)[k] == (
                    self.metadata.contracts@[r@[k].0 as int]@,
                    self.metadata.contracts@[r@[k].0 as int].methods@[r@[k].1 as int]@,
                ),
    {
        let contracts = &self.metadata.contracts;
        let ghost all = self@.metadata.contracts;
        let mut r: Vec<(usize, usize)> = Vec::new();
        let mut i: usize = 0;
        assert(all.subrange(0, 0) =~= Seq::<ContractView>::empty());
        while i < contracts.len()
            invariant
                i <= contracts.len(),
                *contracts == self.metadata.contracts,
                all == contracts@.map_values(|c: ContractDeclaration| c@),
                r@.len() == descriptors(all.subrange(0, i as int)).len(),
                forall|k: int|
                    0 <= k < r@.len() ==> (#[trigger] r@[k]).0 < contracts@.len() && r@[k].1
                        < contracts@[r@[k].0 as int].methods@.len() && descriptors(all.subrange(0, i as int))[k] == (
                        contracts@[r@[k].0 as int]@,
                        contracts@[r@[k].0 as int].methods@[r@[k].1 as int]@,
                    ),
            decreases contracts.len() - i,
        {
            let methods = &contracts[i].methods;
            let ghost head = descriptors(all.subrange(0, i as int));
            let ghost c = all[i as int];
            assert(c == contracts@[i as int]@);
            let mut j: usize = 0;
            while j < methods.len()
                invariant
                    i < contracts.len(),
                    j <= methods.len(),
                    *methods == contracts@[i as int].methods,
                    c == contracts@[i as int]@,
                    r@.len() == (head + descriptors_in(c, j as nat)).len(),
                    forall|k: int|
                        0 <= k < r@.len() ==> (#[trigger] r@[k]).0 < contracts@.len() && r@[k].1
                            < contracts@[r@[k].0 as int].methods@.len() && (head + descriptors_in(c, j as nat))[k] == (
                            contracts@[r@[k].0 as int]@,
                            contracts@[r@[k].0 as int].methods@[r@[k].1 as int]@,
                        ),
                decreases methods.len() - j,
            {
                assert(c.methods[j as int] == methods@[j as int]@);
                let ghost before = head + descriptors_in(c, j as nat);
                if same(&methods[j].name, "describe_monitoring_view") {
                    let ghost was = r@;
                    r.push((i, j));
                    proof {
                        let now = head + descriptors_in(c, (j + 1) as nat);
                        assert(now =~= before.push((c, c.methods[j as int])));
                        assert forall|k: int| 0 <= k < r@.len() implies (#[trigger] r@[k]).0 < contracts@.len() && r@[k].1
                            < contracts@[r@[k].0 as int].methods@.len() && now[k] == (
                            contracts@[r@[k].0 as int]@,
                            contracts@[r@[k].0 as int].methods@[r@[k].1 as int]@,
                        ) by {
                            if k < was.len() {
                                assert(r@[k] == was[k]);
                            }
                        }
                    }
                }
                j = j + 1;
            }
            proof {
                let part = all.subrange(0, i + 1);
                assert(part.drop_last() =~= all.subrange(0, i as int));
                assert(part.last() == c);
                assert(descriptors(part) == head + descriptors_in(c, c.methods.len()));
            }
            i = i + 1;
        }
        assert(all.subrange(0, i as int) =~= all);
        r
    }
}

impl ExtensionRegistry {
    pub open spec fn wf(&self) -> bool {
        self.entries.wf()
    }

    /// Begins with a valid configuration and no extension.
    pub fn begin(config: &ExtensionsConfig, located: &Vec<bool>) -> (r: Result<Self, ExtensionError>)
        ensures
            match r {
                Ok(s) => s.wf() && config_fault(config.schema_version, extensions_of(config.extensions@), located@) is None
                    && s@ == unconnected(extensions_of(config.extensions@)),
                Err(e) => config_fault(config.schema_version, extensions_of(config.extensions@), located@) == Some(e@),
            },
    {
        if let Err(e) = config.validate(located) {
            return Err(e);
        }
        let mut definitions: Vec<ExtensionDefinition> = Vec::new();
        let mut i: usize = 0;
        while i < config.extensions.len()
            invariant
                i <= config.extensions.len(),
                definitions.len() == i,
                forall|j: int| 0 <= j < i ==> (#[trigger] definitions@[j])@ == config.extensions@[j]@,
            decreases config.extensions.len() - i,
        {
            definitions.push(config.extensions[i].clone());
            i = i + 1;
        }
        let r = ExtensionRegistry { definitions, statuses: Vec::new(), entries: Table::new(), contracts: Vec::new() };
        assert(r@.definitions =~= extensions_of(config.extensions@));
        assert(r@.statuses =~= Seq::<StatusView>::empty());
        assert(r@.entries =~= Map::<Seq<char>, EntryView>::empty());
        assert(r@.contracts =~= Seq::<OwnedView>::empty());
        Ok(r)
    }

    fn status(&mut self, d: &ExtensionDefinition, available: bool, error: Option<String>)
        requires
            old(self).wf(),
        ensures
            final(self).wf(),
            final(self)@ == (RegistryView {
                statuses: old(self)@.statuses.push(
                    StatusView { id: d@.id, kind: d@.kind, available, error: crate::text::opt(error) },
                ),
                ..old(self)@
            }),
    {
        let ghost before = self@.statuses;
        let s = ExtensionStatus { id: d.id.clone(), kind: d.kind, available, error };
        let ghost sv = s@;
        self.statuses.push(s);
        assert(self@.statuses =~= before.push(sv));
    }

    /// Takes what an extension said of itself when it was asked.
    pub fn connect(&mut self, definition: ExtensionDefinition, probe: Result<ExtensionMetadata, ExtensionError>)
        requires
            old(self).wf(),
        ensures
            final(self).wf(),
            final(self)@ == connected(
                old(self)@,
                definition@,
                match probe {
                    Ok(m) => Ok(m@),
                    Err(e) => Err(e@),
                },
            ),
    {
        match probe {
            Err(e) => {
                self.status(&definition, false, Some(e.message()));
            },
            Ok(metadata) => match stage(&self.contracts, &definition, &metadata) {
                Err(e) => {
                    self.status(&definition, false, Some(e.message()));
                },
                Ok(contracts) => {
                    self.status(&definition, true, None);
                    self.contracts = contracts;
                    let ghost dv = definition@;
                    let ghost mv = metadata@;
                    let key = definition.id.clone();
                    self.entries.insert(key, Entry { definition, metadata });
                    assert(self@.entries =~= old(self)@.entries.insert(
                        dv.id,
                        EntryView { definition: dv, metadata: mv },
                    ));
                },
            },
        }
    }

    /// Lists the disabled extensions once all others were asked.
    pub fn finish(&mut self)
        requires
            old(self).wf(),
        ensures
            final(self).wf(),
            final(self)@ == finished(old(self)@),
    {
        let ghost all = self@.definitions;
        let ghost start = self@.statuses;
        let mut i: usize = 0;
        assert(self@.statuses =~= start + disabled_of(all, 0));
        while i < self.definitions.len()
            invariant
                i <= self.definitions.len(),
                self.wf(),
                all == extensions_of(self.definitions@),
                self.definitions == old(self).definitions,
                self.entries == old(self).entries,
                self.contracts == old(self).contracts,
                self@.statuses == start + disabled_of(all, i as nat),
            decreases self.definitions.len() - i,
        {
            assert(all[i as int] == self.definitions@[i as int]@);
            if !self.definitions[i].enabled {
                let ghost before = self@.statuses;
                let s = ExtensionStatus {
                    id: self.definitions[i].id.clone(),
                    kind: self.definitions[i].kind,
                    available: false,
                    error: Some(copied("disabled by configuration")),
                };
                let ghost sv = s@;
                self.statuses.push(s);
                assert(self@.statuses =~= before.push(sv));
                assert(before.push(sv) =~= start + disabled_of(all, (i + 1) as nat));
            }
            i = i + 1;
        }
    }

    /// What an available extension declares.
    pub fn metadata(&self, id: &str) -> (r: Option<&ExtensionMetadata>)
        requires
            self.wf(),
        ensures
            match r {
                Some(m) => self@.entries.contains_key(id@) && m@ == self@.entries[id@].metadata,
                None => !self@.entries.contains_key(id@),
            },
    {
        match self.entries.get(id) {
            Some(e) => Some(&e.metadata),
            None => None,
        }
    }

    /// The plugin that registered a contract.
    pub fn contract_owner(&self, contract: &str, version: u32) -> (r: Option<&str>)
        ensures
            match r {
                Some(owner) => owner_of(self@.contracts, contract@, version) == Some(owner@),
                None => owner_of(self@.contracts, contract@, version) is None,
            },
    {
        match find(&self.contracts, contract, version) {
            Some(o) => Some(o.owner.as_str()),
            None => None,
        }
    }

    fn entry(&self, id: &str) -> (r: Result<&Entry, ExtensionError>)
        requires
            self.wf(),
        ensures
            match r {
                Ok(e) => self@.entries.contains_key(id@) && e@ == self@.entries[id@],
                Err(e) => !self@.entries.contains_key(id@) && e@ == unknown_extension(id@),
            },
    {
        match self.entries.get(id) {
            Some(e) => Ok(e),
            None => {
                let text = joined("extension ", id);
                Err(ExtensionError::Unavailable(joined(&text, " not registered")))
            },
        }
    }

    /// The monitoring view that an extension offers.
    pub fn monitoring_view_registration(&self, id: &str) -> (r: Result<Option<MonitoringViewRegistration>, ExtensionError>)
        requires
            self.wf(),
        ensures
            match r {
                Ok(Some(g)) => view_offer(self@, id@) == Ok::<Option<RegistrationView>, Fault>(Some(g@)),
                Ok(None) => view_offer(self@, id@) == Ok::<Option<RegistrationView>, Fault>(None),
                Err(e) => view_offer(self@, id@) == Err::<Option<RegistrationView>, Fault>(e@),
            },
    {
        let entry = match self.entry(id) {
            Ok(entry) => entry,
            Err(e) => {
                return Err(e);
            },
        };
        if !listed(&entry.metadata.capabilities, "recuvora.monitoring_view.v1") {
            return Ok(None);
        }
        if entry.definition.kind != ExtensionKind::Plugin {
            return Err(reject("monitoring view registration requires a plugin"));
        }
        let places = entry.views();
        if places.len() != 1 {
            return Err(reject("monitoring view capability requires exactly one descriptor method"));
        }
        let (i, j) = places[0];
        let contract = &entry.metadata.contracts[i];
        let method = &contract.methods[j];
        assert(places@[0] == (i, j));
        assert(descriptors(entry@.metadata.contracts)[0] == (contract@, method@));
        let owned = match self.contract_owner(&contract.id, contract.version) {
            Some(owner) => same(owner, &entry.definition.id),
            None => false,
        };
        if contract_reserved(&contract.id) || !owned || !method.read_only {
            return Err(reject("monitoring view descriptor must be a read-only method in the plugin namespace"));
        }
        let input = with(object(), "schema_version", Json::Unsigned(1));
        if validate_value(&method.input_schema, &input).is_err() {
            return Err(reject("monitoring view descriptor must accept the fixed schema_version 1 input"));
        }
        if !permits(&entry.definition.allow_calls, &contract.id, contract.version, &method.name) {
            return Err(reject("monitoring view descriptor is not in the trusted call allowlist"));
        }
        Ok(
            Some(
                MonitoringViewRegistration {
                    extension_id: entry.definition.id.clone(),
                    contract: contract.id.clone(),
                    version: contract.version,
                    method: method.name.clone(),
                },
            ),
        )
    }

    /// Checks a view call before anything is sent. View declarations are data only: such a
    /// call is given no way back to nodes. `room` says that a slot of its role is free.
    pub fn call_monitoring_view(
        &self,
        registration: &MonitoringViewRegistration,
        params: Json,
        timeout: Span,
        room: bool,
    ) -> (r: Result<ExtensionCall, ExtensionError>)
        requires
            self.wf(),
        ensures
            match r {
                Ok(c) => view_call(self@, registration@, params@, room) is Ok && c.contract@ == registration@.contract
                    && c.version == registration@.version && c.method@ == registration@.method && c.params@ == params@
                    && c.timeout == timeout,
                Err(e) => view_call(self@, registration@, params@, room) == Err::<MethodView, Fault>(e@),
            },
    {
        let current = match self.monitoring_view_registration(&registration.extension_id) {
            Ok(Some(current)) => current,
            Ok(None) => {
                return Err(reject("extension did not register a monitoring view"));
            },
            Err(e) => {
                return Err(e);
            },
        };
        if !current.equals(registration) {
            return Err(reject("monitoring view registration does not match the current declaration"));
        }
        let entry = match self.entry(&registration.extension_id) {
            Ok(entry) => entry,
            Err(e) => {
                return Err(e);
            },
        };
        let method = match entry.method(&registration.contract, registration.version, &registration.method) {
            Ok(method) => method,
            Err(e) => {
                return Err(e);
            },
        };
        if !method.read_only || contract_reserved(&registration.contract) {
            return Err(reject("monitoring view descriptor must be a non-reserved read-only method"));
        }
        if let Err(e) = validate_value(&method.input_schema, &params) {
            return Err(e);
        }
        if !room {
            return Err(reject("monitoring view capacity exhausted"));
        }
        Ok(
            ExtensionCall {
                contract: registration.contract.clone(),
                version: registration.version,
                method: registration.method.clone(),
                params,
                timeout,
            },
        )
    }

    /// Checks what a view call returned.
    pub fn monitoring_view_result(&self, registration: &MonitoringViewRegistration, result: Json) -> (r: Result<
        Json,
        ExtensionError,
    >)
        requires
            self.wf(),
        ensures
            ({
                let g = registration@;
                let known = self@.entries.contains_key(g.extension_id);
                let m = callable(self@.entries[g.extension_id], g.contract, g.version, g.method);
                match r {
                    Ok(v) => known && m is Ok && check_fault(m->Ok_0.output_schema, result@) is None && v@ == result@,
                    Err(e) => if !known {
                        e@ == unknown_extension(g.extension_id)
                    } else if m is Err {
                        m == Err::<MethodView, Fault>(e@)
                    } else {
                        let fault = input_fault(m->Ok_0.output_schema, result@);
                        &&& fault is Some
                        &&& e@ == Fault::Protocol(
                            "monitoring view descriptor output violates its schema: "@
                                + crate::protocol::fault_message(fault->0),
                        )
                    },
                }
            }),
    {
        let entry = match self.entry(&registration.extension_id) {
            Ok(entry) => entry,
            Err(e) => {
                return Err(e);
            },
        };
        match entry.method(&registration.contract, registration.version, &registration.method) {
            Ok(method) => match validate_value(&method.output_schema, &result) {
                Ok(_) => Ok(result),
                Err(e) => Err(
                    ExtensionError::Protocol(
                        joined("monitoring view descriptor output violates its schema: ", &e.message()),
                    ),
                ),
            },
            Err(e) => Err(e),
        }
    }

    /// Checks a read-only call before anything is sent. A plugin's call may read back from
    /// the nodes that are handed out with it; a node's call may not.
    pub fn call_read_only(
        &self,
        id: &str,
        contract: &str,
        version: u32,
        method: &str,
        params: Json,
        timeout: Span,
        room: bool,
    ) -> (r: Result<(ExtensionCall, Option<Vec<String>>), ExtensionError>)
        requires
            self.wf(),
        ensures
            match r {
                Ok((c, nodes)) => {
                    &&& read_call(self@, id@, contract@, version, method@, params@, room) is Ok
                    &&& c.contract@ == contract@
                    &&& c.version == version
                    &&& c.method@ == method@
                    &&& c.params@ == params@
                    &&& c.timeout == timeout
                    &&& match nodes {
                        Some(list) => self@.entries[id@].definition.kind == ExtensionKind::Plugin && texts(list@)
                            == self@.entries[id@].definition.allow_nodes,
                        None => self@.entries[id@].definition.kind != ExtensionKind::Plugin,
                    }
                },
                Err(e) => read_call(self@, id@, contract@, version, method@, params@, room) == Err::<MethodView, Fault>(e@),
            },
    {
        let entry = match self.entry(id) {
            Ok(entry) => entry,
            Err(e) => {
                return Err(e);
            },
        };
        let declaration = match entry.method(contract, version, method) {
            Ok(declaration) => declaration,
            Err(e) => {
                return Err(e);
            },
        };
        if !declaration.read_only || begins(contract, "recuvora.") {
            return Err(reject("generic extension calls permit only non-reserved read-only contracts"));
        }
        if let Err(e) = validate_value(&declaration.input_schema, &params) {
            return Err(e);
        }
        if !room {
            return Err(reject("extension capacity exhausted"));
        }
        let nodes = if entry.definition.kind == ExtensionKind::Plugin {
            Some(crate::text::copied_list(&entry.definition.allow_nodes))
        } else {
            None
        };
        let call = ExtensionCall { contract: copied(contract), version, method: copied(method), params, timeout };
        Ok((call, nodes))
    }

    /// Checks what a read-only call returned.
    pub fn read_only_result(&self, id: &str, contract: &str, version: u32, method: &str, result: Json) -> (r: Result<
        Json,
        ExtensionError,
    >)
        requires
            self.wf(),
        ensures
            ({
                let known = self@.entries.contains_key(id@);
                let m = callable(self@.entries[id@], contract@, version, method@);
                match r {
                    Ok(v) => known && m is Ok && check_fault(m->Ok_0.output_schema, result@) is None && v@ == result@,
                    Err(e) => if !known {
                        e@ == unknown_extension(id@)
                    } else if m is Err {
                        m == Err::<MethodView, Fault>(e@)
                    } else {
                        input_fault(m->Ok_0.output_schema, result@) == Some(e@)
                    },
                }
            }),
    {
        let entry = match self.entry(id) {
            Ok(entry) => entry,
            Err(e) => {
                return Err(e);
            },
        };
        match entry.method(contract, version, method) {
            Ok(declaration) => match validate_value(&declaration.output_schema, &result) {
                Ok(_) => Ok(result),
                Err(e) => Err(e),
            },
            Err(e) => Err(e),
        }
    }

    /// Checks a Harness call before anything is sent.
    pub fn call_harness(&self, id: &str, method: &str, params: Json, timeout: Span, room: bool) -> (r: Result<
        ExtensionCall,
        ExtensionError,
    >)
        requires
            self.wf(),
        ensures
            match r {
                Ok(c) => harness_fault(self@, id@, method@, room) is None && c.contract@ == "recuvora.harness"@ && c.version
                    == 1 && c.method@ == method@ && c.params@ == params@ && c.timeout == timeout,
                Err(e) => harness_fault(self@, id@, method@, room) == Some(e@),
            },
    {
        let entry = match self.entry(id) {
            Ok(entry) => entry,
            Err(e) => {
                return Err(e);
            },
        };
        if entry.definition.kind != ExtensionKind::Node {
            return Err(reject("Harness provider must be a node"));
        }
        if let Err(e) = entry.method("recuvora.harness", 1, method) {
            return Err(e);
        }
        if !room {
            return Err(reject("Harness role capacity exhausted"));
        }
        Ok(ExtensionCall { contract: copied("recuvora.harness"), version: 1, method: copied(method), params, timeout })
    }

    /// Checks that a plugin's callback may read from a node. The callback's own parameters
    /// are read in between by the caller.
    pub fn route(&self, allowed: &Vec<String>, node: &str) -> (r: Result<(), ExtensionError>)
        requires
            self.wf(),
        ensures
            match r {
                Ok(_) => may_read(self@, texts(allowed@), node@),
                Err(e) => !may_read(self@, texts(allowed@), node@) && e@ == Fault::Rejected("plugin cannot access this node"@),
            },
    {
        let node_kind = match self.metadata(node) {
            Some(m) => m.kind == ExtensionKind::Node,
            None => false,
        };
        if !listed(allowed, node) || !node_kind {
            return Err(reject("plugin cannot access this node"));
        }
        Ok(())
    }
}

/// The one callback that a plugin may make.
pub fn check_callback(method: &str) -> (r: Result<(), ExtensionError>)
    ensures
        match r {
            Ok(_) => method@ == "service.call"@,
            Err(e) => method@ != "service.call"@ && e@ == Fault::Rejected("unsupported plugin callback"@),
        },
{
    if same(method, "service.call") {
        Ok(())
    } else {
        Err(reject("unsupported plugin callback"))
    }
}

} // verus!
