//! Host-side registration and routing; external programs are independently shipped.
pub mod laws;
pub mod limits;
pub mod registry;

use crate::faults::{earliest, earliest_sticks, either};
use crate::json::{Json, Tree};
use crate::monitors::config::{contract_reserved, reserved_contract};
use crate::protocol::schema::{schema_fault, validate_schema};
use crate::protocol::{
    command_fault, is_id, valid_id, CommandSpec, CommandView, ContractDeclaration, ContractView, ExtensionError, ExtensionKind,
    ExtensionMetadata, Fault, MetadataView, MethodDeclaration, MethodView,
};
use crate::text::{begins, copied, copied_list, joined, listed, same, starts_with, texts};
use vstd::prelude::*;

verus! {

pub const MAX_CONFIG_BYTES: usize = 262144;

/// How many calls of each role an extension answers at once.
pub const ORDINARY_CALLS: usize = 4;

pub const VIEW_CALLS: usize = 1;

pub const APPROVAL_CALLS: usize = 2;

pub struct AllowedMethod {
    pub contract: String,
    pub version: u32,
    pub method: String,
}

pub struct ExtensionDefinition {
    pub id: String,
    pub kind: ExtensionKind,
    pub enabled: bool,
    pub command: CommandSpec,
    pub namespaces: Vec<String>,
    pub allow_calls: Vec<AllowedMethod>,
    pub allow_nodes: Vec<String>,
}

pub struct ExtensionsConfig {
    pub schema_version: u32,
    pub extensions: Vec<ExtensionDefinition>,
}

pub struct ExtensionStatus {
    pub id: String,
    pub kind: ExtensionKind,
    pub available: bool,
    pub error: Option<String>,
}

pub struct MonitoringViewRegistration {
    pub extension_id: String,
    pub contract: String,
    pub version: u32,
    pub method: String,
}

// Mathematical models.

pub struct AllowedView {
    pub contract: Seq<char>,
    pub version: u32,
    pub method: Seq<char>,
}

pub struct ExtensionView {
    pub id: Seq<char>,
    pub kind: ExtensionKind,
    pub enabled: bool,
    pub command: CommandView,
    pub namespaces: Seq<Seq<char>>,
    pub allow_calls: Seq<AllowedView>,
    pub allow_nodes: Seq<Seq<char>>,
}

pub struct StatusView {
    pub id: Seq<char>,
    pub kind: ExtensionKind,
    pub available: bool,
    pub error: Option<Seq<char>>,
}

pub struct RegistrationView {
    pub extension_id: Seq<char>,
    pub contract: Seq<char>,
    pub version: u32,
    pub method: Seq<char>,
}

impl View for AllowedMethod {
    type V = AllowedView;

    open spec fn view(&self) -> AllowedView {
        AllowedView { contract: self.contract@, version: self.version, method: self.method@ }
    }
}

pub open spec fn allowed_of(list: Seq<AllowedMethod>) -> Seq<AllowedView> {
    list.map_values(|a: AllowedMethod| a@)
}

impl View for ExtensionDefinition {
    type V = ExtensionView;

    open spec fn view(&self) -> ExtensionView {
        ExtensionView {
            id: self.id@,
            kind: self.kind,
            enabled: self.enabled,
            command: self.command@,
            namespaces: texts(self.namespaces@),
            allow_calls: allowed_of(self.allow_calls@),
            allow_nodes: texts(self.allow_nodes@),
        }
    }
}

pub open spec fn extensions_of(list: Seq<ExtensionDefinition>) -> Seq<ExtensionView> {
    list.map_values(|d: ExtensionDefinition| d@)
}

impl View for ExtensionStatus {
    type V = StatusView;

    open spec fn view(&self) -> StatusView {
        StatusView { id: self.id@, kind: self.kind, available: self.available, error: crate::text::opt(self.error) }
    }
}

impl View for MonitoringViewRegistration {
    type V = RegistrationView;

    open spec fn view(&self) -> RegistrationView {
        RegistrationView {
            extension_id: self.extension_id@,
            contract: self.contract@,
            version: self.version,
            method: self.method@,
        }
    }
}

impl MonitoringViewRegistration {
    pub fn equals(&self, other: &MonitoringViewRegistration) -> (r: bool)
        ensures
            r == (self@ == other@),
    {
        same(&self.extension_id, &other.extension_id) && same(&self.contract, &other.contract) && self.version
            == other.version && same(&self.method, &other.method)
    }
}

// Configuration.

pub open spec fn rejected(message: Seq<char>) -> Fault {
    Fault::Configuration(message)
}

/// One namespace lies within the other, or both are the same.
pub open spec fn overlap(a: Seq<char>, b: Seq<char>) -> bool {
    a == b || starts_with(a, b + "."@) || starts_with(b, a + "."@)
}

/// The namespaces of the extensions before this one, and this one's first `j`.
pub open spec fn taken(list: Seq<ExtensionView>, i: int, j: int) -> Seq<Seq<char>>
    decreases i,
{
    if i <= 0 {
        list[0].namespaces.subrange(0, j)
    } else {
        taken(list, i - 1, list[i - 1].namespaces.len() as int) + list[i].namespaces.subrange(0, j)
    }
}

pub open spec fn clashes(taken: Seq<Seq<char>>, namespace: Seq<char>) -> bool {
    exists|k: int| 0 <= k < taken.len() && overlap(#[trigger] taken[k], namespace)
}

pub open spec fn namespace_fault(list: Seq<ExtensionView>, i: int, j: int) -> Option<Fault> {
    let namespace = list[i].namespaces[j];
    if list[i].kind != ExtensionKind::Plugin || !is_id(namespace) || reserved_contract(namespace) || clashes(
        taken(list, i, j),
        namespace,
    ) {
        Some(rejected("invalid, reserved or conflicting namespace"@))
    } else {
        None
    }
}

pub open spec fn allow_valid(a: AllowedView) -> bool {
    is_id(a.contract) && is_id(a.method) && a.version != 0
}

pub open spec fn all_allowed_valid(list: Seq<AllowedView>) -> bool {
    forall|k: int| 0 <= k < list.len() ==> allow_valid(#[trigger] list[k])
}

pub open spec fn all_ids(list: Seq<Seq<char>>) -> bool {
    forall|k: int| 0 <= k < list.len() ==> is_id(#[trigger] list[k])
}

pub open spec fn id_repeats(list: Seq<ExtensionView>, i: int) -> bool {
    exists|k: int| 0 <= k < i && (#[trigger] list[k]).id == list[i].id
}

pub open spec fn located_at(located: Seq<bool>, i: int) -> bool {
    0 <= i < located.len() && located[i]
}

/// The first rule that one extension breaks.
pub open spec fn extension_fault(list: Seq<ExtensionView>, located: Seq<bool>, i: int) -> Option<Fault> {
    let d = list[i];
    if !is_id(d.id) || id_repeats(list, i) || d.namespaces.len() > 16 || d.allow_calls.len() > 128 || d.allow_nodes.len()
        > 64 {
        Some(rejected("invalid or duplicate extension identity/limits"@))
    } else {
        either(
            command_fault(d.command, located_at(located, i)),
            either(
                earliest(d.namespaces.len(), |j: int| namespace_fault(list, i, j)),
                if !all_allowed_valid(d.allow_calls) {
                    Some(rejected("invalid call allowlist"@))
                } else if !all_ids(d.allow_nodes) {
                    Some(rejected("invalid allowed node"@))
                } else {
                    None
                },
            ),
        )
    }
}

/// The first rule that a configuration breaks. `located` says of each extension that its
/// program and working directory exist as absolute local paths.
pub open spec fn config_fault(schema_version: u32, list: Seq<ExtensionView>, located: Seq<bool>) -> Option<Fault> {
    if schema_version != 1 || list.len() > 64 {
        Some(rejected("expected schema_version 1 and at most 64 extensions"@))
    } else {
        earliest(list.len(), |i: int| extension_fault(list, located, i))
    }
}

pub open spec fn reports(r: Result<(), ExtensionError>, fault: Option<Fault>) -> bool {
    match r {
        Ok(_) => fault is None,
        Err(e) => fault == Some(e@),
    }
}

fn refuse(message: &str) -> (e: ExtensionError)
    ensures
        e@ == rejected(message@),
{
    ExtensionError::Configuration(copied(message))
}

/// A configuration file is read up to a limit.
pub fn check_config_size(bytes: usize) -> (r: Result<(), ExtensionError>)
    ensures
        reports(
            r,
            if bytes > MAX_CONFIG_BYTES {
                Some(rejected("configuration exceeds 256 KiB"@))
            } else {
                None
            },
        ),
{
    if bytes > MAX_CONFIG_BYTES {
        return Err(refuse("configuration exceeds 256 KiB"));
    }
    Ok(())
}

fn within(a: &str, b: &str) -> (r: bool)
    ensures
        r == starts_with(a@, b@ + "."@),
{
    let prefix = joined(b, ".");
    begins(a, &prefix)
}

fn clashing(taken: &Vec<String>, namespace: &str) -> (r: bool)
    ensures
        r == clashes(texts(taken@), namespace@),
{
    let ghost all = texts(taken@);
    let mut k: usize = 0;
    while k < taken.len()
        invariant
            k <= taken.len(),
            all == texts(taken@),
            forall|m: int| 0 <= m < k ==> !overlap(#[trigger] all[m], namespace@),
        decreases taken.len() - k,
    {
        let other = &taken[k];
        if same(other, namespace) || within(other, namespace) || within(namespace, other) {
            assert(overlap(all[k as int], namespace@));
            return true;
        }
        assert(!overlap(all[k as int], namespace@));
        k = k + 1;
    }
    false
}

fn ids_valid(list: &Vec<String>) -> (r: bool)
    ensures
        r == all_ids(texts(list@)),
{
    let mut k: usize = 0;
    while k < list.len()
        invariant
            k <= list.len(),
            forall|m: int| 0 <= m < k ==> is_id(#[trigger] texts(list@)[m]),
        decreases list.len() - k,
    {
        if !valid_id(&list[k]) {
            assert(!is_id(texts(list@)[k as int]));
            return false;
        }
        k = k + 1;
    }
    true
}

fn allowed_valid(list: &Vec<AllowedMethod>) -> (r: bool)
    ensures
        r == all_allowed_valid(allowed_of(list@)),
{
    let mut k: usize = 0;
    while k < list.len()
        invariant
            k <= list.len(),
            forall|m: int| 0 <= m < k ==> allow_valid(#[trigger] allowed_of(list@)[m]),
        decreases list.len() - k,
    {
        if !valid_id(&list[k].contract) || !valid_id(&list[k].method) || list[k].version == 0 {
            assert(!allow_valid(allowed_of(list@)[k as int]));
            return false;
        }
        k = k + 1;
    }
    true
}

impl ExtensionsConfig {
    fn repeats(&self, i: usize) -> (r: bool)
        requires
            i < self.extensions.len(),
        ensures
            r == id_repeats(extensions_of(self.extensions@), i as int),
    {
        let ghost all = extensions_of(self.extensions@);
        let mut k: usize = 0;
        while k < i
            invariant
                k <= i < self.extensions.len(),
                all == extensions_of(self.extensions@),
                forall|m: int| 0 <= m < k ==> (#[trigger] all[m]).id != all[i as int].id,
            decreases i - k,
        {
            if same(&self.extensions[k].id, &self.extensions[i].id) {
                assert(all[k as int].id == all[i as int].id);
                return true;
            }
            assert(all[k as int].id != all[i as int].id);
            k = k + 1;
        }
        false
    }

    fn check(&self, i: usize, located: bool, claimed: &mut Vec<String>, Ghost(places): Ghost<Seq<bool>>) -> (r: Result<
        (),
        ExtensionError,
    >)
        requires
            i < self.extensions.len(),
            located == located_at(places, i as int),
            texts(old(claimed)@) == taken(extensions_of(self.extensions@), i as int, 0),
        ensures
            reports(r, extension_fault(extensions_of(self.extensions@), places, i as int)),
            r is Ok ==> texts(final(claimed)@) == taken(
                extensions_of(self.extensions@),
                i as int,
                self.extensions@[i as int].namespaces@.len() as int,
            ),
    {
        let ghost all = extensions_of(self.extensions@);
        let d = &self.extensions[i];
        assert(all[i as int] == d@);
        if !valid_id(&d.id) || self.repeats(i) || d.namespaces.len() > 16 || d.allow_calls.len() > 128 || d.allow_nodes.len()
            > 64 {
            return Err(refuse("invalid or duplicate extension identity/limits"));
        }
        if let Err(e) = d.command.validate(located) {
            return Err(e);
        }
        let ghost f = |j: int| namespace_fault(all, i as int, j);
        let mut j: usize = 0;
        while j < d.namespaces.len()
            invariant
                i < self.extensions.len(),
                all == extensions_of(self.extensions@),
                all[i as int] == d@,
                located == located_at(places, i as int),
                j <= d.namespaces.len(),
                is_id(d@.id) && !id_repeats(all, i as int) && d.namespaces.len() <= 16 && d.allow_calls.len() <= 128
                    && d.allow_nodes.len() <= 64,
                command_fault(d.command@, located) is None,
                f == (|k: int| namespace_fault(all, i as int, k)),
                earliest(j as nat, f) is None,
                texts(claimed@) == taken(all, i as int, j as int),
            decreases d.namespaces.len() - j,
        {
            let namespace = &d.namespaces[j];
            assert(d@.namespaces[j as int] == namespace@);
            assert(f(j as int) == namespace_fault(all, i as int, j as int));
            if d.kind != ExtensionKind::Plugin || !valid_id(namespace) || contract_reserved(namespace) || clashing(
                claimed,
                namespace,
            ) {
                proof {
                    assert(earliest((j + 1) as nat, f) == f(j as int));
                    earliest_sticks((j + 1) as nat, d@.namespaces.len(), f);
                }
                return Err(refuse("invalid, reserved or conflicting namespace"));
            }
            let ghost before = texts(claimed@);
            claimed.push(namespace.clone());
            proof {
                assert(texts(claimed@) =~= before.push(namespace@));
                assert(d@.namespaces.subrange(0, j + 1) =~= d@.namespaces.subrange(0, j as int).push(namespace@));
                assert(texts(claimed@) =~= taken(all, i as int, j + 1));
            }
            j = j + 1;
        }
        if !allowed_valid(&d.allow_calls) {
            return Err(refuse("invalid call allowlist"));
        }
        if !ids_valid(&d.allow_nodes) {
            return Err(refuse("invalid allowed node"));
        }
        Ok(())
    }

    /// Checks a configuration whose paths the caller has looked at.
    pub fn validate(&self, located: &Vec<bool>) -> (r: Result<(), ExtensionError>)
        ensures
            reports(r, config_fault(self.schema_version, extensions_of(self.extensions@), located@)),
    {
        if self.schema_version != 1 || self.extensions.len() > 64 {
            return Err(refuse("expected schema_version 1 and at most 64 extensions"));
        }
        let ghost all = extensions_of(self.extensions@);
        let ghost f = |i: int| extension_fault(all, located@, i);
        let mut claimed: Vec<String> = Vec::new();
        let mut i: usize = 0;
        assert(texts(claimed@) =~= taken(all, 0, 0));
        while i < self.extensions.len()
            invariant
                i <= self.extensions.len() <= 64,
                self.schema_version == 1,
                all == extensions_of(self.extensions@),
                f == (|k: int| extension_fault(all, located@, k)),
                earliest(i as nat, f) is None,
                i < self.extensions.len() ==> texts(claimed@) == taken(all, i as int, 0),
            decreases self.extensions.len() - i,
        {
            let here = if i < located.len() { located[i] } else { false };
            let checked = self.check(i, here, &mut claimed, Ghost(located@));
            assert(f(i as int) == extension_fault(all, located@, i as int));
            if let Err(e) = checked {
                proof {
                    assert(earliest((i + 1) as nat, f) == f(i as int));
                    earliest_sticks((i + 1) as nat, self.extensions.len() as nat, f);
                }
                return Err(e);
            }
            proof {
                if i + 1 < self.extensions.len() {
                    assert(all[i + 1].namespaces.subrange(0, 0) =~= Seq::<Seq<char>>::empty());
                    assert(taken(all, i + 1, 0) =~= taken(all, i as int, all[i as int].namespaces.len() as int));
                }
            }
            i = i + 1;
        }
        Ok(())
    }
}

// Metadata.

pub open spec fn view_capability() -> Seq<char> {
    "recuvora.monitoring_view.v1"@
}

pub open spec fn view_method() -> Seq<char> {
    "describe_monitoring_view"@
}

pub open spec fn contract_repeats(list: Seq<ContractView>, i: int) -> bool {
    exists|k: int| 0 <= k < i && (#[trigger] list[k]).id == list[i].id && list[k].version == list[i].version
}

pub open spec fn method_repeats(list: Seq<MethodView>, j: int) -> bool {
    exists|k: int| 0 <= k < j && (#[trigger] list[k]).name == list[j].name
}

/// What a schema check says of a declared schema.
pub open spec fn declared_fault(schema: Tree) -> Option<Fault> {
    match schema_fault(schema, 0) {
        Some(m) => Some(Fault::Rejected(m)),
        None => None,
    }
}

pub open spec fn method_fault(kind: ExtensionKind, m: MetadataView, i: int, j: int) -> Option<Fault> {
    let method = m.contracts[i].methods[j];
    if !is_id(method.name) || method_repeats(m.contracts[i].methods, j) {
        Some(Fault::Protocol("invalid or duplicate method"@))
    } else {
        either(
            declared_fault(method.input_schema),
            either(
                declared_fault(method.output_schema),
                // A malformed optional view must not disable the plugin itself.
                if kind == ExtensionKind::Plugin && !method.read_only && !(m.capabilities.contains(view_capability())
                    && method.name == view_method()) {
                    Some(Fault::Rejected("new plugin methods currently must be read-only"@))
                } else {
                    None
                },
            ),
        )
    }
}

pub open spec fn contract_fault(kind: ExtensionKind, m: MetadataView, i: int) -> Option<Fault> {
    let c = m.contracts[i];
    if !is_id(c.id) || c.version == 0 || c.methods.len() == 0 || c.methods.len() > 32 || contract_repeats(m.contracts, i) {
        Some(Fault::Protocol("invalid or duplicate contract"@))
    } else {
        earliest(c.methods.len(), |j: int| method_fault(kind, m, i, j))
    }
}

pub open spec fn name_repeats(list: Seq<Seq<char>>, i: int) -> bool {
    exists|k: int| 0 <= k < i && #[trigger] list[k] == list[i]
}

pub open spec fn names_valid(list: Seq<Seq<char>>) -> bool {
    forall|i: int| 0 <= i < list.len() ==> is_id(#[trigger] list[i]) && !name_repeats(list, i)
}

/// The first rule that an extension's own declaration breaks.
pub open spec fn metadata_fault(kind: ExtensionKind, m: MetadataView) -> Option<Fault> {
    if m.contracts.len() > 32 || m.capabilities.len() > 64 || m.workspaces.len() > 64 {
        Some(Fault::Protocol("metadata limit exceeded"@))
    } else {
        either(
            earliest(m.contracts.len(), |i: int| contract_fault(kind, m, i)),
            if !names_valid(m.capabilities) || !names_valid(m.workspaces) {
                Some(Fault::Protocol("invalid or duplicate capability/workspace"@))
            } else {
                None
            },
        )
    }
}

fn check_names(list: &Vec<String>) -> (r: bool)
    ensures
        r == names_valid(texts(list@)),
{
    let ghost all = texts(list@);
    let mut i: usize = 0;
    while i < list.len()
        invariant
            i <= list.len(),
            all == texts(list@),
            forall|k: int| 0 <= k < i ==> is_id(#[trigger] all[k]) && !name_repeats(all, k),
        decreases list.len() - i,
    {
        let mut fresh = valid_id(&list[i]);
        let mut k: usize = 0;
        while k < i
            invariant
                k <= i < list.len(),
                all == texts(list@),
                fresh == (is_id(all[i as int]) && forall|m: int| 0 <= m < k ==> #[trigger] all[m] != all[i as int]),
            decreases i - k,
        {
            let equal = same(&list[k], &list[i]);
            assert(equal == (all[k as int] == all[i as int]));
            fresh = fresh && !equal;
            k = k + 1;
        }
        assert(fresh == (is_id(all[i as int]) && !name_repeats(all, i as int)));
        if !fresh {
            return false;
        }
        i = i + 1;
    }
    true
}

fn check_schema(schema: &Json) -> (r: Result<(), ExtensionError>)
    ensures
        reports(r, declared_fault(schema@)),
{
    validate_schema(schema)
}

fn method_again(methods: &Vec<MethodDeclaration>, j: usize, Ghost(all): Ghost<Seq<MethodView>>) -> (r: bool)
    requires
        j < methods.len(),
        all == methods@.map_values(|m: MethodDeclaration| m@),
    ensures
        r == method_repeats(all, j as int),
{
    let mut k: usize = 0;
    while k < j
        invariant
            k <= j < methods.len(),
            all == methods@.map_values(|m: MethodDeclaration| m@),
            forall|m: int| 0 <= m < k ==> (#[trigger] all[m]).name != all[j as int].name,
        decreases j - k,
    {
        if same(&methods[k].name, &methods[j].name) {
            assert(all[k as int].name == all[j as int].name);
            return true;
        }
        assert(all[k as int].name != all[j as int].name);
        k = k + 1;
    }
    false
}

fn contract_again(contracts: &Vec<ContractDeclaration>, i: usize, Ghost(all): Ghost<Seq<ContractView>>) -> (r: bool)
    requires
        i < contracts.len(),
        all == contracts@.map_values(|c: ContractDeclaration| c@),
    ensures
        r == contract_repeats(all, i as int),
{
    let mut k: usize = 0;
    while k < i
        invariant
            k <= i < contracts.len(),
            all == contracts@.map_values(|c: ContractDeclaration| c@),
            forall|m: int|
                0 <= m < k ==> !((#[trigger] all[m]).id == all[i as int].id && all[m].version == all[i as int].version),
        decreases i - k,
    {
        if same(&contracts[k].id, &contracts[i].id) && contracts[k].version == contracts[i].version {
            assert(all[k as int].id == all[i as int].id);
            return true;
        }
        assert(!(all[k as int].id == all[i as int].id && all[k as int].version == all[i as int].version));
        k = k + 1;
    }
    false
}

fn check_method(kind: ExtensionKind, m: &ExtensionMetadata, i: usize, j: usize, viewable: bool) -> (r: Result<(), ExtensionError>)
    requires
        i < m.contracts.len(),
        j < m.contracts@[i as int].methods.len(),
        viewable == m@.capabilities.contains(view_capability()),
    ensures
        reports(r, method_fault(kind, m@, i as int, j as int)),
{
    let methods = &m.contracts[i].methods;
    let method = &methods[j];
    let ghost all = m@.contracts[i as int].methods;
    assert(all == methods@.map_values(|x: MethodDeclaration| x@));
    assert(all[j as int] == method@);
    if !valid_id(&method.name) || method_again(methods, j, Ghost(all)) {
        return Err(ExtensionError::Protocol(copied("invalid or duplicate method")));
    }
    if let Err(e) = check_schema(&method.input_schema) {
        return Err(e);
    }
    if let Err(e) = check_schema(&method.output_schema) {
        return Err(e);
    }
    if kind == ExtensionKind::Plugin && !method.read_only && !(viewable && same(&method.name, "describe_monitoring_view")) {
        return Err(ExtensionError::Rejected(copied("new plugin methods currently must be read-only")));
    }
    Ok(())
}

fn check_contract(kind: ExtensionKind, m: &ExtensionMetadata, i: usize, viewable: bool) -> (r: Result<(), ExtensionError>)
    requires
        i < m.contracts.len(),
        viewable == m@.capabilities.contains(view_capability()),
    ensures
        reports(r, contract_fault(kind, m@, i as int)),
{
    let c = &m.contracts[i];
    let ghost all = m@.contracts;
    assert(all[i as int] == c@);
    if !valid_id(&c.id) || c.version == 0 || c.methods.len() == 0 || c.methods.len() > 32 || contract_again(
        &m.contracts,
        i,
        Ghost(all),
    ) {
        return Err(ExtensionError::Protocol(copied("invalid or duplicate contract")));
    }
    let ghost f = |j: int| method_fault(kind, m@, i as int, j);
    let mut j: usize = 0;
    while j < c.methods.len()
        invariant
            i < m.contracts.len(),
            *c == m.contracts@[i as int],
            m@.contracts[i as int] == c@,
            j <= c.methods.len(),
            viewable == m@.capabilities.contains(view_capability()),
            f == (|k: int| method_fault(kind, m@, i as int, k)),
            earliest(j as nat, f) is None,
            is_id(c@.id) && c.version != 0 && 0 < c.methods.len() <= 32 && !contract_repeats(m@.contracts, i as int),
        decreases c.methods.len() - j,
    {
        let checked = check_method(kind, m, i, j, viewable);
        assert(f(j as int) == method_fault(kind, m@, i as int, j as int));
        if let Err(e) = checked {
            proof {
                assert(earliest((j + 1) as nat, f) == f(j as int));
                earliest_sticks((j + 1) as nat, c@.methods.len(), f);
            }
            return Err(e);
        }
        j = j + 1;
    }
    Ok(())
}

/// Checks what an extension declares of itself.
pub fn validate_metadata(kind: ExtensionKind, m: &ExtensionMetadata) -> (r: Result<(), ExtensionError>)
    ensures
        reports(r, metadata_fault(kind, m@)),
{
    if m.contracts.len() > 32 || m.capabilities.len() > 64 || m.workspaces.len() > 64 {
        return Err(ExtensionError::Protocol(copied("metadata limit exceeded")));
    }
    let viewable = listed(&m.capabilities, "recuvora.monitoring_view.v1");
    let ghost f = |i: int| contract_fault(kind, m@, i);
    let mut i: usize = 0;
    while i < m.contracts.len()
        invariant
            i <= m.contracts.len() <= 32,
            m.capabilities.len() <= 64 && m.workspaces.len() <= 64,
            viewable == m@.capabilities.contains(view_capability()),
            f == (|k: int| contract_fault(kind, m@, k)),
            earliest(i as nat, f) is None,
        decreases m.contracts.len() - i,
    {
        let checked = check_contract(kind, m, i, viewable);
        assert(f(i as int) == contract_fault(kind, m@, i as int));
        if let Err(e) = checked {
            proof {
                assert(earliest((i + 1) as nat, f) == f(i as int));
                earliest_sticks((i + 1) as nat, m@.contracts.len(), f);
            }
            return Err(e);
        }
        i = i + 1;
    }
    if !check_names(&m.capabilities) || !check_names(&m.workspaces) {
        return Err(ExtensionError::Protocol(copied("invalid or duplicate capability/workspace")));
    }
    Ok(())
}

// Copies.

impl Clone for ExtensionDefinition {
    fn clone(&self) -> (r: Self)
        ensures
            r@ == self@,
    {
        ExtensionDefinition {
            id: self.id.clone(),
            kind: self.kind,
            enabled: self.enabled,
            command: self.command.clone(),
            namespaces: copied_list(&self.namespaces),
            allow_calls: copied_allowed(&self.allow_calls),
            allow_nodes: copied_list(&self.allow_nodes),
        }
    }
}

pub fn copied_allowed(list: &Vec<AllowedMethod>) -> (r: Vec<AllowedMethod>)
    ensures
        allowed_of(r@) == allowed_of(list@),
{
    let mut r: Vec<AllowedMethod> = Vec::new();
    let mut i: usize = 0;
    while i < list.len()
        invariant
            i <= list.len(),
            r.len() == i,
            forall|j: int| 0 <= j < i ==> (#[trigger] r@[j])@ == list@[j]@,
        decreases list.len() - i,
    {
        let a = &list[i];
        r.push(AllowedMethod { contract: a.contract.clone(), version: a.version, method: a.method.clone() });
        i = i + 1;
    }
    assert(allowed_of(r@) =~= allowed_of(list@));
    r
}

} // verus!
