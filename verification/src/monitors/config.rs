//! Validation of monitoring configuration.
use super::rule::{rule_fault, rule_tree, rule_valid};
use super::{
    DefinitionView, DiscoveryView, Fault, MonitorDefinition, MonitorDiscovery, MonitorError, MonitorsConfig,
    MAX_CONFIG,
};
use crate::faults::{earliest, earliest_sticks, either};
use crate::json::values::{empty_object, object, opt_json, text_or_null, text_value, with};
use crate::json::{encoded_size, group_json, member, tree, trees, with_member, Json, Tree};
use crate::protocol::{is_id, valid_id};
use crate::text::{begins, byte_len, copied, joined, same, starts_with, strip};
use vstd::prelude::*;

verus! {

broadcast use group_json;

/// A monitor definition as a JSON value.
pub open spec fn definition_tree(d: DefinitionView) -> Tree {
    let t = with_member(empty_object(), "id"@, Tree::Text(d.id));
    let t = with_member(t, "target_id"@, Tree::Text(d.target_id));
    let t = with_member(t, "source_id"@, Tree::Text(d.source_id));
    let t = with_member(t, "view_role"@, text_or_null(d.view_role));
    let t = with_member(t, "extension_id"@, Tree::Text(d.extension_id));
    let t = with_member(t, "contract"@, Tree::Text(d.contract));
    let t = with_member(t, "version"@, Tree::Unsigned(d.version as u64));
    let t = with_member(t, "method"@, Tree::Text(d.method));
    let t = with_member(t, "params"@, d.params);
    let t = with_member(t, "interval_ms"@, Tree::Unsigned(d.interval_ms));
    let t = with_member(t, "timeout_ms"@, Tree::Unsigned(d.timeout_ms));
    let t = with_member(t, "stale_after_ms"@, Tree::Unsigned(d.stale_after_ms));
    let t = with_member(t, "startup_grace_ms"@, Tree::Unsigned(d.startup_grace_ms));
    with_member(t, "rule"@, rule_tree(d.rule))
}

/// A discovery source as a JSON value.
pub open spec fn discovery_tree(d: DiscoveryView) -> Tree {
    let t = with_member(empty_object(), "id"@, Tree::Text(d.id));
    let t = with_member(t, "extension_id"@, Tree::Text(d.extension_id));
    let t = with_member(t, "contract"@, Tree::Text(d.contract));
    let t = with_member(t, "version"@, Tree::Unsigned(d.version as u64));
    let t = with_member(t, "method"@, Tree::Text(d.method));
    let t = with_member(t, "params"@, d.params);
    let t = with_member(t, "interval_ms"@, Tree::Unsigned(d.interval_ms));
    let t = with_member(t, "timeout_ms"@, Tree::Unsigned(d.timeout_ms));
    let t = with_member(t, "max_targets"@, Tree::Unsigned(d.max_targets as u64));
    let t = with_member(t, "parameter"@, Tree::Text(d.parameter));
    with_member(t, "template"@, definition_tree(d.template))
}

pub open spec fn config_tree(schema_version: u32, monitors: Seq<DefinitionView>, discoveries: Seq<DiscoveryView>) -> Tree {
    let t = with_member(empty_object(), "schema_version"@, Tree::Unsigned(schema_version as u64));
    let t = with_member(t, "monitors"@, Tree::Array(monitors.map_values(|d: DefinitionView| definition_tree(d))));
    with_member(t, "discoveries"@, Tree::Array(discoveries.map_values(|d: DiscoveryView| discovery_tree(d))))
}

/// Contracts of the host itself.
pub open spec fn reserved_contract(contract: Seq<char>) -> bool {
    contract == "recuvora"@ || starts_with(contract, "recuvora."@)
}

pub open spec fn reserved_parameter(name: Seq<char>) -> bool {
    name == "target_id"@ || name == "source_id"@ || name == "cursor"@ || name == "generation"@
}

pub open spec fn has_reserved(params: Tree) -> bool {
    ||| member(params, "target_id"@) is Some
    ||| member(params, "source_id"@) is Some
    ||| member(params, "cursor"@) is Some
    ||| member(params, "generation"@) is Some
}

pub open spec fn identity_valid(d: DefinitionView) -> bool {
    &&& is_id(d.id) && is_id(d.target_id) && is_id(d.source_id) && is_id(d.extension_id) && is_id(d.contract) && is_id(
        d.method,
    )
    &&& d.view_role is Some ==> is_id(d.view_role->0)
    &&& d.version != 0
    &&& !reserved_contract(d.contract)
}

pub open spec fn durations_valid(d: DefinitionView) -> bool {
    &&& 10 <= d.interval_ms <= 3600000
    &&& 1 <= d.timeout_ms <= 30000
    &&& 10 <= d.stale_after_ms <= 86400000
    &&& 10 <= d.startup_grace_ms <= 86400000
    &&& 1 <= d.rule.failure_samples <= 1000
    &&& 1 <= d.rule.success_samples <= 1000
}

pub open spec fn invalid(message: Seq<char>) -> Fault {
    Fault::Configuration(message)
}

/// An earlier monitor has the same id.
pub open spec fn repeated(monitors: Seq<DefinitionView>, i: int) -> bool {
    exists|j: int| 0 <= j < i && (#[trigger] monitors[j]).id == monitors[i].id
}

pub open spec fn item_fault(monitors: Seq<DefinitionView>, i: int) -> Option<Fault> {
    let d = monitors[i];
    if repeated(monitors, i) || !identity_valid(d) {
        Some(invalid("invalid identity, duplicate monitor or reserved contract"@))
    } else if !(d.params is Object) {
        Some(invalid("params must be an object"@))
    } else if has_reserved(d.params) || encoded_size(d.params) > 16384 {
        Some(invalid("params exceeds limit or contains reserved observation fields"@))
    } else if !durations_valid(d) {
        Some(invalid("monitor durations or sample thresholds outside supported limits"@))
    } else if !rule_valid(d.rule) {
        Some(rule_fault())
    } else {
        None
    }
}

/// The rules on monitors alone.
pub open spec fn monitors_fault(schema_version: u32, monitors: Seq<DefinitionView>, discoveries: Seq<DiscoveryView>) -> Option<
    Fault,
> {
    if schema_version != 1 || monitors.len() > 64 {
        Some(invalid("expected schema_version 1 and at most 64 monitors"@))
    } else {
        either(
            earliest(monitors.len(), |i: int| item_fault(monitors, i)),
            if encoded_size(config_tree(schema_version, monitors, discoveries)) > MAX_CONFIG {
                Some(invalid("configuration exceeds 256 KiB"@))
            } else {
                None
            },
        )
    }
}

pub open spec fn reserved_prefix(monitors: Seq<DefinitionView>) -> bool {
    exists|i: int| 0 <= i < monitors.len() && starts_with((#[trigger] monitors[i]).id, "discovery."@)
}

pub open spec fn prefix_fault(monitors: Seq<DefinitionView>) -> Option<Fault> {
    if reserved_prefix(monitors) {
        Some(invalid("discovery. monitor IDs are reserved for inventory checkpoints"@))
    } else {
        None
    }
}

/// The rules on one monitor by itself.
pub open spec fn single_fault(d: DefinitionView) -> Option<Fault> {
    either(monitors_fault(1, seq![d], Seq::empty()), prefix_fault(seq![d]))
}

/// A discovered target's key.
pub open spec fn is_key(key: Seq<char>) -> bool {
    &&& 0 < key.len()
    &&& byte_len(key) <= 64
    &&& forall|i: int|
        0 <= i < key.len() ==> crate::text::is_alphanumeric(#[trigger] key[i]) || key[i] == '_' || key[i] == '-'
}

/// The longest key.
pub open spec fn longest_key() -> Seq<char> {
    Seq::new(64, |i: int| 'k')
}

pub open spec fn discovery_identity_valid(discoveries: Seq<DiscoveryView>, i: int) -> bool {
    let d = discoveries[i];
    &&& is_id(d.id) && is_id(d.extension_id) && is_id(d.contract) && is_id(d.method) && is_id(d.parameter)
    &&& is_id("discovery."@ + d.id)
    &&& !(exists|j: int| 0 <= j < i && (#[trigger] discoveries[j]).id == d.id)
    &&& !(exists|j: int| 0 <= j < i && (#[trigger] discoveries[j]).template.id == d.template.id)
    &&& !starts_with(d.template.id, "discovery."@)
    &&& d.version != 0
    &&& !reserved_contract(d.contract)
    &&& 1 <= d.max_targets <= 64
    &&& 10 <= d.interval_ms <= 3600000
    &&& 1 <= d.timeout_ms <= 30000
    &&& !reserved_parameter(d.parameter)
    &&& d.params is Object
    &&& encoded_size(d.params) <= 16384
}

/// Targets that the first `n` discoveries may enroll.
pub open spec fn reservations(discoveries: Seq<DiscoveryView>, n: nat) -> nat
    decreases n,
{
    if n == 0 { 0 } else { reservations(discoveries, (n - 1) as nat) + discoveries[n - 1].max_targets as nat }
}

/// A static monitor already lies where a discovered one could.
pub open spec fn overlaps(monitors: Seq<DefinitionView>, template_id: Seq<char>) -> bool {
    let prefix = template_id + "."@;
    exists|i: int|
        0 <= i < monitors.len() && starts_with((#[trigger] monitors[i]).id, prefix) && is_key(
            monitors[i].id.subrange(prefix.len() as int, monitors[i].id.len() as int),
        )
}

pub open spec fn keyed_id(prefix: Seq<char>, key: Seq<char>) -> Seq<char> {
    prefix + "."@ + key
}

/// The template with its parameter set to a key.
pub open spec fn expanded(d: DiscoveryView, key: Seq<char>) -> DefinitionView {
    DefinitionView { params: with_member(d.template.params, d.parameter, Tree::Text(key)), ..d.template }
}

pub open spec fn discovery_fault(monitors: Seq<DefinitionView>, discoveries: Seq<DiscoveryView>, i: int) -> Option<Fault> {
    let d = discoveries[i];
    if !discovery_identity_valid(discoveries, i) {
        Some(invalid("invalid discovery identity, duration, limit or parameters"@))
    } else if monitors.len() + reservations(discoveries, (i + 1) as nat) > 64 {
        Some(invalid("static monitors plus discovery reservations exceed 64"@))
    } else if single_fault(d.template) is Some {
        single_fault(d.template)
    } else if member(d.template.params, d.parameter) is Some || !is_id(keyed_id(d.template.id, longest_key())) || !is_id(
        keyed_id(d.template.target_id, longest_key()),
    ) || !is_id(keyed_id(d.template.source_id, longest_key())) || overlaps(monitors, d.template.id) {
        Some(invalid("discovery template prefix conflicts or parameter already exists"@))
    } else {
        single_fault(expanded(d, longest_key()))
    }
}

pub open spec fn discoveries_fault(monitors: Seq<DefinitionView>, discoveries: Seq<DiscoveryView>) -> Option<Fault> {
    if discoveries.len() > 8 {
        Some(invalid("at most 8 discovery sources are supported"@))
    } else {
        either(
            prefix_fault(monitors),
            earliest(discoveries.len(), |i: int| discovery_fault(monitors, discoveries, i)),
        )
    }
}

pub open spec fn definitions_of(list: Seq<MonitorDefinition>) -> Seq<DefinitionView> {
    list.map_values(|d: MonitorDefinition| d@)
}

pub open spec fn discoveries_of(list: Seq<MonitorDiscovery>) -> Seq<DiscoveryView> {
    list.map_values(|d: MonitorDiscovery| d@)
}

/// The first rule that a configuration breaks.
pub open spec fn config_fault(c: MonitorsConfig) -> Option<Fault> {
    let monitors = definitions_of(c.monitors@);
    let discoveries = discoveries_of(c.discoveries@);
    either(monitors_fault(c.schema_version, monitors, discoveries), discoveries_fault(monitors, discoveries))
}

/// Agreement of a check with the fault it looks for.
pub open spec fn reports(r: Result<(), MonitorError>, fault: Option<Fault>) -> bool {
    match r {
        Ok(_) => fault is None,
        Err(e) => fault == Some(e@),
    }
}

fn bad(message: &str) -> (e: MonitorError)
    ensures
        e@ == invalid(message@),
{
    MonitorError::Configuration(copied(message))
}

/// A configuration file is read up to a limit.
pub fn check_config_size(bytes: usize) -> (r: Result<(), MonitorError>)
    ensures
        reports(r, if bytes > MAX_CONFIG { Some(invalid("configuration exceeds 256 KiB"@)) } else { None }),
{
    if bytes > MAX_CONFIG {
        return Err(bad("configuration exceeds 256 KiB"));
    }
    Ok(())
}

impl MonitorDefinition {
    pub fn to_json(&self) -> (r: Json)
        ensures
            r@ == definition_tree(self@),
    {
        let t = with(object(), "id", text_value(&self.id));
        let t = with(t, "target_id", text_value(&self.target_id));
        let t = with(t, "source_id", text_value(&self.source_id));
        let t = with(t, "view_role", opt_json(&self.view_role));
        let t = with(t, "extension_id", text_value(&self.extension_id));
        let t = with(t, "contract", text_value(&self.contract));
        let t = with(t, "version", Json::Unsigned(self.version as u64));
        let t = with(t, "method", text_value(&self.method));
        let t = with(t, "params", self.params.copy());
        let t = with(t, "interval_ms", Json::Unsigned(self.interval_ms));
        let t = with(t, "timeout_ms", Json::Unsigned(self.timeout_ms));
        let t = with(t, "stale_after_ms", Json::Unsigned(self.stale_after_ms));
        let t = with(t, "startup_grace_ms", Json::Unsigned(self.startup_grace_ms));
        with(t, "rule", self.rule.to_json())
    }

    fn identity(&self) -> (r: bool)
        ensures
            r == identity_valid(self@),
    {
        let role = match &self.view_role {
            Some(role) => valid_id(role),
            None => true,
        };
        valid_id(&self.id) && valid_id(&self.target_id) && valid_id(&self.source_id) && valid_id(&self.extension_id)
            && valid_id(&self.contract) && valid_id(&self.method) && role && self.version != 0 && !contract_reserved(
            &self.contract,
        )
    }

    fn durations(&self) -> (r: bool)
        ensures
            r == durations_valid(self@),
    {
        10 <= self.interval_ms && self.interval_ms <= 3600000 && 1 <= self.timeout_ms && self.timeout_ms <= 30000 && 10
            <= self.stale_after_ms && self.stale_after_ms <= 86400000 && 10 <= self.startup_grace_ms && self.startup_grace_ms
            <= 86400000 && 1 <= self.rule.failure_samples && self.rule.failure_samples <= 1000 && 1
            <= self.rule.success_samples && self.rule.success_samples <= 1000
    }
}

impl MonitorDiscovery {
    pub fn to_json(&self) -> (r: Json)
        ensures
            r@ == discovery_tree(self@),
    {
        let t = with(object(), "id", text_value(&self.id));
        let t = with(t, "extension_id", text_value(&self.extension_id));
        let t = with(t, "contract", text_value(&self.contract));
        let t = with(t, "version", Json::Unsigned(self.version as u64));
        let t = with(t, "method", text_value(&self.method));
        let t = with(t, "params", self.params.copy());
        let t = with(t, "interval_ms", Json::Unsigned(self.interval_ms));
        let t = with(t, "timeout_ms", Json::Unsigned(self.timeout_ms));
        let t = with(t, "max_targets", Json::Unsigned(self.max_targets as u64));
        let t = with(t, "parameter", text_value(&self.parameter));
        with(t, "template", self.template.to_json())
    }
}

pub fn contract_reserved(contract: &str) -> (r: bool)
    ensures
        r == reserved_contract(contract@),
{
    same(contract, "recuvora") || begins(contract, "recuvora.")
}

fn parameter_reserved(name: &str) -> (r: bool)
    ensures
        r == reserved_parameter(name@),
{
    same(name, "target_id") || same(name, "source_id") || same(name, "cursor") || same(name, "generation")
}

fn reserved_in(params: &Json) -> (r: bool)
    ensures
        r == has_reserved(params@),
{
    params.get("target_id").is_some() || params.get("source_id").is_some() || params.get("cursor").is_some() || params.get(
        "generation",
    ).is_some()
}

fn id_repeats(monitors: &Vec<MonitorDefinition>, i: usize) -> (r: bool)
    requires
        i < monitors.len(),
    ensures
        r == repeated(definitions_of(monitors@), i as int),
{
    let ghost all = definitions_of(monitors@);
    let mut j: usize = 0;
    while j < i
        invariant
            j <= i < monitors.len(),
            all == definitions_of(monitors@),
            forall|k: int| 0 <= k < j ==> (#[trigger] all[k]).id != all[i as int].id,
        decreases i - j,
    {
        if same(&monitors[j].id, &monitors[i].id) {
            assert(all[j as int].id == all[i as int].id);
            return true;
        }
        assert(all[j as int].id != all[i as int].id);
        j = j + 1;
    }
    false
}

fn check_item(monitors: &Vec<MonitorDefinition>, i: usize) -> (r: Result<(), MonitorError>)
    requires
        i < monitors.len(),
    ensures
        reports(r, item_fault(definitions_of(monitors@), i as int)),
{
    let item = &monitors[i];
    if id_repeats(monitors, i) || !item.identity() {
        return Err(bad("invalid identity, duplicate monitor or reserved contract"));
    }
    match &item.params {
        Json::Object(_) => {},
        _ => {
            return Err(bad("params must be an object"));
        },
    }
    if reserved_in(&item.params) || item.params.size() > 16384 {
        return Err(bad("params exceeds limit or contains reserved observation fields"));
    }
    if !item.durations() {
        return Err(bad("monitor durations or sample thresholds outside supported limits"));
    }
    item.rule.validate()
}

fn monitors_json(monitors: &Vec<MonitorDefinition>) -> (r: Json)
    ensures
        r@ == Tree::Array(definitions_of(monitors@).map_values(|d: DefinitionView| definition_tree(d))),
{
    let mut list: Vec<Json> = Vec::new();
    let mut i: usize = 0;
    while i < monitors.len()
        invariant
            i <= monitors.len(),
            list.len() == i,
            forall|j: int| 0 <= j < i ==> tree(#[trigger] list@[j]) == definition_tree(monitors@[j]@),
        decreases monitors.len() - i,
    {
        list.push(monitors[i].to_json());
        i = i + 1;
    }
    assert(trees(list@) =~= definitions_of(monitors@).map_values(|d: DefinitionView| definition_tree(d)));
    Json::Array(list)
}

fn discoveries_json(discoveries: &Vec<MonitorDiscovery>) -> (r: Json)
    ensures
        r@ == Tree::Array(discoveries_of(discoveries@).map_values(|d: DiscoveryView| discovery_tree(d))),
{
    let mut list: Vec<Json> = Vec::new();
    let mut i: usize = 0;
    while i < discoveries.len()
        invariant
            i <= discoveries.len(),
            list.len() == i,
            forall|j: int| 0 <= j < i ==> tree(#[trigger] list@[j]) == discovery_tree(discoveries@[j]@),
        decreases discoveries.len() - i,
    {
        list.push(discoveries[i].to_json());
        i = i + 1;
    }
    assert(trees(list@) =~= discoveries_of(discoveries@).map_values(|d: DiscoveryView| discovery_tree(d)));
    Json::Array(list)
}

fn check_monitors(schema_version: u32, monitors: &Vec<MonitorDefinition>, discoveries: &Vec<MonitorDiscovery>) -> (r: Result<
    (),
    MonitorError,
>)
    ensures
        reports(r, monitors_fault(schema_version, definitions_of(monitors@), discoveries_of(discoveries@))),
{
    if schema_version != 1 || monitors.len() > 64 {
        return Err(bad("expected schema_version 1 and at most 64 monitors"));
    }
    let ghost all = definitions_of(monitors@);
    let ghost f = |i: int| item_fault(all, i);
    let mut i: usize = 0;
    while i < monitors.len()
        invariant
            i <= monitors.len() <= 64,
            schema_version == 1,
            all == definitions_of(monitors@),
            f == (|k: int| item_fault(all, k)),
            earliest(i as nat, f) is None,
        decreases monitors.len() - i,
    {
        let checked = check_item(monitors, i);
        assert(f(i as int) == item_fault(all, i as int));
        if let Err(e) = checked {
            proof {
                assert(earliest((i + 1) as nat, f) == f(i as int));
                earliest_sticks((i + 1) as nat, monitors.len() as nat, f);
            }
            return Err(e);
        }
        i = i + 1;
    }
    let t = with(object(), "schema_version", Json::Unsigned(schema_version as u64));
    let t = with(t, "monitors", monitors_json(monitors));
    let t = with(t, "discoveries", discoveries_json(discoveries));
    if t.size() > MAX_CONFIG {
        return Err(bad("configuration exceeds 256 KiB"));
    }
    Ok(())
}

fn check_prefix(monitors: &Vec<MonitorDefinition>) -> (r: Result<(), MonitorError>)
    ensures
        reports(r, prefix_fault(definitions_of(monitors@))),
{
    let ghost all = definitions_of(monitors@);
    let mut i: usize = 0;
    while i < monitors.len()
        invariant
            i <= monitors.len(),
            all == definitions_of(monitors@),
            forall|j: int| 0 <= j < i ==> !starts_with((#[trigger] all[j]).id, "discovery."@),
        decreases monitors.len() - i,
    {
        if begins(&monitors[i].id, "discovery.") {
            assert(starts_with(all[i as int].id, "discovery."@));
            return Err(bad("discovery. monitor IDs are reserved for inventory checkpoints"));
        }
        assert(!starts_with(all[i as int].id, "discovery."@));
        i = i + 1;
    }
    Ok(())
}

fn check_single(d: &MonitorDefinition) -> (r: Result<(), MonitorError>)
    ensures
        reports(r, single_fault(d@)),
{
    let mut one: Vec<MonitorDefinition> = Vec::new();
    one.push(d.clone());
    let none: Vec<MonitorDiscovery> = Vec::new();
    proof {
        assert(definitions_of(one@) =~= seq![d@]);
        assert(discoveries_of(none@) =~= Seq::<DiscoveryView>::empty());
    }
    if let Err(e) = check_monitors(1, &one, &none) {
        return Err(e);
    }
    check_prefix(&one)
}

/// Whether a key can name a discovered target.
pub fn key_valid(key: &str) -> (r: bool)
    ensures
        r == is_key(key@),
{
    if key.is_empty() || crate::text::utf8_len(key) > 64 {
        return false;
    }
    let list = crate::text::characters(key);
    let mut i: usize = 0;
    while i < list.len()
        invariant
            i <= list.len(),
            list@ == key@,
            forall|j: int|
                0 <= j < i ==> crate::text::is_alphanumeric(#[trigger] key@[j]) || key@[j] == '_' || key@[j] == '-',
        decreases list.len() - i,
    {
        if !(crate::text::alphanumeric(list[i]) || list[i] == '_' || list[i] == '-') {
            assert(!(crate::text::is_alphanumeric(key@[i as int]) || key@[i as int] == '_' || key@[i as int] == '-'));
            return false;
        }
        i = i + 1;
    }
    true
}

fn long_key() -> (r: String)
    ensures
        r@ == longest_key(),
{
    let mut r = String::new();
    let mut i: usize = 0;
    while i < 64
        invariant
            i <= 64,
            r@ == Seq::new(i as nat, |k: int| 'k'),
        decreases 64 - i,
    {
        crate::text::push(&mut r, 'k');
        assert(r@ =~= Seq::new((i + 1) as nat, |k: int| 'k'));
        i = i + 1;
    }
    r
}

pub fn keyed(prefix: &str, key: &str) -> (r: String)
    ensures
        r@ == keyed_id(prefix@, key@),
{
    let r = joined(prefix, ".");
    joined(&r, key)
}

fn overlapping(monitors: &Vec<MonitorDefinition>, template_id: &str) -> (r: bool)
    ensures
        r == overlaps(definitions_of(monitors@), template_id@),
{
    let ghost all = definitions_of(monitors@);
    let prefix = joined(template_id, ".");
    let mut i: usize = 0;
    while i < monitors.len()
        invariant
            i <= monitors.len(),
            all == definitions_of(monitors@),
            prefix@ == template_id@ + "."@,
            forall|j: int|
                0 <= j < i ==> !(starts_with((#[trigger] all[j]).id, prefix@) && is_key(
                    all[j].id.subrange(prefix@.len() as int, all[j].id.len() as int),
                )),
        decreases monitors.len() - i,
    {
        let rest = strip(&monitors[i].id, &prefix);
        assert(all[i as int].id == monitors@[i as int].id@);
        if let Some(rest) = rest {
            if key_valid(&rest) {
                return true;
            }
        }
        i = i + 1;
    }
    false
}

fn discovery_identity(discoveries: &Vec<MonitorDiscovery>, i: usize) -> (r: bool)
    requires
        i < discoveries.len(),
    ensures
        r == discovery_identity_valid(discoveries_of(discoveries@), i as int),
{
    let ghost all = discoveries_of(discoveries@);
    let d = &discoveries[i];
    let mut fresh = true;
    let mut j: usize = 0;
    while j < i
        invariant
            j <= i < discoveries.len(),
            all == discoveries_of(discoveries@),
            d@ == all[i as int],
            fresh == (!(exists|k: int| 0 <= k < j && (#[trigger] all[k]).id == all[i as int].id) && !(exists|k: int|
                0 <= k < j && (#[trigger] all[k]).template.id == all[i as int].template.id)),
        decreases i - j,
    {
        let clash = same(&discoveries[j].id, &d.id) || same(&discoveries[j].template.id, &d.template.id);
        proof {
            assert(all[j as int] == discoveries@[j as int]@);
            if clash {
                assert(all[j as int].id == all[i as int].id || all[j as int].template.id == all[i as int].template.id);
            }
        }
        fresh = fresh && !clash;
        j = j + 1;
    }
    let object = match &d.params {
        Json::Object(_) => true,
        _ => false,
    };
    let checkpoint = joined("discovery.", &d.id);
    valid_id(&d.id) && valid_id(&d.extension_id) && valid_id(&d.contract) && valid_id(&d.method) && valid_id(&d.parameter)
        && valid_id(&checkpoint) && fresh && !begins(&d.template.id, "discovery.") && d.version != 0 && !contract_reserved(
        &d.contract,
    ) && 1 <= d.max_targets && d.max_targets <= 64 && 10 <= d.interval_ms && d.interval_ms <= 3600000 && 1 <= d.timeout_ms
        && d.timeout_ms <= 30000 && !parameter_reserved(&d.parameter) && object && d.params.size() <= 16384
}

fn check_discovery(monitors: &Vec<MonitorDefinition>, discoveries: &Vec<MonitorDiscovery>, i: usize, reserved: usize) -> (r:
    Result<(), MonitorError>)
    requires
        i < discoveries.len(),
        monitors.len() <= 64,
        reserved == reservations(discoveries_of(discoveries@), i as nat),
        reserved <= 64,
    ensures
        reports(r, discovery_fault(definitions_of(monitors@), discoveries_of(discoveries@), i as int)),
{
    if !discovery_identity(discoveries, i) {
        return Err(bad("invalid discovery identity, duration, limit or parameters"));
    }
    let d = &discoveries[i];
    if monitors.len() + reserved + d.max_targets > 64 {
        return Err(bad("static monitors plus discovery reservations exceed 64"));
    }
    if let Err(e) = check_single(&d.template) {
        return Err(e);
    }
    let key = long_key();
    if d.template.params.get(&d.parameter).is_some() || !valid_id(&keyed(&d.template.id, &key)) || !valid_id(
        &keyed(&d.template.target_id, &key),
    ) || !valid_id(&keyed(&d.template.source_id, &key)) || overlapping(monitors, &d.template.id) {
        return Err(bad("discovery template prefix conflicts or parameter already exists"));
    }
    // Account for the largest supported key before any remote inventory is accepted.
    let mut grown = d.template.clone();
    grown.params.set(&d.parameter, Json::Text(key));
    check_single(&grown)
}

fn check_discoveries(monitors: &Vec<MonitorDefinition>, discoveries: &Vec<MonitorDiscovery>) -> (r: Result<(), MonitorError>)
    requires
        monitors.len() <= 64,
    ensures
        reports(r, discoveries_fault(definitions_of(monitors@), discoveries_of(discoveries@))),
{
    if discoveries.len() > 8 {
        return Err(bad("at most 8 discovery sources are supported"));
    }
    if let Err(e) = check_prefix(monitors) {
        return Err(e);
    }
    let ghost all = discoveries_of(discoveries@);
    let ghost base = definitions_of(monitors@);
    let ghost f = |i: int| discovery_fault(base, all, i);
    let mut reserved: usize = 0;
    let mut i: usize = 0;
    while i < discoveries.len()
        invariant
            i <= discoveries.len() <= 8,
            monitors.len() <= 64,
            all == discoveries_of(discoveries@),
            base == definitions_of(monitors@),
            f == (|k: int| discovery_fault(base, all, k)),
            earliest(i as nat, f) is None,
            prefix_fault(base) is None,
            reserved == reservations(all, i as nat),
            reserved <= 64,
        decreases discoveries.len() - i,
    {
        let checked = check_discovery(monitors, discoveries, i, reserved);
        assert(f(i as int) == discovery_fault(base, all, i as int));
        if let Err(e) = checked {
            proof {
                assert(earliest((i + 1) as nat, f) == f(i as int));
                earliest_sticks((i + 1) as nat, discoveries.len() as nat, f);
            }
            return Err(e);
        }
        assert(all[i as int] == discoveries@[i as int]@);
        reserved = reserved + discoveries[i].max_targets;
        i = i + 1;
    }
    Ok(())
}

impl MonitorsConfig {
    pub fn validate(&self) -> (r: Result<(), MonitorError>)
        ensures
            reports(r, config_fault(*self)),
    {
        if let Err(e) = check_monitors(self.schema_version, &self.monitors, &self.discoveries) {
            return Err(e);
        }
        check_discoveries(&self.monitors, &self.discoveries)
    }
}

/// A valid configuration never lets more than 64 monitors exist, static or discovered.
pub proof fn valid_configurations_stay_small(c: MonitorsConfig)
    requires
        config_fault(c) is None,
    ensures
        c.monitors@.len() + reservations(discoveries_of(c.discoveries@), c.discoveries@.len()) <= 64,
{
    let monitors = definitions_of(c.monitors@);
    let discoveries = discoveries_of(c.discoveries@);
    let n = discoveries.len();
    let f = |i: int| discovery_fault(monitors, discoveries, i);
    if n > 0 {
        crate::faults::earliest_none(n, f);
        assert(f(n - 1) is None);
        assert(discovery_fault(monitors, discoveries, n - 1) is None);
    }
}

} // verus!
