//! Configuration-bound, bounded reads of monitored observation records.
pub mod cursors;
pub mod records;

use super::{bad_request, is_id, refusal, reports, unavailable, valid_id, ApiError, Refusal, CONFLICT, SERVICE_UNAVAILABLE};
use crate::faults::{earliest, earliest_sticks};
use crate::json::values::{text_value, with};
use crate::json::{encoded_size, group_json, resolved, with_member, Json, Tree};
use crate::monitors::rule::{check_escapes, escapes_valid};
use crate::monitors::MonitorDefinition;
use crate::nodes::registry::ExtensionRegistry;
use crate::nodes::ExtensionDefinition;
use crate::protocol::{ContractDeclaration, ExtensionError, ExtensionMetadata};
use crate::text::{
    begins, byte_len, copied, holds, listed, occurs, same, starts_with, texts, upper, uppered, utf8_len,
};
use vstd::prelude::*;

verus! {

broadcast use group_json;

/// A parameter of the provider that is read out of an enrolled monitor's parameters.
pub struct Binding {
    pub name: String,
    /// JSON pointer into the enrolled monitor's parameters.
    pub pointer: String,
}

/// Only a trusted deployment can choose a provider, method or target mapping. No two
/// bindings have one name.
pub struct LogSourceConfig {
    pub id: String,
    pub extension_id: String,
    pub contract: String,
    pub version: u32,
    pub method: String,
    pub monitor_contract: String,
    pub params: Json,
    pub parameter_bindings: Vec<Binding>,
    pub cursor_parameter: String,
    pub limit_parameter: String,
    pub timeout_ms: u64,
    pub result: LogResultMapping,
    pub error_levels: Vec<String>,
    pub error_events: Vec<String>,
}

/// JSON pointers, applied to the provider response and each individual record.
pub struct LogResultMapping {
    pub entries: String,
    pub next_cursor: String,
    pub has_more: String,
    pub stream_label: String,
    pub coverage: String,
    pub source_error: String,
    pub available_streams: String,
    pub id: String,
    pub timestamp: String,
    pub level: String,
    pub message: String,
    pub event: String,
}

pub struct MappingView {
    pub entries: Seq<char>,
    pub next_cursor: Seq<char>,
    pub has_more: Seq<char>,
    pub stream_label: Seq<char>,
    pub coverage: Seq<char>,
    pub source_error: Seq<char>,
    pub available_streams: Seq<char>,
    pub id: Seq<char>,
    pub timestamp: Seq<char>,
    pub level: Seq<char>,
    pub message: Seq<char>,
    pub event: Seq<char>,
}

impl View for LogResultMapping {
    type V = MappingView;

    open spec fn view(&self) -> MappingView {
        MappingView {
            entries: self.entries@,
            next_cursor: self.next_cursor@,
            has_more: self.has_more@,
            stream_label: self.stream_label@,
            coverage: self.coverage@,
            source_error: self.source_error@,
            available_streams: self.available_streams@,
            id: self.id@,
            timestamp: self.timestamp@,
            level: self.level@,
            message: self.message@,
            event: self.event@,
        }
    }
}

impl Default for LogResultMapping {
    fn default() -> (r: Self)
        ensures
            r@ == (MappingView {
                entries: "/entries"@,
                next_cursor: "/next_cursor"@,
                has_more: "/has_more"@,
                stream_label: "/stream_label"@,
                coverage: "/coverage"@,
                source_error: "/error"@,
                available_streams: "/available_streams"@,
                id: "/id"@,
                timestamp: "/timestamp"@,
                level: "/level"@,
                message: "/message"@,
                event: "/event"@,
            }),
    {
        LogResultMapping {
            entries: copied("/entries"),
            next_cursor: copied("/next_cursor"),
            has_more: copied("/has_more"),
            stream_label: copied("/stream_label"),
            coverage: copied("/coverage"),
            source_error: copied("/error"),
            available_streams: copied("/available_streams"),
            id: copied("/id"),
            timestamp: copied("/timestamp"),
            level: copied("/level"),
            message: copied("/message"),
            event: copied("/event"),
        }
    }
}

pub struct SourceView {
    pub id: Seq<char>,
    pub extension_id: Seq<char>,
    pub contract: Seq<char>,
    pub version: u32,
    pub method: Seq<char>,
    pub monitor_contract: Seq<char>,
    pub params: Tree,
    pub bindings: Seq<(Seq<char>, Seq<char>)>,
    pub cursor_parameter: Seq<char>,
    pub limit_parameter: Seq<char>,
    pub timeout_ms: u64,
    pub result: MappingView,
    pub error_levels: Seq<Seq<char>>,
    pub error_events: Seq<Seq<char>>,
}

pub open spec fn bindings_of(list: Seq<Binding>) -> Seq<(Seq<char>, Seq<char>)> {
    list.map_values(|b: Binding| (b.name@, b.pointer@))
}

impl View for LogSourceConfig {
    type V = SourceView;

    open spec fn view(&self) -> SourceView {
        SourceView {
            id: self.id@,
            extension_id: self.extension_id@,
            contract: self.contract@,
            version: self.version,
            method: self.method@,
            monitor_contract: self.monitor_contract@,
            params: self.params@,
            bindings: bindings_of(self.parameter_bindings@),
            cursor_parameter: self.cursor_parameter@,
            limit_parameter: self.limit_parameter@,
            timeout_ms: self.timeout_ms,
            result: self.result@,
            error_levels: texts(self.error_levels@),
            error_events: texts(self.error_events@),
        }
    }
}

pub open spec fn sources_of(list: Seq<LogSourceConfig>) -> Seq<SourceView> {
    list.map_values(|s: LogSourceConfig| s@)
}

/// A pointer that a trusted mapping may use.
pub open spec fn is_pointer(p: Seq<char>) -> bool {
    byte_len(p) <= 1024 && starts_with(p, "/"@) && escapes_valid(p)
}

pub fn pointer_valid(pointer: &str) -> (r: bool)
    ensures
        r == is_pointer(pointer@),
{
    utf8_len(pointer) <= 1024 && begins(pointer, "/") && check_escapes(pointer)
}

pub open spec fn mapping_valid(m: MappingView) -> bool {
    &&& is_pointer(m.entries) && is_pointer(m.next_cursor) && is_pointer(m.has_more) && is_pointer(m.stream_label)
    &&& is_pointer(m.coverage) && is_pointer(m.source_error) && is_pointer(m.available_streams) && is_pointer(m.id)
    &&& is_pointer(m.timestamp) && is_pointer(m.level) && is_pointer(m.message) && is_pointer(m.event)
}

pub open spec fn binding_valid(s: SourceView, b: (Seq<char>, Seq<char>)) -> bool {
    &&& is_id(b.0) && is_pointer(b.1)
    &&& b.0 != s.cursor_parameter && b.0 != s.limit_parameter
    &&& crate::json::member(s.params, b.0) is None
}

/// No two error levels that differ only in case.
pub open spec fn levels_differ(list: Seq<Seq<char>>) -> bool {
    forall|a: int, b: int| 0 <= a < b < list.len() ==> uppered(#[trigger] list[a]) != uppered(#[trigger] list[b])
}

/// A source that can be read from, by itself.
pub open spec fn source_valid(s: SourceView) -> bool {
    &&& is_id(s.id) && is_id(s.extension_id) && is_id(s.contract) && is_id(s.method) && is_id(s.monitor_contract)
    &&& is_id(s.cursor_parameter) && is_id(s.limit_parameter)
    &&& s.contract != "recuvora"@ && !starts_with(s.contract, "recuvora."@)
    &&& s.version != 0 && 1 <= s.timeout_ms <= 30000
    &&& s.params is Object && encoded_size(s.params) <= 16384
    &&& 0 < s.bindings.len() <= 16
    &&& s.cursor_parameter != s.limit_parameter
    &&& crate::json::member(s.params, s.cursor_parameter) is None
    &&& crate::json::member(s.params, s.limit_parameter) is None
    &&& forall|i: int| 0 <= i < s.bindings.len() ==> binding_valid(s, #[trigger] s.bindings[i])
    &&& mapping_valid(s.result)
    &&& s.error_levels.len() <= 16 && levels_differ(s.error_levels)
    &&& forall|i: int|
        0 <= i < s.error_levels.len() ==> byte_len(#[trigger] s.error_levels[i]) <= 32 && is_id(s.error_levels[i])
    &&& s.error_events.len() <= 16
    &&& forall|i: int| 0 <= i < s.error_events.len() ==> is_id(#[trigger] s.error_events[i])
}

/// No earlier source has its identity or serves the same monitors.
pub open spec fn source_new(list: Seq<SourceView>, i: int) -> bool {
    forall|j: int|
        0 <= j < i ==> (#[trigger] list[j]).id != list[i].id && !(list[j].extension_id == list[i].extension_id
            && list[j].monitor_contract == list[i].monitor_contract)
}

pub open spec fn sources_fault(list: Seq<SourceView>) -> Option<Refusal> {
    if list.len() > 16 {
        Some(bad_request("at most 16 log sources are allowed"@))
    } else if forall|i: int| 0 <= i < list.len() ==> source_valid(#[trigger] list[i]) && source_new(list, i) {
        None
    } else {
        Some(bad_request("invalid or ambiguous trusted log source configuration"@))
    }
}

fn check_bindings(s: &LogSourceConfig) -> (r: bool)
    ensures
        r == forall|i: int| 0 <= i < s@.bindings.len() ==> binding_valid(s@, #[trigger] s@.bindings[i]),
{
    let ghost v = s@;
    let mut i: usize = 0;
    while i < s.parameter_bindings.len()
        invariant
            i <= s.parameter_bindings.len(),
            v == s@,
            v.bindings.len() == s.parameter_bindings.len(),
            forall|j: int| 0 <= j < i ==> binding_valid(v, #[trigger] v.bindings[j]),
        decreases s.parameter_bindings.len() - i,
    {
        let b = &s.parameter_bindings[i];
        assert(v.bindings[i as int] == (b.name@, b.pointer@));
        if !valid_id(&b.name) || !pointer_valid(&b.pointer) || same(&b.name, &s.cursor_parameter) || same(
            &b.name,
            &s.limit_parameter,
        ) || s.params.get(&b.name).is_some() {
            assert(!binding_valid(v, v.bindings[i as int]));
            return false;
        }
        i = i + 1;
    }
    true
}

fn check_mapping(m: &LogResultMapping) -> (r: bool)
    ensures
        r == mapping_valid(m@),
{
    pointer_valid(&m.entries) && pointer_valid(&m.next_cursor) && pointer_valid(&m.has_more) && pointer_valid(&m.stream_label)
        && pointer_valid(&m.coverage) && pointer_valid(&m.source_error) && pointer_valid(&m.available_streams) && pointer_valid(
        &m.id,
    ) && pointer_valid(&m.timestamp) && pointer_valid(&m.level) && pointer_valid(&m.message) && pointer_valid(&m.event)
}

fn check_levels(list: &Vec<String>) -> (r: bool)
    ensures
        r == (levels_differ(texts(list@)) && forall|i: int|
            0 <= i < texts(list@).len() ==> byte_len(#[trigger] texts(list@)[i]) <= 32 && is_id(texts(list@)[i])),
{
    let ghost all = texts(list@);
    let mut seen: Vec<String> = Vec::new();
    let mut i: usize = 0;
    while i < list.len()
        invariant
            i <= list.len(),
            all == texts(list@),
            seen.len() == i,
            forall|j: int| 0 <= j < i ==> (#[trigger] seen@[j])@ == uppered(all[j]),
            forall|a: int, b: int| 0 <= a < b < i ==> uppered(#[trigger] all[a]) != uppered(#[trigger] all[b]),
            forall|j: int| 0 <= j < i ==> byte_len(#[trigger] all[j]) <= 32 && is_id(all[j]),
        decreases list.len() - i,
    {
        assert(all[i as int] == list@[i as int]@);
        if utf8_len(&list[i]) > 32 || !valid_id(&list[i]) {
            return false;
        }
        let up = upper(&list[i]);
        if listed(&seen, &up) {
            proof {
                let k = choose|k: int| 0 <= k < texts(seen@).len() && texts(seen@)[k] == up@;
                assert(texts(seen@)[k] == seen@[k]@);
                assert(uppered(all[k]) == uppered(all[i as int]));
            }
            return false;
        }
        proof {
            assert forall|k: int| 0 <= k < i implies uppered(#[trigger] all[k]) != uppered(all[i as int]) by {
                assert(texts(seen@)[k] == seen@[k]@);
                assert(texts(seen@).contains(seen@[k]@));
            }
        }
        seen.push(up);
        i = i + 1;
    }
    true
}

fn check_events(list: &Vec<String>) -> (r: bool)
    ensures
        r == forall|i: int| 0 <= i < texts(list@).len() ==> is_id(#[trigger] texts(list@)[i]),
{
    let ghost all = texts(list@);
    let mut i: usize = 0;
    while i < list.len()
        invariant
            i <= list.len(),
            all == texts(list@),
            forall|j: int| 0 <= j < i ==> is_id(#[trigger] all[j]),
        decreases list.len() - i,
    {
        assert(all[i as int] == list@[i as int]@);
        if !valid_id(&list[i]) {
            return false;
        }
        i = i + 1;
    }
    true
}

impl LogSourceConfig {
    fn valid(&self) -> (r: bool)
        ensures
            r == source_valid(self@),
    {
        let is_object = match &self.params {
            Json::Object(_) => true,
            _ => false,
        };
        if !is_object {
            return false;
        }
        if !valid_id(&self.id) || !valid_id(&self.extension_id) || !valid_id(&self.contract) || !valid_id(&self.method)
            || !valid_id(&self.monitor_contract) || !valid_id(&self.cursor_parameter) || !valid_id(&self.limit_parameter) {
            return false;
        }
        if same(&self.contract, "recuvora") || begins(&self.contract, "recuvora.") || self.version == 0 || self.timeout_ms < 1
            || self.timeout_ms > 30000 {
            return false;
        }
        if self.params.size() > 16384 || self.parameter_bindings.len() == 0 || self.parameter_bindings.len() > 16 || same(
            &self.cursor_parameter,
            &self.limit_parameter,
        ) || self.params.get(&self.cursor_parameter).is_some() || self.params.get(&self.limit_parameter).is_some() {
            return false;
        }
        check_bindings(self) && check_mapping(&self.result) && self.error_levels.len() <= 16 && check_levels(&self.error_levels)
            && self.error_events.len() <= 16 && check_events(&self.error_events)
    }
}

pub fn validate_sources(sources: &Vec<LogSourceConfig>) -> (r: Result<(), ApiError>)
    ensures
        reports(r, sources_fault(sources_of(sources@))),
{
    let ghost all = sources_of(sources@);
    if sources.len() > 16 {
        return Err(ApiError::invalid("at most 16 log sources are allowed"));
    }
    let mut i: usize = 0;
    while i < sources.len()
        invariant
            i <= sources.len(),
            sources.len() <= 16,
            all == sources_of(sources@),
            forall|j: int| 0 <= j < i ==> source_valid(#[trigger] all[j]) && source_new(all, j),
        decreases sources.len() - i,
    {
        assert(all[i as int] == sources@[i as int]@);
        let mut fresh = true;
        let mut j: usize = 0;
        while j < i
            invariant
                j <= i,
                i < sources.len(),
                all == sources_of(sources@),
                fresh ==> forall|k: int|
                    0 <= k < j ==> (#[trigger] all[k]).id != all[i as int].id && !(all[k].extension_id
                        == all[i as int].extension_id && all[k].monitor_contract == all[i as int].monitor_contract),
                !fresh ==> !source_new(all, i as int),
            decreases i - j,
        {
            assert(all[j as int] == sources@[j as int]@);
            assert(all[i as int] == sources@[i as int]@);
            if same(&sources[j].id, &sources[i].id) || (same(&sources[j].extension_id, &sources[i].extension_id) && same(
                &sources[j].monitor_contract,
                &sources[i].monitor_contract,
            )) {
                fresh = false;
            }
            j = j + 1;
        }
        if !sources[i].valid() || !fresh {
            assert(!(source_valid(all[i as int]) && source_new(all, i as int)));
            return Err(ApiError::invalid("invalid or ambiguous trusted log source configuration"));
        }
        i = i + 1;
    }
    Ok(())
}

// Parameters.

/// A bounded scalar identity.
pub open spec fn bindable(v: Tree) -> bool {
    match v {
        Tree::Text(t) => byte_len(t) <= 1024,
        Tree::Bool(_) | Tree::Unsigned(_) | Tree::Negative(_) | Tree::Real { .. } => true,
        _ => false,
    }
}

/// The provider's parameters with the first `n` bindings read out of a monitor's.
pub open spec fn bound(base: Tree, bindings: Seq<(Seq<char>, Seq<char>)>, n: nat, from: Tree) -> Option<Tree>
    decreases n,
{
    if n == 0 {
        Some(base)
    } else {
        match bound(base, bindings, (n - 1) as nat, from) {
            None => None,
            Some(t) => match resolved(from, bindings[n - 1].1) {
                None => None,
                Some(v) => if bindable(v) { Some(with_member(t, bindings[n - 1].0, v)) } else { None },
            },
        }
    }
}

pub open spec fn bound_params(s: SourceView, from: Tree) -> Option<Tree> {
    bound(s.params, s.bindings, s.bindings.len(), from)
}

proof fn unbound_sticks(base: Tree, bindings: Seq<(Seq<char>, Seq<char>)>, m: nat, n: nat, from: Tree)
    requires
        m <= n,
        bound(base, bindings, m, from) is None,
    ensures
        bound(base, bindings, n, from) is None,
    decreases n - m,
{
    if m < n {
        unbound_sticks(base, bindings, m, (n - 1) as nat, from);
    }
}

impl LogSourceConfig {
    /// The provider's parameters for a monitor, bound from trusted configuration alone.
    pub fn params(&self, monitor: &Json) -> (r: Option<Json>)
        ensures
            match r {
                Some(v) => bound_params(self@, monitor@) == Some(v@),
                None => bound_params(self@, monitor@) is None,
            },
    {
        let ghost b = self@.bindings;
        let mut params = self.params.copy();
        let mut i: usize = 0;
        while i < self.parameter_bindings.len()
            invariant
                i <= self.parameter_bindings.len(),
                b == bindings_of(self.parameter_bindings@),
                bound(self.params@, b, i as nat, monitor@) == Some(params@),
            decreases self.parameter_bindings.len() - i,
        {
            let binding = &self.parameter_bindings[i];
            assert(b[i as int] == (binding.name@, binding.pointer@));
            let value = match monitor.pointer(&binding.pointer) {
                None => {
                    proof {
                        unbound_sticks(self.params@, b, (i + 1) as nat, b.len(), monitor@);
                    }
                    return None;
                },
                Some(v) => v,
            };
            let ok = match value {
                Json::Text(t) => utf8_len(t) <= 1024,
                Json::Bool(_) | Json::Unsigned(_) | Json::Negative(_) | Json::Real(_) => true,
                _ => false,
            };
            if !ok {
                proof {
                    unbound_sticks(self.params@, b, (i + 1) as nat, b.len(), monitor@);
                }
                return None;
            }
            params.set(&binding.name, value.copy());
            i = i + 1;
        }
        Some(params)
    }
}

// Routing.

/// Whether a source serves a monitor.
pub open spec fn serves(s: SourceView, extension_id: Seq<char>, contract: Seq<char>, params: Tree) -> bool {
    s.extension_id == extension_id && s.monitor_contract == contract && bound_params(s, params) is Some
}

/// The first source that serves a monitor.
pub open spec fn source_index(list: Seq<SourceView>, m: MonitorDefinition) -> Option<int> {
    earliest(
        list.len(),
        |i: int| if serves(list[i], m.extension_id@, m.contract@, m.params@) { Some(i) } else { None },
    )
}

pub fn source_for<'a>(sources: &'a Vec<LogSourceConfig>, monitor: &MonitorDefinition) -> (r: Option<&'a LogSourceConfig>)
    ensures
        match (r, source_index(sources_of(sources@), *monitor)) {
            (Some(s), Some(i)) => 0 <= i < sources.len() && *s == sources@[i],
            (None, None) => true,
            _ => false,
        },
{
    let ghost all = sources_of(sources@);
    let ghost pick = |i: int|
        if serves(all[i], monitor.extension_id@, monitor.contract@, monitor.params@) { Some(i) } else { None };
    let mut i: usize = 0;
    while i < sources.len()
        invariant
            i <= sources.len(),
            all == sources_of(sources@),
            pick == |i: int|
                if serves(all[i], monitor.extension_id@, monitor.contract@, monitor.params@) { Some(i) } else { None },
            earliest(i as nat, pick) is None,
        decreases sources.len() - i,
    {
        let s = &sources[i];
        assert(all[i as int] == s@);
        if same(&s.extension_id, &monitor.extension_id) && same(&s.monitor_contract, &monitor.contract) && s.params(
            &monitor.params,
        ).is_some() {
            proof {
                assert(pick(i as int) == Some(i as int));
                earliest_sticks((i + 1) as nat, all.len(), pick);
            }
            return Some(s);
        }
        i = i + 1;
    }
    None
}

/// Whether a source's route is registered, enabled and only reads.
pub open spec fn route_ready(s: SourceView, r: ExtensionRegistry) -> bool {
    &&& exists|i: int|
        0 <= i < r.statuses@.len() && (#[trigger] r.statuses@[i]).id@ == s.extension_id && r.statuses@[i].available
    &&& exists|i: int| 0 <= i < r.definitions@.len() && route_allowed(s, #[trigger] r.definitions@[i])
    &&& r.entries@.contains_key(s.extension_id) && route_read_only(s, r.entries@[s.extension_id].metadata)
}

pub open spec fn route_allowed(s: SourceView, d: ExtensionDefinition) -> bool {
    &&& d.id@ == s.extension_id && d.enabled
    &&& exists|i: int|
        0 <= i < d.allow_calls@.len() && (#[trigger] d.allow_calls@[i]).contract@ == s.contract && d.allow_calls@[i].version
            == s.version && d.allow_calls@[i].method@ == s.method
}

pub open spec fn route_read_only(s: SourceView, m: ExtensionMetadata) -> bool {
    exists|i: int| 0 <= i < m.contracts@.len() && contract_reads(s, #[trigger] m.contracts@[i])
}

pub open spec fn contract_reads(s: SourceView, c: ContractDeclaration) -> bool {
    &&& c.id@ == s.contract && c.version == s.version
    &&& exists|j: int| 0 <= j < c.methods@.len() && (#[trigger] c.methods@[j]).name@ == s.method && c.methods@[j].read_only
}

fn allowed(s: &LogSourceConfig, d: &ExtensionDefinition) -> (r: bool)
    ensures
        r == route_allowed(s@, *d),
{
    if !same(&d.id, &s.extension_id) || !d.enabled {
        return false;
    }
    let mut i: usize = 0;
    while i < d.allow_calls.len()
        invariant
            i <= d.allow_calls.len(),
            d.id@ == s@.extension_id && d.enabled,
            forall|k: int|
                0 <= k < i ==> !((#[trigger] d.allow_calls@[k]).contract@ == s@.contract && d.allow_calls@[k].version
                    == s@.version && d.allow_calls@[k].method@ == s@.method),
        decreases d.allow_calls.len() - i,
    {
        let a = &d.allow_calls[i];
        if same(&a.contract, &s.contract) && a.version == s.version && same(&a.method, &s.method) {
            assert(d.allow_calls@[i as int].method@ == s@.method);
            return true;
        }
        i = i + 1;
    }
    false
}

fn reads(s: &LogSourceConfig, c: &ContractDeclaration) -> (r: bool)
    ensures
        r == contract_reads(s@, *c),
{
    if !same(&c.id, &s.contract) || c.version != s.version {
        return false;
    }
    let mut i: usize = 0;
    while i < c.methods.len()
        invariant
            i <= c.methods.len(),
            c.id@ == s@.contract && c.version == s@.version,
            forall|k: int| 0 <= k < i ==> !((#[trigger] c.methods@[k]).name@ == s@.method && c.methods@[k].read_only),
        decreases c.methods.len() - i,
    {
        if same(&c.methods[i].name, &s.method) && c.methods[i].read_only {
            assert(c.methods@[i as int].name@ == s@.method);
            return true;
        }
        i = i + 1;
    }
    false
}

pub fn ready(s: &LogSourceConfig, registry: &ExtensionRegistry) -> (r: bool)
    requires
        registry.entries.wf(),
    ensures
        r == route_ready(s@, *registry),
{
    let mut available = false;
    let mut i: usize = 0;
    while i < registry.statuses.len()
        invariant
            i <= registry.statuses.len(),
            available == exists|k: int|
                0 <= k < i && (#[trigger] registry.statuses@[k]).id@ == s@.extension_id && registry.statuses@[k].available,
        decreases registry.statuses.len() - i,
    {
        if same(&registry.statuses[i].id, &s.extension_id) && registry.statuses[i].available {
            available = true;
        }
        i = i + 1;
    }
    let mut open = false;
    let mut i: usize = 0;
    while i < registry.definitions.len()
        invariant
            i <= registry.definitions.len(),
            open == exists|k: int| 0 <= k < i && route_allowed(s@, #[trigger] registry.definitions@[k]),
        decreases registry.definitions.len() - i,
    {
        if allowed(s, &registry.definitions[i]) {
            assert(route_allowed(s@, registry.definitions@[i as int]));
            open = true;
        }
        i = i + 1;
    }
    let read_only = match registry.entries.get(&s.extension_id) {
        None => false,
        Some(entry) => {
            let mut found = false;
            let mut i: usize = 0;
            while i < entry.metadata.contracts.len()
                invariant
                    i <= entry.metadata.contracts.len(),
                    found == exists|k: int| 0 <= k < i && contract_reads(s@, #[trigger] entry.metadata.contracts@[k]),
                decreases entry.metadata.contracts.len() - i,
            {
                if reads(s, &entry.metadata.contracts[i]) {
                    assert(contract_reads(s@, entry.metadata.contracts@[i as int]));
                    found = true;
                }
                i = i + 1;
            }
            found
        },
    };
    available && open && read_only
}

/// Whether a monitor's records can be read, and from where.
pub open spec fn availability_of(
    permitted: bool,
    list: Seq<SourceView>,
    m: Option<MonitorDefinition>,
    registry: Option<ExtensionRegistry>,
) -> (bool, Option<Seq<char>>) {
    if !permitted || m is None {
        (false, None)
    } else {
        match source_index(list, m->0) {
            None => (false, None),
            Some(i) => (registry is Some && route_ready(list[i], registry->0), Some(list[i].id)),
        }
    }
}

pub fn availability(
    permitted: bool,
    sources: &Vec<LogSourceConfig>,
    monitor: Option<&MonitorDefinition>,
    registry: Option<&ExtensionRegistry>,
) -> (r: (bool, Option<String>))
    requires
        registry is Some ==> registry->0.entries.wf(),
    ensures
        (r.0, crate::text::opt(r.1)) == availability_of(
            permitted,
            sources_of(sources@),
            match monitor {
                Some(m) => Some(*m),
                None => None,
            },
            match registry {
                Some(g) => Some(*g),
                None => None,
            },
        ),
{
    if !permitted {
        return (false, None);
    }
    match monitor {
        None => (false, None),
        Some(m) => match source_for(sources, m) {
            None => (false, None),
            Some(s) => {
                let there = match registry {
                    Some(g) => ready(s, g),
                    None => false,
                };
                (there, Some(s.id.clone()))
            },
        },
    }
}

// Reading.

pub open spec fn logs_unavailable(message: Seq<char>) -> Refusal {
    refusal(SERVICE_UNAVAILABLE, "logs_unavailable"@, message)
}

/// Why a read is refused before its source is looked for.
pub open spec fn read_fault(id: Seq<char>, limit: usize) -> Option<Refusal> {
    if !is_id(id) || limit < 1 || limit > 32 {
        Some(bad_request("log limit must be 1..32 and monitor ID must be valid"@))
    } else {
        None
    }
}

/// The number of records asked for.
pub fn read_limit(limit: Option<usize>) -> (r: usize)
    ensures
        r == (match limit {
            Some(n) => n,
            None => 32,
        }),
{
    match limit {
        Some(n) => n,
        None => 32,
    }
}

pub fn check_read(id: &str, limit: usize) -> (r: Result<(), ApiError>)
    ensures
        reports(r, read_fault(id@, limit)),
{
    if !valid_id(id) || limit < 1 || limit > 32 {
        return Err(ApiError::invalid("log limit must be 1..32 and monitor ID must be valid"));
    }
    Ok(())
}

/// The source that a read goes to, or why there is none.
pub fn route<'a>(
    sources: &'a Vec<LogSourceConfig>,
    monitor: &MonitorDefinition,
    registry: Option<&ExtensionRegistry>,
) -> (r: Result<&'a LogSourceConfig, ApiError>)
    requires
        registry is Some ==> registry->0.entries.wf(),
    ensures
        match (r, source_index(sources_of(sources@), *monitor)) {
            (Ok(s), Some(i)) => 0 <= i < sources.len() && *s == sources@[i] && registry is Some && route_ready(s@, *registry->0),
            (Err(e), None) => e@ == logs_unavailable("no trusted log source is configured for this monitor"@),
            (Err(e), Some(i)) => if registry is None {
                e@ == logs_unavailable("log provider is not configured"@)
            } else {
                !route_ready(sources@[i]@, *registry->0) && e@ == logs_unavailable(
                    "trusted log provider route is not registered or enabled"@,
                )
            },
            _ => false,
        },
{
    match source_for(sources, monitor) {
        None => Err(
            ApiError::new(
                SERVICE_UNAVAILABLE,
                "logs_unavailable",
                "no trusted log source is configured for this monitor",
            ),
        ),
        Some(s) => match registry {
            None => Err(ApiError::new(SERVICE_UNAVAILABLE, "logs_unavailable", "log provider is not configured")),
            Some(g) => if ready(s, g) {
                Ok(s)
            } else {
                Err(
                    ApiError::new(
                        SERVICE_UNAVAILABLE,
                        "logs_unavailable",
                        "trusted log provider route is not registered or enabled",
                    ),
                )
            },
        },
    }
}

/// What a provider is asked: the bound parameters, the limit and where to go on.
pub open spec fn asked(s: SourceView, from: Tree, limit: u64, cursor: Option<Seq<char>>) -> Option<Tree> {
    match bound_params(s, from) {
        None => None,
        Some(t) => {
            let a = with_member(t, s.limit_parameter, Tree::Unsigned(limit));
            Some(
                match cursor {
                    Some(c) => with_member(a, s.cursor_parameter, Tree::Text(c)),
                    None => a,
                },
            )
        },
    }
}

pub fn read_params(source: &LogSourceConfig, monitor: &Json, limit: u64, cursor: &Option<String>) -> (r: Result<Json, ApiError>)
    ensures
        match r {
            Ok(v) => asked(source@, monitor@, limit, crate::text::opt(*cursor)) == Some(v@),
            Err(e) => asked(source@, monitor@, limit, crate::text::opt(*cursor)) is None && e@ == unavailable(
                "log target binding is unavailable"@,
            ),
        },
{
    match source.params(monitor) {
        None => Err(ApiError::unavailable("log target binding is unavailable")),
        Some(t) => {
            let a = with(t, &source.limit_parameter, Json::Unsigned(limit));
            Ok(
                match cursor {
                    Some(c) => with(a, &source.cursor_parameter, text_value(c)),
                    None => a,
                },
            )
        },
    }
}

pub open spec fn cursor_refusal() -> Refusal {
    refusal(
        CONFLICT,
        "cursor_invalid"@,
        "log cursor expired or source changed; explicitly start a new log read"@,
    )
}

pub fn invalid_cursor() -> (e: ApiError)
    ensures
        e@ == cursor_refusal(),
{
    ApiError::new(
        CONFLICT,
        "cursor_invalid",
        "log cursor expired or source changed; explicitly start a new log read",
    )
}

pub open spec fn names_cursor(m: Seq<char>) -> bool {
    occurs(m, "source_changed"@) || occurs(m, "invalid_cursor"@) || occurs(m, "cursor"@)
}

/// How a failed read is answered: a refused continuation is the cursor's fault.
pub open spec fn read_answer(f: crate::protocol::Fault, resumed: bool) -> Refusal {
    let failed = refusal(SERVICE_UNAVAILABLE, "logs_read_failed"@, crate::protocol::fault_message(f));
    match f {
        crate::protocol::Fault::Rejected(m) => if resumed && names_cursor(m) { cursor_refusal() } else { failed },
        _ => failed,
    }
}

pub fn read_error(error: &ExtensionError, resumed: bool) -> (e: ApiError)
    ensures
        e@ == read_answer(error@, resumed),
{
    if let ExtensionError::Rejected(m) = error {
        if resumed && (holds(m, "source_changed") || holds(m, "invalid_cursor") || holds(m, "cursor")) {
            return invalid_cursor();
        }
    }
    ApiError { status: SERVICE_UNAVAILABLE, code: "logs_read_failed", message: error.message() }
}

} // verus!
