//! Plugins as the owners of monitors, and the views they declare.
use crate::json::values::{empty_object, object, opt_json, text_or_null, text_value, with};
use crate::json::{group_json, with_member, Json, Tree};
use crate::monitors::discovery::DiscoverySnapshot;
use crate::monitors::engine::MonitoringSnapshot;
use crate::monitors::rule::{check_escapes, escapes_valid};
use crate::monitors::state::MonitorSnapshot;
use crate::nodes::registry::{owner_of, statuses_of, view_offer, ExtensionRegistry, RegistryView};
use crate::nodes::{extensions_of, ExtensionStatus, ExtensionView, StatusView};
use crate::protocol::{ExtensionError, ExtensionKind};
use crate::table::Table;
use crate::text::{
    begins, blank, byte_len, characters, clipped, contains, is_blank, listed, opt, pieces, push, same, split, starts_with, texts,
    utf8_len,
};
use vstd::prelude::*;

verus! {

broadcast use group_json;

pub const MAX_VIEW_BYTES: usize = 32768;

pub const MAX_VIEW_SECTIONS: usize = 8;

pub const MAX_VIEW_FIELDS: usize = 64;

/// Characters that are kept of a foreign failure.
pub const MAX_ERROR_CHARS: usize = 512;

pub open spec fn visible(c: char) -> char {
    if c == '\0' { '\u{fffd}' } else { c }
}

/// A foreign failure's text, bounded and without NUL.
pub open spec fn error_text(s: Seq<char>) -> Seq<char> {
    clipped(s, MAX_ERROR_CHARS as nat).map_values(|c: char| visible(c))
}

pub fn bounded_error(message: &str) -> (r: String)
    ensures
        r@ == error_text(message@),
{
    let v = characters(message);
    let n: usize = if v.len() <= MAX_ERROR_CHARS { v.len() } else { MAX_ERROR_CHARS };
    let ghost want = error_text(message@);
    let mut r = String::new();
    let mut i: usize = 0;
    assert(r@ =~= want.subrange(0, 0));
    while i < n
        invariant
            i <= n <= v.len(),
            v@ == message@,
            n == clipped(message@, MAX_ERROR_CHARS as nat).len(),
            want == error_text(message@),
            r@ == want.subrange(0, i as int),
        decreases n - i,
    {
        let c = if v[i] == '\0' { '\u{fffd}' } else { v[i] };
        assert(c == want[i as int]);
        push(&mut r, c);
        assert(r@ =~= want.subrange(0, i + 1));
        i = i + 1;
    }
    assert(want.subrange(0, i as int) =~= want);
    r
}

/// How a failed view call is shown.
pub fn view_error(error: &ExtensionError) -> (r: (&'static str, String))
    ensures
        r.0@ == (if error@ is Protocol { "invalid_response"@ } else { "unavailable"@ }),
        r.1@ == error_text(crate::protocol::fault_message(error@)),
{
    let status = match error {
        ExtensionError::Protocol(_) => "invalid_response",
        _ => "unavailable",
    };
    (status, bounded_error(&error.message()))
}

// Declarations.

#[derive(Debug, Clone, Copy, PartialEq, Eq, Structural)]
pub enum FieldSource {
    Monitor,
    LastValue,
}

#[derive(Debug, Clone, Copy, PartialEq, Eq, Structural)]
pub enum FieldFormat {
    Text,
    Number,
    Boolean,
    TimestampMs,
    DurationMs,
    Json,
}

pub struct ViewField {
    pub id: String,
    pub label: String,
    pub source: FieldSource,
    pub pointer: String,
    pub format: FieldFormat,
    pub unit: Option<String>,
    pub empty: Option<String>,
}

pub struct ViewSection {
    pub id: String,
    pub title: String,
    pub description: Option<String>,
    pub monitor_role: String,
    pub fields: Vec<ViewField>,
}

/// How a plugin wants its monitors to be shown.
pub struct MonitoringView {
    pub schema_version: u32,
    pub title: String,
    pub summary: Option<String>,
    pub sections: Vec<ViewSection>,
}

pub open spec fn text_ok(t: Seq<char>, max: nat, allow_empty: bool) -> bool {
    (allow_empty || !is_blank(t)) && byte_len(t) <= max && !t.contains('\0')
}

pub open spec fn opt_ok(t: Option<String>, max: nat) -> bool {
    t is Some ==> text_ok(t->0@, max, true)
}

/// A pointer that a declaration may use: the whole value, or up to 16 steps.
pub open spec fn pointer_ok(p: Seq<char>) -> bool {
    &&& byte_len(p) <= 256 && !p.contains('\0')
    &&& p.len() == 0 || (starts_with(p, "/"@) && pieces(p, '/').len() <= 17 && escapes_valid(p))
}

pub open spec fn field_ok(f: ViewField) -> bool {
    &&& crate::protocol::is_id(f.id@)
    &&& text_ok(f.label@, 128, false)
    &&& pointer_ok(f.pointer@)
    &&& opt_ok(f.unit, 32)
    &&& opt_ok(f.empty, 128)
}

pub open spec fn section_ok(s: ViewSection) -> bool {
    &&& crate::protocol::is_id(s.id@)
    &&& text_ok(s.title@, 128, false)
    &&& opt_ok(s.description, 1024)
    &&& crate::protocol::is_id(s.monitor_role@)
    &&& s.fields@.len() > 0
}

pub open spec fn header_ok(v: MonitoringView) -> bool {
    &&& v.schema_version == 1
    &&& text_ok(v.title@, 128, false)
    &&& opt_ok(v.summary, 1024)
    &&& v.sections@.len() <= MAX_VIEW_SECTIONS
}

/// The identities of the fields in the first `n` sections, and of `m` of the next.
pub open spec fn field_ids(sections: Seq<ViewSection>, n: nat) -> Seq<Seq<char>>
    decreases n,
{
    if n == 0 {
        Seq::empty()
    } else {
        field_ids(sections, (n - 1) as nat) + ids_in(sections[n - 1].fields@)
    }
}

pub open spec fn ids_in(fields: Seq<ViewField>) -> Seq<Seq<char>> {
    fields.map_values(|f: ViewField| f.id@)
}

pub open spec fn section_repeats(sections: Seq<ViewSection>, i: int) -> bool {
    exists|j: int| 0 <= j < i && (#[trigger] sections[j]).id@ == sections[i].id@
}

/// A field that a section before, or a field before it, already names.
pub open spec fn field_repeats(sections: Seq<ViewSection>, i: int, k: int) -> bool {
    field_ids(sections, i as nat).contains(sections[i].fields@[k].id@) || exists|j: int|
        0 <= j < k && (#[trigger] sections[i].fields@[j]).id@ == sections[i].fields@[k].id@
}

/// Why a section is refused: for itself, or for one of its fields.
pub open spec fn section_fault(sections: Seq<ViewSection>, i: int) -> Option<Seq<char>> {
    if !section_ok(sections[i]) || section_repeats(sections, i) {
        Some("invalid or duplicate monitoring view section"@)
    } else if exists|k: int|
        0 <= k < sections[i].fields@.len() && (!field_ok(#[trigger] sections[i].fields@[k]) || field_repeats(sections, i, k)) {
        Some("invalid or duplicate monitoring view field"@)
    } else {
        None
    }
}

/// Why a declaration is refused.
pub open spec fn view_fault(v: MonitoringView) -> Option<Seq<char>> {
    if !header_ok(v) {
        Some("invalid monitoring view version, title, summary or section limit"@)
    } else {
        match crate::faults::earliest(v.sections@.len(), |i: int| section_fault(v.sections@, i)) {
            Some(f) => Some(f),
            None => if field_ids(v.sections@, v.sections@.len()).len() > MAX_VIEW_FIELDS {
                Some("monitoring view has more than 64 fields"@)
            } else {
                None
            },
        }
    }
}

fn check_text(t: &str, max: usize, allow_empty: bool) -> (r: bool)
    ensures
        r == text_ok(t@, max as nat, allow_empty),
{
    (allow_empty || !blank(t)) && utf8_len(t) <= max && !contains(t, '\0')
}

fn check_opt(t: &Option<String>, max: usize) -> (r: bool)
    ensures
        r == opt_ok(*t, max as nat),
{
    match t {
        Some(t) => check_text(t, max, true),
        None => true,
    }
}

pub fn valid_pointer(pointer: &str) -> (r: bool)
    ensures
        r == pointer_ok(pointer@),
{
    if utf8_len(pointer) > 256 || contains(pointer, '\0') {
        return false;
    }
    if pointer.is_empty() {
        return true;
    }
    begins(pointer, "/") && split(pointer, '/').len() <= 17 && check_escapes(pointer)
}

fn check_field(f: &ViewField) -> (r: bool)
    ensures
        r == field_ok(*f),
{
    crate::protocol::valid_id(&f.id) && check_text(&f.label, 128, false) && valid_pointer(&f.pointer) && check_opt(&f.unit, 32)
        && check_opt(&f.empty, 128)
}

fn check_section(s: &ViewSection) -> (r: bool)
    ensures
        r == section_ok(*s),
{
    crate::protocol::valid_id(&s.id) && check_text(&s.title, 128, false) && check_opt(&s.description, 1024)
        && crate::protocol::valid_id(&s.monitor_role) && s.fields.len() > 0
}

/// Checks the fields of a section; `seen` are the fields before it.
fn check_fields(sections: &Vec<ViewSection>, i: usize, seen: &mut Vec<String>) -> (r: bool)
    requires
        i < sections.len(),
        texts(old(seen)@) == field_ids(sections@, i as nat),
    ensures
        r == !(exists|k: int|
            0 <= k < sections@[i as int].fields@.len() && (!field_ok(#[trigger] sections@[i as int].fields@[k]) || field_repeats(
                sections@,
                i as int,
                k,
            ))),
        r ==> texts(final(seen)@) == field_ids(sections@, (i + 1) as nat),
{
    let ghost before = texts(seen@);
    let fields = &sections[i].fields;
    let ghost own = ids_in(fields@);
    let mut k: usize = 0;
    assert(own.subrange(0, 0) =~= Seq::<Seq<char>>::empty());
    assert(before + own.subrange(0, 0) =~= before);
    while k < fields.len()
        invariant
            k <= fields.len(),
            i < sections.len(),
            *fields == sections@[i as int].fields,
            own == ids_in(fields@),
            before == field_ids(sections@, i as nat),
            texts(seen@) == before + own.subrange(0, k as int),
            forall|j: int|
                0 <= j < k ==> field_ok(#[trigger] sections@[i as int].fields@[j]) && !field_repeats(sections@, i as int, j),
        decreases fields.len() - k,
    {
        let f = &fields[k];
        let ghost now = texts(seen@);
        assert(own[k as int] == f.id@);
        let repeats = listed(seen, &f.id);
        proof {
            if repeats {
                let at = choose|at: int| 0 <= at < now.len() && now[at] == f.id@;
                if at < before.len() {
                    assert(before[at] == f.id@);
                    assert(before.contains(f.id@));
                } else {
                    let j = at - before.len();
                    assert(own[j] == fields@[j].id@);
                    assert(now[at] == own[j]);
                    assert(sections@[i as int].fields@[j].id@ == f.id@);
                }
                assert(field_repeats(sections@, i as int, k as int));
            } else {
                if before.contains(f.id@) {
                    let at = choose|at: int| 0 <= at < before.len() && before[at] == f.id@;
                    assert(now[at] == f.id@);
                }
                assert forall|j: int| 0 <= j < k implies (#[trigger] sections@[i as int].fields@[j]).id@ != f.id@ by {
                    assert(own[j] == fields@[j].id@);
                    assert(now[before.len() + j] == own[j]);
                    assert(now.contains(own[j]));
                }
                assert(!field_repeats(sections@, i as int, k as int));
            }
        }
        if !check_field(f) || repeats {
            assert(!field_ok(sections@[i as int].fields@[k as int]) || field_repeats(sections@, i as int, k as int));
            return false;
        }
        seen.push(f.id.clone());
        assert(texts(seen@) =~= now.push(f.id@));
        assert(own.subrange(0, k + 1) =~= own.subrange(0, k as int).push(f.id@));
        assert(texts(seen@) =~= before + own.subrange(0, k + 1));
        k = k + 1;
    }
    assert(own.subrange(0, k as int) =~= own);
    true
}

/// Checks a declaration.
pub fn check_view(v: &MonitoringView) -> (r: Option<&'static str>)
    ensures
        match r {
            Some(m) => view_fault(*v) == Some(m@),
            None => view_fault(*v) is None,
        },
{
    if v.schema_version != 1 || !check_text(&v.title, 128, false) || !check_opt(&v.summary, 1024) || v.sections.len()
        > MAX_VIEW_SECTIONS {
        return Some("invalid monitoring view version, title, summary or section limit");
    }
    let ghost fault = |i: int| section_fault(v.sections@, i);
    let mut seen: Vec<String> = Vec::new();
    let mut i: usize = 0;
    assert(texts(seen@) =~= Seq::<Seq<char>>::empty());
    while i < v.sections.len()
        invariant
            i <= v.sections.len(),
            header_ok(*v),
            fault == |i: int| section_fault(v.sections@, i),
            crate::faults::earliest(i as nat, fault) is None,
            texts(seen@) == field_ids(v.sections@, i as nat),
        decreases v.sections.len() - i,
    {
        let mut repeats = false;
        let mut j: usize = 0;
        while j < i
            invariant
                j <= i,
                i < v.sections.len(),
                repeats == exists|k: int| 0 <= k < j && (#[trigger] v.sections@[k]).id@ == v.sections@[i as int].id@,
            decreases i - j,
        {
            if same(&v.sections[j].id, &v.sections[i].id) {
                repeats = true;
            }
            j = j + 1;
        }
        if !check_section(&v.sections[i]) || repeats {
            proof {
                assert(fault(i as int) == Some("invalid or duplicate monitoring view section"@));
                crate::faults::earliest_sticks((i + 1) as nat, v.sections@.len(), fault);
            }
            return Some("invalid or duplicate monitoring view section");
        }
        if !check_fields(&v.sections, i, &mut seen) {
            proof {
                assert(fault(i as int) == Some("invalid or duplicate monitoring view field"@));
                crate::faults::earliest_sticks((i + 1) as nat, v.sections@.len(), fault);
            }
            return Some("invalid or duplicate monitoring view field");
        }
        assert(fault(i as int) is None);
        i = i + 1;
    }
    assert(texts(seen@).len() == seen@.len());
    if seen.len() > MAX_VIEW_FIELDS {
        return Some("monitoring view has more than 64 fields");
    }
    None
}

/// A declaration's size before it was read, and once it is written again.
pub fn check_view_size(bytes: usize, normalized: bool) -> (r: Option<&'static str>)
    ensures
        match r {
            Some(m) => bytes > MAX_VIEW_BYTES && m@ == (if normalized {
                "normalized monitoring view declaration exceeds 32 KiB"@
            } else {
                "monitoring view declaration exceeds 32 KiB"@
            }),
            None => bytes <= MAX_VIEW_BYTES,
        },
{
    if bytes > MAX_VIEW_BYTES {
        if normalized {
            Some("normalized monitoring view declaration exceeds 32 KiB")
        } else {
            Some("monitoring view declaration exceeds 32 KiB")
        }
    } else {
        None
    }
}

// Owners.

/// The plugin that a monitor's contract belongs to, or that serves it itself.
pub open spec fn owner(r: RegistryView, extension_id: Seq<char>, contract: Seq<char>, version: u32) -> Option<Seq<char>> {
    match owner_of(r.contracts, contract, version) {
        Some(o) => Some(o),
        None => if is_plugin(r.definitions, extension_id) { Some(extension_id) } else { None },
    }
}

pub open spec fn is_plugin(list: Seq<ExtensionView>, id: Seq<char>) -> bool {
    exists|i: int| 0 <= i < list.len() && (#[trigger] list[i]).id == id && list[i].kind == ExtensionKind::Plugin
}

/// Whether a plugin of this identity is defined.
pub fn defines_plugin(registry: &ExtensionRegistry, id: &str) -> (r: bool)
    ensures
        r == is_plugin(registry@.definitions, id@),
{
    let ghost all = extensions_of(registry.definitions@);
    let mut i: usize = 0;
    while i < registry.definitions.len()
        invariant
            i <= registry.definitions.len(),
            all == extensions_of(registry.definitions@),
            all == registry@.definitions,
            forall|j: int| 0 <= j < i ==> !((#[trigger] all[j]).id == id@ && all[j].kind == ExtensionKind::Plugin),
        decreases registry.definitions.len() - i,
    {
        assert(all[i as int] == registry.definitions@[i as int]@);
        if same(&registry.definitions[i].id, id) && registry.definitions[i].kind == ExtensionKind::Plugin {
            return true;
        }
        i = i + 1;
    }
    false
}

pub fn owner_plugin_id(registry: &ExtensionRegistry, extension_id: &str, contract: &str, version: u32) -> (r: Option<String>)
    ensures
        opt(r) == owner(registry@, extension_id@, contract@, version),
{
    match registry.contract_owner(contract, version) {
        Some(o) => Some(crate::text::copied(o)),
        None => if defines_plugin(registry, extension_id) {
            Some(crate::text::copied(extension_id))
        } else {
            None
        },
    }
}

pub open spec fn owns_monitor(r: RegistryView, id: Seq<char>, m: MonitorSnapshot) -> bool {
    owner(r, m.extension_id@, m.contract@, m.version) == Some(id)
}

pub open spec fn owns_discovery(r: RegistryView, id: Seq<char>, d: DiscoverySnapshot) -> bool {
    owner(r, d.extension_id@, d.contract@, d.version) == Some(id)
}

pub fn monitor_owned(registry: &ExtensionRegistry, id: &str, m: &MonitorSnapshot) -> (r: bool)
    ensures
        r == owns_monitor(registry@, id@, *m),
{
    match owner_plugin_id(registry, &m.extension_id, &m.contract, m.version) {
        Some(o) => same(&o, id),
        None => false,
    }
}

pub fn discovery_owned(registry: &ExtensionRegistry, id: &str, d: &DiscoverySnapshot) -> (r: bool)
    ensures
        r == owns_discovery(registry@, id@, *d),
{
    match owner_plugin_id(registry, &d.extension_id, &d.contract, d.version) {
        Some(o) => same(&o, id),
        None => false,
    }
}

pub open spec fn monitors_owned(r: RegistryView, id: Seq<char>, list: Seq<MonitorSnapshot>) -> nat
    decreases list.len(),
{
    if list.len() == 0 {
        0
    } else {
        monitors_owned(r, id, list.drop_last()) + (if owns_monitor(r, id, list.last()) { 1nat } else { 0 })
    }
}

pub open spec fn discoveries_owned(r: RegistryView, id: Seq<char>, list: Seq<DiscoverySnapshot>) -> nat
    decreases list.len(),
{
    if list.len() == 0 {
        0
    } else {
        discoveries_owned(r, id, list.drop_last()) + (if owns_discovery(r, id, list.last()) { 1nat } else { 0 })
    }
}

/// The targets of a plugin's monitors.
pub open spec fn targets_owned(r: RegistryView, id: Seq<char>, list: Seq<MonitorSnapshot>) -> Set<Seq<char>>
    decreases list.len(),
{
    if list.len() == 0 {
        Set::empty()
    } else {
        let front = targets_owned(r, id, list.drop_last());
        if owns_monitor(r, id, list.last()) { front.insert(list.last().target_id@) } else { front }
    }
}

pub open spec fn status_of(list: Seq<StatusView>, id: Seq<char>) -> Option<StatusView> {
    crate::faults::earliest(list.len(), |i: int| if list[i].id == id { Some(list[i]) } else { None })
}

pub fn find_status<'a>(statuses: &'a Vec<ExtensionStatus>, id: &str) -> (r: Option<&'a ExtensionStatus>)
    ensures
        status_of(statuses_of(statuses@), id@) == (match r {
            Some(s) => Some(s@),
            None => None,
        }),
{
    let ghost all = statuses_of(statuses@);
    let ghost pick = |i: int| if all[i].id == id@ { Some(all[i]) } else { None };
    let mut i: usize = 0;
    while i < statuses.len()
        invariant
            i <= statuses.len(),
            all == statuses_of(statuses@),
            pick == |i: int| if all[i].id == id@ { Some(all[i]) } else { None },
            crate::faults::earliest(i as nat, pick) is None,
        decreases statuses.len() - i,
    {
        assert(all[i as int] == statuses@[i as int]@);
        if same(&statuses[i].id, id) {
            proof {
                assert(pick(i as int) == Some(all[i as int]));
                crate::faults::earliest_sticks((i + 1) as nat, all.len(), pick);
            }
            return Some(&statuses[i]);
        }
        i = i + 1;
    }
    None
}

/// Whether a plugin is there.
pub open spec fn registration(d: ExtensionView, s: Option<StatusView>) -> Seq<char> {
    if !d.enabled {
        "disabled"@
    } else if s is Some && s->0.available {
        "registered"@
    } else {
        "unavailable"@
    }
}

pub open spec fn view_registration(r: RegistryView, d: ExtensionView, s: Option<StatusView>) -> (Seq<char>, Option<Seq<char>>) {
    if registration(d, s) != "registered"@ {
        ("unavailable"@, None)
    } else {
        match view_offer(r, d.id) {
            Ok(Some(_)) => ("registered"@, None),
            Ok(None) => ("not_registered"@, None),
            Err(f) => ("invalid"@, Some(error_text(crate::protocol::fault_message(f)))),
        }
    }
}

/// A plugin as lists show it.
pub open spec fn plugin_tree(
    r: RegistryView,
    d: ExtensionView,
    monitors: Seq<MonitorSnapshot>,
    discoveries: Seq<DiscoverySnapshot>,
) -> Tree {
    let s = status_of(r.statuses, d.id);
    let v = view_registration(r, d, s);
    let a = with_member(empty_object(), "id"@, Tree::Text(d.id));
    let b = with_member(a, "registration"@, Tree::Text(registration(d, s)));
    let c = with_member(
        b,
        "registration_error"@,
        match s {
            Some(x) => match x.error {
                Some(e) => Tree::Text(error_text(e)),
                None => Tree::Null,
            },
            None => Tree::Null,
        },
    );
    let e = with_member(c, "view_registration"@, Tree::Text(v.0));
    let f = with_member(e, "view_error"@, text_or_null(v.1));
    let g = with_member(f, "monitor_count"@, Tree::Unsigned(monitors_owned(r, d.id, monitors) as u64));
    let h = with_member(g, "target_count"@, Tree::Unsigned(targets_owned(r, d.id, monitors).len() as u64));
    with_member(h, "discovery_count"@, Tree::Unsigned(discoveries_owned(r, d.id, discoveries) as u64))
}

fn count_monitors(registry: &ExtensionRegistry, id: &str, list: &Vec<MonitorSnapshot>) -> (r: (u64, u64))
    ensures
        r.0 == monitors_owned(registry@, id@, list@),
        r.1 == targets_owned(registry@, id@, list@).len(),
{
    let mut n: u64 = 0;
    let mut found: Table<bool> = Table::new();
    let mut i: usize = 0;
    assert(list@.subrange(0, 0) =~= Seq::<MonitorSnapshot>::empty());
    assert(found@.dom() =~= Set::<Seq<char>>::empty());
    while i < list.len()
        invariant
            i <= list.len(),
            n <= i,
            n == monitors_owned(registry@, id@, list@.subrange(0, i as int)),
            found.wf(),
            found@.dom() == targets_owned(registry@, id@, list@.subrange(0, i as int)),
        decreases list.len() - i,
    {
        proof {
            let now = list@.subrange(0, i + 1);
            assert(now.drop_last() =~= list@.subrange(0, i as int));
            assert(now.last() == list@[i as int]);
        }
        if monitor_owned(registry, id, &list[i]) {
            n = n + 1;
            let ghost before = found@.dom();
            found.insert(list[i].target_id.clone(), true);
            assert(found@.dom() =~= before.insert(list@[i as int].target_id@));
        }
        i = i + 1;
    }
    assert(list@.subrange(0, i as int) =~= list@);
    proof {
        found.lists_its_entries();
    }
    (n, found.len() as u64)
}

fn count_discoveries(registry: &ExtensionRegistry, id: &str, list: &Vec<DiscoverySnapshot>) -> (r: u64)
    ensures
        r == discoveries_owned(registry@, id@, list@),
{
    let mut n: u64 = 0;
    let mut i: usize = 0;
    assert(list@.subrange(0, 0) =~= Seq::<DiscoverySnapshot>::empty());
    while i < list.len()
        invariant
            i <= list.len(),
            n <= i,
            n == discoveries_owned(registry@, id@, list@.subrange(0, i as int)),
        decreases list.len() - i,
    {
        proof {
            let now = list@.subrange(0, i + 1);
            assert(now.drop_last() =~= list@.subrange(0, i as int));
            assert(now.last() == list@[i as int]);
        }
        if discovery_owned(registry, id, &list[i]) {
            n = n + 1;
        }
        i = i + 1;
    }
    assert(list@.subrange(0, i as int) =~= list@);
    n
}

/// Shows one plugin; without monitoring it owns nothing.
pub fn plugin_summary(
    registry: &ExtensionRegistry,
    definition: &crate::nodes::ExtensionDefinition,
    snapshot: Option<&MonitoringSnapshot>,
) -> (r: Json)
    requires
        registry.wf(),
    ensures
        r@ == plugin_tree(
            registry@,
            definition@,
            match snapshot {
                Some(s) => s.monitors@,
                None => Seq::empty(),
            },
            match snapshot {
                Some(s) => s.discoveries@,
                None => Seq::empty(),
            },
        ),
{
    let status = find_status(&registry.statuses, &definition.id);
    let available = match status {
        Some(s) => s.available,
        None => false,
    };
    let registered = if !definition.enabled {
        "disabled"
    } else if available {
        "registered"
    } else {
        "unavailable"
    };
    proof {
        reveal_strlit("registered");
        reveal_strlit("disabled");
        reveal_strlit("unavailable");
        assert("registered"@[0] != "disabled"@[0]);
        assert("registered"@[0] != "unavailable"@[0]);
    }
    let (view, view_error) = if !definition.enabled || !available {
        ("unavailable", None)
    } else {
        match registry.monitoring_view_registration(&definition.id) {
            Ok(Some(_)) => ("registered", None),
            Ok(None) => ("not_registered", None),
            Err(e) => ("invalid", Some(bounded_error(&e.message()))),
        }
    };
    let error = match status {
        Some(s) => match &s.error {
            Some(e) => text_value(&bounded_error(e)),
            None => Json::Null,
        },
        None => Json::Null,
    };
    let (monitors, targets) = match snapshot {
        Some(s) => count_monitors(registry, &definition.id, &s.monitors),
        None => (0, 0),
    };
    let discoveries = match snapshot {
        Some(s) => count_discoveries(registry, &definition.id, &s.discoveries),
        None => 0,
    };
    let a = with(object(), "id", text_value(&definition.id));
    let b = with(a, "registration", text_value(registered));
    let c = with(b, "registration_error", error);
    let e = with(c, "view_registration", text_value(view));
    let f = with(e, "view_error", opt_json(&view_error));
    let g = with(f, "monitor_count", Json::Unsigned(monitors));
    let h = with(g, "target_count", Json::Unsigned(targets));
    with(h, "discovery_count", Json::Unsigned(discoveries))
}

/// How a plugin's own view is shown.
pub enum ViewPlan {
    /// It is not asked for.
    Settled { status: &'static str, error: Option<String> },
    /// It is asked for.
    Ask { registration: crate::nodes::MonitoringViewRegistration },
}

/// Decides whether a plugin's view is asked for; `permitted` says that the operator may read
/// what extensions provide.
pub fn plan_view(
    registry: &ExtensionRegistry,
    definition: &crate::nodes::ExtensionDefinition,
    permitted: bool,
) -> (r: ViewPlan)
    requires
        registry.wf(),
    ensures
        view_planned(registry@, definition@, permitted, r),
{
    let status = find_status(&registry.statuses, &definition.id);
    let available = match status {
        Some(s) => s.available,
        None => false,
    };
    proof {
        reveal_strlit("registered");
        reveal_strlit("disabled");
        reveal_strlit("unavailable");
        assert("registered"@[0] != "disabled"@[0]);
        assert("registered"@[0] != "unavailable"@[0]);
    }
    if !definition.enabled || !available {
        let error = match status {
            Some(s) => match &s.error {
                Some(e) => Some(bounded_error(e)),
                None => None,
            },
            None => None,
        };
        return ViewPlan::Settled { status: "unavailable", error };
    }
    match registry.monitoring_view_registration(&definition.id) {
        Ok(None) => ViewPlan::Settled { status: "not_registered", error: None },
        Err(e) => ViewPlan::Settled { status: "invalid_registration", error: Some(bounded_error(&e.message())) },
        Ok(Some(g)) => if permitted {
            ViewPlan::Ask { registration: g }
        } else {
            ViewPlan::Settled {
                status: "permission_denied",
                error: Some(
                    crate::text::copied("extension.read permission is required for plugin-provided content"),
                ),
            }
        },
    }
}

pub open spec fn view_planned(r: RegistryView, d: ExtensionView, permitted: bool, p: ViewPlan) -> bool {
    let s = status_of(r.statuses, d.id);
    if registration(d, s) != "registered"@ {
        p is Settled && p->status@ == "unavailable"@ && opt(p->error) == (match s {
            Some(x) => match x.error {
                Some(e) => Some(error_text(e)),
                None => None,
            },
            None => None,
        })
    } else {
        match view_offer(r, d.id) {
            Ok(None) => p is Settled && p->status@ == "not_registered"@ && p->error is None,
            Err(f) => p is Settled && p->status@ == "invalid_registration"@ && opt(p->error) == Some(
                error_text(crate::protocol::fault_message(f)),
            ),
            Ok(Some(g)) => if permitted {
                p is Ask && p->registration@ == g
            } else {
                p is Settled && p->status@ == "permission_denied"@ && opt(p->error) == Some(
                    "extension.read permission is required for plugin-provided content"@,
                )
            },
        }
    }
}

} // verus!
