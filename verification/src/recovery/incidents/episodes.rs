//! How a monitor's signals open, update and resolve incident episodes.
use super::bounds::{bounded_object, bounded_text, object_fault, text_fault, text_fits};
use super::{
    signals_of, Fault, IncidentError, IncidentKind, IncidentRecord, IncidentSignal, IncidentStatus, IncidentView,
    SignalCondition, SignalView, MAX_EVIDENCE_BYTES,
};
use crate::table::Table;
use crate::text::{copied, hex, hex_text, joined, same};
use vstd::prelude::*;

verus! {

/// What tells one episode's subject from another's.
pub struct KeyView {
    pub monitor_id: Seq<char>,
    pub target_id: Seq<char>,
    pub rule_id: Seq<char>,
    pub kind: IncidentKind,
}

pub open spec fn key_of(r: IncidentView) -> KeyView {
    KeyView { monitor_id: r.monitor_id, target_id: r.target_id, rule_id: r.rule_id, kind: r.kind }
}

pub open spec fn key_of_signal(s: SignalView) -> KeyView {
    KeyView { monitor_id: s.monitor_id, target_id: s.target_id, rule_id: s.rule_id, kind: s.kind }
}

/// The records of a table by incident id.
pub open spec fn incidents_of(table: Table<IncidentRecord>) -> Map<Seq<char>, IncidentView> {
    table@.map_values(|r: IncidentRecord| r@)
}

/// `id` is an unresolved episode of the subject.
pub open spec fn is_open(records: Map<Seq<char>, IncidentView>, key: KeyView, id: Seq<char>) -> bool {
    records.contains_key(id) && key_of(records[id]) == key && records[id].status != IncidentStatus::Resolved
}

pub open spec fn has_open(records: Map<Seq<char>, IncidentView>, key: KeyView) -> bool {
    exists|id: Seq<char>| is_open(records, key, id)
}

pub open spec fn open_id(records: Map<Seq<char>, IncidentView>, key: KeyView) -> Seq<char> {
    choose|id: Seq<char>| is_open(records, key, id)
}

pub open spec fn incident_id_of(sequence: u64, index: nat) -> Seq<char> {
    "incident-"@ + hex(sequence as nat, 16) + "-"@ + hex(index, 4)
}

pub open spec fn overflow() -> Fault {
    Fault::Capacity("sequence overflow"@)
}

pub open spec fn later(a: u64, b: u64) -> u64 {
    if a >= b { a } else { b }
}

/// An episode after one more observation.
pub open spec fn noted(r: IncidentView, s: SignalView, at: u64) -> Result<IncidentView, Fault> {
    let seen = IncidentView { condition: s.condition, summary: s.summary, evidence: s.evidence, last_seen: at, ..r };
    match s.condition {
        SignalCondition::Active => if r.occurrences == u64::MAX {
            Err(overflow())
        } else {
            Ok(IncidentView { occurrences: (r.occurrences + 1) as u64, ..seen })
        },
        SignalCondition::Clear => Ok(
            IncidentView { status: IncidentStatus::Resolved, resolved_at: Some(at), ..seen },
        ),
        SignalCondition::Unknown => Ok(seen),
    }
}

/// A new episode, before its first observation is counted.
pub open spec fn begun(s: SignalView, id: Seq<char>, at: u64) -> IncidentView {
    IncidentView {
        id,
        revision: 1,
        monitor_id: s.monitor_id,
        target_id: s.target_id,
        rule_id: s.rule_id,
        kind: s.kind,
        status: IncidentStatus::Open,
        condition: s.condition,
        summary: s.summary,
        evidence: s.evidence,
        first_seen: at,
        last_seen: at,
        resolved_at: None,
        acknowledgement: None,
        occurrences: 0,
    }
}

pub open spec fn acknowledged_at(r: IncidentView) -> u64 {
    match r.acknowledgement {
        Some(a) => a.at_ms,
        None => 0,
    }
}

/// The records while a commit is being worked through.
pub struct Draft {
    pub records: Map<Seq<char>, IncidentView>,
    /// Every record written by the commit, in order.
    pub changed: Seq<IncidentView>,
    pub timestamp: u64,
    /// Episodes that the commit opened.
    pub added: nat,
}

/// A rule that a signal breaks.
pub open spec fn signal_fault(s: SignalView, monitor_id: Seq<char>) -> Option<Fault> {
    if s.monitor_id != monitor_id {
        Some(Fault::Invalid("signal monitor differs from commit"@))
    } else if !text_fits(s.target_id, 256, false) {
        Some(text_fault("target id"@, 256))
    } else if !text_fits(s.rule_id, 256, false) {
        Some(text_fault("rule id"@, 256))
    } else if !text_fits(s.summary, 2048, false) {
        Some(text_fault("summary"@, 2048))
    } else {
        object_fault(s.evidence, MAX_EVIDENCE_BYTES as nat, "evidence"@)
    }
}

pub open spec fn drafted_with(d: Draft, r: Result<IncidentView, Fault>, timestamp: u64, added: nat) -> Result<Draft, Fault> {
    match r {
        Ok(record) => Ok(
            Draft {
                records: d.records.insert(record.id, record),
                changed: d.changed.push(record),
                timestamp,
                added: d.added + added,
            },
        ),
        Err(f) => Err(f),
    }
}

/// One signal: it continues the open episode of its subject; only an active
/// signal begins a new one.
pub open spec fn signalled(d: Draft, s: SignalView, monitor_id: Seq<char>, sequence: u64, index: nat) -> Result<Draft, Fault> {
    let key = key_of_signal(s);
    if signal_fault(s, monitor_id) is Some {
        Err(signal_fault(s, monitor_id)->0)
    } else if has_open(d.records, key) {
        let current = d.records[open_id(d.records, key)];
        let at = later(later(d.timestamp, current.last_seen), acknowledged_at(current));
        if current.revision == u64::MAX {
            Err(overflow())
        } else {
            drafted_with(d, noted(IncidentView { revision: (current.revision + 1) as u64, ..current }, s, at), at, 0)
        }
    } else if s.condition != SignalCondition::Active {
        Ok(d)
    } else {
        drafted_with(d, noted(begun(s, incident_id_of(sequence, index), d.timestamp), s, d.timestamp), d.timestamp, 1)
    }
}

/// Every signal in order, including repeated subjects in a single batch: a
/// later clear must not erase an earlier episode.
pub open spec fn drafted(base: Draft, signals: Seq<SignalView>, monitor_id: Seq<char>, sequence: u64) -> Result<Draft, Fault>
    decreases signals.len(),
{
    if signals.len() == 0 {
        Ok(base)
    } else {
        match drafted(base, signals.drop_last(), monitor_id, sequence) {
            Err(f) => Err(f),
            Ok(d) => signalled(d, signals.last(), monitor_id, sequence, (signals.len() - 1) as nat),
        }
    }
}

/// A refused prefix refuses the whole.
pub proof fn refusal_sticks(base: Draft, signals: Seq<SignalView>, n: int, monitor_id: Seq<char>, sequence: u64)
    requires
        0 <= n <= signals.len(),
        drafted(base, signals.subrange(0, n), monitor_id, sequence) is Err,
    ensures
        drafted(base, signals, monitor_id, sequence) == drafted(base, signals.subrange(0, n), monitor_id, sequence),
    decreases signals.len() - n,
{
    if n == signals.len() {
        assert(signals.subrange(0, n) =~= signals);
    } else {
        assert(signals.subrange(0, n + 1).drop_last() =~= signals.subrange(0, n));
        refusal_sticks(base, signals, n + 1, monitor_id, sequence);
    }
}

/// The records with every written one put in place, in order.
pub open spec fn inserted(records: Map<Seq<char>, IncidentView>, changed: Seq<IncidentView>) -> Map<Seq<char>, IncidentView>
    decreases changed.len(),
{
    if changed.len() == 0 {
        records
    } else {
        inserted(records, changed.drop_last()).insert(changed.last().id, changed.last())
    }
}

/// A draft's records are its base with the written ones put in place.
pub proof fn draft_is_insertion(base: Draft, signals: Seq<SignalView>, monitor_id: Seq<char>, sequence: u64)
    requires
        base.changed.len() == 0,
        drafted(base, signals, monitor_id, sequence) is Ok,
    ensures
        ({
            let d = drafted(base, signals, monitor_id, sequence)->Ok_0;
            d.records == inserted(base.records, d.changed)
        }),
    decreases signals.len(),
{
    if signals.len() > 0 {
        draft_is_insertion(base, signals.drop_last(), monitor_id, sequence);
        let front = drafted(base, signals.drop_last(), monitor_id, sequence)->Ok_0;
        let d = drafted(base, signals, monitor_id, sequence)->Ok_0;
        if d != front {
            assert(d.changed.drop_last() =~= front.changed);
        }
    }
}

/// A commit keeps the incidents consistent, counts the episodes it begins and
/// never lets its time run backwards.
pub proof fn draft_keeps_consistent(base: Draft, signals: Seq<SignalView>, monitor_id: Seq<char>, sequence: u64)
    requires
        consistent(base.records, sequence, 0),
        signals.len() <= 65536,
        base.records.dom().finite(),
        base.added == 0,
        drafted(base, signals, monitor_id, sequence) is Ok,
    ensures
        ({
            let d = drafted(base, signals, monitor_id, sequence)->Ok_0;
            &&& consistent(d.records, sequence, signals.len())
            &&& d.records.dom().finite()
            &&& d.records.dom().len() == base.records.dom().len() + d.added
            &&& d.timestamp >= base.timestamp
        }),
    decreases signals.len(),
{
    if signals.len() > 0 {
        draft_keeps_consistent(base, signals.drop_last(), monitor_id, sequence);
        let front = drafted(base, signals.drop_last(), monitor_id, sequence)->Ok_0;
        signal_keeps_consistent(front, signals.last(), monitor_id, sequence, (signals.len() - 1) as nat);
    }
}

/// An id given out before number `index` of line `sequence`.
pub open spec fn given_out(id: Seq<char>, sequence: u64, index: nat) -> bool {
    exists|n: u64, i: nat|
        id == #[trigger] incident_id_of(n, i) && i < 65536 && (n < sequence || (n == sequence && i < index))
}

/// What every reachable incident satisfies: it is resolved exactly when its
/// condition is clear and exactly when a time of resolution is known, that
/// time being the last time it was seen. It was seen at least once, its times
/// are in order, and an acknowledgement comes with the acknowledged status.
pub open spec fn coherent(r: IncidentView) -> bool {
    &&& r.status == IncidentStatus::Resolved <==> r.condition == SignalCondition::Clear
    &&& r.status == IncidentStatus::Resolved <==> r.resolved_at is Some
    &&& r.resolved_at is Some ==> r.resolved_at->0 == r.last_seen
    &&& r.first_seen <= r.last_seen
    &&& r.occurrences >= 1
    &&& r.revision >= 1
    &&& r.status == IncidentStatus::Open ==> r.acknowledgement is None
    &&& r.status == IncidentStatus::Acknowledged ==> r.acknowledgement is Some
}

/// What every reachable set of incidents satisfies: each is coherent and stands
/// under its own id, and a subject has at most one unresolved episode.
pub open spec fn consistent(records: Map<Seq<char>, IncidentView>, sequence: u64, index: nat) -> bool {
    &&& forall|id: Seq<char>| #[trigger]
        records.contains_key(id) ==> records[id].id == id && coherent(records[id]) && given_out(id, sequence, index)
    &&& forall|key: KeyView, a: Seq<char>, b: Seq<char>| #[trigger]
        is_open(records, key, a) && #[trigger] is_open(records, key, b) ==> a == b
}

/// The last written record of a subject.
pub open spec fn last_match(changed: Seq<IncidentView>, key: KeyView) -> Option<int>
    decreases changed.len(),
{
    if changed.len() == 0 {
        None
    } else if key_of(changed.last()) == key {
        Some(changed.len() - 1)
    } else {
        last_match(changed.drop_last(), key)
    }
}

proof fn last_match_range(changed: Seq<IncidentView>, key: KeyView)
    ensures
        match last_match(changed, key) {
            Some(j) => 0 <= j < changed.len() && key_of(changed[j]) == key && forall|i: int|
                j < i < changed.len() ==> key_of(#[trigger] changed[i]) != key,
            None => forall|i: int| 0 <= i < changed.len() ==> key_of(#[trigger] changed[i]) != key,
        },
    decreases changed.len(),
{
    if changed.len() > 0 && key_of(changed.last()) != key {
        let front = changed.drop_last();
        last_match_range(front, key);
        match last_match(front, key) {
            Some(j) => {
                assert forall|i: int| j < i < changed.len() implies key_of(#[trigger] changed[i]) != key by {
                    if i < front.len() {
                        assert(front[i] == changed[i]);
                    }
                }
            },
            None => {
                assert forall|i: int| 0 <= i < changed.len() implies key_of(#[trigger] changed[i]) != key by {
                    if i < front.len() {
                        assert(front[i] == changed[i]);
                    }
                }
            },
        }
    }
}

/// The open episodes of a draft can be read off the written records and the base.
pub open spec fn indexed(base: Map<Seq<char>, IncidentView>, d: Draft) -> bool {
    &&& forall|key: KeyView, id: Seq<char>| #[trigger]
        is_open(d.records, key, id) <==> match last_match(d.changed, key) {
            Some(j) => d.changed[j].status != IncidentStatus::Resolved && id == d.changed[j].id,
            None => is_open(base, key, id),
        }
    &&& forall|key: KeyView, id: Seq<char>| #[trigger]
        is_open(d.records, key, id) ==> d.records[id] == match last_match(d.changed, key) {
            Some(j) => d.changed[j],
            None => base[id],
        }
}

/// `r` continues the open episode of its subject, or begins one where there is none.
pub open spec fn continues(records: Map<Seq<char>, IncidentView>, r: IncidentView) -> bool {
    is_open(records, key_of(r), r.id) || (!records.contains_key(r.id) && !has_open(records, key_of(r)))
}

proof fn write_keeps_index(base: Map<Seq<char>, IncidentView>, d: Draft, r: IncidentView, after: Draft)
    requires
        indexed(base, d),
        forall|key: KeyView, a: Seq<char>, b: Seq<char>| #[trigger]
            is_open(d.records, key, a) && #[trigger] is_open(d.records, key, b) ==> a == b,
        continues(d.records, r),
        after.records == d.records.insert(r.id, r),
        after.changed == d.changed.push(r),
    ensures
        indexed(base, after),
{
    assert(after.changed.drop_last() =~= d.changed);
    assert forall|key: KeyView, id: Seq<char>| #[trigger] is_open(after.records, key, id) <==> match last_match(
        after.changed,
        key,
    ) {
        Some(j) => after.changed[j].status != IncidentStatus::Resolved && id == after.changed[j].id,
        None => is_open(base, key, id),
    } by {
        last_match_range(d.changed, key);
        if key == key_of(r) {
            assert(last_match(after.changed, key) == Some(d.changed.len() as int));
            if id != r.id && is_open(after.records, key, id) {
                assert(is_open(d.records, key, id));
                if is_open(d.records, key, r.id) {
                } else {
                    assert(has_open(d.records, key));
                }
            }
        } else {
            assert(last_match(after.changed, key) == last_match(d.changed, key));
            if id == r.id {
                assert(!is_open(after.records, key, id));
                assert(!is_open(d.records, key, id));
            } else {
                assert(is_open(after.records, key, id) == is_open(d.records, key, id));
            }
        }
    }
    assert forall|key: KeyView, id: Seq<char>| #[trigger] is_open(after.records, key, id) implies after.records[id] == match last_match(
        after.changed,
        key,
    ) {
        Some(j) => after.changed[j],
        None => base[id],
    } by {
        last_match_range(d.changed, key);
        if key == key_of(r) {
            assert(last_match(after.changed, key) == Some(d.changed.len() as int));
        } else {
            assert(last_match(after.changed, key) == last_match(d.changed, key));
            assert(id != r.id);
            assert(is_open(d.records, key, id));
        }
    }
}

proof fn hex_len(n: nat, width: nat)
    ensures
        hex(n, width).len() == width,
    decreases width,
{
    if width > 0 {
        hex_len(n / 16, (width - 1) as nat);
    }
}

/// Different numbers give different incident ids.
pub proof fn incident_ids_differ(n: u64, i: nat, m: u64, j: nat)
    requires
        incident_id_of(n, i) == incident_id_of(m, j),
        i < 65536,
        j < 65536,
    ensures
        n == m,
        i == j,
{
    let p = "incident-"@;
    let q = "-"@;
    hex_len(n as nat, 16);
    hex_len(m as nat, 16);
    hex_len(i, 4);
    hex_len(j, 4);
    let a = incident_id_of(n, i);
    let b = incident_id_of(m, j);
    let l = p.len() as int;
    assert(a.subrange(l, l + 16) =~= hex(n as nat, 16));
    assert(b.subrange(l, l + 16) =~= hex(m as nat, 16));
    assert(a.subrange(a.len() - 4, a.len() as int) =~= hex(i, 4));
    assert(b.subrange(b.len() - 4, b.len() as int) =~= hex(j, 4));
    assert(vstd::arithmetic::power::pow(16, 16) == 0x1_0000_0000_0000_0000 && vstd::arithmetic::power::pow(16, 4) == 65536) by {
        reveal_with_fuel(vstd::arithmetic::power::pow, 17);
    }
    crate::text::hex_injective(n as nat, m as nat, 16);
    crate::text::hex_injective(i, j, 4);
}

/// The next id of a commit is new.
pub proof fn next_id_is_new(records: Map<Seq<char>, IncidentView>, sequence: u64, index: nat)
    requires
        consistent(records, sequence, index),
        index < 65536,
    ensures
        !records.contains_key(incident_id_of(sequence, index)),
{
    let id = incident_id_of(sequence, index);
    if records.contains_key(id) {
        let (n, i) = choose|n: u64, i: nat|
            id == #[trigger] incident_id_of(n, i) && i < 65536 && (n < sequence || (n == sequence && i < index));
        incident_ids_differ(n, i, sequence, index);
    }
}

proof fn given_out_later(id: Seq<char>, sequence: u64, index: nat)
    requires
        given_out(id, sequence, index),
    ensures
        given_out(id, sequence, index + 1),
{
    let (n, i) = choose|n: u64, i: nat|
        id == #[trigger] incident_id_of(n, i) && i < 65536 && (n < sequence || (n == sequence && i < index));
    assert(id == incident_id_of(n, i));
}

/// A signal keeps the incidents consistent and what it writes continues its subject.
pub proof fn signal_keeps_consistent(d: Draft, s: SignalView, monitor_id: Seq<char>, sequence: u64, index: nat)
    requires
        consistent(d.records, sequence, index),
        index < 65536,
        signalled(d, s, monitor_id, sequence, index) is Ok,
    ensures
        ({
            let after = signalled(d, s, monitor_id, sequence, index)->Ok_0;
            &&& consistent(after.records, sequence, index + 1)
            &&& after == d || (after.changed.len() == d.changed.len() + 1 && continues(d.records, after.changed.last())
                && after.records == d.records.insert(after.changed.last().id, after.changed.last()) && after.changed
                == d.changed.push(after.changed.last()))
            &&& d.records.dom().finite() ==> after.records.dom().finite() && after.records.dom().len() + d.added
                == d.records.dom().len() + after.added
            &&& after.timestamp >= d.timestamp
        }),
{
    let after = signalled(d, s, monitor_id, sequence, index)->Ok_0;
    let key = key_of_signal(s);
    next_id_is_new(d.records, sequence, index);
    if has_open(d.records, key) {
        let id = open_id(d.records, key);
        assert(is_open(d.records, key, id));
        assert(d.records[id].id == id);
        let r = after.changed.last();
        assert(r.id == id && key_of(r) == key);
        assert(d.records.insert(id, r).dom() =~= d.records.dom());
    } else if s.condition == SignalCondition::Active {
        let r = after.changed.last();
        assert(r.id == incident_id_of(sequence, index));
        assert(d.records.insert(r.id, r).dom() =~= d.records.dom().insert(r.id));
        assert(given_out(r.id, sequence, index + 1));
    }
    if after != d {
        let r = after.changed.last();
        assert(after.changed == d.changed.push(r));
        assert forall|k: KeyView, a: Seq<char>, b: Seq<char>| #[trigger]
            is_open(after.records, k, a) && #[trigger] is_open(after.records, k, b) implies a == b by {
            if a != r.id {
                assert(is_open(d.records, k, a));
            }
            if b != r.id {
                assert(is_open(d.records, k, b));
            }
            if a != b && (a == r.id || b == r.id) {
                assert(k == key);
                if is_open(d.records, key, r.id) {
                } else {
                    assert(has_open(d.records, key));
                }
            }
        }
    }
    assert forall|id: Seq<char>| #[trigger] after.records.contains_key(id) implies after.records[id].id == id && coherent(
        after.records[id],
    ) && given_out(id, sequence, index + 1) by {
        if d.records.contains_key(id) {
            given_out_later(id, sequence, index);
        }
    }
}

fn matches_key(record: &IncidentRecord, signal: &IncidentSignal) -> (r: bool)
    ensures
        r == (key_of(record@) == key_of_signal(signal@)),
{
    same(&record.monitor_id, &signal.monitor_id) && same(&record.target_id, &signal.target_id) && same(
        &record.rule_id,
        &signal.rule_id,
    ) && record.kind == signal.kind
}

pub open spec fn written(list: Seq<IncidentRecord>) -> Seq<IncidentView> {
    list.map_values(|r: IncidentRecord| r@)
}

/// The open episode of a signal's subject.
fn find_open<'a>(records: &'a Table<IncidentRecord>, changed: &'a Vec<IncidentRecord>, signal: &IncidentSignal, Ghost(d): Ghost<
    Draft,
>) -> (r: Option<&'a IncidentRecord>)
    requires
        records.wf(),
        indexed(incidents_of(*records), d),
        d.changed == written(changed@),
        forall|key: KeyView, a: Seq<char>, b: Seq<char>| #[trigger]
            is_open(d.records, key, a) && #[trigger] is_open(d.records, key, b) ==> a == b,
        forall|id: Seq<char>| #[trigger] incidents_of(*records).contains_key(id) ==> incidents_of(*records)[id].id == id,
    ensures
        match r {
            Some(record) => has_open(d.records, key_of_signal(signal@)) && record@ == d.records[open_id(
                d.records,
                key_of_signal(signal@),
            )],
            None => !has_open(d.records, key_of_signal(signal@)),
        },
{
    let ghost key = key_of_signal(signal@);
    let ghost base = incidents_of(*records);
    proof {
        last_match_range(d.changed, key);
    }
    let mut i: usize = changed.len();
    while i > 0
        invariant
            i <= changed.len(),
            d.changed == written(changed@),
            key == key_of_signal(signal@),
            base == incidents_of(*records),
            indexed(base, d),
            forall|k: KeyView, a: Seq<char>, b: Seq<char>| #[trigger]
                is_open(d.records, k, a) && #[trigger] is_open(d.records, k, b) ==> a == b,
            forall|j: int| i <= j < changed.len() ==> key_of((#[trigger] changed@[j])@) != key,
        decreases i,
    {
        i = i - 1;
        if matches_key(&changed[i], signal) {
            proof {
                last_match_range(d.changed, key);
                let l = last_match(d.changed, key);
                assert(d.changed[i as int] == changed@[i as int]@);
                assert(l is Some);
                assert(l->0 == i) by {
                    if l->0 < i {
                        assert(key_of(d.changed[i as int]) != key);
                    } else if l->0 > i {
                        assert(d.changed[l->0] == changed@[l->0]@);
                    }
                }
            }
            return match changed[i].status {
                IncidentStatus::Resolved => {
                    assert(!has_open(d.records, key)) by {
                        if has_open(d.records, key) {
                            assert(is_open(d.records, key, open_id(d.records, key)));
                        }
                    }
                    None
                },
                _ => {
                    assert(is_open(d.records, key, changed@[i as int]@.id));
                    assert(is_open(d.records, key, open_id(d.records, key)));
                    Some(&changed[i])
                },
            };
        }
    }
    assert(last_match(d.changed, key) is None) by {
        if last_match(d.changed, key) is Some {
            let l = last_match(d.changed, key)->0;
            assert(d.changed[l] == changed@[l]@);
        }
    }
    let mut k: usize = 0;
    while k < records.len()
        invariant
            k <= records.listed().len(),
            records.wf(),
            key == key_of_signal(signal@),
            base == incidents_of(*records),
            indexed(base, d),
            last_match(d.changed, key) is None,
            forall|a: Seq<char>, b: Seq<char>| #[trigger]
                is_open(d.records, key, a) && #[trigger] is_open(d.records, key, b) ==> a == b,
            forall|id: Seq<char>| #[trigger] base.contains_key(id) ==> base[id].id == id,
            forall|j: int|
                0 <= j < k ==> !(key_of((#[trigger] records.listed()[j]).1@) == key && records.listed()[j].1.status
                    != IncidentStatus::Resolved),
        decreases records.listed().len() - k,
    {
        let record = records.value(k);
        if record.status != IncidentStatus::Resolved && matches_key(record, signal) {
            proof {
                records.entry_at(k as int);
                let id = records.listed()[k as int].0@;
                assert(base.contains_key(id) && base[id] == record@);
                assert(is_open(base, key, id));
                assert(is_open(d.records, key, id));
                assert(is_open(d.records, key, open_id(d.records, key)));
            }
            return Some(record);
        }
        k = k + 1;
    }
    proof {
        if has_open(d.records, key) {
            let id = open_id(d.records, key);
            assert(is_open(d.records, key, id));
            assert(is_open(base, key, id));
            let p = records.entry_of(id);
            assert(records.listed()[p].1@ == base[id]);
        }
    }
    None
}

fn check_signal(signal: &IncidentSignal, monitor_id: &str) -> (r: Result<(), IncidentError>)
    ensures
        match r {
            Ok(_) => signal_fault(signal@, monitor_id@) is None,
            Err(e) => signal_fault(signal@, monitor_id@) == Some(e@),
        },
{
    if !same(&signal.monitor_id, monitor_id) {
        return Err(IncidentError::Invalid(copied("signal monitor differs from commit")));
    }
    if let Err(e) = bounded_text(&signal.target_id, 256, "target id", false) {
        return Err(e);
    }
    if let Err(e) = bounded_text(&signal.rule_id, 256, "rule id", false) {
        return Err(e);
    }
    if let Err(e) = bounded_text(&signal.summary, 2048, "summary", false) {
        return Err(e);
    }
    bounded_object(&signal.evidence, MAX_EVIDENCE_BYTES, "evidence")
}

pub fn incident_id(sequence: u64, index: usize) -> (r: String)
    ensures
        r@ == incident_id_of(sequence, index as nat),
{
    let id = joined("incident-", &hex_text(sequence, 16));
    let id = joined(&id, "-");
    joined(&id, &hex_text(index as u64, 4))
}

fn note(mut record: IncidentRecord, signal: &IncidentSignal, at: u64) -> (r: Result<IncidentRecord, IncidentError>)
    ensures
        match r {
            Ok(n) => noted(record@, signal@, at) == Ok::<IncidentView, Fault>(n@),
            Err(e) => noted(record@, signal@, at) == Err::<IncidentView, Fault>(e@),
        },
{
    record.condition = signal.condition;
    record.summary = signal.summary.clone();
    record.evidence = signal.evidence.copy();
    record.last_seen = at;
    match signal.condition {
        SignalCondition::Active => {
            if record.occurrences == u64::MAX {
                return Err(IncidentError::Capacity(copied("sequence overflow")));
            }
            record.occurrences = record.occurrences + 1;
        },
        SignalCondition::Clear => {
            record.status = IncidentStatus::Resolved;
            record.resolved_at = Some(at);
        },
        SignalCondition::Unknown => {},
    }
    Ok(record)
}

pub fn max_of(a: u64, b: u64) -> (r: u64)
    ensures
        r == later(a, b),
{
    if a >= b { a } else { b }
}

/// The records that a monitor's signals write, with their latest time and the
/// number of episodes they begin.
pub fn draft(records: &Table<IncidentRecord>, signals: &Vec<IncidentSignal>, monitor_id: &str, sequence: u64, timestamp: u64) -> (r:
    Result<(Vec<IncidentRecord>, u64, usize), IncidentError>)
    requires
        records.wf(),
        signals.len() <= 65536,
        consistent(incidents_of(*records), sequence, 0),
    ensures
        ({
            let base = Draft { records: incidents_of(*records), changed: Seq::empty(), timestamp, added: 0 };
            match r {
                Ok((changed, at, added)) => {
                    let d = drafted(base, signals_of(signals@), monitor_id@, sequence);
                    &&& d is Ok
                    &&& d->Ok_0.changed == written(changed@)
                    &&& d->Ok_0.timestamp == at
                    &&& d->Ok_0.added == added
                },
                Err(e) => drafted(base, signals_of(signals@), monitor_id@, sequence) == Err::<Draft, Fault>(e@),
            }
        }),
{
    let ghost base = Draft { records: incidents_of(*records), changed: Seq::empty(), timestamp, added: 0 };
    let ghost all = signals_of(signals@);
    let mut changed: Vec<IncidentRecord> = Vec::new();
    let mut at: u64 = timestamp;
    let mut added: usize = 0;
    let ghost mut d = base;
    let mut i: usize = 0;
    proof {
        assert(written(changed@) =~= Seq::<IncidentView>::empty());
        assert(all.subrange(0, 0) =~= Seq::<SignalView>::empty());
    }
    while i < signals.len()
        invariant
            i <= signals.len() <= 65536,
            records.wf(),
            all == signals_of(signals@),
            base == (Draft { records: incidents_of(*records), changed: Seq::empty(), timestamp, added: 0 }),
            drafted(base, all.subrange(0, i as int), monitor_id@, sequence) == Ok::<Draft, Fault>(d),
            d.changed == written(changed@),
            d.timestamp == at,
            d.added == added,
            added <= i,
            consistent(base.records, sequence, 0),
            consistent(d.records, sequence, i as nat),
            indexed(base.records, d),
        decreases signals.len() - i,
    {
        let signal = &signals[i];
        let ghost now = all.subrange(0, i + 1);
        proof {
            assert(now.drop_last() =~= all.subrange(0, i as int));
            assert(now.last() == signal@);
            if signalled(d, signal@, monitor_id@, sequence, i as nat) is Err {
                refusal_sticks(base, all, i + 1, monitor_id@, sequence);
            }
        }
        if let Err(e) = check_signal(signal, monitor_id) {
            return Err(e);
        }
        let current = find_open(records, &changed, signal, Ghost(d));
        let ghost before = d;
        let ghost next = signalled(d, signal@, monitor_id@, sequence, i as nat);
        match current {
            Some(current) => {
                let seen = match &current.acknowledgement {
                    Some(ack) => ack.at_ms,
                    None => 0,
                };
                let then: u64 = max_of(max_of(at, current.last_seen), seen);
                if current.revision == u64::MAX {
                    return Err(IncidentError::Capacity(copied("sequence overflow")));
                }
                let mut record = current.clone();
                record.revision = record.revision + 1;
                match note(record, signal, then) {
                    Ok(record) => {
                        let ghost view = record@;
                        let ghost had = changed@;
                        changed.push(record);
                        at = then;
                        proof {
                            assert(written(changed@) =~= written(had).push(view));
                            d = next->Ok_0;
                        }
                    },
                    Err(e) => {
                        return Err(e);
                    },
                }
            },
            None => {
                if signal.condition == SignalCondition::Active {
                    let record = IncidentRecord {
                        id: incident_id(sequence, i),
                        revision: 1,
                        monitor_id: signal.monitor_id.clone(),
                        target_id: signal.target_id.clone(),
                        rule_id: signal.rule_id.clone(),
                        kind: signal.kind,
                        status: IncidentStatus::Open,
                        condition: signal.condition,
                        summary: signal.summary.clone(),
                        evidence: signal.evidence.copy(),
                        first_seen: at,
                        last_seen: at,
                        resolved_at: None,
                        acknowledgement: None,
                        occurrences: 0,
                    };
                    match note(record, signal, at) {
                        Ok(record) => {
                            let ghost view = record@;
                            let ghost had = changed@;
                            changed.push(record);
                            added = added + 1;
                            proof {
                                assert(written(changed@) =~= written(had).push(view));
                                d = next->Ok_0;
                            }
                        },
                        Err(e) => {
                            return Err(e);
                        },
                    }
                }
            },
        }
        proof {
            signal_keeps_consistent(before, signal@, monitor_id@, sequence, i as nat);
            if d != before {
                write_keeps_index(base.records, before, d.changed.last(), d);
            }
        }
        i = i + 1;
    }
    assert(all.subrange(0, signals.len() as int) =~= all);
    Ok((changed, at, added))
}

} // verus!
