//! Read models and authenticated acknowledgement of durable incidents.
use super::paging::{cut, descending, page_at, sort, text_in, text_under, PageView};
use super::{bad_request, conflicting, is_id, missing, reports, unavailable, valid_id, ApiError, Refusal};
use crate::json::values::{empty_object, object, opt_json, text_or_null, text_value, with};
use crate::json::{group_json, trees, with_member, Json, Tree};
use crate::monitors::state::MonitorSnapshot;
use crate::monitors::{Coverage, Freshness, MonitorError, TargetHealth};
use crate::recovery::incidents::{
    IncidentError, IncidentKind, IncidentRecord, IncidentStatus, IncidentView, SignalCondition, MAX_ACK_NOTE_BYTES,
};
use crate::table::Table;
use crate::text::{byte_len, clip, clipped, holds, listed, lowercase, lowercased, occurs, opt, same, texts, utf8_len};
use vstd::prelude::*;

verus! {

broadcast use group_json;

/// How a monitoring failure is answered.
pub open spec fn monitor_answer(f: crate::monitors::Fault) -> Refusal {
    let message = crate::monitors::fault_message(f);
    match f {
        crate::monitors::Fault::Configuration(_) | crate::monitors::Fault::Observation(_) => bad_request(message),
        crate::monitors::Fault::Incident(i) => match i {
            crate::recovery::incidents::Fault::Invalid(_) => bad_request(message),
            crate::recovery::incidents::Fault::Conflict(_) => conflicting(message),
            crate::recovery::incidents::Fault::NotFound(_) => missing(message),
            _ => unavailable(message),
        },
        _ => unavailable(message),
    }
}

pub fn monitor_error(error: &MonitorError) -> (e: ApiError)
    ensures
        e@ == monitor_answer(error@),
{
    let message = error.message();
    match error {
        MonitorError::Configuration(_) | MonitorError::Observation(_) => ApiError::invalid(&message),
        MonitorError::Incident(i) => match i {
            IncidentError::Invalid(_) => ApiError::invalid(&message),
            IncidentError::Conflict(_) => ApiError::conflict(&message),
            IncidentError::NotFound(_) => ApiError::missing(&message),
            _ => ApiError::unavailable(&message),
        },
        _ => ApiError::unavailable(&message),
    }
}

pub open spec fn kind_text(k: IncidentKind) -> Seq<char> {
    match k {
        IncidentKind::Target => "target"@,
        IncidentKind::Coverage => "coverage"@,
    }
}

pub open spec fn status_text(s: IncidentStatus) -> Seq<char> {
    match s {
        IncidentStatus::Open => "open"@,
        IncidentStatus::Acknowledged => "acknowledged"@,
        IncidentStatus::Resolved => "resolved"@,
    }
}

pub open spec fn condition_text(c: SignalCondition) -> Seq<char> {
    match c {
        SignalCondition::Active => "active"@,
        SignalCondition::Clear => "clear"@,
        SignalCondition::Unknown => "unknown"@,
    }
}

/// An incident as lists show it: no observation payloads and no notes.
pub open spec fn incident_tree(r: IncidentView) -> Tree {
    let a = with_member(empty_object(), "id"@, Tree::Text(r.id));
    let b = with_member(a, "revision"@, Tree::Unsigned(r.revision));
    let c = with_member(b, "monitor_id"@, Tree::Text(r.monitor_id));
    let d = with_member(c, "target_id"@, Tree::Text(r.target_id));
    let e = with_member(d, "rule_id"@, Tree::Text(r.rule_id));
    let f = with_member(e, "kind"@, Tree::Text(kind_text(r.kind)));
    let g = with_member(f, "status"@, Tree::Text(status_text(r.status)));
    let h = with_member(g, "condition"@, Tree::Text(condition_text(r.condition)));
    let i = with_member(h, "summary"@, Tree::Text(clipped(r.summary, 256)));
    let j = with_member(i, "first_seen"@, Tree::Unsigned(r.first_seen));
    let k = with_member(j, "last_seen"@, Tree::Unsigned(r.last_seen));
    let l = with_member(
        k,
        "resolved_at"@,
        match r.resolved_at {
            Some(t) => Tree::Unsigned(t),
            None => Tree::Null,
        },
    );
    let m = with_member(l, "occurrences"@, Tree::Unsigned(r.occurrences));
    with_member(m, "detail"@, Tree::Bool(false))
}

pub fn summary(record: &IncidentRecord) -> (r: Json)
    ensures
        r@ == incident_tree(record@),
{
    let kind = match record.kind {
        IncidentKind::Target => "target",
        IncidentKind::Coverage => "coverage",
    };
    let status = match record.status {
        IncidentStatus::Open => "open",
        IncidentStatus::Acknowledged => "acknowledged",
        IncidentStatus::Resolved => "resolved",
    };
    let condition = match record.condition {
        SignalCondition::Active => "active",
        SignalCondition::Clear => "clear",
        SignalCondition::Unknown => "unknown",
    };
    let a = with(object(), "id", text_value(&record.id));
    let b = with(a, "revision", Json::Unsigned(record.revision));
    let c = with(b, "monitor_id", text_value(&record.monitor_id));
    let d = with(c, "target_id", text_value(&record.target_id));
    let e = with(d, "rule_id", text_value(&record.rule_id));
    let f = with(e, "kind", text_value(kind));
    let g = with(f, "status", text_value(status));
    let h = with(g, "condition", text_value(condition));
    let i = with(h, "summary", text_value(&clip(&record.summary, 256)));
    let j = with(i, "first_seen", Json::Unsigned(record.first_seen));
    let k = with(j, "last_seen", Json::Unsigned(record.last_seen));
    let resolved = match record.resolved_at {
        Some(t) => Json::Unsigned(t),
        None => Json::Null,
    };
    let l = with(k, "resolved_at", resolved);
    let m = with(l, "occurrences", Json::Unsigned(record.occurrences));
    with(m, "detail", Json::Bool(false))
}

/// How many items have this status.
pub open spec fn with_status(items: Seq<Tree>, status: Seq<char>) -> nat
    decreases items.len(),
{
    if items.len() == 0 {
        0
    } else {
        with_status(items.drop_last(), status) + (if text_in(items.last(), "status"@) == Some(status) { 1nat } else { 0 })
    }
}

pub open spec fn counts_tree(items: Seq<Tree>) -> Tree {
    let open = with_status(items, "open"@);
    let acknowledged = with_status(items, "acknowledged"@);
    let a = with_member(empty_object(), "open"@, Tree::Unsigned(open as u64));
    let b = with_member(a, "acknowledged"@, Tree::Unsigned(acknowledged as u64));
    let c = with_member(b, "resolved"@, Tree::Unsigned(with_status(items, "resolved"@) as u64));
    let d = with_member(c, "active"@, Tree::Unsigned((open + acknowledged) as u64));
    with_member(d, "total"@, Tree::Unsigned(items.len() as u64))
}

fn count(items: &Vec<Json>, status: &str) -> (n: u64)
    ensures
        n == with_status(trees(items@), status@),
        n <= items.len(),
{
    let ghost all = trees(items@);
    let mut n: u64 = 0;
    let mut i: usize = 0;
    assert(all.subrange(0, 0) =~= Seq::<Tree>::empty());
    while i < items.len()
        invariant
            i <= items.len(),
            all == trees(items@),
            all.len() == items.len(),
            n <= i,
            n == with_status(all.subrange(0, i as int), status@),
        decreases items.len() - i,
    {
        proof {
            let now = all.subrange(0, i + 1);
            assert(now.drop_last() =~= all.subrange(0, i as int));
            assert(now.last() == items@[i as int]@);
        }
        if let Some(s) = text_under(&items[i], "status") {
            if same(s, status) {
                n = n + 1;
            }
        }
        i = i + 1;
    }
    assert(all.subrange(0, i as int) =~= all);
    n
}

/// No item has two statuses, so two counts together stay within the whole.
proof fn counts_fit(items: Seq<Tree>, a: Seq<char>, b: Seq<char>)
    requires
        a != b,
    ensures
        with_status(items, a) + with_status(items, b) <= items.len(),
    decreases items.len(),
{
    if items.len() > 0 {
        counts_fit(items.drop_last(), a, b);
    }
}

pub fn incident_counts(items: &Vec<Json>) -> (r: Json)
    ensures
        r@ == counts_tree(trees(items@)),
{
    let open = count(items, "open");
    let acknowledged = count(items, "acknowledged");
    let resolved = count(items, "resolved");
    proof {
        reveal_strlit("open");
        reveal_strlit("acknowledged");
        assert("open"@.len() != "acknowledged"@.len());
        counts_fit(trees(items@), "open"@, "acknowledged"@);
    }
    let a = with(object(), "open", Json::Unsigned(open));
    let b = with(a, "acknowledged", Json::Unsigned(acknowledged));
    let c = with(b, "resolved", Json::Unsigned(resolved));
    let d = with(c, "active", Json::Unsigned(open + acknowledged));
    with(d, "total", Json::Unsigned(items.len() as u64))
}

/// A monitor's value with its owner and where its records are.
pub open spec fn monitor_tree(value: Tree, owner: Option<Seq<char>>, logs: (bool, Option<Seq<char>>)) -> Tree {
    let a = with_member(value, "owner_plugin_id"@, text_or_null(owner));
    let b = with_member(a, "logs_available"@, Tree::Bool(logs.0));
    with_member(b, "log_source_id"@, text_or_null(logs.1))
}

pub fn monitor_value(value: Json, owner: &Option<String>, available: bool, source: &Option<String>) -> (r: Json)
    ensures
        r@ == monitor_tree(value@, opt(*owner), (available, opt(*source))),
{
    let a = with(value, "owner_plugin_id", opt_json(owner));
    let b = with(a, "logs_available", Json::Bool(available));
    with(b, "log_source_id", opt_json(source))
}

pub fn discovery_value(value: Json, owner: &Option<String>) -> (r: Json)
    ensures
        r@ == with_member(value@, "owner_plugin_id"@, text_or_null(opt(*owner))),
{
    with(value, "owner_plugin_id", opt_json(owner))
}

pub open spec fn unhealthy(m: MonitorSnapshot) -> bool {
    m.health == TargetHealth::Unhealthy
}

pub open spec fn stale(m: MonitorSnapshot) -> bool {
    m.freshness == Freshness::Stale
}

pub open spec fn troubled(m: MonitorSnapshot) -> bool {
    m.coverage != Coverage::Complete || m.freshness != Freshness::Fresh
}

pub open spec fn how_many(list: Seq<MonitorSnapshot>, p: spec_fn(MonitorSnapshot) -> bool) -> nat
    decreases list.len(),
{
    if list.len() == 0 {
        0
    } else {
        how_many(list.drop_last(), p) + (if p(list.last()) { 1nat } else { 0 })
    }
}

pub open spec fn target_ids(list: Seq<MonitorSnapshot>) -> Set<Seq<char>>
    decreases list.len(),
{
    if list.len() == 0 { Set::empty() } else { target_ids(list.drop_last()).insert(list.last().target_id@) }
}

/// What monitoring counts; incidents only for an operator who may read them.
pub open spec fn overview_tree(list: Seq<MonitorSnapshot>, incidents: Option<Seq<Tree>>) -> Tree {
    let a = with_member(empty_object(), "monitors"@, Tree::Unsigned(list.len() as u64));
    let b = with_member(a, "targets"@, Tree::Unsigned(target_ids(list).len() as u64));
    let c = with_member(b, "unhealthy"@, Tree::Unsigned(how_many(list, |m: MonitorSnapshot| unhealthy(m)) as u64));
    let d = with_member(c, "stale"@, Tree::Unsigned(how_many(list, |m: MonitorSnapshot| stale(m)) as u64));
    let e = with_member(d, "collection_issues"@, Tree::Unsigned(how_many(list, |m: MonitorSnapshot| troubled(m)) as u64));
    with_member(
        e,
        "incidents"@,
        match incidents {
            Some(items) => counts_tree(items),
            None => Tree::Null,
        },
    )
}

pub fn overview(list: &Vec<MonitorSnapshot>, incidents: Option<&Vec<Json>>) -> (r: Json)
    ensures
        r@ == overview_tree(
            list@,
            match incidents {
                Some(v) => Some(trees(v@)),
                None => None,
            },
        ),
{
    let ghost p1 = |m: MonitorSnapshot| unhealthy(m);
    let ghost p2 = |m: MonitorSnapshot| stale(m);
    let ghost p3 = |m: MonitorSnapshot| troubled(m);
    let mut bad: u64 = 0;
    let mut old_ones: u64 = 0;
    let mut issues: u64 = 0;
    let mut found: Table<bool> = Table::new();
    let mut i: usize = 0;
    assert(list@.subrange(0, 0) =~= Seq::<MonitorSnapshot>::empty());
    assert(found@.dom() =~= Set::<Seq<char>>::empty());
    while i < list.len()
        invariant
            i <= list.len(),
            bad <= i && old_ones <= i && issues <= i,
            p1 == |m: MonitorSnapshot| unhealthy(m),
            p2 == |m: MonitorSnapshot| stale(m),
            p3 == |m: MonitorSnapshot| troubled(m),
            bad == how_many(list@.subrange(0, i as int), p1),
            old_ones == how_many(list@.subrange(0, i as int), p2),
            issues == how_many(list@.subrange(0, i as int), p3),
            found.wf(),
            found@.dom() == target_ids(list@.subrange(0, i as int)),
        decreases list.len() - i,
    {
        let m = &list[i];
        proof {
            let now = list@.subrange(0, i + 1);
            assert(now.drop_last() =~= list@.subrange(0, i as int));
            assert(now.last() == *m);
            assert(p1(*m) == unhealthy(*m) && p2(*m) == stale(*m) && p3(*m) == troubled(*m));
        }
        if m.health == TargetHealth::Unhealthy {
            bad = bad + 1;
        }
        if m.freshness == Freshness::Stale {
            old_ones = old_ones + 1;
        }
        if m.coverage != Coverage::Complete || m.freshness != Freshness::Fresh {
            issues = issues + 1;
        }
        let ghost before = found@.dom();
        found.insert(m.target_id.clone(), true);
        assert(found@.dom() =~= before.insert(m.target_id@));
        i = i + 1;
    }
    assert(list@.subrange(0, i as int) =~= list@);
    proof {
        found.lists_its_entries();
    }
    let counts = match incidents {
        Some(v) => incident_counts(v),
        None => Json::Null,
    };
    let a = with(object(), "monitors", Json::Unsigned(list.len() as u64));
    let b = with(a, "targets", Json::Unsigned(found.len() as u64));
    let c = with(b, "unhealthy", Json::Unsigned(bad));
    let d = with(c, "stale", Json::Unsigned(old_ones));
    let e = with(d, "collection_issues", Json::Unsigned(issues));
    with(e, "incidents", counts)
}

// Incidents.

pub struct IncidentQuery {
    pub cursor: Option<String>,
    pub limit: Option<usize>,
    pub status: Option<String>,
    pub target_id: Option<String>,
    pub monitor_id: Option<String>,
    pub kind: Option<String>,
    pub query: Option<String>,
}

pub struct IncidentQueryView {
    pub cursor: Option<Seq<char>>,
    pub limit: Option<usize>,
    pub status: Option<Seq<char>>,
    pub target_id: Option<Seq<char>>,
    pub monitor_id: Option<Seq<char>>,
    pub kind: Option<Seq<char>>,
    pub query: Option<Seq<char>>,
}

impl View for IncidentQuery {
    type V = IncidentQueryView;

    open spec fn view(&self) -> IncidentQueryView {
        IncidentQueryView {
            cursor: opt(self.cursor),
            limit: self.limit,
            status: opt(self.status),
            target_id: opt(self.target_id),
            monitor_id: opt(self.monitor_id),
            kind: opt(self.kind),
            query: opt(self.query),
        }
    }
}

pub open spec fn incident_limit(q: IncidentQueryView) -> usize {
    match q.limit {
        Some(n) => n,
        None => 25,
    }
}

pub open spec fn wanted_status(q: IncidentQueryView) -> Seq<char> {
    match q.status {
        Some(s) => s,
        None => "active"@,
    }
}

pub open spec fn filter_ok(id: Option<Seq<char>>) -> bool {
    id is None || id->0.len() == 0 || is_id(id->0)
}

pub open spec fn query_ok(q: IncidentQueryView) -> bool {
    let s = wanted_status(q);
    &&& 1 <= incident_limit(q) <= 100
    &&& q.cursor is None || is_id(q.cursor->0)
    &&& filter_ok(q.target_id) && filter_ok(q.monitor_id)
    &&& q.kind is None || q.kind->0.len() == 0 || q.kind->0 == "all"@ || q.kind->0 == "target"@ || q.kind->0 == "coverage"@
    &&& q.query is None || byte_len(q.query->0) <= 256
    &&& s == "active"@ || s == "all"@ || s == "open"@ || s == "acknowledged"@ || s == "resolved"@
}

pub open spec fn has_value(t: Tree, key: Seq<char>, filter: Option<Seq<char>>) -> bool {
    filter is None || filter->0.len() == 0 || text_in(t, key) == Some(filter->0)
}

pub open spec fn mentions(t: Tree, key: Seq<char>, search: Seq<char>) -> bool {
    text_in(t, key) is Some && occurs(lowercased(text_in(t, key)->0), search)
}

pub open spec fn search_of(q: IncidentQueryView) -> Seq<char> {
    lowercased(
        match q.query {
            Some(t) => t,
            None => ""@,
        },
    )
}

/// Whether a query asks for an incident.
pub open spec fn incident_matches(t: Tree, q: IncidentQueryView) -> bool {
    let s = wanted_status(q);
    let own = text_in(t, "status"@);
    let search = search_of(q);
    &&& s == "all"@ || own == Some(s) || (s == "active"@ && own != Some("resolved"@))
    &&& has_value(t, "target_id"@, q.target_id)
    &&& has_value(t, "monitor_id"@, q.monitor_id)
    &&& q.kind == Some("all"@) || has_value(t, "kind"@, q.kind)
    &&& search.len() == 0 || mentions(t, "id"@, search) || mentions(t, "monitor_id"@, search) || mentions(
        t,
        "target_id"@,
        search,
    ) || mentions(t, "rule_id"@, search) || mentions(t, "summary"@, search)
}

pub open spec fn incidents_selected(items: Seq<Tree>, q: IncidentQueryView) -> Seq<Tree>
    decreases items.len(),
{
    if items.len() == 0 {
        Seq::empty()
    } else {
        let front = incidents_selected(items.drop_last(), q);
        if incident_matches(items.last(), q) { front.push(items.last()) } else { front }
    }
}

pub open spec fn incident_page_tree(page: PageView, total: nat, counts: Tree, limit: usize, now: u64) -> Tree {
    let a = with_member(empty_object(), "items"@, Tree::Array(page.items));
    let b = with_member(a, "total"@, Tree::Unsigned(total as u64));
    let c = with_member(b, "counts"@, counts);
    let d = with_member(c, "next_cursor"@, page.next);
    let e = with_member(d, "limit"@, Tree::Unsigned(limit as u64));
    let f = with_member(e, "order"@, Tree::Text("id_desc"@));
    with_member(f, "read_at"@, Tree::Unsigned(now))
}

/// What a query for incidents is answered; the counts are of all incidents.
pub open spec fn incidents_paged(items: Seq<Tree>, q: IncidentQueryView, now: u64) -> Result<Tree, Refusal> {
    if !query_ok(q) {
        Err(bad_request("invalid incident status, cursor or limit"@))
    } else {
        let sorted = descending(incidents_selected(items, q), "id"@);
        Ok(
            incident_page_tree(
                page_at(sorted, "id"@, q.cursor, incident_limit(q) as nat),
                sorted.len(),
                counts_tree(items),
                incident_limit(q),
                now,
            ),
        )
    }
}

fn check_filter(id: &Option<String>) -> (r: bool)
    ensures
        r == filter_ok(opt(*id)),
{
    match id {
        None => true,
        Some(s) => s.as_str().is_empty() || valid_id(s),
    }
}

fn check_value(item: &Json, key: &str, filter: &Option<String>) -> (r: bool)
    ensures
        r == has_value(item@, key@, opt(*filter)),
{
    match filter {
        None => true,
        Some(f) => if f.as_str().is_empty() {
            true
        } else {
            match text_under(item, key) {
                Some(t) => same(t, f),
                None => false,
            }
        },
    }
}

fn check_mention(item: &Json, key: &str, search: &str) -> (r: bool)
    ensures
        r == mentions(item@, key@, search@),
{
    match text_under(item, key) {
        Some(t) => holds(&lowercase(t), search),
        None => false,
    }
}

fn check_query(q: &IncidentQuery) -> (r: bool)
    ensures
        r == query_ok(q@),
{
    let limit: usize = match q.limit {
        Some(n) => n,
        None => 25,
    };
    let cursor = match &q.cursor {
        None => true,
        Some(c) => valid_id(c),
    };
    let kind = match &q.kind {
        None => true,
        Some(k) => k.as_str().is_empty() || same(k, "all") || same(k, "target") || same(k, "coverage"),
    };
    let query = match &q.query {
        None => true,
        Some(t) => utf8_len(t) <= 256,
    };
    let status = match &q.status {
        None => true,
        Some(s) => same(s, "active") || same(s, "all") || same(s, "open") || same(s, "acknowledged") || same(s, "resolved"),
    };
    1 <= limit && limit <= 100 && cursor && check_filter(&q.target_id) && check_filter(&q.monitor_id) && kind && query && status
}

fn check_status(item: &Json, wanted: &str) -> (r: bool)
    ensures
        r == (wanted@ == "all"@ || text_in(item@, "status"@) == Some(wanted@) || (wanted@ == "active"@ && text_in(
            item@,
            "status"@,
        ) != Some("resolved"@))),
{
    match text_under(item, "status") {
        Some(s) => same(wanted, "all") || same(s, wanted) || (same(wanted, "active") && !same(s, "resolved")),
        None => same(wanted, "all") || same(wanted, "active"),
    }
}

fn is_match(item: &Json, q: &IncidentQuery, search: &str) -> (r: bool)
    requires
        search@ == search_of(q@),
    ensures
        r == incident_matches(item@, q@),
{
    let status = match &q.status {
        Some(s) => check_status(item, s),
        None => check_status(item, "active"),
    };
    let all_kinds = match &q.kind {
        Some(k) => same(k, "all"),
        None => false,
    };
    let found = search.is_empty() || check_mention(item, "id", search) || check_mention(item, "monitor_id", search)
        || check_mention(item, "target_id", search) || check_mention(item, "rule_id", search) || check_mention(
        item,
        "summary",
        search,
    );
    status && check_value(item, "target_id", &q.target_id) && check_value(item, "monitor_id", &q.monitor_id) && (all_kinds
        || check_value(item, "kind", &q.kind)) && found
}

/// Answers a query for incidents, given all their summaries.
pub fn incidents(items: Vec<Json>, q: &IncidentQuery, now: u64) -> (r: Result<Json, ApiError>)
    ensures
        match r {
            Ok(v) => incidents_paged(trees(items@), q@, now) == Ok::<Tree, Refusal>(v@),
            Err(e) => incidents_paged(trees(items@), q@, now) == Err::<Tree, Refusal>(e@),
        },
{
    if !check_query(q) {
        return Err(ApiError::invalid("invalid incident status, cursor or limit"));
    }
    let limit: usize = match q.limit {
        Some(n) => n,
        None => 25,
    };
    let counts = incident_counts(&items);
    let search = match &q.query {
        Some(t) => lowercase(t),
        None => lowercase(""),
    };
    let ghost all = trees(items@);
    let mut kept: Vec<Json> = Vec::new();
    let mut i: usize = 0;
    assert(all.subrange(0, 0) =~= Seq::<Tree>::empty());
    assert(trees(kept@) =~= Seq::<Tree>::empty());
    while i < items.len()
        invariant
            i <= items.len(),
            all == trees(items@),
            all.len() == items.len(),
            search@ == search_of(q@),
            trees(kept@) == incidents_selected(all.subrange(0, i as int), q@),
        decreases items.len() - i,
    {
        let ghost had = trees(kept@);
        proof {
            let now = all.subrange(0, i + 1);
            assert(now.drop_last() =~= all.subrange(0, i as int));
            assert(now.last() == items@[i as int]@);
        }
        if is_match(&items[i], q, &search) {
            kept.push(items[i].copy());
            assert(trees(kept@) =~= had.push(items@[i as int]@));
        }
        i = i + 1;
    }
    assert(all.subrange(0, i as int) =~= all);
    let sorted = sort(kept, "id");
    let total = sorted.len();
    let (shown, next) = cut(sorted, "id", &q.cursor, limit);
    let a = with(object(), "items", Json::Array(shown));
    let b = with(a, "total", Json::Unsigned(total as u64));
    let c = with(b, "counts", counts);
    let d = with(c, "next_cursor", next);
    let e = with(d, "limit", Json::Unsigned(limit as u64));
    let f = with(e, "order", text_value("id_desc"));
    Ok(with(f, "read_at", Json::Unsigned(now)))
}

/// An incident in full, with what may be done about it. Reading it verifies nothing.
pub open spec fn detail_tree(value: Tree, may_acknowledge: bool, related: Tree) -> Tree {
    let open = text_in(value, "status"@) == Some("open"@);
    let actions: Seq<Tree> = if open && may_acknowledge { seq![Tree::Text("acknowledge"@)] } else { Seq::empty() };
    let a = with_member(value, "allowed_actions"@, Tree::Array(actions));
    let b = with_member(a, "auto_retry"@, Tree::Bool(false));
    let c = with_member(b, "business_verified"@, Tree::Bool(false));
    with_member(c, "related_repairs"@, related)
}

pub fn detail(value: Json, may_acknowledge: bool, related: Json) -> (r: Json)
    ensures
        r@ == detail_tree(value@, may_acknowledge, related@),
{
    let open = match text_under(&value, "status") {
        Some(s) => same(s, "open"),
        None => false,
    };
    let mut actions: Vec<Json> = Vec::new();
    if open && may_acknowledge {
        actions.push(text_value("acknowledge"));
        assert(trees(actions@) =~= seq![Tree::Text("acknowledge"@)]);
    } else {
        assert(trees(actions@) =~= Seq::<Tree>::empty());
    }
    let a = with(value, "allowed_actions", Json::Array(actions));
    let b = with(a, "auto_retry", Json::Bool(false));
    let c = with(b, "business_verified", Json::Bool(false));
    with(c, "related_repairs", related)
}

pub fn check_acknowledgement(revision: u64, note: &str) -> (r: Result<(), ApiError>)
    ensures
        reports(
            r,
            if byte_len(note@) > MAX_ACK_NOTE_BYTES || revision == 0 {
                Some(bad_request("revision and a bounded acknowledgement note are required"@))
            } else {
                None
            },
        ),
{
    if utf8_len(note) > MAX_ACK_NOTE_BYTES || revision == 0 {
        return Err(ApiError::invalid("revision and a bounded acknowledgement note are required"));
    }
    Ok(())
}

// Provenance of repairs.

/// Whether a repair names an incident as its source, and which revision of it.
pub open spec fn source_named(id: Option<Seq<char>>, revision: Option<u64>) -> Result<Option<(Seq<char>, u64)>, Refusal> {
    match (id, revision) {
        (None, None) => Ok(None),
        (Some(i), Some(n)) => if is_id(i) && n > 0 {
            Ok(Some((i, n)))
        } else {
            Err(bad_request("incident_id and positive incident_revision must be supplied together"@))
        },
        _ => Err(bad_request("incident_id and positive incident_revision must be supplied together"@)),
    }
}

pub fn check_source(id: Option<&str>, revision: Option<u64>) -> (r: Result<bool, ApiError>)
    ensures
        match r {
            Ok(named) => source_named(crate::harnesses::registry::wanted(id), revision) == Ok::<Option<(Seq<char>, u64)>, Refusal>(
                if named { Some((id->0@, revision->0)) } else { None },
            ),
            Err(e) => source_named(crate::harnesses::registry::wanted(id), revision) == Err::<
                Option<(Seq<char>, u64)>,
                Refusal,
            >(e@),
        },
{
    match (id, revision) {
        (None, None) => Ok(false),
        (Some(i), Some(n)) => if valid_id(i) && n > 0 {
            Ok(true)
        } else {
            Err(ApiError::invalid("incident_id and positive incident_revision must be supplied together"))
        },
        _ => Err(ApiError::invalid("incident_id and positive incident_revision must be supplied together")),
    }
}

/// The snapshot that a repair is bound to: of that revision, and within its scope.
pub open spec fn source_snapshot(
    r: Option<IncidentView>,
    revision: u64,
    target: Seq<char>,
    allowed: Seq<Seq<char>>,
    now: u64,
) -> Result<Tree, Refusal> {
    match r {
        None => Err(missing("source incident not found"@)),
        Some(r) => if r.revision != revision {
            Err(conflicting("source incident revision changed; reread the fault before starting diagnosis"@))
        } else if r.target_id != target || !allowed.contains(r.target_id) {
            Err(conflicting("source incident target is outside the configured repair scope"@))
        } else {
            Ok(with_member(incident_tree(r), "captured_at"@, Tree::Unsigned(now)))
        },
    }
}

/// Binds diagnostic provenance to a persisted fault snapshot within the fixed repair scope.
/// The snapshot is data and never grants authority or changes incident state.
pub fn repair_source_incident(
    record: Option<&IncidentRecord>,
    revision: u64,
    target: &str,
    allowed: &Vec<String>,
    now: u64,
) -> (r: Result<Json, ApiError>)
    ensures
        match r {
            Ok(v) => source_snapshot(maybe_incident(record), revision, target@, texts(allowed@), now) == Ok::<Tree, Refusal>(v@),
            Err(e) => source_snapshot(maybe_incident(record), revision, target@, texts(allowed@), now) == Err::<Tree, Refusal>(
                e@,
            ),
        },
{
    match record {
        None => Err(ApiError::missing("source incident not found")),
        Some(r) => if r.revision != revision {
            Err(ApiError::conflict("source incident revision changed; reread the fault before starting diagnosis"))
        } else if !same(&r.target_id, target) || !listed(allowed, &r.target_id) {
            Err(ApiError::conflict("source incident target is outside the configured repair scope"))
        } else {
            Ok(with(summary(r), "captured_at", Json::Unsigned(now)))
        },
    }
}

pub open spec fn maybe_incident(r: Option<&IncidentRecord>) -> Option<IncidentView> {
    match r {
        Some(r) => Some(r@),
        None => None,
    }
}

} // verus!
