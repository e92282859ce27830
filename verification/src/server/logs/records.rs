//! Projection of a provider's response to bounded records.
use super::super::{is_id, refusal, reports, unavailable, valid_id, ApiError, Refusal, SERVICE_UNAVAILABLE};
use super::cursors::MAX_CURSOR_BYTES;
use super::{LogResultMapping, LogSourceConfig, MappingView, SourceView};
use crate::json::values::{empty_object, object, opt_json, text_or_null, text_value, texts_json, texts_tree, with};
use crate::json::{encoded_size, group_json, member, resolved, trees, with_member, Json, Tree};
use crate::text::{byte_len, copied, listed, lower, lowered, opt, same, texts, utf8_len};
use vstd::prelude::*;

verus! {

broadcast use group_json;

pub const MAX_LOG_BYTES: usize = 262144;

/// The greatest integer that a number in a script holds exactly.
pub const MAX_TIMESTAMP: u64 = 9007199254740992;

/// An optional text of a response.
pub open spec fn text_at(v: Option<Tree>, maximum: nat) -> Result<Option<Seq<char>>, Refusal> {
    match v {
        None => Ok(None),
        Some(Tree::Null) => Ok(None),
        Some(Tree::Text(t)) => if byte_len(t) <= maximum {
            Ok(Some(t))
        } else {
            Err(unavailable("provider log response contains invalid text field"@))
        },
        _ => Err(unavailable("provider log response contains invalid text field"@)),
    }
}

pub open spec fn value_of(v: Option<&Json>) -> Option<Tree> {
    match v {
        Some(v) => Some(v@),
        None => None,
    }
}

fn bounded_text(value: Option<&Json>, maximum: usize) -> (r: Result<Option<String>, ApiError>)
    ensures
        match r {
            Ok(t) => text_at(value_of(value), maximum as nat) == Ok::<Option<Seq<char>>, Refusal>(opt(t)),
            Err(e) => text_at(value_of(value), maximum as nat) == Err::<Option<Seq<char>>, Refusal>(e@),
        },
{
    match value {
        None => Ok(None),
        Some(v) => match v {
            Json::Null => Ok(None),
            Json::Text(t) => if utf8_len(t) <= maximum {
                Ok(Some(t.clone()))
            } else {
                Err(ApiError::unavailable("provider log response contains invalid text field"))
            },
            _ => Err(ApiError::unavailable("provider log response contains invalid text field")),
        },
    }
}

pub open spec fn entry_id(m: MappingView, entry: Tree) -> Result<Seq<char>, Refusal> {
    match text_at(resolved(entry, m.id), 128) {
        Err(f) => Err(f),
        Ok(Some(id)) => if is_id(id) {
            Ok(id)
        } else {
            Err(unavailable("provider log record requires a stable bounded ID"@))
        },
        Ok(None) => Err(unavailable("provider log record requires a stable bounded ID"@)),
    }
}

pub open spec fn entry_time(v: Option<Tree>) -> Result<Tree, Refusal> {
    match v {
        None => Ok(Tree::Null),
        Some(Tree::Null) => Ok(Tree::Null),
        Some(Tree::Text(t)) => if byte_len(t) <= 64 {
            Ok(Tree::Text(t))
        } else {
            Err(unavailable("provider returned invalid log timestamp"@))
        },
        Some(Tree::Unsigned(n)) => if n <= MAX_TIMESTAMP {
            Ok(Tree::Unsigned(n))
        } else {
            Err(unavailable("provider returned invalid log timestamp"@))
        },
        _ => Err(unavailable("provider returned invalid log timestamp"@)),
    }
}

pub struct LogView {
    pub id: Seq<char>,
    pub timestamp: Tree,
    pub level: Seq<char>,
    pub message: Seq<char>,
    pub event: Option<Seq<char>>,
}

/// One record, without regard to the others.
pub open spec fn entry_record(m: MappingView, entry: Tree, id: Seq<char>) -> Result<LogView, Refusal> {
    match entry_time(resolved(entry, m.timestamp)) {
        Err(f) => Err(f),
        Ok(timestamp) => match text_at(resolved(entry, m.level), 32) {
            Err(f) => Err(f),
            Ok(level) => match text_at(resolved(entry, m.message), 16384) {
                Err(f) => Err(f),
                Ok(None) => Err(unavailable("provider log message is missing"@)),
                Ok(Some(message)) => match text_at(resolved(entry, m.event), 128) {
                    Err(f) => Err(f),
                    Ok(event) => Ok(
                        LogView {
                            id,
                            timestamp,
                            level: match level {
                                Some(l) => l,
                                None => "UNKNOWN"@,
                            },
                            message,
                            event,
                        },
                    ),
                },
            },
        },
    }
}

pub open spec fn record_tree(r: LogView) -> Tree {
    let a = with_member(empty_object(), "id"@, Tree::Text(r.id));
    let b = with_member(a, "timestamp"@, r.timestamp);
    let c = with_member(b, "level"@, Tree::Text(r.level));
    let d = with_member(c, "message"@, Tree::Text(r.message));
    with_member(d, "event"@, text_or_null(r.event))
}

/// Whether trusted configuration classifies a record as an error.
pub open spec fn is_error(s: SourceView, r: LogView) -> bool {
    ||| exists|i: int| 0 <= i < s.error_levels.len() && lowered(#[trigger] s.error_levels[i]) == lowered(r.level)
    ||| r.event is Some && s.error_events.contains(r.event->0)
}

/// The first `n` records of a response.
pub open spec fn read_entries(m: MappingView, entries: Seq<Tree>, n: nat) -> Result<Seq<LogView>, Refusal>
    decreases n,
{
    if n == 0 {
        Ok(Seq::empty())
    } else {
        match read_entries(m, entries, (n - 1) as nat) {
            Err(f) => Err(f),
            Ok(list) => match entry_id(m, entries[n - 1]) {
                Err(f) => Err(f),
                Ok(id) => if has_id(list, id) {
                    Err(unavailable("provider returned duplicate log IDs"@))
                } else {
                    match entry_record(m, entries[n - 1], id) {
                        Err(f) => Err(f),
                        Ok(r) => Ok(list.push(r)),
                    }
                },
            },
        }
    }
}

pub open spec fn has_id(list: Seq<LogView>, id: Seq<char>) -> bool {
    exists|i: int| 0 <= i < list.len() && (#[trigger] list[i]).id == id
}

pub open spec fn shown(list: Seq<LogView>) -> Seq<Tree> {
    list.map_values(|r: LogView| record_tree(r))
}

/// The records that are errors, in their order.
pub open spec fn errors_of(s: SourceView, list: Seq<LogView>) -> Seq<LogView>
    decreases list.len(),
{
    if list.len() == 0 {
        Seq::empty()
    } else {
        let front = errors_of(s, list.drop_last());
        if is_error(s, list.last()) { front.push(list.last()) } else { front }
    }
}

/// The labels of the streams that a provider has.
pub open spec fn labels(list: Seq<Tree>, n: nat) -> Result<Seq<Seq<char>>, Refusal>
    decreases n,
{
    if n == 0 {
        Ok(Seq::empty())
    } else {
        match labels(list, (n - 1) as nat) {
            Err(f) => Err(f),
            Ok(front) => match text_at(Some(list[n - 1]), 256) {
                Err(f) => Err(f),
                Ok(None) => Err(unavailable("provider returned invalid record stream label"@)),
                Ok(Some(t)) => Ok(front.push(t)),
            },
        }
    }
}

pub open spec fn streams_of(v: Option<Tree>) -> Result<Seq<Seq<char>>, Refusal> {
    match v {
        None => Ok(Seq::empty()),
        Some(Tree::Null) => Ok(Seq::empty()),
        Some(Tree::Array(list)) => if list.len() <= 32 {
            labels(list, list.len())
        } else {
            Err(unavailable("provider returned invalid available streams"@))
        },
        _ => Err(unavailable("provider returned invalid available streams"@)),
    }
}

/// Where a provider's records go on, if they do.
pub struct RestView {
    pub cursor: Option<Seq<char>>,
    pub has_more: bool,
    pub streams: Seq<Seq<char>>,
    pub label: Option<Seq<char>>,
    pub coverage: Option<Seq<char>>,
    pub source_error: Option<Seq<char>>,
}

pub open spec fn rest_of(m: MappingView, t: Tree, any: bool) -> Result<RestView, Refusal> {
    match text_at(resolved(t, m.next_cursor), MAX_CURSOR_BYTES as nat) {
        Err(f) => Err(f),
        Ok(cursor) => match resolved(t, m.has_more) {
            Some(Tree::Bool(has_more)) => if (has_more || any) && cursor is None {
                Err(unavailable("provider log continuation cursor is missing"@))
            } else {
                match streams_of(resolved(t, m.available_streams)) {
                    Err(f) => Err(f),
                    Ok(streams) => match text_at(resolved(t, m.stream_label), 256) {
                        Err(f) => Err(f),
                        Ok(label) => match text_at(resolved(t, m.coverage), 32) {
                            Err(f) => Err(f),
                            Ok(coverage) => match text_at(resolved(t, m.source_error), 1024) {
                                Err(f) => Err(f),
                                Ok(source_error) => Ok(
                                    RestView { cursor, has_more, streams, label, coverage, source_error },
                                ),
                            },
                        },
                    },
                }
            },
            _ => Err(unavailable("provider log has_more is missing"@)),
        },
    }
}

pub open spec fn projection_tree(s: SourceView, list: Seq<LogView>, rest: RestView, limit: nat) -> Tree {
    let a = with_member(empty_object(), "items"@, Tree::Array(shown(list)));
    let b = with_member(a, "errors"@, Tree::Array(shown(errors_of(s, list))));
    let c = with_member(b, "next_cursor"@, text_or_null(rest.cursor));
    let d = with_member(c, "has_more"@, Tree::Bool(rest.has_more));
    let e = with_member(d, "stream_label"@, text_or_null(rest.label));
    let f = with_member(e, "coverage"@, text_or_null(rest.coverage));
    let g = with_member(f, "source_error"@, text_or_null(rest.source_error));
    let h = with_member(g, "available_streams"@, texts_tree(rest.streams));
    let i = with_member(h, "reset"@, Tree::Bool(false));
    with_member(i, "limit"@, Tree::Unsigned(limit as u64))
}

/// A provider's response as it is shown, or why it is refused.
pub open spec fn projected(s: SourceView, t: Tree, limit: nat) -> Result<Tree, Refusal> {
    if encoded_size(t) > MAX_LOG_BYTES {
        Err(unavailable("provider log response exceeds 256 KiB"@))
    } else {
        match resolved(t, s.result.entries) {
            Some(Tree::Array(entries)) => if entries.len() > limit {
                Err(unavailable("provider exceeded requested log record limit"@))
            } else {
                match read_entries(s.result, entries, entries.len()) {
                    Err(f) => Err(f),
                    Ok(list) => match rest_of(s.result, t, list.len() > 0) {
                        Err(f) => Err(f),
                        Ok(rest) => Ok(projection_tree(s, list, rest, limit)),
                    },
                }
            },
            _ => Err(unavailable("provider log entries are missing"@)),
        }
    }
}

struct Entry {
    id: String,
    timestamp: Json,
    level: String,
    message: String,
    event: Option<String>,
}

impl View for Entry {
    type V = LogView;

    closed spec fn view(&self) -> LogView {
        LogView {
            id: self.id@,
            timestamp: self.timestamp@,
            level: self.level@,
            message: self.message@,
            event: opt(self.event),
        }
    }
}

spec fn views(list: Seq<Entry>) -> Seq<LogView> {
    list.map_values(|e: Entry| e@)
}

fn read_id(m: &LogResultMapping, entry: &Json) -> (r: Result<String, ApiError>)
    ensures
        match r {
            Ok(id) => entry_id(m@, entry@) == Ok::<Seq<char>, Refusal>(id@),
            Err(e) => entry_id(m@, entry@) == Err::<Seq<char>, Refusal>(e@),
        },
{
    match bounded_text(entry.pointer(&m.id), 128) {
        Err(e) => Err(e),
        Ok(Some(id)) => if valid_id(&id) {
            Ok(id)
        } else {
            Err(ApiError::unavailable("provider log record requires a stable bounded ID"))
        },
        Ok(None) => Err(ApiError::unavailable("provider log record requires a stable bounded ID")),
    }
}

fn read_time(v: Option<&Json>) -> (r: Result<Json, ApiError>)
    ensures
        match r {
            Ok(t) => entry_time(value_of(v)) == Ok::<Tree, Refusal>(t@),
            Err(e) => entry_time(value_of(v)) == Err::<Tree, Refusal>(e@),
        },
{
    match v {
        None => Ok(Json::Null),
        Some(v) => match v {
            Json::Null => Ok(Json::Null),
            Json::Text(t) => if utf8_len(t) <= 64 {
                Ok(text_value(t))
            } else {
                Err(ApiError::unavailable("provider returned invalid log timestamp"))
            },
            Json::Unsigned(n) => if *n <= MAX_TIMESTAMP {
                Ok(Json::Unsigned(*n))
            } else {
                Err(ApiError::unavailable("provider returned invalid log timestamp"))
            },
            _ => Err(ApiError::unavailable("provider returned invalid log timestamp")),
        },
    }
}

fn read_entry(m: &LogResultMapping, entry: &Json, id: String) -> (r: Result<Entry, ApiError>)
    ensures
        match r {
            Ok(x) => entry_record(m@, entry@, id@) == Ok::<LogView, Refusal>(x@),
            Err(e) => entry_record(m@, entry@, id@) == Err::<LogView, Refusal>(e@),
        },
{
    let timestamp = match read_time(entry.pointer(&m.timestamp)) {
        Err(e) => {
            return Err(e);
        },
        Ok(t) => t,
    };
    let level = match bounded_text(entry.pointer(&m.level), 32) {
        Err(e) => {
            return Err(e);
        },
        Ok(Some(l)) => l,
        Ok(None) => copied("UNKNOWN"),
    };
    let message = match bounded_text(entry.pointer(&m.message), 16384) {
        Err(e) => {
            return Err(e);
        },
        Ok(Some(t)) => t,
        Ok(None) => {
            return Err(ApiError::unavailable("provider log message is missing"));
        },
    };
    match bounded_text(entry.pointer(&m.event), 128) {
        Err(e) => Err(e),
        Ok(event) => Ok(Entry { id, timestamp, level, message, event }),
    }
}

fn show(e: &Entry) -> (r: Json)
    ensures
        r@ == record_tree(e@),
{
    let a = with(object(), "id", text_value(&e.id));
    let b = with(a, "timestamp", e.timestamp.copy());
    let c = with(b, "level", text_value(&e.level));
    let d = with(c, "message", text_value(&e.message));
    with(d, "event", opt_json(&e.event))
}

fn classify(s: &LogSourceConfig, e: &Entry) -> (r: bool)
    ensures
        r == is_error(s@, e@),
{
    let low = lower(&e.level);
    let ghost levels = s@.error_levels;
    let mut i: usize = 0;
    while i < s.error_levels.len()
        invariant
            i <= s.error_levels.len(),
            levels == texts(s.error_levels@),
            low@ == lowered(e@.level),
            forall|j: int| 0 <= j < i ==> lowered(#[trigger] levels[j]) != lowered(e@.level),
        decreases s.error_levels.len() - i,
    {
        assert(levels[i as int] == s.error_levels@[i as int]@);
        if same(&lower(&s.error_levels[i]), &low) {
            assert(s@.error_levels == levels);
            assert(lowered(s@.error_levels[i as int]) == lowered(e@.level));
            return true;
        }
        i = i + 1;
    }
    match &e.event {
        None => false,
        Some(v) => listed(&s.error_events, v),
    }
}

proof fn refused_sticks(m: MappingView, entries: Seq<Tree>, a: nat, b: nat)
    requires
        a <= b,
        read_entries(m, entries, a) is Err,
    ensures
        read_entries(m, entries, b) == read_entries(m, entries, a),
    decreases b - a,
{
    if a < b {
        refused_sticks(m, entries, a, (b - 1) as nat);
    }
}

fn read_all(m: &LogResultMapping, entries: &Vec<Json>) -> (r: Result<Vec<Entry>, ApiError>)
    ensures
        match r {
            Ok(list) => read_entries(m@, trees(entries@), trees(entries@).len()) == Ok::<Seq<LogView>, Refusal>(views(list@)),
            Err(e) => read_entries(m@, trees(entries@), trees(entries@).len()) == Err::<Seq<LogView>, Refusal>(e@),
        },
{
    let ghost all = trees(entries@);
    let mut list: Vec<Entry> = Vec::new();
    let mut i: usize = 0;
    assert(views(list@) =~= Seq::<LogView>::empty());
    while i < entries.len()
        invariant
            i <= entries.len(),
            all == trees(entries@),
            all.len() == entries.len(),
            read_entries(m@, all, i as nat) == Ok::<Seq<LogView>, Refusal>(views(list@)),
        decreases entries.len() - i,
    {
        let ghost before = views(list@);
        assert(all[i as int] == entries@[i as int]@);
        let id = match read_id(m, &entries[i]) {
            Err(e) => {
                proof {
                    refused_sticks(m@, all, (i + 1) as nat, all.len());
                }
                return Err(e);
            },
            Ok(id) => id,
        };
        let mut j: usize = 0;
        while j < list.len()
            invariant
                j <= list.len(),
                i < entries.len(),
                before == views(list@),
                all == trees(entries@),
                all.len() == entries.len(),
                all[i as int] == entries@[i as int]@,
                entry_id(m@, all[i as int]) == Ok::<Seq<char>, Refusal>(id@),
                read_entries(m@, all, i as nat) == Ok::<Seq<LogView>, Refusal>(before),
                forall|k: int| 0 <= k < j ==> (#[trigger] before[k]).id != id@,
            decreases list.len() - j,
        {
            assert(before[j as int] == list@[j as int]@);
            if same(&list[j].id, &id) {
                proof {
                    assert(before[j as int].id == id@);
                    assert(has_id(before, id@));
                    refused_sticks(m@, all, (i + 1) as nat, all.len());
                }
                return Err(ApiError::unavailable("provider returned duplicate log IDs"));
            }
            j = j + 1;
        }
        assert(!has_id(before, id@));
        match read_entry(m, &entries[i], id) {
            Err(e) => {
                proof {
                    refused_sticks(m@, all, (i + 1) as nat, all.len());
                }
                return Err(e);
            },
            Ok(x) => {
                list.push(x);
                assert(views(list@) =~= before.push(x@));
            },
        }
        i = i + 1;
    }
    Ok(list)
}

proof fn label_refused_sticks(list: Seq<Tree>, a: nat, b: nat)
    requires
        a <= b,
        labels(list, a) is Err,
    ensures
        labels(list, b) == labels(list, a),
    decreases b - a,
{
    if a < b {
        label_refused_sticks(list, a, (b - 1) as nat);
    }
}

fn read_streams(v: Option<&Json>) -> (r: Result<Vec<String>, ApiError>)
    ensures
        match r {
            Ok(list) => streams_of(value_of(v)) == Ok::<Seq<Seq<char>>, Refusal>(texts(list@)),
            Err(e) => streams_of(value_of(v)) == Err::<Seq<Seq<char>>, Refusal>(e@),
        },
{
    let mut found: Vec<String> = Vec::new();
    assert(texts(found@) =~= Seq::<Seq<char>>::empty());
    let list = match v {
        None => {
            return Ok(found);
        },
        Some(v) => match v {
            Json::Null => {
                return Ok(found);
            },
            Json::Array(list) => list,
            _ => {
                return Err(ApiError::unavailable("provider returned invalid available streams"));
            },
        },
    };
    let ghost all = trees(list@);
    assert(value_of(v) == Some(Tree::Array(all)));
    if list.len() > 32 {
        return Err(ApiError::unavailable("provider returned invalid available streams"));
    }
    let mut i: usize = 0;
    while i < list.len()
        invariant
            i <= list.len(),
            list.len() <= 32,
            all == trees(list@),
            value_of(v) == Some(Tree::Array(all)),
            all.len() == list.len(),
            labels(all, i as nat) == Ok::<Seq<Seq<char>>, Refusal>(texts(found@)),
        decreases list.len() - i,
    {
        let ghost before = texts(found@);
        assert(all[i as int] == list@[i as int]@);
        match bounded_text(Some(&list[i]), 256) {
            Err(e) => {
                proof {
                    label_refused_sticks(all, (i + 1) as nat, all.len());
                }
                return Err(e);
            },
            Ok(None) => {
                proof {
                    label_refused_sticks(all, (i + 1) as nat, all.len());
                }
                return Err(ApiError::unavailable("provider returned invalid record stream label"));
            },
            Ok(Some(t)) => {
                found.push(t);
                assert(texts(found@) =~= before.push(t@));
            },
        }
        i = i + 1;
    }
    Ok(found)
}

struct Rest {
    cursor: Option<String>,
    has_more: bool,
    streams: Vec<String>,
    label: Option<String>,
    coverage: Option<String>,
    source_error: Option<String>,
}

impl View for Rest {
    type V = RestView;

    closed spec fn view(&self) -> RestView {
        RestView {
            cursor: opt(self.cursor),
            has_more: self.has_more,
            streams: texts(self.streams@),
            label: opt(self.label),
            coverage: opt(self.coverage),
            source_error: opt(self.source_error),
        }
    }
}

fn read_rest(m: &LogResultMapping, t: &Json, any: bool) -> (r: Result<Rest, ApiError>)
    ensures
        match r {
            Ok(x) => rest_of(m@, t@, any) == Ok::<RestView, Refusal>(x@),
            Err(e) => rest_of(m@, t@, any) == Err::<RestView, Refusal>(e@),
        },
{
    let cursor = match bounded_text(t.pointer(&m.next_cursor), MAX_CURSOR_BYTES) {
        Err(e) => {
            return Err(e);
        },
        Ok(c) => c,
    };
    let has_more = match t.pointer(&m.has_more) {
        Some(Json::Bool(b)) => *b,
        _ => {
            return Err(ApiError::unavailable("provider log has_more is missing"));
        },
    };
    if (has_more || any) && cursor.is_none() {
        return Err(ApiError::unavailable("provider log continuation cursor is missing"));
    }
    let streams = match read_streams(t.pointer(&m.available_streams)) {
        Err(e) => {
            return Err(e);
        },
        Ok(v) => v,
    };
    let label = match bounded_text(t.pointer(&m.stream_label), 256) {
        Err(e) => {
            return Err(e);
        },
        Ok(v) => v,
    };
    let coverage = match bounded_text(t.pointer(&m.coverage), 32) {
        Err(e) => {
            return Err(e);
        },
        Ok(v) => v,
    };
    match bounded_text(t.pointer(&m.source_error), 1024) {
        Err(e) => Err(e),
        Ok(source_error) => Ok(Rest { cursor, has_more, streams, label, coverage, source_error }),
    }
}

/// Shows a response's records. Source failures stay apart from records that trusted
/// configuration classifies as errors.
pub fn project(source: &LogSourceConfig, result: &Json, limit: usize) -> (r: Result<Json, ApiError>)
    ensures
        match r {
            Ok(v) => projected(source@, result@, limit as nat) == Ok::<Tree, Refusal>(v@),
            Err(e) => projected(source@, result@, limit as nat) == Err::<Tree, Refusal>(e@),
        },
{
    if result.size() > MAX_LOG_BYTES {
        return Err(ApiError::unavailable("provider log response exceeds 256 KiB"));
    }
    let m = &source.result;
    let entries = match result.pointer(&m.entries) {
        Some(Json::Array(list)) => list,
        _ => {
            return Err(ApiError::unavailable("provider log entries are missing"));
        },
    };
    assert(resolved(result@, source@.result.entries) == Some(Tree::Array(trees(entries@))));
    if entries.len() > limit {
        return Err(ApiError::unavailable("provider exceeded requested log record limit"));
    }
    let list = match read_all(m, entries) {
        Err(e) => {
            return Err(e);
        },
        Ok(list) => list,
    };
    let rest = match read_rest(m, result, list.len() > 0) {
        Err(e) => {
            return Err(e);
        },
        Ok(rest) => rest,
    };
    let ghost all = views(list@);
    let mut items: Vec<Json> = Vec::new();
    let mut errors: Vec<Json> = Vec::new();
    let mut i: usize = 0;
    proof {
        assert(all.subrange(0, 0) =~= Seq::<LogView>::empty());
        assert(trees(items@) =~= shown(all.subrange(0, 0)));
        assert(trees(errors@) =~= shown(errors_of(source@, all.subrange(0, 0))));
    }
    while i < list.len()
        invariant
            i <= list.len(),
            all == views(list@),
            trees(items@) == shown(all.subrange(0, i as int)),
            trees(errors@) == shown(errors_of(source@, all.subrange(0, i as int))),
        decreases list.len() - i,
    {
        let e = &list[i];
        let ghost now = all.subrange(0, i + 1);
        let ghost had = trees(items@);
        let ghost bad = trees(errors@);
        proof {
            assert(now.drop_last() =~= all.subrange(0, i as int));
            assert(now.last() == e@);
        }
        let record = show(e);
        if classify(source, e) {
            errors.push(record.copy());
            assert(trees(errors@) =~= bad.push(record_tree(e@)));
            assert(shown(errors_of(source@, now)) =~= bad.push(record_tree(e@)));
        }
        items.push(record);
        assert(trees(items@) =~= had.push(record_tree(e@)));
        assert(shown(now) =~= had.push(record_tree(e@)));
        i = i + 1;
    }
    assert(all.subrange(0, i as int) =~= all);
    let a = with(object(), "items", Json::Array(items));
    let b = with(a, "errors", Json::Array(errors));
    let c = with(b, "next_cursor", opt_json(&rest.cursor));
    let d = with(c, "has_more", Json::Bool(rest.has_more));
    let e = with(d, "stream_label", opt_json(&rest.label));
    let f = with(e, "coverage", opt_json(&rest.coverage));
    let g = with(f, "source_error", opt_json(&rest.source_error));
    let h = with(g, "available_streams", texts_json(&rest.streams));
    let k = with(h, "reset", Json::Bool(false));
    Ok(with(k, "limit", Json::Unsigned(limit as u64)))
}

/// A provider that has more records must move its cursor on.
pub open spec fn advance_fault(output: Tree, from: Option<Seq<char>>) -> Option<Refusal> {
    if member(output, "has_more"@) == Some(Tree::Bool(true)) && from is Some && member(output, "next_cursor"@) == Some(
        Tree::Text(from->0),
    ) {
        Some(
            refusal(
                SERVICE_UNAVAILABLE,
                "logs_read_failed"@,
                "log provider did not advance its continuation cursor"@,
            ),
        )
    } else {
        None
    }
}

pub fn check_advance(output: &Json, from: &Option<String>) -> (r: Result<(), ApiError>)
    ensures
        reports(r, advance_fault(output@, opt(*from))),
{
    let more = match output.get("has_more") {
        Some(Json::Bool(b)) => *b,
        _ => false,
    };
    if more {
        if let Some(c) = from {
            if let Some(Json::Text(next)) = output.get("next_cursor") {
                if same(next, c) {
                    return Err(
                        ApiError::new(
                            SERVICE_UNAVAILABLE,
                            "logs_read_failed",
                            "log provider did not advance its continuation cursor",
                        ),
                    );
                }
            }
        }
    }
    Ok(())
}

/// An answer with where it comes from.
pub open spec fn dressed(
    output: Tree,
    next: Option<Seq<char>>,
    monitor: crate::monitors::MonitorDefinition,
    s: SourceView,
    now: u64,
) -> Tree {
    let a = with_member(output, "next_cursor"@, text_or_null(next));
    let b = with_member(a, "read_at"@, Tree::Unsigned(now));
    let c = with_member(b, "monitor_id"@, Tree::Text(monitor.id@));
    let d = with_member(c, "target_id"@, Tree::Text(monitor.target_id@));
    let e = with_member(d, "source_id"@, Tree::Text(monitor.source_id@));
    let f = with_member(e, "log_source_id"@, Tree::Text(s.id));
    let g = with_member(f, "extension_id"@, Tree::Text(s.extension_id));
    with_member(g, "auto_retry"@, Tree::Bool(false))
}

pub fn dress(
    output: Json,
    next: &Option<String>,
    monitor: &crate::monitors::MonitorDefinition,
    source: &LogSourceConfig,
    now: u64,
) -> (r: Json)
    ensures
        r@ == dressed(output@, opt(*next), *monitor, source@, now),
{
    let a = with(output, "next_cursor", opt_json(next));
    let b = with(a, "read_at", Json::Unsigned(now));
    let c = with(b, "monitor_id", text_value(&monitor.id));
    let d = with(c, "target_id", text_value(&monitor.target_id));
    let e = with(d, "source_id", text_value(&monitor.source_id));
    let f = with(e, "log_source_id", text_value(&source.id));
    let g = with(f, "extension_id", text_value(&source.extension_id));
    with(g, "auto_retry", Json::Bool(false))
}

} // verus!
