//! What a server promises.
use super::console::{
    acts, ask_fault, begin_fault, begun, drained, ended, looks, permission_fault, permits, repairs_task, running, task_of,
    task_taken, Ask, ConsoleView, OutcomeView,
};
use super::journal::{
    append_fault, cut_short, outcome_consistent, record_valid, replay_fault, taken, transition_fault, JournalView,
    ReceiptView,
};
use super::logs::cursors::{fresh, is_for, resumed, CursorView};
use super::logs::records::{entry_id, errors_of, has_id, is_error, read_entries, LogView};
use super::logs::{asked, binding_valid, bound, source_valid, MappingView, SourceView};
use super::paging::{behind, beyond, descending, page_at, placed, text_in, value_in};
use super::repairs::{any_state, any_status, from_records, repair_status, ProjectionView};
use super::views::{actions, undecided, Rights};
use super::is_id;
use crate::json::{alike, field_after_set, member, with_member, Tree};
use crate::recovery::approval::ApprovalState;
use crate::text::{less, less_irreflexive, less_total, less_transitive};
use vstd::prelude::*;

verus! {

/// Every value is like itself.
pub proof fn alike_self(a: Tree)
    ensures
        alike(a, a),
    decreases a,
{
    match a {
        Tree::Real { text, mantissa, exponent } => {
            vstd::arithmetic::power2::lemma2_to64();
            assert(mantissa as int * vstd::arithmetic::power2::pow2(0) == mantissa as int) by (nonlinear_arith)
                requires
                    vstd::arithmetic::power2::pow2(0) == 1,
            ;
        },
        Tree::Array(x) => {
            assert forall|i: int| 0 <= i < x.len() implies alike(#[trigger] x[i], x[i]) by {
                alike_self(x[i]);
            }
        },
        Tree::Object(x) => {
            assert forall|i: int| 0 <= i < x.len() implies (#[trigger] x[i]).0 == x[i].0 && alike(x[i].1, x[i].1) by {
                alike_self(x[i].1);
            }
        },
        _ => {},
    }
}

// Receipts.

/// An operation is accepted once, and once it has ended its receipt never changes.
pub proof fn outcomes_are_recorded_once(previous: Option<ReceiptView>, o: ReceiptView)
    requires
        transition_fault(previous, o) is None,
    ensures
        previous is None ==> o.status == "running"@,
        previous is Some ==> previous->0.status == "running"@ && o.status != "running"@ && o.kind == previous->0.kind,
{
}

/// A receipt that says what it should of its state.
pub open spec fn receipt_sound(o: ReceiptView) -> bool {
    &&& record_valid(o)
    &&& o.status == "running"@ ==> o.result is None && o.error is None
    &&& o.status != "running"@ ==> outcome_consistent(o)
}

pub open spec fn journal_sound(j: JournalView) -> bool {
    forall|id: Seq<char>| #[trigger] j.records.contains_key(id) ==> receipt_sound(j.records[id]) && j.records[id].id == id
}

/// Whatever is appended or read back, every operation's last receipt stays a sound one.
pub proof fn journals_stay_sound(j: JournalView, o: ReceiptView, bytes: u64)
    requires
        journal_sound(j),
        append_fault(j, o) is None || replay_fault(j, o) is None,
    ensures
        journal_sound(taken(j, o, bytes)),
{
    assert(receipt_sound(o));
}

/// No operation is accepted twice, and no two repairs are accepted for one task.
pub proof fn operations_are_accepted_once(c: ConsoleView, id: Seq<char>, kind: Seq<char>, context: Tree, now: u64)
    requires
        begin_fault(c, id, kind, context, now) is None,
    ensures
        !c.journal.records.contains_key(id),
        kind == "repair"@ && task_of(context) is Some ==> !task_taken(c.journal, task_of(context)->0),
        begin_fault(begun(c, running(id, kind, context, now)), id, kind, context, now) is Some,
{
}

/// Once a repair was accepted for a task, none is accepted for it under another identity.
pub proof fn repairs_are_not_replayed(c: ConsoleView, id: Seq<char>, other: Seq<char>, context: Tree, now: u64, later: u64)
    requires
        begin_fault(c, id, "repair"@, context, now) is None,
        task_of(context) is Some,
    ensures
        begin_fault(begun(c, running(id, "repair"@, context, now)), other, "repair"@, context, later) is Some,
{
    let o = running(id, "repair"@, context, now);
    let after = begun(c, o).journal;
    let task = task_of(context)->0;
    assert(after.records.contains_key(id));
    assert(repairs_task(after.records[id], task));
    assert(task_taken(after, task));
}

/// A console that drains accepts nothing and permits nothing, and asks all that runs to stop.
pub proof fn closed_consoles_take_nothing(c: ConsoleView, id: Seq<char>, kind: Seq<char>, context: Tree, now: u64, permission: Seq<char>)
    ensures
        begin_fault(drained(c), id, kind, context, now) is Some,
        permission_fault(drained(c), permission) is Some,
        forall|k: Seq<char>| #[trigger] c.calls.contains_key(k) ==> drained(c).calls.contains_key(k) && drained(c).calls[k],
{
}

/// The end of a running operation is always one that the journal can follow, and a failed
/// call is never told as anything but unknown.
pub proof fn ends_can_be_recorded(o: ReceiptView, outcome: OutcomeView, now: u64)
    requires
        receipt_sound(o),
        o.status == "running"@,
        now > 0,
    ensures
        transition_fault(Some(o), ended(o, outcome, now)) is None,
        outcome is Failed ==> ended(o, outcome, now).status == "unknown"@,
{
    alike_self(o.context);
    statuses_differ();
    let e = ended(o, outcome, now);
    match outcome {
        OutcomeView::Value(v) => {
            assert(e.result == Some(v));
            assert(e.error is None);
        },
        OutcomeView::Failed(m) => {
            assert(e.result is None);
        },
    }
}

proof fn statuses_differ()
    ensures
        "running"@ != "unknown"@,
        "running"@ != "failed"@,
        "running"@ != "canceled"@,
        "running"@ != "completed"@,
        "unknown"@ != "completed"@,
{
    reveal_strlit("running");
    reveal_strlit("unknown");
    reveal_strlit("failed");
    reveal_strlit("canceled");
    reveal_strlit("completed");
    assert("running"@[0] == 'r');
    assert("unknown"@[0] == 'u');
    assert("failed"@[0] == 'f');
    assert("canceled"@[0] == 'c');
    assert("completed"@[0] == 'c');
}

/// An operation that a restart cut short is recorded as unknown, and is not taken up again.
pub proof fn restarts_leave_outcomes_unknown(o: ReceiptView, now: u64)
    requires
        receipt_sound(o),
        o.status == "running"@,
        now > 0,
    ensures
        transition_fault(Some(o), cut_short(o, now)) is None,
        cut_short(o, now).status == "unknown"@,
        transition_fault(Some(cut_short(o, now)), running(o.id, o.kind, o.context, now)) is Some,
{
    alike_self(o.context);
    statuses_differ();
}

// Pages.

/// Keys never rise along the list.
pub open spec fn ordered(list: Seq<Tree>, key: Seq<char>) -> bool {
    forall|a: int, b: int|
        0 <= a < b < list.len() ==> !behind(text_in(#[trigger] list[a], key), text_in(#[trigger] list[b], key))
}

proof fn not_behind_chains(a: Option<Seq<char>>, b: Option<Seq<char>>, c: Option<Seq<char>>)
    requires
        !behind(a, b),
        !behind(b, c),
    ensures
        !behind(a, c),
{
    if a is Some && b is Some && c is Some {
        less_total(a->0, b->0);
        less_total(b->0, c->0);
        if less(a->0, c->0) {
            if less(c->0, b->0) {
                less_transitive(a->0, c->0, b->0);
            }
        }
    }
}

proof fn placing_keeps_order(list: Seq<Tree>, item: Tree, key: Seq<char>)
    requires
        ordered(list, key),
    ensures
        ordered(placed(list, item, key), key),
        forall|x: Tree| #[trigger] placed(list, item, key).contains(x) <==> list.contains(x) || x == item,
    decreases list.len(),
{
    let r = placed(list, item, key);
    if list.len() > 0 && behind(text_in(list.last(), key), text_in(item, key)) {
        let front = list.drop_last();
        let last = list.last();
        assert(ordered(front, key)) by {
            assert forall|a: int, b: int| 0 <= a < b < front.len() implies !behind(
                text_in(#[trigger] front[a], key),
                text_in(#[trigger] front[b], key),
            ) by {
                assert(front[a] == list[a] && front[b] == list[b]);
            }
        }
        placing_keeps_order(front, item, key);
        let p = placed(front, item, key);
        assert forall|a: int, b: int| 0 <= a < b < r.len() implies !behind(
            text_in(#[trigger] r[a], key),
            text_in(#[trigger] r[b], key),
        ) by {
            if b == p.len() {
                assert(r[b] == last);
                assert(p.contains(r[a]));
                if r[a] == item {
                    let x = text_in(item, key);
                    let y = text_in(last, key);
                    if y is Some && x is Some {
                        less_irreflexive(x->0);
                        if less(x->0, y->0) {
                            less_transitive(x->0, y->0, x->0);
                        }
                    }
                } else {
                    let i = choose|i: int| 0 <= i < front.len() && front[i] == r[a];
                    assert(list[i] == r[a]);
                    assert(list[list.len() - 1] == last);
                }
            } else {
                assert(r[a] == p[a] && r[b] == p[b]);
            }
        }
        assert forall|x: Tree| #[trigger] r.contains(x) <==> list.contains(x) || x == item by {
            if r.contains(x) {
                let i = choose|i: int| 0 <= i < r.len() && r[i] == x;
                if i < p.len() {
                    assert(p[i] == x);
                    assert(p.contains(x));
                    if front.contains(x) {
                        let k = choose|k: int| 0 <= k < front.len() && front[k] == x;
                        assert(list[k] == x);
                    }
                } else {
                    assert(list[list.len() - 1] == x);
                }
            }
            if list.contains(x) {
                let k = choose|k: int| 0 <= k < list.len() && list[k] == x;
                if k < front.len() {
                    assert(front[k] == x);
                    assert(p.contains(x));
                    let i = choose|i: int| 0 <= i < p.len() && p[i] == x;
                    assert(r[i] == x);
                } else {
                    assert(r[p.len() as int] == x);
                }
            }
            if x == item {
                assert(p.contains(item));
                let i = choose|i: int| 0 <= i < p.len() && p[i] == x;
                assert(r[i] == x);
            }
        }
    } else {
        assert forall|a: int, b: int| 0 <= a < b < r.len() implies !behind(
            text_in(#[trigger] r[a], key),
            text_in(#[trigger] r[b], key),
        ) by {
            if b == list.len() {
                if a < list.len() - 1 {
                    assert(!behind(text_in(list[a], key), text_in(list[list.len() - 1], key)));
                    not_behind_chains(text_in(list[a], key), text_in(list.last(), key), text_in(item, key));
                }
            } else {
                assert(r[a] == list[a] && r[b] == list[b]);
            }
        }
        assert forall|x: Tree| #[trigger] r.contains(x) <==> list.contains(x) || x == item by {
            if list.contains(x) {
                let k = choose|k: int| 0 <= k < list.len() && list[k] == x;
                assert(r[k] == x);
            }
            assert(r[list.len() as int] == item);
        }
    }
}

/// Putting items in order changes nothing but their order.
pub proof fn sorting_keeps_items(items: Seq<Tree>, key: Seq<char>)
    ensures
        ordered(descending(items, key), key),
        forall|x: Tree| #[trigger] descending(items, key).contains(x) <==> items.contains(x),
    decreases items.len(),
{
    if items.len() > 0 {
        let front = items.drop_last();
        sorting_keeps_items(front, key);
        placing_keeps_order(descending(front, key), items.last(), key);
        assert forall|x: Tree| #[trigger] descending(items, key).contains(x) <==> items.contains(x) by {
            if items.contains(x) {
                let k = choose|k: int| 0 <= k < items.len() && items[k] == x;
                if k < front.len() {
                    assert(front[k] == x);
                    assert(front.contains(x));
                }
            }
            if front.contains(x) {
                let k = choose|k: int| 0 <= k < front.len() && front[k] == x;
                assert(items[k] == x);
            }
            assert(items[items.len() - 1] == items.last());
        }
    }
}

/// Whether an item lies behind a cursor.
pub open spec fn past(x: Tree, key: Seq<char>, cursor: Option<Seq<char>>) -> bool {
    cursor is None || (text_in(x, key) is Some && less(text_in(x, key)->0, cursor->0))
}

proof fn beyond_keeps_order(items: Seq<Tree>, key: Seq<char>, cursor: Option<Seq<char>>)
    requires
        ordered(items, key),
    ensures
        ordered(beyond(items, key, cursor), key),
        forall|x: Tree| #[trigger] beyond(items, key, cursor).contains(x) <==> items.contains(x) && past(x, key, cursor),
    decreases items.len(),
{
    if items.len() > 0 {
        let front = items.drop_last();
        assert(ordered(front, key)) by {
            assert forall|a: int, b: int| 0 <= a < b < front.len() implies !behind(
                text_in(#[trigger] front[a], key),
                text_in(#[trigger] front[b], key),
            ) by {
                assert(front[a] == items[a] && front[b] == items[b]);
            }
        }
        beyond_keeps_order(front, key, cursor);
        let f = beyond(front, key, cursor);
        let r = beyond(items, key, cursor);
        assert forall|a: int, b: int| 0 <= a < b < r.len() implies !behind(
            text_in(#[trigger] r[a], key),
            text_in(#[trigger] r[b], key),
        ) by {
            if b == f.len() {
                assert(f.contains(r[a]));
                let k = choose|k: int| 0 <= k < front.len() && front[k] == r[a];
                assert(items[k] == r[a]);
                assert(items[items.len() - 1] == r[b]);
            } else {
                assert(r[a] == f[a] && r[b] == f[b]);
            }
        }
        assert forall|x: Tree| #[trigger] r.contains(x) <==> items.contains(x) && past(x, key, cursor) by {
            if r.contains(x) {
                let i = choose|i: int| 0 <= i < r.len() && r[i] == x;
                if i < f.len() {
                    assert(f[i] == x);
                    assert(f.contains(x));
                    let k = choose|k: int| 0 <= k < front.len() && front[k] == x;
                    assert(items[k] == x);
                } else {
                    assert(items[items.len() - 1] == x);
                }
            }
            if items.contains(x) && past(x, key, cursor) {
                let k = choose|k: int| 0 <= k < items.len() && items[k] == x;
                if k < front.len() {
                    assert(front[k] == x);
                    assert(f.contains(x));
                    let i = choose|i: int| 0 <= i < f.len() && f[i] == x;
                    assert(r[i] == x);
                } else {
                    assert(r[f.len() as int] == x);
                }
            }
        }
    }
}

/// Every item has a key, and no two have the same.
pub open spec fn keyed(items: Seq<Tree>, key: Seq<char>) -> bool {
    &&& forall|x: Tree| #[trigger] items.contains(x) ==> text_in(x, key) is Some
    &&& forall|x: Tree, y: Tree|
        #![trigger items.contains(x), items.contains(y)]
        items.contains(x) && items.contains(y) && text_in(x, key) == text_in(y, key) ==> x == y
}

/// Going from page to page shows every item once: what lies behind the cursor is on this page
/// or behind the next cursor, never both, and without a next cursor it is all on this page.
pub proof fn pages_cover_every_item_once(items: Seq<Tree>, key: Seq<char>, cursor: Option<Seq<char>>, limit: nat, x: Tree)
    requires
        keyed(items, key),
        limit > 0,
        items.contains(x),
        past(x, key, cursor),
    ensures
        ({
            let page = page_at(descending(items, key), key, cursor, limit);
            &&& page.next is Null ==> page.items.contains(x)
            &&& page.next !is Null ==> page.next is Text && page.items.contains(x) == !past(x, key, Some(page.next->Text_0))
        }),
{
    let sorted = descending(items, key);
    sorting_keeps_items(items, key);
    beyond_keeps_order(sorted, key, cursor);
    let rest = beyond(sorted, key, cursor);
    let page = page_at(sorted, key, cursor, limit);
    assert(rest.contains(x));
    let i = choose|i: int| 0 <= i < rest.len() && rest[i] == x;
    if rest.len() > limit {
        let cut = rest.subrange(0, limit as int);
        let last = rest[limit - 1];
        assert(cut.last() == last);
        assert(rest.contains(last));
        assert(items.contains(last));
        assert(text_in(last, key) is Some);
        assert(page.next == value_in(last, key));
        assert(page.next == Tree::Text(text_in(last, key)->0));
        let n = text_in(last, key)->0;
        let k = text_in(x, key)->0;
        if i < limit {
            assert(cut[i] == x);
            assert(cut.contains(x));
            if i < limit - 1 {
                assert(!behind(text_in(rest[i], key), text_in(rest[limit - 1], key)));
            } else {
                less_irreflexive(n);
            }
            assert(!less(k, n));
        } else {
            assert(!behind(text_in(rest[limit - 1], key), text_in(rest[i], key)));
            less_total(k, n);
            if k == n {
                assert(x == last);
                less_irreflexive(n);
            }
            if cut.contains(x) {
                let j = choose|j: int| 0 <= j < cut.len() && cut[j] == x;
                assert(rest[j] == x);
                if j < limit - 1 {
                    assert(!behind(text_in(rest[j], key), text_in(rest[limit - 1], key)));
                }
                assert(!less(k, n));
                assert(k == n);
                assert(x == last);
            }
            if x == last {
                // Equal items cannot be told apart; one of them is on this page.
                assert(cut[limit - 1] == x);
                assert(cut.contains(x));
                less_irreflexive(n);
            } else {
                assert(less(k, n));
            }
        }
    } else {
        assert(page.items == rest);
    }
}

// Records.

/// Records of an accepted response have distinct identities.
pub proof fn log_identities_differ(m: MappingView, entries: Seq<Tree>, n: nat)
    requires
        read_entries(m, entries, n) is Ok,
    ensures
        ({
            let list = read_entries(m, entries, n)->Ok_0;
            &&& list.len() == n
            &&& forall|a: int, b: int| 0 <= a < b < n ==> (#[trigger] list[a]).id != (#[trigger] list[b]).id
            &&& forall|a: int| 0 <= a < n ==> is_id((#[trigger] list[a]).id)
        }),
    decreases n,
{
    if n > 0 {
        log_identities_differ(m, entries, (n - 1) as nat);
        let front = read_entries(m, entries, (n - 1) as nat)->Ok_0;
        let list = read_entries(m, entries, n)->Ok_0;
        let id = entry_id(m, entries[n - 1])->Ok_0;
        assert(!has_id(front, id));
        assert(list.last().id == id);
        assert forall|a: int, b: int| 0 <= a < b < n implies (#[trigger] list[a]).id != (#[trigger] list[b]).id by {
            assert(list[a] == front[a]);
            if b == n - 1 {
                assert(front[a].id != id);
            } else {
                assert(list[b] == front[b]);
            }
        }
    }
}

/// Only trusted configuration makes an error of a record: every error is one of the records
/// and is classified by level or event.
pub proof fn errors_are_classified_records(s: SourceView, list: Seq<LogView>, r: LogView)
    ensures
        errors_of(s, list).contains(r) <==> list.contains(r) && is_error(s, r),
    decreases list.len(),
{
    if list.len() > 0 {
        let front = list.drop_last();
        errors_are_classified_records(s, front, r);
        let f = errors_of(s, front);
        let e = errors_of(s, list);
        if list.contains(r) {
            let k = choose|k: int| 0 <= k < list.len() && list[k] == r;
            if k < front.len() {
                assert(front[k] == r);
                assert(front.contains(r));
            }
        }
        if front.contains(r) {
            let k = choose|k: int| 0 <= k < front.len() && front[k] == r;
            assert(list[k] == r);
        }
        assert(list[list.len() - 1] == list.last());
        if f.contains(r) {
            let k = choose|k: int| 0 <= k < f.len() && f[k] == r;
            assert(e[k] == r);
        }
        if e.contains(r) && !f.contains(r) {
            let k = choose|k: int| 0 <= k < e.len() && e[k] == r;
            if k < f.len() {
                assert(f[k] == r);
            }
        }
        if is_error(s, list.last()) {
            assert(e[f.len() as int] == list.last());
        }
    }
}

/// A handle goes on only where it was issued for, and only while it is alive.
pub proof fn cursors_stay_with_their_source(
    m: Map<Seq<char>, CursorView>,
    monitor: Seq<char>,
    source: Seq<char>,
    cursor: Option<Seq<char>>,
    now: u64,
)
    requires
        resumed(m, monitor, source, cursor, now) is Ok,
        resumed(m, monitor, source, cursor, now)->Ok_0 is Some,
    ensures
        cursor is Some && m.contains_key(cursor->0),
        is_for(m[cursor->0], monitor, source),
        fresh(m[cursor->0], now),
        resumed(m, monitor, source, cursor, now)->Ok_0->0 == m[cursor->0].provider_cursor,
{
}

proof fn set_member(t: Tree, key: Seq<char>, value: Tree, other: Seq<char>)
    ensures
        member(with_member(t, key, value), other) == (if other == key {
            Some(value)
        } else {
            member(t, other)
        }),
{
    match t {
        Tree::Object(fields) => {
            field_after_set(fields, key, value, other);
        },
        _ => {
            let one = seq![(key, value)];
            assert(one.drop_first() =~= Seq::<(Seq<char>, Tree)>::empty());
            assert(crate::json::field(one.drop_first(), other) is None);
        },
    }
}

proof fn bindings_leave_the_rest(base: Tree, bindings: Seq<(Seq<char>, Seq<char>)>, n: nat, from: Tree, other: Seq<char>)
    requires
        n <= bindings.len(),
        bound(base, bindings, n, from) is Some,
        forall|i: int| 0 <= i < n ==> (#[trigger] bindings[i]).0 != other,
    ensures
        member(bound(base, bindings, n, from)->0, other) == member(base, other),
    decreases n,
{
    if n > 0 {
        bindings_leave_the_rest(base, bindings, (n - 1) as nat, from, other);
        let t = bound(base, bindings, (n - 1) as nat, from)->0;
        let v = crate::json::resolved(from, bindings[n - 1].1)->0;
        set_member(t, bindings[n - 1].0, v, other);
    }
}

/// What a monitor's parameters say never sets the limit or the cursor of a read, and never
/// replaces a parameter that trusted configuration fixed.
pub proof fn trusted_parameters_stay(s: SourceView, from: Tree, limit: u64, cursor: Option<Seq<char>>, fixed: Seq<char>)
    requires
        source_valid(s),
        asked(s, from, limit, cursor) is Some,
    ensures
        member(asked(s, from, limit, cursor)->0, s.limit_parameter) == Some(Tree::Unsigned(limit)),
        member(asked(s, from, limit, cursor)->0, s.cursor_parameter) == (match cursor {
            Some(c) => Some(Tree::Text(c)),
            None => None,
        }),
        member(s.params, fixed) is Some ==> member(asked(s, from, limit, cursor)->0, fixed) == member(s.params, fixed),
{
    let n = s.bindings.len();
    let t = bound(s.params, s.bindings, n, from)->0;
    assert forall|i: int| 0 <= i < n implies (#[trigger] s.bindings[i]).0 != s.cursor_parameter && (member(
        s.params,
        fixed,
    ) is Some ==> s.bindings[i].0 != fixed) by {
        assert(binding_valid(s, s.bindings[i]));
    }
    bindings_leave_the_rest(s.params, s.bindings, n, from, s.cursor_parameter);
    if member(s.params, fixed) is Some {
        bindings_leave_the_rest(s.params, s.bindings, n, from, fixed);
    }
    let a = with_member(t, s.limit_parameter, Tree::Unsigned(limit));
    set_member(t, s.limit_parameter, Tree::Unsigned(limit), s.limit_parameter);
    set_member(t, s.limit_parameter, Tree::Unsigned(limit), s.cursor_parameter);
    set_member(t, s.limit_parameter, Tree::Unsigned(limit), fixed);
    if let Some(c) = cursor {
        set_member(a, s.cursor_parameter, Tree::Text(c), s.limit_parameter);
        set_member(a, s.cursor_parameter, Tree::Text(c), s.cursor_parameter);
        set_member(a, s.cursor_parameter, Tree::Text(c), fixed);
    }
}

// Repairs and approvals.

/// A repair of which anything is uncertain is shown as unknown, whatever else is known of it.
pub proof fn uncertain_repairs_show(ops: Seq<ReceiptView>, records: Seq<ProjectionView>, task: Seq<char>, own: Tree)
    requires
        any_status(ops, task, "unknown"@) || any_state(records, task, 0),
    ensures
        repair_status(ops, records, task, own) == Tree::Text("unknown"@),
{
    if any_state(records, task, 0) {
        let i = choose|i: int|
            0 <= i < records.len() && (#[trigger] records[i]).task_id == task && super::repairs::in_group(records[i].state, 0);
        assert(from_records(records, task));
    }
}

/// An operator is offered only what the approval's state, time and their permissions allow.
pub proof fn offered_actions_are_permitted(r: Rights, s: ApprovalState, unexpired: bool)
    ensures
        actions(r, s, unexpired).contains("apply"@) ==> r.apply && unexpired && s == ApprovalState::Approved,
        actions(r, s, unexpired).contains("approve"@) ==> r.decide && unexpired && undecided(s),
        actions(r, s, unexpired).contains("reconcile"@) ==> r.reconcile && s == ApprovalState::Unknown,
        (s == ApprovalState::Executed || s == ApprovalState::Executing) ==> actions(r, s, unexpired).len() == 0,
{
    reveal_strlit("apply");
    reveal_strlit("approve");
    reveal_strlit("deny");
    reveal_strlit("revoke");
    reveal_strlit("reconcile");
    assert("apply"@.len() == 5);
    assert("approve"@.len() == 7);
    assert("deny"@.len() == 4);
    assert("revoke"@.len() == 6);
    assert("reconcile"@.len() == 9);
}

/// An operator whose permissions are for looking only cannot make a request that acts, and
/// nobody can make any request of a host that is shutting down.
pub proof fn looking_does_not_allow_acting(c: ConsoleView, ask: Ask)
    requires
        !c.accepting || (acts(ask) && forall|i: int| 0 <= i < c.permissions.len() ==> looks(#[trigger] c.permissions[i])),
    ensures
        ask_fault(c, ask) is Some,
{
    if c.accepting {
        reveal_strlit("harness.projects");
        reveal_strlit("logs.read");
        reveal_strlit("extension.read");
        reveal_strlit("monitor.read");
        reveal_strlit("incident.read");
        reveal_strlit("harness.run");
        reveal_strlit("repair.run");
        reveal_strlit("approval.decide");
        reveal_strlit("approval.apply");
        reveal_strlit("approval.reconcile");
        reveal_strlit("simulation.run");
        reveal_strlit("operation.cancel");
        reveal_strlit("incident.acknowledge");
        assert("harness.run"@.len() == 11 && "repair.run"@.len() == 10 && "approval.decide"@.len() == 15);
        assert("approval.apply"@[0] == 'a' && "simulation.run"@[0] == 's' && "operation.cancel"@[0] == 'o');
        assert("extension.read"@[0] == 'e' && "harness.projects"@[0] == 'h');
        assert("approval.reconcile"@.len() == 18 && "incident.acknowledge"@.len() == 20);
        assert("logs.read"@.len() == 9 && "monitor.read"@.len() == 12 && "incident.read"@.len() == 13);
        assert("extension.read"@.len() == 14 && "harness.projects"@.len() == 16);
        assert("approval.apply"@.len() == 14 && "simulation.run"@.len() == 14 && "operation.cancel"@.len() == 16);
        if permits(c.permissions, ask) {
            let p = match ask {
                Ask::RunHarness => "harness.run"@,
                Ask::RunRepair => "repair.run"@,
                Ask::Decide => "approval.decide"@,
                Ask::Apply => "approval.apply"@,
                Ask::Reconcile => "approval.reconcile"@,
                Ask::Simulate => "simulation.run"@,
                Ask::Cancel => "operation.cancel"@,
                _ => "incident.acknowledge"@,
            };
            let i = choose|i: int| 0 <= i < c.permissions.len() && c.permissions[i] == p;
            assert(looks(c.permissions[i]));
        }
    }
}

} // verus!
