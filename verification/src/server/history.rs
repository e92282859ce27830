//! Bounded list projections; durable authority stays in recovery.
use super::journal::{Operation, ReceiptView};
use super::paging::{descending, sort, text_in, text_under, value_in, value_under};
use crate::json::values::{empty_object, object, text_value, with};
use crate::json::{group_json, member, trees, with_member, Json, Tree};
use crate::recovery::approval::encode::state_text;
use crate::recovery::approval::{ApprovalRecord, ApprovalState, RecordView};
use crate::text::{clip, clipped, copied, listed, lower, lowered, same, texts};
use vstd::prelude::*;

verus! {

broadcast use group_json;

/// Characters that a list shows of a text.
pub const MAX_SHOWN: usize = 256;

/// The beginning of a text; anything else is not shown.
pub open spec fn bounded_tree(t: Tree) -> Tree {
    match t {
        Tree::Text(s) => Tree::Text(clipped(s, MAX_SHOWN as nat)),
        _ => Tree::Null,
    }
}

pub fn bounded(value: &Json) -> (r: Json)
    ensures
        r@ == bounded_tree(value@),
{
    match value {
        Json::Text(s) => text_value(&clip(s, MAX_SHOWN)),
        _ => Json::Null,
    }
}

/// Seconds as milliseconds, as far as they fit.
pub open spec fn milli(seconds: u64) -> u64 {
    if seconds * 1000 > u64::MAX { u64::MAX } else { (seconds * 1000) as u64 }
}

pub fn millis(seconds: u64) -> (r: u64)
    ensures
        r == milli(seconds),
{
    if seconds > u64::MAX / 1000 { u64::MAX } else { seconds * 1000 }
}

/// An approval as lists show it.
pub open spec fn approval_tree(r: RecordView) -> Tree {
    let o = r.request.operation;
    let a = with_member(empty_object(), "requestId"@, Tree::Text(r.request.request_id));
    let b = with_member(a, "state"@, Tree::Text(state_text(r.state)));
    let c = with_member(b, "revision"@, Tree::Unsigned(r.revision));
    let d = with_member(c, "taskId"@, Tree::Text(o.task_id));
    let e = with_member(d, "operationId"@, Tree::Text(o.operation_id));
    let f = with_member(e, "target"@, bounded_tree(Tree::Text(o.target)));
    let g = with_member(f, "path"@, bounded_tree(value_in(o.action, "path"@)));
    let h = with_member(g, "createdAt"@, Tree::Unsigned(milli(r.request.created_at)));
    let i = with_member(h, "updatedAt"@, Tree::Unsigned(milli(r.updated_at)));
    let j = with_member(i, "expiresAt"@, Tree::Unsigned(milli(r.request.expires_at)));
    with_member(j, "detail"@, Tree::Bool(false))
}

pub fn approval_summary(record: &ApprovalRecord) -> (r: Json)
    ensures
        r@ == approval_tree(record@),
{
    let o = &record.request.operation;
    let a = with(object(), "requestId", text_value(&record.request.request_id));
    let b = with(a, "state", text_value(record.state.name()));
    let c = with(b, "revision", Json::Unsigned(record.revision));
    let d = with(c, "taskId", text_value(&o.task_id));
    let e = with(d, "operationId", text_value(&o.operation_id));
    let f = with(e, "target", bounded(&text_value(&o.target)));
    let g = with(f, "path", bounded(&value_under(&o.action, "path")));
    let h = with(g, "createdAt", Json::Unsigned(millis(record.request.created_at)));
    let i = with(h, "updatedAt", Json::Unsigned(millis(record.updated_at)));
    let j = with(i, "expiresAt", Json::Unsigned(millis(record.request.expires_at)));
    with(j, "detail", Json::Bool(false))
}

pub open spec fn count_of(states: Seq<ApprovalState>, s: ApprovalState) -> nat
    decreases states.len(),
{
    if states.len() == 0 {
        0
    } else {
        count_of(states.drop_last(), s) + (if states.last() == s { 1nat } else { 0 })
    }
}

pub open spec fn counted(t: Tree, states: Seq<ApprovalState>, s: ApprovalState) -> Tree {
    if count_of(states, s) > 0 { with_member(t, state_text(s), Tree::Unsigned(count_of(states, s) as u64)) } else { t }
}

/// How many approvals are in each state; states that none is in are left out.
pub open spec fn counts_tree(states: Seq<ApprovalState>) -> Tree {
    let a = counted(empty_object(), states, ApprovalState::Approved);
    let b = counted(a, states, ApprovalState::Canceled);
    let c = counted(b, states, ApprovalState::Denied);
    let d = counted(c, states, ApprovalState::Executed);
    let e = counted(d, states, ApprovalState::Executing);
    let f = counted(e, states, ApprovalState::Expired);
    let g = counted(f, states, ApprovalState::Failed);
    let h = counted(g, states, ApprovalState::Pending);
    let i = counted(h, states, ApprovalState::Revoked);
    let j = counted(i, states, ApprovalState::Unknown);
    counted(j, states, ApprovalState::WaitingHuman)
}

fn tally(t: Json, states: &Vec<ApprovalState>, s: ApprovalState) -> (r: Json)
    ensures
        r@ == counted(t@, states@, s),
{
    let mut n: u64 = 0;
    let mut i: usize = 0;
    assert(states@.subrange(0, 0) =~= Seq::<ApprovalState>::empty());
    while i < states.len()
        invariant
            i <= states.len(),
            n <= i,
            n == count_of(states@.subrange(0, i as int), s),
        decreases states.len() - i,
    {
        proof {
            let now = states@.subrange(0, i + 1);
            assert(now.drop_last() =~= states@.subrange(0, i as int));
            assert(now.last() == states@[i as int]);
        }
        if states[i] == s {
            n = n + 1;
        }
        i = i + 1;
    }
    assert(states@.subrange(0, i as int) =~= states@);
    if n > 0 { with(t, s.name(), Json::Unsigned(n)) } else { t }
}

pub fn approval_counts(states: &Vec<ApprovalState>) -> (r: Json)
    ensures
        r@ == counts_tree(states@),
{
    let a = tally(object(), states, ApprovalState::Approved);
    let b = tally(a, states, ApprovalState::Canceled);
    let c = tally(b, states, ApprovalState::Denied);
    let d = tally(c, states, ApprovalState::Executed);
    let e = tally(d, states, ApprovalState::Executing);
    let f = tally(e, states, ApprovalState::Expired);
    let g = tally(f, states, ApprovalState::Failed);
    let h = tally(g, states, ApprovalState::Pending);
    let i = tally(h, states, ApprovalState::Revoked);
    let j = tally(i, states, ApprovalState::Unknown);
    tally(j, states, ApprovalState::WaitingHuman)
}

/// A field of an operation's context, if it is there.
pub open spec fn carried(t: Tree, context: Tree, key: Seq<char>) -> Tree {
    match member(context, key) {
        Some(v) => with_member(t, key, bounded_tree(v)),
        None => t,
    }
}

pub open spec fn context_tree(context: Tree) -> Tree {
    let a = carried(empty_object(), context, "taskId"@);
    let b = carried(a, context, "target"@);
    let c = carried(b, context, "scenario"@);
    let d = carried(c, context, "harnessId"@);
    carried(d, context, "workspaceId"@)
}

/// An operation as lists show it.
pub open spec fn operation_tree(o: ReceiptView) -> Tree {
    let a = with_member(empty_object(), "id"@, Tree::Text(o.id));
    let b = with_member(a, "kind"@, Tree::Text(o.kind));
    let c = with_member(b, "status"@, Tree::Text(o.status));
    let d = with_member(c, "updatedAt"@, Tree::Unsigned(o.updated_at));
    let e = with_member(
        d,
        "error"@,
        match o.error {
            Some(m) => bounded_tree(Tree::Text(m)),
            None => Tree::Null,
        },
    );
    let f = with_member(e, "context"@, context_tree(o.context));
    let g = with_member(f, "auto_retry"@, Tree::Bool(false));
    with_member(g, "detail"@, Tree::Bool(false))
}

fn carry(t: Json, context: &Json, key: &str) -> (r: Json)
    ensures
        r@ == carried(t@, context@, key@),
{
    match context.get(key) {
        Some(v) => with(t, key, bounded(v)),
        None => t,
    }
}

pub fn operation_summary(o: &Operation) -> (r: Json)
    ensures
        r@ == operation_tree(o@),
{
    let context = carry(object(), &o.context, "taskId");
    let context = carry(context, &o.context, "target");
    let context = carry(context, &o.context, "scenario");
    let context = carry(context, &o.context, "harnessId");
    let context = carry(context, &o.context, "workspaceId");
    let error = match &o.error {
        Some(m) => text_value(&clip(m, MAX_SHOWN)),
        None => Json::Null,
    };
    let a = with(object(), "id", text_value(&o.id));
    let b = with(a, "kind", text_value(&o.kind));
    let c = with(b, "status", text_value(&o.status));
    let d = with(c, "updatedAt", Json::Unsigned(o.updated_at));
    let e = with(d, "error", error);
    let f = with(e, "context", context);
    let g = with(f, "auto_retry", Json::Bool(false));
    with(g, "detail", Json::Bool(false))
}

/// The simulated task that an operation's result holds.
pub open spec fn task_in(o: ReceiptView) -> Option<Tree> {
    match o.result {
        Some(v) => member(v, "task"@),
        None => None,
    }
}

/// How the state of a simulated task is shown.
pub open spec fn simulated_state(o: ReceiptView) -> Seq<char> {
    if o.status == "unknown"@ {
        "unknown"@
    } else {
        match task_in(o) {
            Some(task) => match text_in(task, "state"@) {
                Some(name) => if name == "TimedOut"@ { "timed_out"@ } else { lowered(name) },
                None => o.status,
            },
            None => o.status,
        }
    }
}

/// A simulation as lists show it.
pub open spec fn simulation_tree(o: ReceiptView) -> Tree {
    let a = with_member(empty_object(), "id"@, Tree::Text(o.id));
    let b = with_member(a, "taskId"@, value_in(o.context, "taskId"@));
    let c = with_member(b, "target"@, value_in(o.context, "target"@));
    let d = with_member(c, "scenario"@, value_in(o.context, "scenario"@));
    let e = with_member(d, "state"@, Tree::Text(simulated_state(o)));
    let f = with_member(
        e,
        "revision"@,
        match task_in(o) {
            Some(task) => value_in(task, "revision"@),
            None => Tree::Null,
        },
    );
    with_member(f, "duration"@, Tree::Text("—"@))
}

pub fn simulation_summary(o: &Operation) -> (r: Json)
    ensures
        r@ == simulation_tree(o@),
{
    let task = match &o.result {
        Some(v) => v.get("task"),
        None => None,
    };
    let state = if same(&o.status, "unknown") {
        copied("unknown")
    } else {
        match task {
            Some(t) => match text_under(t, "state") {
                Some(name) => if same(name, "TimedOut") {
                    copied("timed_out")
                } else {
                    lower(name)
                },
                None => o.status.clone(),
            },
            None => o.status.clone(),
        }
    };
    let revision = match task {
        Some(t) => value_under(t, "revision"),
        None => Json::Null,
    };
    let a = with(object(), "id", text_value(&o.id));
    let b = with(a, "taskId", value_under(&o.context, "taskId"));
    let c = with(b, "target", value_under(&o.context, "target"));
    let d = with(c, "scenario", value_under(&o.context, "scenario"));
    let e = with(d, "state", text_value(&state));
    let f = with(e, "revision", revision);
    with(f, "duration", text_value("—"))
}

/// The items whose identity is among these.
pub open spec fn among(items: Seq<Tree>, ids: Seq<Seq<char>>) -> Seq<Tree>
    decreases items.len(),
{
    if items.len() == 0 {
        Seq::empty()
    } else {
        let front = among(items.drop_last(), ids);
        if text_in(items.last(), "id"@) is Some && ids.contains(text_in(items.last(), "id"@)->0) {
            front.push(items.last())
        } else {
            front
        }
    }
}

pub open spec fn first_items(list: Seq<Tree>, n: nat) -> Seq<Tree> {
    if list.len() > n { list.subrange(0, n as int) } else { list }
}

/// The repairs that an incident led to, newest identity first.
pub open spec fn related_tree(items: Seq<Tree>, ids: Seq<Seq<char>>) -> Tree {
    let list = descending(among(items, ids), "id"@);
    let a = with_member(empty_object(), "items"@, Tree::Array(first_items(list, 25)));
    let b = with_member(a, "total"@, Tree::Unsigned(list.len() as u64));
    with_member(b, "limit"@, Tree::Unsigned(25))
}

pub fn related(items: &Vec<Json>, ids: &Vec<String>) -> (r: Json)
    ensures
        r@ == related_tree(trees(items@), texts(ids@)),
{
    let ghost all = trees(items@);
    let mut kept: Vec<Json> = Vec::new();
    let mut i: usize = 0;
    assert(all.subrange(0, 0) =~= Seq::<Tree>::empty());
    assert(trees(kept@) =~= Seq::<Tree>::empty());
    while i < items.len()
        invariant
            i <= items.len(),
            all == trees(items@),
            all.len() == items.len(),
            trees(kept@) == among(all.subrange(0, i as int), texts(ids@)),
        decreases items.len() - i,
    {
        let ghost had = trees(kept@);
        proof {
            let now = all.subrange(0, i + 1);
            assert(now.drop_last() =~= all.subrange(0, i as int));
            assert(now.last() == items@[i as int]@);
        }
        let wanted = match text_under(&items[i], "id") {
            Some(id) => listed(ids, id),
            None => false,
        };
        if wanted {
            kept.push(items[i].copy());
            assert(trees(kept@) =~= had.push(items@[i as int]@));
        }
        i = i + 1;
    }
    assert(all.subrange(0, i as int) =~= all);
    let mut sorted = sort(kept, "id");
    let total = sorted.len();
    let ghost full = trees(sorted@);
    let ghost was = sorted@;
    if total > 25 {
        sorted.truncate(25);
        assert(trees(sorted@) =~= full.subrange(0, 25)) by {
            assert(sorted@ =~= was.subrange(0, 25));
            assert(trees(sorted@).len() == 25);
            assert forall|j: int| 0 <= j < 25 implies trees(sorted@)[j] == full[j] by {
                assert(sorted@[j] == was[j]);
                assert(full[j] == was[j]@);
            }
        }
    }
    let a = with(object(), "items", Json::Array(sorted));
    let b = with(a, "total", Json::Unsigned(total as u64));
    with(b, "limit", Json::Unsigned(25))
}

} // verus!
