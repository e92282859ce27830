//! Pages of items in descending order of an immutable key.
use super::{bad_request, is_id, valid_id, ApiError, Refusal};
use crate::json::values::{empty_object, object, text_value, with};
use crate::json::{encoded, group_json, member, trees, with_member, Json, Tree};
use crate::text::{before, byte_len, less, lowercase, lowercased, occurs, opt, same, utf8_len};
use vstd::prelude::*;

verus! {

broadcast use group_json;

pub struct ListQuery {
    pub cursor: Option<String>,
    pub limit: Option<usize>,
    pub state: Option<String>,
    pub query: Option<String>,
    pub task_id: Option<String>,
}

pub struct QueryView {
    pub cursor: Option<Seq<char>>,
    pub limit: Option<usize>,
    pub state: Option<Seq<char>>,
    pub query: Option<Seq<char>>,
    pub task_id: Option<Seq<char>>,
}

impl View for ListQuery {
    type V = QueryView;

    open spec fn view(&self) -> QueryView {
        QueryView {
            cursor: opt(self.cursor),
            limit: self.limit,
            state: opt(self.state),
            query: opt(self.query),
            task_id: opt(self.task_id),
        }
    }
}

impl Default for ListQuery {
    fn default() -> (r: Self)
        ensures
            r@ == (QueryView { cursor: None, limit: None, state: None, query: None, task_id: None }),
    {
        ListQuery { cursor: None, limit: None, state: None, query: None, task_id: None }
    }
}

/// A text that a value has under a key.
pub open spec fn text_in(t: Tree, key: Seq<char>) -> Option<Seq<char>> {
    match member(t, key) {
        Some(Tree::Text(s)) => Some(s),
        _ => None,
    }
}

pub fn text_under<'a>(value: &'a Json, key: &str) -> (r: Option<&'a str>)
    ensures
        match r {
            Some(s) => text_in(value@, key@) == Some(s@),
            None => text_in(value@, key@) is None,
        },
{
    match value.get(key) {
        Some(Json::Text(s)) => Some(s.as_str()),
        _ => None,
    }
}

/// A value under a key; nothing is null.
pub open spec fn value_in(t: Tree, key: Seq<char>) -> Tree {
    match member(t, key) {
        Some(v) => v,
        None => Tree::Null,
    }
}

pub fn value_under(value: &Json, key: &str) -> (r: Json)
    ensures
        r@ == value_in(value@, key@),
{
    match value.get(key) {
        Some(v) => v.copy(),
        None => Json::Null,
    }
}

pub open spec fn item_state(t: Tree) -> Seq<char> {
    match text_in(t, "state"@) {
        Some(s) => s,
        None => match text_in(t, "status"@) {
            Some(s) => s,
            None => Seq::empty(),
        },
    }
}

pub open spec fn needs_attention(state: Seq<char>) -> bool {
    state == "unknown"@ || state == "waiting_human"@ || state == "approved"@ || state == "pending"@
}

pub open spec fn state_matches(filter: Seq<char>, state: Seq<char>) -> bool {
    filter == "all"@ || filter == state || (filter == "attention"@ && needs_attention(state))
}

/// Whether a query asks for an item.
pub open spec fn matches(t: Tree, q: QueryView) -> bool {
    &&& q.state is Some ==> state_matches(q.state->0, item_state(t))
    &&& q.task_id is Some ==> text_in(t, "taskId"@) == Some(q.task_id->0)
    &&& q.query is Some ==> occurs(lowercased(encoded(t)), lowercased(q.query->0))
}

/// The items that a query asks for, in their order.
pub open spec fn selected(items: Seq<Tree>, q: QueryView) -> Seq<Tree>
    decreases items.len(),
{
    if items.len() == 0 {
        Seq::empty()
    } else {
        let front = selected(items.drop_last(), q);
        if matches(items.last(), q) { front.push(items.last()) } else { front }
    }
}

/// Whether the first key comes behind the second: it is missing, or less.
pub open spec fn behind(a: Option<Seq<char>>, b: Option<Seq<char>>) -> bool {
    match (a, b) {
        (None, Some(_)) => true,
        (Some(x), Some(y)) => less(x, y),
        _ => false,
    }
}

/// A list with one more item, behind every item whose key is not less.
pub open spec fn placed(list: Seq<Tree>, item: Tree, key: Seq<char>) -> Seq<Tree>
    decreases list.len(),
{
    if list.len() > 0 && behind(text_in(list.last(), key), text_in(item, key)) {
        placed(list.drop_last(), item, key).push(list.last())
    } else {
        list.push(item)
    }
}

/// The items in descending order; items of one key keep their order.
pub open spec fn descending(items: Seq<Tree>, key: Seq<char>) -> Seq<Tree>
    decreases items.len(),
{
    if items.len() == 0 { Seq::empty() } else { placed(descending(items.drop_last(), key), items.last(), key) }
}

/// The items behind a cursor.
pub open spec fn beyond(items: Seq<Tree>, key: Seq<char>, cursor: Option<Seq<char>>) -> Seq<Tree>
    decreases items.len(),
{
    if items.len() == 0 {
        Seq::empty()
    } else {
        let front = beyond(items.drop_last(), key, cursor);
        if cursor is None || (text_in(items.last(), key) is Some && less(text_in(items.last(), key)->0, cursor->0)) {
            front.push(items.last())
        } else {
            front
        }
    }
}

/// One page of items: those behind the cursor up to the limit, and where the next begins.
pub struct PageView {
    pub items: Seq<Tree>,
    pub next: Tree,
}

pub open spec fn page_at(sorted: Seq<Tree>, key: Seq<char>, cursor: Option<Seq<char>>, limit: nat) -> PageView {
    let rest = beyond(sorted, key, cursor);
    if rest.len() > limit {
        let items = rest.subrange(0, limit as int);
        PageView { items, next: if limit == 0 { Tree::Null } else { value_in(items.last(), key) } }
    } else {
        PageView { items: rest, next: Tree::Null }
    }
}

pub open spec fn query_fault(q: QueryView) -> Option<Refusal> {
    if (q.cursor is Some && byte_len(q.cursor->0) > 256) || (q.query is Some && byte_len(q.query->0) > 256) || (q.state is Some
        && byte_len(q.state->0) > 32) || (q.task_id is Some && !is_id(q.task_id->0)) {
        Some(bad_request("invalid bounded history query"@))
    } else if !(1 <= limit_of(q) <= 100) {
        Some(bad_request("limit must be 1..100"@))
    } else {
        None
    }
}

pub open spec fn limit_of(q: QueryView) -> usize {
    match q.limit {
        Some(n) => n,
        None => 25,
    }
}

pub open spec fn page_tree(page: PageView, total: nat, limit: usize) -> Tree {
    let a = with_member(empty_object(), "items"@, Tree::Array(page.items));
    let b = with_member(a, "next_cursor"@, page.next);
    let c = with_member(b, "total"@, Tree::Unsigned(total as u64));
    let d = with_member(c, "limit"@, Tree::Unsigned(limit as u64));
    with_member(d, "order"@, Tree::Text("id_desc"@))
}

/// What a query for a page is answered.
pub open spec fn paged(items: Seq<Tree>, key: Seq<char>, q: QueryView) -> Result<Tree, Refusal> {
    match query_fault(q) {
        Some(f) => Err(f),
        None => {
            let sorted = descending(selected(items, q), key);
            Ok(page_tree(page_at(sorted, key, q.cursor, limit_of(q) as nat), sorted.len(), limit_of(q)))
        },
    }
}

fn is_match(item: &Json, q: &ListQuery) -> (r: bool)
    ensures
        r == matches(item@, q@),
{
    if let Some(filter) = &q.state {
        let state = match text_under(item, "state") {
            Some(s) => s,
            None => match text_under(item, "status") {
                Some(s) => s,
                None => {
                    assert(""@ =~= Seq::<char>::empty()) by {
                        reveal_strlit("");
                    }
                    ""
                },
            },
        };
        let wanted = same(filter, "all") || same(filter, state) || (same(filter, "attention") && (same(state, "unknown") || same(
            state,
            "waiting_human",
        ) || same(state, "approved") || same(state, "pending")));
        if !wanted {
            return false;
        }
    }
    if let Some(task) = &q.task_id {
        let wanted = match text_under(item, "taskId") {
            Some(t) => same(t, task),
            None => false,
        };
        if !wanted {
            return false;
        }
    }
    match &q.query {
        None => true,
        Some(text) => crate::text::holds(&lowercase(&item.render()), &lowercase(text)),
    }
}

fn is_behind(a: Option<&str>, b: Option<&str>) -> (r: bool)
    ensures
        r == behind(crate::harnesses::registry::wanted(a), crate::harnesses::registry::wanted(b)),
{
    match (a, b) {
        (None, Some(_)) => true,
        (Some(x), Some(y)) => before(x, y),
        _ => false,
    }
}

/// Puts an item in its place.
pub fn place(list: &mut Vec<Json>, item: Json, key: &str)
    ensures
        trees(final(list)@) == placed(trees(old(list)@), item@, key@),
{
    let ghost all = trees(list@);
    let ghost new = item@;
    let mut i: usize = list.len();
    assert(all.subrange(0, all.len() as int) =~= all);
    assert(all.subrange(all.len() as int, all.len() as int) =~= Seq::<Tree>::empty());
    assert(placed(all, new, key@) =~= placed(all, new, key@) + all.subrange(all.len() as int, all.len() as int));
    while i > 0 && is_behind(text_under(&list[i - 1], key), text_under(&item, key))
        invariant
            i <= list.len(),
            all == trees(list@),
            all.len() == list.len(),
            new == item@,
            placed(all, new, key@) == placed(all.subrange(0, i as int), new, key@) + all.subrange(i as int, all.len() as int),
        decreases i,
    {
        proof {
            let front = all.subrange(0, i as int);
            assert(front.last() == list@[i - 1]@);
            assert(front.drop_last() =~= all.subrange(0, i - 1));
            let tail = all.subrange(i as int, all.len() as int);
            let p = placed(all.subrange(0, i - 1), new, key@);
            assert(p.push(front.last()) + tail =~= p + all.subrange(i - 1, all.len() as int));
        }
        i = i - 1;
    }
    proof {
        let front = all.subrange(0, i as int);
        if i > 0 {
            assert(front.last() == list@[i - 1]@);
        }
        assert(placed(front, new, key@) == front.push(new));
        assert(front.push(new) + all.subrange(i as int, all.len() as int) =~= all.insert(i as int, new));
    }
    let ghost was = list@;
    list.insert(i, item);
    proof {
        assert(list@ == was.insert(i as int, item));
        assert(trees(list@).len() == all.len() + 1);
        assert forall|j: int| 0 <= j < list@.len() implies trees(list@)[j] == all.insert(i as int, new)[j] by {
            assert(trees(list@)[j] == list@[j]@);
            if j < i {
                assert(all[j] == was[j]@);
            } else if j > i {
                assert(all[j - 1] == was[j - 1]@);
            }
        }
        assert(trees(list@) =~= all.insert(i as int, new));
    }
}

/// Cuts one page out of items in order.
pub fn cut(sorted: Vec<Json>, key: &str, cursor: &Option<String>, limit: usize) -> (r: (Vec<Json>, Json))
    ensures
        (PageView { items: trees(r.0@), next: r.1@ }) == page_at(trees(sorted@), key@, opt(*cursor), limit as nat),
{
    let ghost all = trees(sorted@);
    let mut rest: Vec<Json> = Vec::new();
    let mut i: usize = 0;
    assert(all.subrange(0, 0) =~= Seq::<Tree>::empty());
    assert(trees(rest@) =~= Seq::<Tree>::empty());
    while i < sorted.len()
        invariant
            i <= sorted.len(),
            all == trees(sorted@),
            all.len() == sorted.len(),
            trees(rest@) == beyond(all.subrange(0, i as int), key@, opt(*cursor)),
        decreases sorted.len() - i,
    {
        let ghost had = trees(rest@);
        proof {
            let now = all.subrange(0, i + 1);
            assert(now.drop_last() =~= all.subrange(0, i as int));
            assert(now.last() == sorted@[i as int]@);
        }
        let wanted = match cursor {
            None => true,
            Some(c) => match text_under(&sorted[i], key) {
                Some(k) => before(k, c),
                None => false,
            },
        };
        if wanted {
            rest.push(sorted[i].copy());
            assert(trees(rest@) =~= had.push(sorted@[i as int]@));
        }
        i = i + 1;
    }
    assert(all.subrange(0, i as int) =~= all);
    if rest.len() <= limit {
        return (rest, Json::Null);
    }
    let ghost full = trees(rest@);
    let ghost was = rest@;
    rest.truncate(limit);
    assert(trees(rest@) =~= full.subrange(0, limit as int)) by {
        assert(rest@ =~= was.subrange(0, limit as int));
        assert(trees(rest@).len() == limit);
        assert forall|j: int| 0 <= j < limit implies trees(rest@)[j] == full[j] by {
            assert(rest@[j] == was[j]);
            assert(full[j] == was[j]@);
        }
    }
    let next = if limit == 0 {
        Json::Null
    } else {
        assert(full.subrange(0, limit as int).last() == rest@[limit - 1]@);
        value_under(&rest[limit - 1], key)
    };
    (rest, next)
}

/// Puts items in descending order.
pub fn sort(items: Vec<Json>, key: &str) -> (r: Vec<Json>)
    ensures
        trees(r@) == descending(trees(items@), key@),
{
    let ghost all = trees(items@);
    let mut r: Vec<Json> = Vec::new();
    let mut i: usize = 0;
    assert(all.subrange(0, 0) =~= Seq::<Tree>::empty());
    assert(trees(r@) =~= Seq::<Tree>::empty());
    while i < items.len()
        invariant
            i <= items.len(),
            all == trees(items@),
            all.len() == items.len(),
            trees(r@) == descending(all.subrange(0, i as int), key@),
        decreases items.len() - i,
    {
        proof {
            let now = all.subrange(0, i + 1);
            assert(now.drop_last() =~= all.subrange(0, i as int));
            assert(now.last() == items@[i as int]@);
        }
        place(&mut r, items[i].copy(), key);
        i = i + 1;
    }
    assert(all.subrange(0, i as int) =~= all);
    r
}

/// Answers a query for a page. Keys never change, so an item does not move between pages.
pub fn page(items: Vec<Json>, key: &str, query: &ListQuery) -> (r: Result<Json, ApiError>)
    ensures
        match r {
            Ok(v) => paged(trees(items@), key@, query@) == Ok::<Tree, Refusal>(v@),
            Err(e) => paged(trees(items@), key@, query@) == Err::<Tree, Refusal>(e@),
        },
{
    let too_long = match &query.cursor {
        Some(s) => utf8_len(s) > 256,
        None => false,
    } || match &query.query {
        Some(s) => utf8_len(s) > 256,
        None => false,
    } || match &query.state {
        Some(s) => utf8_len(s) > 32,
        None => false,
    } || match &query.task_id {
        Some(s) => !valid_id(s),
        None => false,
    };
    if too_long {
        return Err(ApiError::invalid("invalid bounded history query"));
    }
    let limit: usize = match query.limit {
        Some(n) => n,
        None => 25,
    };
    if limit < 1 || limit > 100 {
        return Err(ApiError::invalid("limit must be 1..100"));
    }
    let ghost all = trees(items@);
    let mut kept: Vec<Json> = Vec::new();
    let mut i: usize = 0;
    assert(all.subrange(0, 0) =~= Seq::<Tree>::empty());
    assert(trees(kept@) =~= Seq::<Tree>::empty());
    while i < items.len()
        invariant
            i <= items.len(),
            all == trees(items@),
            all.len() == items.len(),
            trees(kept@) == selected(all.subrange(0, i as int), query@),
        decreases items.len() - i,
    {
        let ghost had = trees(kept@);
        proof {
            let now = all.subrange(0, i + 1);
            assert(now.drop_last() =~= all.subrange(0, i as int));
            assert(now.last() == items@[i as int]@);
        }
        if is_match(&items[i], query) {
            kept.push(items[i].copy());
            assert(trees(kept@) =~= had.push(items@[i as int]@));
        }
        i = i + 1;
    }
    assert(all.subrange(0, i as int) =~= all);
    let sorted = sort(kept, key);
    let total = sorted.len();
    let (shown, next) = cut(sorted, key, &query.cursor, limit);
    let a = with(object(), "items", Json::Array(shown));
    let b = with(a, "next_cursor", next);
    let c = with(b, "total", Json::Unsigned(total as u64));
    let d = with(c, "limit", Json::Unsigned(limit as u64));
    Ok(with(d, "order", text_value("id_desc")))
}

/// What a page says of itself without its items.
pub open spec fn metadata_tree(page: Tree) -> Tree {
    let a = with_member(empty_object(), "next_cursor"@, value_in(page, "next_cursor"@));
    let b = with_member(a, "total"@, value_in(page, "total"@));
    let c = with_member(b, "limit"@, value_in(page, "limit"@));
    with_member(c, "order"@, Tree::Text("id_desc"@))
}

pub fn metadata(page: &Json) -> (r: Json)
    ensures
        r@ == metadata_tree(page@),
{
    let a = with(object(), "next_cursor", value_under(page, "next_cursor"));
    let b = with(a, "total", value_under(page, "total"));
    let c = with(b, "limit", value_under(page, "limit"));
    with(c, "order", text_value("id_desc"))
}

} // verus!
