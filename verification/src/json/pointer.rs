//! JSON pointer resolution.
use super::{
    digits_value, group_json, is_index, resolved, segment_end, segment_end_bound, stepped, tree, trees, unescaped,
    Json,
};
use crate::text::{characters, push};
use vstd::prelude::*;

verus! {

broadcast use group_json;

fn find_segment_end(list: &Vec<char>, from: usize) -> (end: usize)
    requires
        from <= list.len(),
    ensures
        from <= end <= list.len(),
        end - from == segment_end(list@.subrange(from as int, list.len() as int)),
{
    let mut end: usize = from;
    let ghost whole = list@.subrange(from as int, list.len() as int);
    while end < list.len() && list[end] != '/'
        invariant
            from <= end <= list.len(),
            whole == list@.subrange(from as int, list.len() as int),
            segment_end(whole) == (end - from) + segment_end(list@.subrange(end as int, list.len() as int)),
        decreases list.len() - end,
    {
        proof {
            let rest = list@.subrange(end as int, list.len() as int);
            assert(rest[0] == list@[end as int]);
            assert(rest.drop_first() =~= list@.subrange(end + 1, list.len() as int));
        }
        end = end + 1;
    }
    proof {
        let rest = list@.subrange(end as int, list.len() as int);
        if end < list.len() {
            assert(rest[0] == list@[end as int]);
        }
    }
    end
}

/// The text of `list[from..to]` with its escapes read.
fn unescape(list: &Vec<char>, from: usize, to: usize) -> (r: String)
    requires
        from <= to <= list.len(),
    ensures
        r@ == unescaped(list@.subrange(from as int, to as int)),
{
    let mut r = String::new();
    let mut i: usize = from;
    let ghost whole = list@.subrange(from as int, to as int);
    assert(r@ + unescaped(whole) =~= unescaped(whole));
    while i < to
        invariant
            from <= i <= to <= list.len(),
            whole == list@.subrange(from as int, to as int),
            unescaped(whole) == r@ + unescaped(list@.subrange(i as int, to as int)),
        decreases to - i,
    {
        let ghost rest = list@.subrange(i as int, to as int);
        let ghost had = r@;
        assert(rest[0] == list@[i as int]);
        if i + 1 < to && list[i] == '~' && list[i + 1] == '1' {
            assert(rest[1] == list@[i + 1]);
            assert(rest.subrange(2, rest.len() as int) =~= list@.subrange(i + 2, to as int));
            push(&mut r, '/');
            assert(had + (seq!['/'] + unescaped(list@.subrange(i + 2, to as int))) =~= r@ + unescaped(
                list@.subrange(i + 2, to as int),
            ));
            i = i + 2;
        } else if i + 1 < to && list[i] == '~' && list[i + 1] == '0' {
            assert(rest[1] == list@[i + 1]);
            assert(rest.subrange(2, rest.len() as int) =~= list@.subrange(i + 2, to as int));
            push(&mut r, '~');
            assert(had + (seq!['~'] + unescaped(list@.subrange(i + 2, to as int))) =~= r@ + unescaped(
                list@.subrange(i + 2, to as int),
            ));
            i = i + 2;
        } else {
            assert(i + 1 < to ==> rest[1] == list@[i + 1]);
            assert(rest.drop_first() =~= list@.subrange(i + 1, to as int));
            push(&mut r, list[i]);
            assert(had + (seq![rest[0]] + unescaped(list@.subrange(i + 1, to as int))) =~= r@ + unescaped(
                list@.subrange(i + 1, to as int),
            ));
            i = i + 1;
        }
    }
    assert(r@ + unescaped(list@.subrange(to as int, to as int)) =~= r@);
    r
}

proof fn digits_value_part(text: Seq<char>, n: int)
    requires
        0 <= n <= text.len(),
    ensures
        digits_value(text.subrange(0, n)) <= digits_value(text),
    decreases text.len() - n,
{
    if n == text.len() {
        assert(text.subrange(0, n) =~= text);
    } else {
        digits_value_part(text, n + 1);
        assert(text.subrange(0, n + 1).drop_last() =~= text.subrange(0, n));
    }
}

fn digit_of(c: char) -> (r: Option<usize>)
    ensures
        match r {
            Some(d) => '0' as u32 <= c as u32 && c as u32 <= '9' as u32 && d == c as u32 - 48 && d < 10,
            None => !('0' as u32 <= c as u32 && c as u32 <= '9' as u32),
        },
{
    let n: u32 = c as u32;
    if 48 <= n && n <= 57 { Some((n - 48) as usize) } else { None }
}

/// The index a segment denotes, when it lies below `bound`.
fn index_below(text: &str, bound: usize) -> (r: Option<usize>)
    ensures
        match r {
            Some(n) => is_index(text@) && n == digits_value(text@) && n < bound,
            None => !(is_index(text@) && digits_value(text@) < bound),
        },
{
    let list = characters(text);
    if list.len() == 0 || (list[0] == '0' && list.len() != 1) {
        return None;
    }
    let mut n: usize = 0;
    let mut i: usize = 0;
    let mut over: bool = false;
    assert(list@.subrange(0, list.len() as int) =~= list@);
    while i < list.len()
        invariant
            i <= list.len(),
            list@ == text@,
            forall|j: int| 0 <= j < i ==> '0' as u32 <= #[trigger] text@[j] as u32 && text@[j] as u32 <= '9' as u32,
            over ==> digits_value(text@.subrange(0, i as int)) >= bound,
            !over ==> n == digits_value(text@.subrange(0, i as int)) && (n < bound || i == 0),
        decreases list.len() - i,
    {
        let ghost now = text@.subrange(0, i + 1);
        assert(now.drop_last() =~= text@.subrange(0, i as int));
        assert(now.last() == text@[i as int]);
        match digit_of(list[i]) {
            Some(d) => {
                if !over {
                    if n > (usize::MAX - d) / 10 {
                        assert(digits_value(now) > usize::MAX);
                        over = true;
                    } else {
                        n = n * 10 + d;
                        if n >= bound {
                            over = true;
                        }
                    }
                } else {
                    assert(digits_value(now) >= digits_value(now.drop_last()));
                }
            },
            None => {
                assert(!('0' as u32 <= text@[i as int] as u32 && text@[i as int] as u32 <= '9' as u32));
                return None;
            },
        }
        i = i + 1;
    }
    assert(text@.subrange(0, list.len() as int) =~= text@);
    if over { None } else { Some(n) }
}

impl Json {
    /// What a JSON pointer selects.
    pub fn pointer(&self, pointer: &str) -> (r: Option<&Json>)
        ensures
            match r {
                Some(v) => resolved(self@, pointer@) == Some(v@),
                None => resolved(self@, pointer@) is None,
            },
    {
        let list = characters(pointer);
        assert(list@.subrange(0, list.len() as int) =~= pointer@);
        let mut here: &Json = self;
        let mut at: usize = 0;
        while at < list.len()
            invariant
                at <= list.len(),
                list@ == pointer@,
                resolved(self@, pointer@) == resolved(here@, list@.subrange(at as int, list.len() as int)),
            decreases list.len() - at,
        {
            let ghost left = list@.subrange(at as int, list.len() as int);
            assert(left[0] == list@[at as int]);
            if list[at] != '/' {
                return None;
            }
            let ghost rest = left.drop_first();
            assert(rest =~= list@.subrange(at + 1, list.len() as int));
            let end: usize = find_segment_end(&list, at + 1);
            let token = unescape(&list, at + 1, end);
            proof {
                segment_end_bound(rest);
                assert(rest.subrange(0, segment_end(rest) as int) =~= list@.subrange(at + 1, end as int));
                assert(rest.subrange(segment_end(rest) as int, rest.len() as int) =~= list@.subrange(end as int, list.len() as int));
                assert(token@ == unescaped(rest.subrange(0, segment_end(rest) as int)));
            }
            let next: Option<&Json> = match here {
                Json::Object(_) => here.get(&token),
                Json::Array(items) => match index_below(&token, items.len()) {
                    Some(n) => {
                        assert(trees(items@).len() == items.len());
                        assert(trees(items@)[n as int] == tree(items@[n as int]));
                        Some(&items[n])
                    },
                    None => {
                        assert(trees(items@).len() == items.len());
                        None
                    },
                },
                _ => None,
            };
            match next {
                Some(v) => {
                    assert(stepped(here@, token@) == Some(v@));
                    here = v;
                },
                None => {
                    assert(stepped(here@, token@) is None);
                    return None;
                },
            }
            at = end;
        }
        assert(list@.subrange(at as int, list.len() as int).len() == 0);
        Some(here)
    }
}

} // verus!
