//! Size rules of durable incident data.
use super::{Fault, IncidentError};
use crate::json::{encoded_size, fields_of, group_json, tree, trees, Json, Tree};
use crate::text::{blank, byte_len, contains, decimal, decimal_text, is_blank, joined, utf8_len};
use vstd::prelude::*;

verus! {

broadcast use group_json;

pub open spec fn text_fits(value: Seq<char>, max: nat, empty: bool) -> bool {
    byte_len(value) <= max && (empty || !is_blank(value)) && !value.contains('\0')
}

pub open spec fn text_fault(field: Seq<char>, max: nat) -> Fault {
    Fault::Invalid(field + " is empty, contains NUL or exceeds "@ + decimal(max) + " bytes"@)
}

pub open spec fn complexity_fault(field: Seq<char>) -> Fault {
    Fault::Capacity(field + " JSON complexity"@)
}

pub open spec fn size_fault(field: Seq<char>, max: nat) -> Fault {
    Fault::Capacity(field + " exceeds "@ + decimal(max) + " bytes"@)
}

/// What a walk over a value complains of.
pub enum Complaint {
    Complexity,
    Size,
}

/// The room that `used` places leave of `max`.
pub open spec fn room(max: nat, used: nat) -> int {
    if used >= max { 0 } else { max - used }
}

pub open spec fn one_deeper(items: Seq<Tree>, depth: nat) -> Seq<(Tree, nat)> {
    items.map_values(|t: Tree| (t, depth + 1))
}

pub open spec fn fields_deeper(fields: Seq<(Seq<char>, Tree)>, depth: nat) -> Seq<(Tree, nat)> {
    fields.map_values(|f: (Seq<char>, Tree)| (f.1, depth + 1))
}

/// Walks a value depth first, last child first, and stops at the first
/// breach: nesting beyond 32 levels, more than `max` values seen or pending, a
/// key or a text of more than `max` bytes.
pub open spec fn walk(pending: Seq<(Tree, nat)>, seen: nat, max: nat) -> Option<Complaint>
    decreases max + 1 - seen,
{
    if pending.len() == 0 {
        None
    } else {
        let (value, depth) = pending.last();
        let rest = pending.drop_last();
        if depth > 32 || seen + 1 > max {
            Some(Complaint::Complexity)
        } else {
            match value {
                Tree::Array(items) => if items.len() > room(max, rest.len()) {
                    Some(Complaint::Complexity)
                } else {
                    walk(rest + one_deeper(items, depth), seen + 1, max)
                },
                Tree::Object(fields) => if fields.len() > room(max, rest.len()) || exists|i: int|
                    0 <= i < fields.len() && byte_len((#[trigger] fields[i]).0) > max {
                    Some(Complaint::Complexity)
                } else {
                    walk(rest + fields_deeper(fields, depth), seen + 1, max)
                },
                Tree::Text(s) => if byte_len(s) > max {
                    Some(Complaint::Size)
                } else {
                    walk(rest, seen + 1, max)
                },
                _ => walk(rest, seen + 1, max),
            }
        }
    }
}

/// The rule an object breaks, if any.
pub open spec fn object_fault(value: Tree, max: nat, field: Seq<char>) -> Option<Fault> {
    if !(value is Object) {
        Some(Fault::Invalid(field + " must be a JSON object"@))
    } else {
        match walk(seq![(value, 0)], 0, max) {
            Some(Complaint::Complexity) => Some(complexity_fault(field)),
            Some(Complaint::Size) => Some(size_fault(field, max)),
            None => if encoded_size(value) > max { Some(size_fault(field, max)) } else { None },
        }
    }
}

pub fn bounded_text(value: &str, max: usize, field: &str, empty: bool) -> (r: Result<(), IncidentError>)
    ensures
        match r {
            Ok(_) => text_fits(value@, max as nat, empty),
            Err(e) => !text_fits(value@, max as nat, empty) && e@ == text_fault(field@, max as nat),
        },
{
    if utf8_len(value) > max || (!empty && blank(value)) || contains(value, '\0') {
        let m = joined(field, " is empty, contains NUL or exceeds ");
        let m = joined(&m, &decimal_text(max as u64));
        return Err(IncidentError::Invalid(joined(&m, " bytes")));
    }
    Ok(())
}

pub open spec fn stack_of(pending: Seq<(&Json, usize)>) -> Seq<(Tree, nat)> {
    pending.map_values(|p: (&Json, usize)| (tree(*p.0), p.1 as nat))
}

fn too_large(field: &str, max: usize) -> (e: IncidentError)
    ensures
        e@ == size_fault(field@, max as nat),
{
    let m = joined(field, " exceeds ");
    let m = joined(&m, &decimal_text(max as u64));
    IncidentError::Capacity(joined(&m, " bytes"))
}

fn walk_value(value: &Json, max: usize) -> (r: Option<Complaint>)
    requires
        max < usize::MAX,
    ensures
        r == walk(seq![(value@, 0)], 0, max as nat),
{
    let mut pending: Vec<(&Json, usize)> = Vec::new();
    pending.push((value, 0));
    let mut seen: usize = 0;
    assert(stack_of(pending@) =~= seq![(value@, 0nat)]);
    while pending.len() > 0
        invariant
            seen <= max < usize::MAX,
            walk(seq![(value@, 0)], 0, max as nat) == walk(stack_of(pending@), seen as nat, max as nat),
        decreases max + 1 - seen,
    {
        let ghost before = stack_of(pending@);
        let (here, depth) = match pending.pop() {
            Some(top) => top,
            None => {
                return None;
            },
        };
        proof {
            assert(before.last() == (tree(*here), depth as nat));
            assert(before.drop_last() =~= stack_of(pending@));
        }
        let ghost rest = stack_of(pending@);
        if depth > 32 || seen >= max {
            return Some(Complaint::Complexity);
        }
        seen = seen + 1;
        let left: usize = if pending.len() >= max { 0 } else { max - pending.len() };
        match here {
            Json::Array(items) => {
                assert(trees(items@).len() == items.len());
                if items.len() > left {
                    return Some(Complaint::Complexity);
                }
                let mut i: usize = 0;
                assert(rest + one_deeper(trees(items@).subrange(0, 0), depth as nat) =~= rest);
                while i < items.len()
                    invariant
                        i <= items.len(),
                        depth <= 32,
                        stack_of(pending@) == rest + one_deeper(trees(items@).subrange(0, i as int), depth as nat),
                    decreases items.len() - i,
                {
                    let ghost had = pending@;
                    pending.push((&items[i], depth + 1));
                    proof {
                        let all = trees(items@);
                        assert(all.len() == items.len());
                        assert(stack_of(pending@) =~= stack_of(had).push((tree(items@[i as int]), (depth + 1) as nat)));
                        assert(one_deeper(all.subrange(0, i + 1), depth as nat) =~= one_deeper(
                            all.subrange(0, i as int),
                            depth as nat,
                        ).push((all[i as int], (depth + 1) as nat)));
                        assert(stack_of(pending@) =~= rest + one_deeper(all.subrange(0, i + 1), depth as nat));
                    }
                    i = i + 1;
                }
                assert(trees(items@).subrange(0, items.len() as int) =~= trees(items@));
            },
            Json::Object(fields) => {
                assert(fields_of(fields@).len() == fields.len());
                if fields.len() > left {
                    return Some(Complaint::Complexity);
                }
                let mut k: usize = 0;
                while k < fields.len()
                    invariant
                        k <= fields.len(),
                        forall|j: int| 0 <= j < k ==> byte_len((#[trigger] fields@[j]).0@) <= max,
                        rest == before.drop_last(),
                        before.len() > 0,
                        before.last() == (tree(*here), depth as nat),
                        *here == Json::Object(*fields),
                        depth <= 32,
                        0 < seen <= max,
                        walk(seq![(value@, 0)], 0, max as nat) == walk(before, (seen - 1) as nat, max as nat),
                    decreases fields.len() - k,
                {
                    if utf8_len(&fields[k].0) > max {
                        assert(fields_of(fields@).len() == fields.len());
                        assert(byte_len(fields_of(fields@)[k as int].0) > max);
                        return Some(Complaint::Complexity);
                    }
                    k = k + 1;
                }
                proof {
                    assert forall|j: int| 0 <= j < fields_of(fields@).len() implies byte_len((#[trigger] fields_of(fields@)[j]).0)
                        <= max by {
                        assert(byte_len(fields@[j].0@) <= max);
                    }
                }
                let mut i: usize = 0;
                assert(rest + fields_deeper(fields_of(fields@).subrange(0, 0), depth as nat) =~= rest);
                while i < fields.len()
                    invariant
                        i <= fields.len(),
                        depth <= 32,
                        stack_of(pending@) == rest + fields_deeper(fields_of(fields@).subrange(0, i as int), depth as nat),
                    decreases fields.len() - i,
                {
                    let ghost had = pending@;
                    pending.push((&fields[i].1, depth + 1));
                    proof {
                        let all = fields_of(fields@);
                        assert(all.len() == fields.len());
                        assert(stack_of(pending@) =~= stack_of(had).push((tree(fields@[i as int].1), (depth + 1) as nat)));
                        assert(fields_deeper(all.subrange(0, i + 1), depth as nat) =~= fields_deeper(
                            all.subrange(0, i as int),
                            depth as nat,
                        ).push((all[i as int].1, (depth + 1) as nat)));
                        assert(stack_of(pending@) =~= rest + fields_deeper(all.subrange(0, i + 1), depth as nat));
                    }
                    i = i + 1;
                }
                assert(fields_of(fields@).subrange(0, fields.len() as int) =~= fields_of(fields@));
            },
            Json::Text(s) => {
                if utf8_len(s) > max {
                    return Some(Complaint::Size);
                }
            },
            _ => {},
        }
    }
    assert(stack_of(pending@).len() == 0);
    None
}

pub fn bounded_object(value: &Json, max: usize, field: &str) -> (r: Result<(), IncidentError>)
    requires
        max < usize::MAX,
    ensures
        match r {
            Ok(_) => object_fault(value@, max as nat, field@) is None,
            Err(e) => object_fault(value@, max as nat, field@) == Some(e@),
        },
{
    match value {
        Json::Object(_) => {},
        _ => {
            return Err(IncidentError::Invalid(joined(field, " must be a JSON object")));
        },
    }
    match walk_value(value, max) {
        Some(Complaint::Complexity) => {
            return Err(IncidentError::Capacity(joined(field, " JSON complexity")));
        },
        Some(Complaint::Size) => {
            return Err(too_large(field, max));
        },
        None => {},
    }
    if value.size() > max {
        return Err(too_large(field, max));
    }
    Ok(())
}

} // verus!
