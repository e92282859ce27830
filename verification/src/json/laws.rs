//! What holds of JSON values: numbers compare by what they denote, pointers lead where their
//! segments say, and values are equal by content.
use super::{
    alike, digits_value, field, is_exact, is_index, is_number, member, number_order, resolved, segment_end, stepped,
    unescaped, with_member, Order, Tree,
};
use crate::text::decimal;
use vstd::arithmetic::power2::{lemma2_to64, lemma_pow2_adds, lemma_pow2_pos, pow2};
use vstd::prelude::*;

verus! {

/// The number that a value denotes, in units of `2^-n`.
pub open spec fn at_scale(t: Tree, n: nat) -> int {
    match t {
        Tree::Unsigned(m) => m * pow2(n),
        Tree::Negative(m) => m * pow2(n),
        Tree::Real { text, mantissa, exponent } => mantissa * pow2((exponent + n) as nat),
        _ => 0,
    }
}

/// The number is a whole number of units of `2^-n`.
pub open spec fn fits_scale(t: Tree, n: nat) -> bool {
    match t {
        Tree::Unsigned(_) => true,
        Tree::Negative(_) => true,
        Tree::Real { text, mantissa, exponent } => exponent + n >= 0,
        _ => false,
    }
}

proof fn scaling_keeps_order(a: int, b: int, d: nat, k: nat)
    ensures
        pow2(d + k) == pow2(d) * pow2(k),
        (a * pow2(d) < b) == (a * pow2(d + k) < b * pow2(k)),
        (a * pow2(d) == b) == (a * pow2(d + k) == b * pow2(k)),
{
    lemma_pow2_adds(d, k);
    lemma_pow2_pos(k);
    let p = pow2(d) as int;
    let q = pow2(k) as int;
    assert(a * (p * q) == (a * p) * q) by (nonlinear_arith);
    let x = a * p;
    assert((x < b) == (x * q < b * q)) by (nonlinear_arith)
        requires
            q > 0,
    ;
    assert((x == b) == (x * q == b * q)) by (nonlinear_arith)
        requires
            q > 0,
    ;
}

/// Two numbers compare as the numbers that they denote, whatever their forms.
pub proof fn numbers_compare_by_value(a: Tree, b: Tree, n: nat)
    requires
        fits_scale(a, n),
        fits_scale(b, n),
    ensures
        is_number(a) && is_number(b),
        number_order(a, b) == Order::Less <==> at_scale(a, n) < at_scale(b, n),
        number_order(a, b) == Order::Equal <==> at_scale(a, n) == at_scale(b, n),
        number_order(a, b) == Order::Greater <==> at_scale(a, n) > at_scale(b, n),
{
    lemma2_to64();
    let (m1, e1) = super::parts(a)->0;
    let (m2, e2) = super::parts(b)->0;
    if e1 >= e2 {
        scaling_keeps_order(m1, m2, (e1 - e2) as nat, (e2 + n) as nat);
        assert((e1 - e2) as nat + (e2 + n) as nat == (e1 + n) as nat);
    } else {
        scaling_keeps_order(m2, m1, (e2 - e1) as nat, (e1 + n) as nat);
        assert((e2 - e1) as nat + (e1 + n) as nat == (e2 + n) as nat);
    }
}

/// Exact numbers are those of magnitude at most `2^53`.
pub proof fn exact_numbers_are_small(t: Tree, n: nat)
    requires
        fits_scale(t, n),
    ensures
        is_exact(t) <==> -9007199254740992 * pow2(n) <= at_scale(t, n) <= 9007199254740992 * pow2(n),
{
    numbers_compare_by_value(t, Tree::Unsigned(9007199254740992), n);
    numbers_compare_by_value(t, Tree::Negative((-9007199254740992int) as i64), n);
    lemma2_to64();
}

/// What is no number is never exact and never compares with one.
pub proof fn only_numbers_are_exact(t: Tree)
    requires
        !(t is Unsigned) && !(t is Negative) && !(t is Real),
    ensures
        !is_number(t),
        !is_exact(t),
{
}

/// Values are equal by content: collections item by item, numbers of one form by what they
/// denote, and values of different forms never.
pub proof fn equal_values_have_equal_content(a: Tree, b: Tree, n: nat)
    ensures
        alike(a, b) ==> {
            ||| a is Null && b is Null
            ||| a is Bool && b is Bool && a->Bool_0 == b->Bool_0
            ||| a is Unsigned && b is Unsigned && a->Unsigned_0 == b->Unsigned_0
            ||| a is Negative && b is Negative && a->Negative_0 == b->Negative_0
            ||| a is Text && b is Text && a->Text_0 == b->Text_0
            ||| a is Real && b is Real
            ||| a is Array && b is Array && a->Array_0.len() == b->Array_0.len()
            ||| a is Object && b is Object && a->Object_0.len() == b->Object_0.len()
        },
        a is Real && b is Real && fits_scale(a, n) && fits_scale(b, n) ==> (alike(a, b) <==> at_scale(a, n) == at_scale(b, n)),
        !(a is Real || a is Array || a is Object) ==> (alike(a, b) <==> a == b),
        a is Array && b is Array && a->Array_0.len() == b->Array_0.len() ==> (alike(a, b) <==> forall|i: int|
            0 <= i < a->Array_0.len() ==> alike(#[trigger] a->Array_0[i], b->Array_0[i])),
        a is Object && b is Object && a->Object_0.len() == b->Object_0.len() ==> (alike(a, b) <==> forall|i: int|
            0 <= i < a->Object_0.len() ==> (#[trigger] a->Object_0[i]).0 == b->Object_0[i].0 && alike(
                a->Object_0[i].1,
                b->Object_0[i].1,
            )),
{
    if a is Real && b is Real && fits_scale(a, n) && fits_scale(b, n) {
        numbers_compare_by_value(a, b, n);
    }
}

/// What was set in an object is read back, and nothing else of it has changed.
pub proof fn set_members_are_read_back(t: Tree, key: Seq<char>, value: Tree, other: Seq<char>)
    ensures
        member(with_member(t, key, value), key) == Some(value),
        t is Object && other != key ==> member(with_member(t, key, value), other) == member(t, other),
        !(t is Object) && other != key ==> member(with_member(t, key, value), other) is None,
{
    match t {
        Tree::Object(fields) => {
            super::field_after_set(fields, key, value, key);
            super::field_after_set(fields, key, value, other);
        },
        _ => {
            let one = seq![(key, value)];
            assert(one.drop_first() =~= Seq::<(Seq<char>, Tree)>::empty());
            assert(field(one.drop_first(), other) is None);
        },
    }
}

/// The first field of a name is the one that is read.
pub proof fn members_are_first_fields(fields: Seq<(Seq<char>, Tree)>, key: Seq<char>)
    ensures
        match member(Tree::Object(fields), key) {
            Some(value) => exists|i: int|
                0 <= i < fields.len() && #[trigger] fields[i] == (key, value) && forall|j: int|
                    0 <= j < i ==> (#[trigger] fields[j]).0 != key,
            None => forall|j: int| 0 <= j < fields.len() ==> (#[trigger] fields[j]).0 != key,
        },
    decreases fields.len(),
{
    if fields.len() > 0 && fields[0].0 == key {
        assert(fields[0] == (key, fields[0].1));
    } else if fields.len() > 0 {
        let rest = fields.drop_first();
        members_are_first_fields(rest, key);
        match field(rest, key) {
            Some(value) => {
                let i = choose|i: int|
                    0 <= i < rest.len() && #[trigger] rest[i] == (key, value) && forall|j: int|
                        0 <= j < i ==> (#[trigger] rest[j]).0 != key;
                assert(fields[i + 1] == (key, value));
                assert forall|j: int| 0 <= j < i + 1 implies (#[trigger] fields[j]).0 != key by {
                    if j > 0 {
                        assert(rest[j - 1].0 != key);
                    }
                }
            },
            None => {
                assert forall|j: int| 0 <= j < fields.len() implies (#[trigger] fields[j]).0 != key by {
                    if j > 0 {
                        assert(rest[j - 1].0 != key);
                    }
                }
            },
        }
    }
}

/// A key as a pointer segment: `~` is written `~0` and `/` is written `~1`.
pub open spec fn segment_of(key: Seq<char>) -> Seq<char>
    decreases key.len(),
{
    if key.len() == 0 {
        key
    } else if key[0] == '~' {
        seq!['~', '0'] + segment_of(key.drop_first())
    } else if key[0] == '/' {
        seq!['~', '1'] + segment_of(key.drop_first())
    } else {
        seq![key[0]] + segment_of(key.drop_first())
    }
}

proof fn segments_read_back(key: Seq<char>)
    ensures
        unescaped(segment_of(key)) == key,
        forall|i: int| 0 <= i < segment_of(key).len() ==> #[trigger] segment_of(key)[i] != '/',
        segment_of(key).len() > 0 ==> key.len() > 0,
    decreases key.len(),
{
    if key.len() > 0 {
        let rest = key.drop_first();
        segments_read_back(rest);
        let s = segment_of(key);
        let t = segment_of(rest);
        if key[0] == '~' || key[0] == '/' {
            assert(s.subrange(2, s.len() as int) =~= t);
            assert(unescaped(s) =~= key);
        } else {
            assert(s.drop_first() =~= t);
            assert(unescaped(s) =~= key);
        }
    }
}

proof fn segment_ends(text: Seq<char>, rest: Seq<char>)
    requires
        forall|i: int| 0 <= i < text.len() ==> #[trigger] text[i] != '/',
        rest.len() == 0 || rest[0] == '/',
    ensures
        segment_end(text + rest) == text.len(),
    decreases text.len(),
{
    let all = text + rest;
    if text.len() == 0 {
        assert(all =~= rest);
    } else {
        assert(all[0] == text[0]);
        assert(all.drop_first() =~= text.drop_first() + rest);
        segment_ends(text.drop_first(), rest);
    }
}

/// A pointer leads step by step: no segment stays, a segment enters the member of that key,
/// and a pointer that does not begin with a slash leads nowhere.
pub proof fn pointers_lead_through_their_segments(t: Tree, key: Seq<char>, rest: Seq<char>)
    requires
        rest.len() == 0 || rest[0] == '/',
    ensures
        resolved(t, Seq::empty()) == Some(t),
        t is Object ==> resolved(t, seq!['/'] + segment_of(key) + rest) == (match member(t, key) {
            Some(next) => resolved(next, rest),
            None => None,
        }),
        !(t is Object) && !(t is Array) ==> resolved(t, seq!['/'] + segment_of(key) + rest) is None,
        forall|p: Seq<char>| p.len() > 0 && p[0] != '/' ==> #[trigger] resolved(t, p) is None,
{
    let s = segment_of(key);
    segments_read_back(key);
    segment_ends(s, rest);
    let p = seq!['/'] + s + rest;
    assert(p.drop_first() =~= s + rest);
    assert((s + rest).subrange(0, s.len() as int) =~= s);
    assert((s + rest).subrange(s.len() as int, (s + rest).len() as int) =~= rest);
    assert(p[0] == '/');
}

proof fn decimals_read_back(n: nat)
    ensures
        digits_value(decimal(n)) == n,
        is_index(decimal(n)),
        n > 0 ==> decimal(n)[0] != '0',
    decreases n,
{
    let d = decimal(n);
    if n >= 10 {
        decimals_read_back(n / 10);
        assert(d.drop_last() =~= decimal(n / 10));
        assert(d.last() as u32 == 48 + n % 10);
        assert(d[0] == decimal(n / 10)[0]);
    } else {
        assert(d.last() as u32 == 48 + n);
        assert(digits_value(d.drop_last()) == 0);
        assert(d.drop_last() =~= Seq::<char>::empty());
    }
}

/// A decimal number leads to that item of an array, and past the end nowhere.
pub proof fn pointers_count_items(items: Seq<Tree>, n: nat, rest: Seq<char>)
    requires
        rest.len() == 0 || rest[0] == '/',
    ensures
        resolved(Tree::Array(items), seq!['/'] + decimal(n) + rest) == (if n < items.len() {
            resolved(items[n as int], rest)
        } else {
            None
        }),
{
    let s = decimal(n);
    decimals_read_back(n);
    assert forall|i: int| 0 <= i < s.len() implies #[trigger] s[i] != '/' && s[i] != '~' by {}
    plain_segments(s);
    segment_ends(s, rest);
    let p = seq!['/'] + s + rest;
    assert(p.drop_first() =~= s + rest);
    assert((s + rest).subrange(0, s.len() as int) =~= s);
    assert((s + rest).subrange(s.len() as int, (s + rest).len() as int) =~= rest);
    assert(p[0] == '/');
    assert(stepped(Tree::Array(items), s) == (if n < items.len() { Some(items[n as int]) } else { None }));
}

proof fn plain_segments(text: Seq<char>)
    requires
        forall|i: int| 0 <= i < text.len() ==> #[trigger] text[i] != '~',
    ensures
        unescaped(text) == text,
    decreases text.len(),
{
    if text.len() > 0 {
        plain_segments(text.drop_first());
        assert(seq![text[0]] + text.drop_first() =~= text);
    }
}

/// What is read from an object in which a field was set.
pub broadcast proof fn read_after_set(t: Tree, key: Seq<char>, value: Tree, other: Seq<char>)
    ensures
        (#[trigger] member(with_member(t, key, value), other)) == (if other == key {
            Some(value)
        } else if t is Object {
            member(t, other)
        } else {
            None
        }),
{
    set_members_are_read_back(t, key, value, other);
}

/// A value in which a field was set is an object.
pub broadcast proof fn set_makes_object(t: Tree, key: Seq<char>, value: Tree)
    ensures
        (#[trigger] with_member(t, key, value)) is Object,
{
}

pub broadcast group group_members {
    read_after_set,
    set_makes_object,
}

} // verus!
