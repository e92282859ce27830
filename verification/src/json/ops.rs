//! Operations on JSON values.
use super::{
    alike, depth, depth_fields, depth_fields_part, depth_items, depth_items_part, encoded, encoded_fields, encoded_items, encoded_size, field, fields_of, group_json, int_order, is_exact,
    is_number, json_quoted, member, number_order, parts, scaled_order, tree, trees, with_field, with_member,
    Json, Order, Real, Tree,
};
use crate::text::{before, decimal, decimal_text, same, utf8_len};
use vstd::arithmetic::power2::pow2;
use vstd::prelude::*;

verus! {

broadcast use group_json;

/// `Display` of a `serde_json::Value` that is a string: the text in quotes, in which the
/// quote, the backslash and the characters below the space are escaped. Backspace, tab,
/// line feed, form feed and carriage return have a short form; the others are written
/// with four hexadecimal digits in lower case.
#[verifier::external_body]
fn quoted(text: &str) -> (r: String)
    ensures
        r@ == json_quoted(text@),
{
    serde_json::Value::from(text).to_string()
}

proof fn pow2_pair(n: nat)
    ensures
        pow2(n + 1) == 2 * pow2(n),
        pow2(n) > 0,
{
    vstd::arithmetic::power2::lemma_pow2_unfold(n + 1);
    vstd::arithmetic::power2::lemma_pow2_pos(n);
}

proof fn pow2_grows(n: nat)
    ensures
        pow2(0) == 1,
        n >= 64 ==> pow2(n) >= 0x1_0000_0000_0000_0000,
    decreases n,
{
    vstd::arithmetic::power2::lemma2_to64();
    if n > 64 {
        pow2_pair((n - 1) as nat);
        pow2_grows((n - 1) as nat);
    }
}

/// `m * 2^d`.
fn shifted(m: i128, d: u32) -> (r: i128)
    requires
        -0x1_0000_0000_0000_0000 < m < 0x1_0000_0000_0000_0000,
        d <= 63,
    ensures
        r == m * pow2(d as nat),
{
    let mut r: i128 = m;
    let mut k: u32 = 0;
    proof {
        pow2_grows(0);
        assert(m * pow2(0) == m) by (nonlinear_arith)
            requires
                pow2(0) == 1,
        ;
    }
    while k < d
        invariant
            k <= d <= 63,
            -0x1_0000_0000_0000_0000 < m < 0x1_0000_0000_0000_0000,
            r == m * pow2(k as nat),
        decreases d - k,
    {
        proof {
            pow2_pair(k as nat);
            vstd::arithmetic::power2::lemma_pow2_strictly_increases(k as nat, 63);
            vstd::arithmetic::power2::lemma2_to64_rest();
            vstd::arithmetic::power2::lemma2_to64();
            let p = pow2(k as nat) as int;
            assert(2 * (m * p) == m * (2 * p)) by (nonlinear_arith);
            assert(2 * p <= 0x8000_0000_0000_0000);
            assert(-0x8000_0000_0000_0000_0000_0000_0000_0000 <= m * (2 * p) <= 0x7fff_ffff_ffff_ffff_ffff_ffff_ffff_ffff)
                by (nonlinear_arith)
                requires
                    -0x1_0000_0000_0000_0000 < m < 0x1_0000_0000_0000_0000,
                    0 < p,
                    2 * p <= 0x8000_0000_0000_0000,
            ;
        }
        r = r * 2;
        k = k + 1;
    }
    r
}

fn ordered(a: i128, b: i128) -> (r: Order)
    ensures
        r == int_order(a as int, b as int),
{
    if a < b {
        Order::Less
    } else if a == b {
        Order::Equal
    } else {
        Order::Greater
    }
}

/// Order of `m * 2^d` and `n`.
fn lifted_order(m: i128, d: u32, n: i128) -> (r: Order)
    requires
        -0x1_0000_0000_0000_0000 < m < 0x1_0000_0000_0000_0000,
        -0x1_0000_0000_0000_0000 < n < 0x1_0000_0000_0000_0000,
    ensures
        r == int_order(m * pow2(d as nat), n as int),
{
    if d <= 63 {
        return ordered(shifted(m, d), n);
    }
    proof {
        pow2_grows(d as nat);
        let p = pow2(d as nat) as int;
        assert(m > 0 ==> m * p >= 0x1_0000_0000_0000_0000) by (nonlinear_arith)
            requires
                p >= 0x1_0000_0000_0000_0000,
        ;
        assert(m < 0 ==> m * p <= -0x1_0000_0000_0000_0000) by (nonlinear_arith)
            requires
                p >= 0x1_0000_0000_0000_0000,
        ;
        assert(m == 0 ==> m * p == 0) by (nonlinear_arith);
    }
    if m > 0 {
        Order::Greater
    } else if m < 0 {
        Order::Less
    } else {
        ordered(0, n)
    }
}

fn scaled_compare(m1: i128, e1: i16, m2: i128, e2: i16) -> (r: Order)
    requires
        -0x1_0000_0000_0000_0000 < m1 < 0x1_0000_0000_0000_0000,
        -0x1_0000_0000_0000_0000 < m2 < 0x1_0000_0000_0000_0000,
    ensures
        r == scaled_order(m1 as int, e1 as int, m2 as int, e2 as int),
{
    if e1 >= e2 {
        let d: u32 = (e1 as i32 - e2 as i32) as u32;
        lifted_order(m1, d, m2)
    } else {
        let d: u32 = (e2 as i32 - e1 as i32) as u32;
        match lifted_order(m2, d, m1) {
            Order::Less => Order::Greater,
            Order::Equal => Order::Equal,
            Order::Greater => Order::Less,
        }
    }
}

impl Clone for Json {
    fn clone(&self) -> (r: Self)
        ensures
            r@ == self@,
    {
        self.copy()
    }
}

impl Json {
    pub fn copy(&self) -> (r: Json)
        ensures
            r@ == self@,
        decreases self,
    {
        match self {
            Json::Null => Json::Null,
            Json::Bool(b) => Json::Bool(*b),
            Json::Unsigned(n) => Json::Unsigned(*n),
            Json::Negative(n) => Json::Negative(*n),
            Json::Real(r) => Json::Real(Real { text: r.text.clone(), mantissa: r.mantissa, exponent: r.exponent }),
            Json::Text(s) => Json::Text(s.clone()),
            Json::Array(items) => {
                let mut out: Vec<Json> = Vec::new();
                let mut i: usize = 0;
                while i < items.len()
                    invariant
                        i <= items.len(),
                        out.len() == i,
                        *self == Json::Array(*items),
                        forall|j: int| 0 <= j < i ==> tree(#[trigger] out@[j]) == tree(items@[j]),
                    decreases items.len() - i,
                {
                    assert(decreases_to!(self => self->Array_0));
                    out.push(items[i].copy());
                    i = i + 1;
                }
                assert(trees(out@) =~= trees(items@));
                Json::Array(out)
            },
            Json::Object(fields) => {
                let mut out: Vec<(String, Json)> = Vec::new();
                let mut i: usize = 0;
                while i < fields.len()
                    invariant
                        i <= fields.len(),
                        out.len() == i,
                        *self == Json::Object(*fields),
                        forall|j: int| 0 <= j < i ==> (#[trigger] out@[j]).0@ == fields@[j].0@ && tree(out@[j].1) == tree(fields@[j].1),
                    decreases fields.len() - i,
                {
                    assert(decreases_to!(self => self->Object_0));
                    assert(decreases_to!(fields@[i as int] => fields@[i as int].1));
                    out.push((fields[i].0.clone(), fields[i].1.copy()));
                    i = i + 1;
                }
                assert(fields_of(out@) =~= fields_of(fields@));
                Json::Object(out)
            },
        }
    }

    fn scale(&self) -> (r: Option<(i128, i16)>)
        ensures
            match r {
                Some((m, e)) => parts(self@) == Some((m as int, e as int)) && -0x1_0000_0000_0000_0000 < m
                    < 0x1_0000_0000_0000_0000,
                None => parts(self@) is None,
            },
    {
        match self {
            Json::Unsigned(n) => Some((*n as i128, 0)),
            Json::Negative(n) => Some((*n as i128, 0)),
            Json::Real(r) => Some((r.mantissa as i128, r.exponent)),
            _ => None,
        }
    }

    pub fn number(&self) -> (r: bool)
        ensures
            r == is_number(self@),
    {
        self.scale().is_some()
    }

    /// Whether this is a number of magnitude at most `2^53`.
    pub fn exact(&self) -> (r: bool)
        ensures
            r == is_exact(self@),
    {
        match self.scale() {
            Some((m, e)) => scaled_compare(m, e, 9007199254740992, 0) != Order::Greater && scaled_compare(
                m,
                e,
                -9007199254740992,
                0,
            ) != Order::Less,
            None => false,
        }
    }

    /// How two numbers compare; nothing for other values.
    pub fn against(&self, other: &Json) -> (r: Option<Order>)
        ensures
            match r {
                Some(o) => is_number(self@) && is_number(other@) && o == number_order(self@, other@),
                None => !is_number(self@) || !is_number(other@),
            },
    {
        match (self.scale(), other.scale()) {
            (Some((m1, e1)), Some((m2, e2))) => Some(scaled_compare(m1, e1, m2, e2)),
            _ => None,
        }
    }

    pub fn equals(&self, other: &Json) -> (r: bool)
        ensures
            r == alike(self@, other@),
        decreases self,
    {
        match (self, other) {
            (Json::Null, Json::Null) => true,
            (Json::Bool(a), Json::Bool(b)) => *a == *b,
            (Json::Unsigned(a), Json::Unsigned(b)) => *a == *b,
            (Json::Negative(a), Json::Negative(b)) => *a == *b,
            (Json::Text(a), Json::Text(b)) => same(a, b),
            (Json::Real(a), Json::Real(b)) => scaled_compare(a.mantissa as i128, a.exponent, b.mantissa as i128, b.exponent)
                == Order::Equal,
            (Json::Array(a), Json::Array(b)) => {
                assert(self@ == Tree::Array(trees(a@)) && other@ == Tree::Array(trees(b@)));
                assert(trees(a@).len() == a.len() && trees(b@).len() == b.len());
                if a.len() != b.len() {
                    return false;
                }
                let mut i: usize = 0;
                while i < a.len()
                    invariant
                        i <= a.len() == b.len(),
                        *self == Json::Array(*a),
                        *other == Json::Array(*b),
                        self@ == Tree::Array(trees(a@)),
                        other@ == Tree::Array(trees(b@)),
                        forall|j: int| 0 <= j < i ==> alike(tree(#[trigger] a@[j]), tree(b@[j])),
                    decreases a.len() - i,
                {
                    assert(decreases_to!(self => self->Array_0));
                    if !a[i].equals(&b[i]) {
                        assert(!alike(trees(a@)[i as int], trees(b@)[i as int]));
                        return false;
                    }
                    i = i + 1;
                }
                assert forall|j: int| 0 <= j < a.len() implies alike(#[trigger] trees(a@)[j], trees(b@)[j]) by {
                    assert(alike(tree(a@[j]), tree(b@[j])));
                }
                true
            },
            (Json::Object(a), Json::Object(b)) => {
                assert(self@ == Tree::Object(fields_of(a@)) && other@ == Tree::Object(fields_of(b@)));
                assert(fields_of(a@).len() == a.len() && fields_of(b@).len() == b.len());
                if a.len() != b.len() {
                    return false;
                }
                let mut i: usize = 0;
                while i < a.len()
                    invariant
                        i <= a.len() == b.len(),
                        *self == Json::Object(*a),
                        *other == Json::Object(*b),
                        self@ == Tree::Object(fields_of(a@)),
                        other@ == Tree::Object(fields_of(b@)),
                        forall|j: int| 0 <= j < i ==> (#[trigger] a@[j]).0@ == b@[j].0@ && alike(tree(a@[j].1), tree(b@[j].1)),
                    decreases a.len() - i,
                {
                    assert(decreases_to!(self => self->Object_0));
                    assert(decreases_to!(a@[i as int] => a@[i as int].1));
                    if !same(&a[i].0, &b[i].0) || !a[i].1.equals(&b[i].1) {
                        assert(!(fields_of(a@)[i as int].0 == fields_of(b@)[i as int].0 && alike(
                            fields_of(a@)[i as int].1,
                            fields_of(b@)[i as int].1,
                        )));
                        return false;
                    }
                    i = i + 1;
                }
                assert forall|j: int| 0 <= j < a.len() implies (#[trigger] fields_of(a@)[j]).0 == fields_of(b@)[j].0
                    && alike(fields_of(a@)[j].1, fields_of(b@)[j].1) by {
                    assert(a@[j].0@ == b@[j].0@ && alike(tree(a@[j].1), tree(b@[j].1)));
                }
                true
            },
            _ => false,
        }
    }

    /// The value of a field of an object.
    pub fn get(&self, key: &str) -> (r: Option<&Json>)
        ensures
            match r {
                Some(v) => member(self@, key@) == Some(v@),
                None => member(self@, key@) is None,
            },
    {
        match self {
            Json::Object(fields) => {
                let ghost all = fields_of(fields@);
                let mut i: usize = 0;
                assert(all.subrange(0, all.len() as int) =~= all);
                while i < fields.len()
                    invariant
                        i <= fields.len(),
                        self@ == Tree::Object(all),
                        all == fields_of(fields@),
                        field(all, key@) == field(all.subrange(i as int, all.len() as int), key@),
                    decreases fields.len() - i,
                {
                    let ghost rest = all.subrange(i as int, all.len() as int);
                    assert(rest[0] == all[i as int]);
                    assert(rest.drop_first() =~= all.subrange(i + 1, all.len() as int));
                    if same(&fields[i].0, key) {
                        return Some(&fields[i].1);
                    }
                    i = i + 1;
                }
                None
            },
            _ => None,
        }
    }

    /// Sets a field; a value that is no object becomes one.
    pub fn set(&mut self, key: &str, value: Json)
        ensures
            final(self)@ == with_member(old(self)@, key@, value@),
    {
        let mut fields: Vec<(String, Json)> = match self {
            Json::Object(fields) => {
                let mut taken: Vec<(String, Json)> = Vec::new();
                std::mem::swap(&mut taken, fields);
                taken
            },
            _ => Vec::new(),
        };
        let ghost all = fields_of(fields@);
        let ghost v = value@;
        let mut i: usize = 0;
        assert(all.subrange(0, all.len() as int) =~= all);
        assert(all.subrange(0, 0) + with_field(all, key@, v) =~= with_field(all, key@, v));
        while i < fields.len() && !same(&fields[i].0, key) && !before(key, &fields[i].0)
            invariant
                i <= fields.len(),
                all == fields_of(fields@),
                with_field(all, key@, v) == all.subrange(0, i as int) + with_field(all.subrange(i as int, all.len() as int), key@, v),
            decreases fields.len() - i,
        {
            proof {
                let rest = all.subrange(i as int, all.len() as int);
                assert(rest[0] == all[i as int]);
                assert(rest.drop_first() =~= all.subrange(i + 1, all.len() as int));
                assert(all.subrange(0, i as int) + (seq![rest[0]] + with_field(rest.drop_first(), key@, v)) =~= all.subrange(
                    0,
                    i + 1,
                ) + with_field(all.subrange(i + 1, all.len() as int), key@, v));
            }
            i = i + 1;
        }
        let ghost rest = all.subrange(i as int, all.len() as int);
        let ghost front = all.subrange(0, i as int);
        if i < fields.len() && same(&fields[i].0, key) {
            let entry = (crate::text::copied(key), value);
            let ghost e = entry;
            let ghost was = fields@;
            fields.set(i, entry);
            proof {
                assert(fields@ == was.update(i as int, e));
                assert(rest[0] == all[i as int]);
                assert(fields_of(fields@) =~= front + (seq![(key@, v)] + rest.drop_first()));
            }
        } else {
            let entry = (crate::text::copied(key), value);
            let ghost e = entry;
            let ghost was = fields@;
            fields.insert(i, entry);
            proof {
                assert(fields@ == was.insert(i as int, e));
                if rest.len() > 0 {
                    assert(rest[0] == all[i as int]);
                }
                assert(with_field(rest, key@, v) =~= seq![(key@, v)] + rest);
                assert(fields_of(fields@) =~= front + (seq![(key@, v)] + rest));
            }
        }
        *self = Json::Object(fields);
    }

    /// Whether no value lies deeper than `limit` levels below the root.
    pub fn within_depth(&self, limit: usize) -> (r: bool)
        ensures
            r == (depth(self@) <= limit),
        decreases self,
    {
        match self {
            Json::Array(items) => {
                let ghost all = trees(items@);
                let mut i: usize = 0;
                while i < items.len()
                    invariant
                        i <= items.len(),
                        *self == Json::Array(*items),
                        self@ == Tree::Array(all),
                        all == trees(items@),
                        depth_items(all.subrange(0, i as int)) <= limit,
                    decreases items.len() - i,
                {
                    assert(decreases_to!(self => self->Array_0));
                    proof {
                        assert(all.len() == items.len());
                        let now = all.subrange(0, i + 1);
                        assert(now.drop_last() =~= all.subrange(0, i as int));
                        assert(now.last() == tree(items@[i as int]));
                        depth_items_part(all, i + 1);
                    }
                    if limit == 0 || !items[i].within_depth(limit - 1) {
                        return false;
                    }
                    i = i + 1;
                }
                assert(all.subrange(0, all.len() as int) =~= all);
                true
            },
            Json::Object(fields) => {
                let ghost all = fields_of(fields@);
                let mut i: usize = 0;
                while i < fields.len()
                    invariant
                        i <= fields.len(),
                        *self == Json::Object(*fields),
                        self@ == Tree::Object(all),
                        all == fields_of(fields@),
                        depth_fields(all.subrange(0, i as int)) <= limit,
                    decreases fields.len() - i,
                {
                    assert(decreases_to!(self => self->Object_0));
                    assert(decreases_to!(fields@[i as int] => fields@[i as int].1));
                    proof {
                        assert(all.len() == fields.len());
                        let now = all.subrange(0, i + 1);
                        assert(now.drop_last() =~= all.subrange(0, i as int));
                        assert(now.last() == all[i as int]);
                        depth_fields_part(all, i + 1);
                    }
                    if limit == 0 || !fields[i].1.within_depth(limit - 1) {
                        return false;
                    }
                    i = i + 1;
                }
                assert(all.subrange(0, all.len() as int) =~= all);
                true
            },
            _ => true,
        }
    }

    /// Appends the compact rendering.
    pub fn write(&self, out: &mut String)
        ensures
            final(out)@ == old(out)@ + encoded(self@),
        decreases self,
    {
        match self {
            Json::Null => out.append("null"),
            Json::Bool(b) => if *b { out.append("true") } else { out.append("false") },
            Json::Unsigned(n) => out.append(decimal_text(*n).as_str()),
            Json::Negative(n) => {
                let v: i64 = *n;
                if v < 0 {
                    out.append("-");
                    out.append(decimal_text((-(v as i128)) as u64).as_str());
                    assert(out@ =~= old(out)@ + ("-"@ + decimal((-v) as nat)));
                } else {
                    out.append(decimal_text(v as u64).as_str());
                }
            },
            Json::Real(r) => out.append(r.text.as_str()),
            Json::Text(s) => out.append(quoted(s).as_str()),
            Json::Array(items) => {
                let ghost all = trees(items@);
                let ghost start = out@;
                out.append("[");
                let mut i: usize = 0;
                assert(out@ =~= start + "["@ + encoded_items(all.subrange(0, 0)));
                while i < items.len()
                    invariant
                        i <= items.len(),
                        *self == Json::Array(*items),
                        all == trees(items@),
                        out@ == start + "["@ + encoded_items(all.subrange(0, i as int)),
                    decreases items.len() - i,
                {
                    assert(decreases_to!(self => self->Array_0));
                    let ghost had = out@;
                    if i > 0 {
                        out.append(",");
                    }
                    items[i].write(out);
                    proof {
                        let now = all.subrange(0, i + 1);
                        assert(now.drop_last() =~= all.subrange(0, i as int));
                        assert(now.last() == tree(items@[i as int]));
                        assert(out@ =~= start + "["@ + encoded_items(now));
                    }
                    i = i + 1;
                }
                assert(all.subrange(0, all.len() as int) =~= all);
                out.append("]");
                assert(out@ =~= start + ("["@ + encoded_items(all) + "]"@));
            },
            Json::Object(fields) => {
                let ghost all = fields_of(fields@);
                let ghost start = out@;
                out.append("{");
                let mut i: usize = 0;
                assert(out@ =~= start + "{"@ + encoded_fields(all.subrange(0, 0)));
                while i < fields.len()
                    invariant
                        i <= fields.len(),
                        *self == Json::Object(*fields),
                        all == fields_of(fields@),
                        out@ == start + "{"@ + encoded_fields(all.subrange(0, i as int)),
                    decreases fields.len() - i,
                {
                    assert(decreases_to!(self => self->Object_0));
                    assert(decreases_to!(fields@[i as int] => fields@[i as int].1));
                    if i > 0 {
                        out.append(",");
                    }
                    out.append(quoted(&fields[i].0).as_str());
                    out.append(":");
                    fields[i].1.write(out);
                    proof {
                        let now = all.subrange(0, i + 1);
                        assert(now.drop_last() =~= all.subrange(0, i as int));
                        assert(now.last() == all[i as int]);
                        assert(out@ =~= start + "{"@ + encoded_fields(now));
                    }
                    i = i + 1;
                }
                assert(all.subrange(0, all.len() as int) =~= all);
                out.append("}");
                assert(out@ =~= start + ("{"@ + encoded_fields(all) + "}"@));
            },
        }
    }

    pub fn render(&self) -> (r: String)
        ensures
            r@ == encoded(self@),
    {
        let mut out = String::new();
        self.write(&mut out);
        assert(out@ =~= encoded(self@));
        out
    }

    pub fn size(&self) -> (n: usize)
        ensures
            n == encoded_size(self@),
    {
        utf8_len(self.render().as_str())
    }
}

} // verus!
