//! JSON values as the core sees them: a tree of plain values.
//!
//! Numbers with a fractional part or an exponent are carried by their exact
//! value `mantissa * 2^exponent` together with their printed form.
pub mod laws;
mod ops;
mod pointer;
pub mod values;

use crate::text::{byte_len, decimal, hex, less};
use vstd::arithmetic::power2::pow2;
use vstd::prelude::*;

verus! {

/// A number that is neither an unsigned nor a negative 64-bit integer.
pub struct Real {
    pub text: String,
    pub mantissa: i64,
    pub exponent: i16,
}

/// A JSON value. An object lists its fields in ascending key order.
pub enum Json {
    Null,
    Bool(bool),
    Unsigned(u64),
    Negative(i64),
    Real(Real),
    Text(String),
    Array(Vec<Json>),
    Object(Vec<(String, Json)>),
}

/// The mathematical content of a JSON value.
#[verifier::ext_equal]
pub enum Tree {
    Null,
    Bool(bool),
    Unsigned(u64),
    Negative(i64),
    Real { text: Seq<char>, mantissa: i64, exponent: i16 },
    Text(Seq<char>),
    Array(Seq<Tree>),
    Object(Seq<(Seq<char>, Tree)>),
}

pub open spec fn tree(value: Json) -> Tree
    decreases value,
{
    match value {
        Json::Null => Tree::Null,
        Json::Bool(b) => Tree::Bool(b),
        Json::Unsigned(n) => Tree::Unsigned(n),
        Json::Negative(n) => Tree::Negative(n),
        Json::Real(r) => Tree::Real { text: r.text@, mantissa: r.mantissa, exponent: r.exponent },
        Json::Text(s) => Tree::Text(s@),
        Json::Array(items) => Tree::Array(trees(items@)),
        Json::Object(fields) => Tree::Object(fields_of(fields@)),
    }
}

pub open spec fn trees(items: Seq<Json>) -> Seq<Tree>
    decreases items,
{
    if items.len() == 0 { Seq::empty() } else { trees(items.drop_last()).push(tree(items.last())) }
}

pub open spec fn fields_of(fields: Seq<(String, Json)>) -> Seq<(Seq<char>, Tree)>
    decreases fields,
{
    if fields.len() == 0 {
        Seq::empty()
    } else {
        fields_of(fields.drop_last()).push((fields.last().0@, tree(fields.last().1)))
    }
}

pub broadcast proof fn trees_len(items: Seq<Json>)
    ensures
        #[trigger] trees(items).len() == items.len(),
    decreases items,
{
    if items.len() > 0 {
        trees_len(items.drop_last());
    }
}

pub broadcast proof fn trees_at(items: Seq<Json>, i: int)
    requires
        0 <= i < items.len(),
    ensures
        #[trigger] trees(items)[i] == tree(items[i]),
    decreases items,
{
    trees_len(items.drop_last());
    if i < items.len() - 1 {
        trees_at(items.drop_last(), i);
        assert(items.drop_last()[i] == items[i]);
    }
}

pub broadcast proof fn fields_len(fields: Seq<(String, Json)>)
    ensures
        #[trigger] fields_of(fields).len() == fields.len(),
    decreases fields,
{
    if fields.len() > 0 {
        fields_len(fields.drop_last());
    }
}

pub broadcast proof fn fields_at(fields: Seq<(String, Json)>, i: int)
    requires
        0 <= i < fields.len(),
    ensures
        #[trigger] fields_of(fields)[i] == (fields[i].0@, tree(fields[i].1)),
    decreases fields,
{
    fields_len(fields.drop_last());
    if i < fields.len() - 1 {
        fields_at(fields.drop_last(), i);
        assert(fields.drop_last()[i] == fields[i]);
    }
}

pub broadcast group group_json {
    trees_len,
    trees_at,
    fields_len,
    fields_at,
}

impl View for Json {
    type V = Tree;

    open spec fn view(&self) -> Tree {
        tree(*self)
    }
}

/// How two numbers compare.
#[derive(Clone, Copy, Debug, PartialEq, Eq, Structural)]
pub enum Order {
    Less,
    Equal,
    Greater,
}

pub open spec fn int_order(a: int, b: int) -> Order {
    if a < b { Order::Less } else if a == b { Order::Equal } else { Order::Greater }
}

/// Order of `m1 * 2^e1` and `m2 * 2^e2`.
pub open spec fn scaled_order(m1: int, e1: int, m2: int, e2: int) -> Order {
    if e1 >= e2 { int_order(m1 * pow2((e1 - e2) as nat), m2) } else { int_order(m1, m2 * pow2((e2 - e1) as nat)) }
}

/// A number as mantissa and binary exponent.
pub open spec fn parts(t: Tree) -> Option<(int, int)> {
    match t {
        Tree::Unsigned(n) => Some((n as int, 0)),
        Tree::Negative(n) => Some((n as int, 0)),
        Tree::Real { text, mantissa, exponent } => Some((mantissa as int, exponent as int)),
        _ => None,
    }
}

pub open spec fn is_number(t: Tree) -> bool {
    parts(t) is Some
}

pub open spec fn number_order(a: Tree, b: Tree) -> Order {
    match (parts(a), parts(b)) {
        (Some((m1, e1)), Some((m2, e2))) => scaled_order(m1, e1, m2, e2),
        _ => Order::Equal,
    }
}

/// `2^53`: integers up to here are exact in binary64.
pub const EXACT: u64 = 9007199254740992;

/// A number of magnitude at most `2^53`.
pub open spec fn is_exact(t: Tree) -> bool {
    match parts(t) {
        Some((m, e)) => scaled_order(m, e, EXACT as int, 0) != Order::Greater && scaled_order(m, e, -(EXACT as int), 0)
            != Order::Less,
        None => false,
    }
}

/// Equality of values: numbers of one kind by value, the rest by content.
pub open spec fn alike(a: Tree, b: Tree) -> bool
    decreases a,
{
    match (a, b) {
        (Tree::Real { text: t1, mantissa: m1, exponent: e1 }, Tree::Real { text: t2, mantissa: m2, exponent: e2 }) => scaled_order(
            m1 as int,
            e1 as int,
            m2 as int,
            e2 as int,
        ) == Order::Equal,
        (Tree::Array(x), Tree::Array(y)) => x.len() == y.len() && forall|i: int|
            0 <= i < x.len() && i < y.len() ==> alike(#[trigger] x[i], y[i]),
        (Tree::Object(x), Tree::Object(y)) => x.len() == y.len() && forall|i: int|
            0 <= i < x.len() && i < y.len() ==> (#[trigger] x[i]).0 == y[i].0 && alike(x[i].1, y[i].1),
        _ => a == b,
    }
}

/// Every value equals itself.
pub proof fn alike_reflexive(t: Tree)
    ensures
        alike(t, t),
    decreases t,
{
    match t {
        Tree::Real { text, mantissa, exponent } => {
            vstd::arithmetic::power2::lemma2_to64();
            assert(pow2((exponent as int - exponent as int) as nat) == 1);
            assert(mantissa * 1 == mantissa);
        },
        Tree::Array(x) => {
            assert forall|i: int| 0 <= i < x.len() implies alike(#[trigger] x[i], x[i]) by {
                alike_reflexive(x[i]);
            }
        },
        Tree::Object(x) => {
            assert forall|i: int| 0 <= i < x.len() implies alike((#[trigger] x[i]).1, x[i].1) by {
                alike_reflexive(x[i].1);
            }
        },
        _ => {},
    }
}

/// The value of the first field with this key.
pub open spec fn field(fields: Seq<(Seq<char>, Tree)>, key: Seq<char>) -> Option<Tree>
    decreases fields.len(),
{
    if fields.len() == 0 {
        None
    } else if fields[0].0 == key {
        Some(fields[0].1)
    } else {
        field(fields.drop_first(), key)
    }
}

pub open spec fn member(t: Tree, key: Seq<char>) -> Option<Tree> {
    match t {
        Tree::Object(fields) => field(fields, key),
        _ => None,
    }
}

/// The fields with `key` set to `value`, keeping ascending order.
pub open spec fn with_field(fields: Seq<(Seq<char>, Tree)>, key: Seq<char>, value: Tree) -> Seq<(Seq<char>, Tree)>
    decreases fields.len(),
{
    if fields.len() == 0 {
        seq![(key, value)]
    } else if fields[0].0 == key {
        seq![(key, value)] + fields.drop_first()
    } else if less(key, fields[0].0) {
        seq![(key, value)] + fields
    } else {
        seq![fields[0]] + with_field(fields.drop_first(), key, value)
    }
}

pub open spec fn with_member(t: Tree, key: Seq<char>, value: Tree) -> Tree {
    match t {
        Tree::Object(fields) => Tree::Object(with_field(fields, key, value)),
        _ => Tree::Object(seq![(key, value)]),
    }
}

/// Reading a field after setting one: the set field has its new value, every
/// other field keeps its own.
pub proof fn field_after_set(fields: Seq<(Seq<char>, Tree)>, key: Seq<char>, value: Tree, other: Seq<char>)
    ensures
        field(with_field(fields, key, value), other) == (if other == key { Some(value) } else { field(fields, other) }),
    decreases fields.len(),
{
    let new = with_field(fields, key, value);
    if fields.len() == 0 {
        assert(new.drop_first() =~= Seq::<(Seq<char>, Tree)>::empty());
        assert(field(new.drop_first(), other) is None);
    } else if fields[0].0 == key {
        assert(new.drop_first() =~= fields.drop_first());
        assert(new[0] == (key, value));
    } else if less(key, fields[0].0) {
        assert(new.drop_first() =~= fields);
        assert(new[0] == (key, value));
    } else {
        assert(new.drop_first() =~= with_field(fields.drop_first(), key, value));
        assert(new[0] == fields[0]);
        field_after_set(fields.drop_first(), key, value, other);
    }
}

pub open spec fn larger(a: nat, b: nat) -> nat {
    if a >= b { a } else { b }
}

/// Levels of nesting: none for a scalar or an empty collection.
pub open spec fn depth(t: Tree) -> nat
    decreases t, 1int,
{
    match t {
        Tree::Array(items) => depth_items(items),
        Tree::Object(fields) => depth_fields(fields),
        _ => 0,
    }
}

pub open spec fn depth_items(items: Seq<Tree>) -> nat
    decreases items, 0int,
{
    if items.len() == 0 { 0 } else { larger(depth_items(items.drop_last()), 1 + depth(items.last())) }
}

pub open spec fn depth_fields(fields: Seq<(Seq<char>, Tree)>) -> nat
    decreases fields, 0int,
{
    if fields.len() == 0 { 0 } else { larger(depth_fields(fields.drop_last()), 1 + depth(fields.last().1)) }
}

/// A part of a list nests no deeper than the list.
pub proof fn depth_items_part(items: Seq<Tree>, n: int)
    requires
        0 <= n <= items.len(),
    ensures
        depth_items(items.subrange(0, n)) <= depth_items(items),
    decreases items.len() - n,
{
    if n == items.len() {
        assert(items.subrange(0, n) =~= items);
    } else {
        depth_items_part(items, n + 1);
        assert(items.subrange(0, n + 1).drop_last() =~= items.subrange(0, n));
    }
}

pub proof fn depth_fields_part(fields: Seq<(Seq<char>, Tree)>, n: int)
    requires
        0 <= n <= fields.len(),
    ensures
        depth_fields(fields.subrange(0, n)) <= depth_fields(fields),
    decreases fields.len() - n,
{
    if n == fields.len() {
        assert(fields.subrange(0, n) =~= fields);
    } else {
        depth_fields_part(fields, n + 1);
        assert(fields.subrange(0, n + 1).drop_last() =~= fields.subrange(0, n));
    }
}

/// One character inside a quoted text: the quote, the backslash and the control
/// characters are escaped, five of these in a short form; all others stand as they are.
pub open spec fn escaped(c: char) -> Seq<char> {
    if c == '"' {
        seq!['\\', '"']
    } else if c == '\\' {
        seq!['\\', '\\']
    } else if c as u32 == 8 {
        seq!['\\', 'b']
    } else if c == '\t' {
        seq!['\\', 't']
    } else if c == '\n' {
        seq!['\\', 'n']
    } else if c as u32 == 12 {
        seq!['\\', 'f']
    } else if c == '\r' {
        seq!['\\', 'r']
    } else if (c as u32) < 32 {
        seq!['\\', 'u'] + hex(c as nat, 4)
    } else {
        seq![c]
    }
}

pub open spec fn escapes(text: Seq<char>) -> Seq<char>
    decreases text.len(),
{
    if text.len() == 0 { Seq::empty() } else { escapes(text.drop_last()) + escaped(text.last()) }
}

/// A text in quotes, with escapes.
pub open spec fn json_quoted(text: Seq<char>) -> Seq<char> {
    seq!['"'] + escapes(text) + seq!['"']
}

/// The compact rendering of a value.
pub open spec fn encoded(t: Tree) -> Seq<char>
    decreases t, 1int,
{
    match t {
        Tree::Null => "null"@,
        Tree::Bool(b) => if b { "true"@ } else { "false"@ },
        Tree::Unsigned(n) => decimal(n as nat),
        Tree::Negative(n) => if n < 0 { "-"@ + decimal((-n) as nat) } else { decimal(n as nat) },
        Tree::Real { text, mantissa, exponent } => text,
        Tree::Text(s) => json_quoted(s),
        Tree::Array(items) => "["@ + encoded_items(items) + "]"@,
        Tree::Object(fields) => "{"@ + encoded_fields(fields) + "}"@,
    }
}

pub open spec fn encoded_items(items: Seq<Tree>) -> Seq<char>
    decreases items, 0int,
{
    if items.len() == 0 {
        Seq::empty()
    } else if items.len() == 1 {
        encoded(items[0])
    } else {
        encoded_items(items.drop_last()) + ","@ + encoded(items.last())
    }
}

pub open spec fn encoded_fields(fields: Seq<(Seq<char>, Tree)>) -> Seq<char>
    decreases fields, 0int,
{
    if fields.len() == 0 {
        Seq::empty()
    } else if fields.len() == 1 {
        json_quoted(fields[0].0) + ":"@ + encoded(fields[0].1)
    } else {
        encoded_fields(fields.drop_last()) + ","@ + json_quoted(fields.last().0) + ":"@ + encoded(fields.last().1)
    }
}

/// Size in bytes of the compact rendering.
pub open spec fn encoded_size(t: Tree) -> nat {
    byte_len(encoded(t))
}

/// Position of the first `/`, or the end.
pub open spec fn segment_end(text: Seq<char>) -> nat
    decreases text.len(),
{
    if text.len() == 0 || text[0] == '/' { 0 } else { 1 + segment_end(text.drop_first()) }
}

/// A pointer segment with `~1` read as `/` and `~0` as `~`.
pub open spec fn unescaped(text: Seq<char>) -> Seq<char>
    decreases text.len(),
{
    if text.len() == 0 {
        text
    } else if text.len() >= 2 && text[0] == '~' && text[1] == '1' {
        seq!['/'] + unescaped(text.subrange(2, text.len() as int))
    } else if text.len() >= 2 && text[0] == '~' && text[1] == '0' {
        seq!['~'] + unescaped(text.subrange(2, text.len() as int))
    } else {
        seq![text[0]] + unescaped(text.drop_first())
    }
}

/// The number a digit sequence denotes.
pub open spec fn digits_value(text: Seq<char>) -> nat
    decreases text.len(),
{
    if text.len() == 0 { 0 } else { digits_value(text.drop_last()) * 10 + (text.last() as u32 - 48) as nat }
}

/// An array index: digits only, without a superfluous leading zero.
pub open spec fn is_index(text: Seq<char>) -> bool {
    &&& text.len() > 0
    &&& forall|i: int| 0 <= i < text.len() ==> '0' as u32 <= #[trigger] text[i] as u32 && text[i] as u32 <= '9' as u32
    &&& text[0] == '0' ==> text.len() == 1
}

pub open spec fn stepped(t: Tree, token: Seq<char>) -> Option<Tree> {
    match t {
        Tree::Object(fields) => field(fields, token),
        Tree::Array(items) => if is_index(token) && digits_value(token) < items.len() {
            Some(items[digits_value(token) as int])
        } else {
            None
        },
        _ => None,
    }
}

pub proof fn segment_end_bound(text: Seq<char>)
    ensures
        segment_end(text) <= text.len(),
    decreases text.len(),
{
    if text.len() > 0 && text[0] != '/' {
        segment_end_bound(text.drop_first());
    }
}

/// What a JSON pointer selects.
pub open spec fn resolved(t: Tree, pointer: Seq<char>) -> Option<Tree>
    decreases pointer.len(),
{
    if pointer.len() == 0 {
        Some(t)
    } else if pointer[0] != '/' {
        None
    } else {
        let rest = pointer.drop_first();
        let end = segment_end(rest);
        proof {
            segment_end_bound(rest);
        }
        match stepped(t, unescaped(rest.subrange(0, end as int))) {
            Some(next) => resolved(next, rest.subrange(end as int, rest.len() as int)),
            None => None,
        }
    }
}

} // verus!
