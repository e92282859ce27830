//! Deliberately small schema subset, never advertised as full JSON Schema.
use super::{ExtensionError, Fault};
use crate::json::{
    alike, depth, encoded_size, fields_of, group_json, is_exact, is_number, member, number_order, tree, trees, Json,
    Order, Tree,
};
use crate::json::laws::{at_scale, exact_numbers_are_small, fits_scale, numbers_compare_by_value};
use crate::text::{copied, same};
use vstd::arithmetic::power2::pow2;
use vstd::prelude::*;

verus! {

broadcast use group_json;

pub open spec fn is_keyword(key: Seq<char>) -> bool {
    ||| key == "type"@ || key == "properties"@ || key == "required"@ || key == "additionalProperties"@
    ||| key == "items"@ || key == "enum"@ || key == "maxLength"@ || key == "maxItems"@
    ||| key == "minimum"@ || key == "maximum"@ || key == "description"@
}

pub open spec fn is_kind(kind: Seq<char>) -> bool {
    ||| kind == "object"@ || kind == "array"@ || kind == "string"@ || kind == "integer"@
    ||| kind == "number"@ || kind == "boolean"@ || kind == "null"@
}

pub open spec fn text_of(t: Option<Tree>) -> Option<Seq<char>> {
    match t {
        Some(Tree::Text(s)) => Some(s),
        _ => None,
    }
}

/// Some listed value equals this one.
pub open spec fn lists(items: Seq<Tree>, value: Tree) -> bool {
    exists|i: int| 0 <= i < items.len() && alike(#[trigger] items[i], value)
}

/// The property named by a list item, or nothing.
pub open spec fn names_property(schema: Tree, item: Tree) -> bool {
    match (item, member(schema, "properties"@)) {
        (Tree::Text(name), Some(properties)) => member(properties, name) is Some,
        _ => false,
    }
}

pub open spec fn required_fault(schema: Tree, kind: Seq<char>) -> Option<Seq<char>> {
    match member(schema, "required"@) {
        None => None,
        Some(Tree::Array(items)) => if kind != "object"@ || items.len() > 64 || exists|i: int|
            0 <= i < items.len() && !names_property(schema, #[trigger] items[i]) {
            Some("required references undefined property"@)
        } else {
            None
        },
        Some(_) => Some("required must be array"@),
    }
}

pub open spec fn additional_fault(schema: Tree, kind: Seq<char>) -> Option<Seq<char>> {
    match member(schema, "additionalProperties"@) {
        None => None,
        Some(a) => if kind != "object"@ || !(a is Bool) { Some("additionalProperties must be boolean"@) } else { None },
    }
}

pub open spec fn bound_fault(bound: Option<Tree>, kind: Seq<char>, wanted: Seq<char>) -> Option<Seq<char>> {
    match bound {
        None => None,
        Some(v) => if !(v is Unsigned) || kind != wanted { Some("invalid schema bound"@) } else { None },
    }
}

pub open spec fn range_fault(bound: Option<Tree>, kind: Seq<char>) -> Option<Seq<char>> {
    match bound {
        None => None,
        Some(v) => if !is_number(v) || !(kind == "number"@ || kind == "integer"@) || !is_exact(v) {
            Some("invalid numeric bound"@)
        } else {
            None
        },
    }
}

pub open spec fn enum_fault(list: Option<Tree>) -> Option<Seq<char>> {
    match list {
        None => None,
        Some(Tree::Array(items)) => if items.len() == 0 || items.len() > 64 {
            Some("enum must contain 1..64 values"@)
        } else {
            None
        },
        Some(_) => Some("enum must contain 1..64 values"@),
    }
}

pub open spec fn description_fault(d: Option<Tree>) -> Option<Seq<char>> {
    match d {
        None => None,
        Some(v) => if v is Text { None } else { Some("description must be text"@) },
    }
}

pub open spec fn first(a: Option<Seq<char>>, b: Option<Seq<char>>) -> Option<Seq<char>> {
    if a is Some { a } else { b }
}

/// Faults behind the nested schemas.
pub open spec fn tail_fault(schema: Tree, kind: Seq<char>) -> Option<Seq<char>> {
    first(
        bound_fault(member(schema, "maxLength"@), kind, "string"@),
        first(
            bound_fault(member(schema, "maxItems"@), kind, "array"@),
            first(
                range_fault(member(schema, "minimum"@), kind),
                first(
                    range_fault(member(schema, "maximum"@), kind),
                    first(enum_fault(member(schema, "enum"@)), description_fault(member(schema, "description"@))),
                ),
            ),
        ),
    )
}

pub open spec fn levels(depth: nat, limit: nat) -> nat {
    if depth > limit { 0 } else { (limit + 1 - depth) as nat }
}

/// The first rule that a schema breaks.
pub open spec fn schema_fault(schema: Tree, at: nat) -> Option<Seq<char>>
    decreases levels(at, 12), 1nat, 0nat,
{
    if at > 12 || encoded_size(schema) > 65536 {
        Some("schema limit exceeded"@)
    } else {
        match schema {
            Tree::Object(fields) => if exists|i: int| 0 <= i < fields.len() && !is_keyword((#[trigger] fields[i]).0) {
                Some("unsupported schema keyword"@)
            } else if text_of(member(schema, "type"@)) is None {
                Some("schema requires one string type"@)
            } else if !is_kind(text_of(member(schema, "type"@))->0) {
                Some("unsupported schema type"@)
            } else {
                let kind = text_of(member(schema, "type"@))->0;
                let properties = match member(schema, "properties"@) {
                    None => None,
                    Some(p) => if kind != "object"@ {
                        Some("properties require object"@)
                    } else {
                        match p {
                            Tree::Object(props) => if props.len() > 64 {
                                Some("too many properties"@)
                            } else {
                                children_fault(props, at + 1)
                            },
                            _ => Some("properties must be object"@),
                        }
                    },
                };
                let items = match member(schema, "items"@) {
                    None => None,
                    Some(x) => if kind != "array"@ { Some("items require array"@) } else { schema_fault(x, at + 1) },
                };
                first(
                    properties,
                    first(
                        required_fault(schema, kind),
                        first(additional_fault(schema, kind), first(items, tail_fault(schema, kind))),
                    ),
                )
            },
            _ => Some("schema must be an object"@),
        }
    }
}

/// The first rule that the schemas of a list of properties break.
pub open spec fn children_fault(fields: Seq<(Seq<char>, Tree)>, at: nat) -> Option<Seq<char>>
    decreases levels(at, 12), 2nat, fields.len(),
{
    if fields.len() == 0 {
        None
    } else {
        first(schema_fault(fields[0].1, at), children_fault(fields.drop_first(), at))
    }
}

pub open spec fn kind_matches(kind: Seq<char>, value: Tree) -> bool {
    ||| kind == "object"@ && value is Object
    ||| kind == "array"@ && value is Array
    ||| kind == "string"@ && value is Text
    ||| kind == "number"@ && is_number(value)
    ||| kind == "integer"@ && (value is Unsigned || value is Negative)
    ||| kind == "boolean"@ && value is Bool
    ||| kind == "null"@ && value is Null
}

pub open spec fn kind_of(schema: Tree) -> Seq<char> {
    match text_of(member(schema, "type"@)) {
        Some(kind) => kind,
        None => Seq::empty(),
    }
}

pub open spec fn outside_enum(schema: Tree, value: Tree) -> bool {
    match member(schema, "enum"@) {
        Some(Tree::Array(items)) => !lists(items, value),
        _ => false,
    }
}

pub open spec fn item_text(item: Tree) -> Seq<char> {
    match item {
        Tree::Text(s) => s,
        _ => Seq::empty(),
    }
}

pub open spec fn misses_required(schema: Tree, value: Tree) -> bool {
    match member(schema, "required"@) {
        Some(Tree::Array(items)) => exists|i: int|
            0 <= i < items.len() && member(value, item_text(#[trigger] items[i])) is None,
        _ => false,
    }
}

pub open spec fn property_schema(schema: Tree, key: Seq<char>) -> Option<Tree> {
    match member(schema, "properties"@) {
        Some(p) => member(p, key),
        None => None,
    }
}

pub open spec fn over(limit: Option<Tree>, n: nat) -> bool {
    match limit {
        Some(Tree::Unsigned(max)) => n > max,
        _ => false,
    }
}

/// Below the minimum or above the maximum.
pub open spec fn out_of_range(schema: Tree, value: Tree) -> bool {
    is_number(value) && {
        ||| match member(schema, "minimum"@) {
            Some(min) => is_number(min) && number_order(value, min) == Order::Less,
            None => false,
        }
        ||| match member(schema, "maximum"@) {
            Some(max) => is_number(max) && number_order(value, max) == Order::Greater,
            None => false,
        }
    }
}

/// The first way in which a value departs from its schema.
pub open spec fn value_fault(schema: Tree, value: Tree, at: nat) -> Option<Seq<char>>
    decreases levels(at, 24), 1nat, 0nat,
{
    if at > 24 || encoded_size(value) > 262144 {
        Some("value limit exceeded"@)
    } else if !kind_matches(kind_of(schema), value) {
        Some("value type does not match schema"@)
    } else if (member(schema, "minimum"@) is Some || member(schema, "maximum"@) is Some) && !is_exact(value) {
        Some("bounded numeric values must be within the exact integer range of binary64"@)
    } else if outside_enum(schema, value) {
        Some("value outside enum"@)
    } else {
        match value {
            Tree::Object(fields) => if misses_required(schema, value) {
                Some("missing required property"@)
            } else {
                fields_fault(schema, fields, at + 1)
            },
            Tree::Array(items) => if over(member(schema, "maxItems"@), items.len()) {
                Some("array too long"@)
            } else {
                match member(schema, "items"@) {
                    Some(item_schema) => items_fault(item_schema, items, at + 1),
                    None => None,
                }
            },
            Tree::Text(text) => if over(member(schema, "maxLength"@), text.len()) {
                Some("string too long"@)
            } else {
                None
            },
            _ => if out_of_range(schema, value) { Some("number outside bounds"@) } else { None },
        }
    }
}

pub open spec fn fields_fault(schema: Tree, fields: Seq<(Seq<char>, Tree)>, at: nat) -> Option<Seq<char>>
    decreases levels(at, 24), 2nat, fields.len(),
{
    if fields.len() == 0 {
        None
    } else {
        let here = match property_schema(schema, fields[0].0) {
            Some(child) => value_fault(child, fields[0].1, at),
            None => if member(schema, "additionalProperties"@) == Some(Tree::Bool(false)) {
                Some("unknown property"@)
            } else {
                None
            },
        };
        first(here, fields_fault(schema, fields.drop_first(), at))
    }
}

pub open spec fn items_fault(schema: Tree, items: Seq<Tree>, at: nat) -> Option<Seq<char>>
    decreases levels(at, 24), 2nat, items.len(),
{
    if items.len() == 0 {
        None
    } else {
        first(value_fault(schema, items[0], at), items_fault(schema, items.drop_first(), at))
    }
}

/// What a whole check of a value against a schema says.
pub open spec fn check_fault(schema: Tree, value: Tree) -> Option<Seq<char>> {
    if schema_fault(schema, 0) is Some {
        schema_fault(schema, 0)
    } else if depth(value) > 24 {
        Some("value nesting exceeds 24 levels"@)
    } else {
        value_fault(schema, value, 0)
    }
}

fn bad(message: &str) -> (e: ExtensionError)
    ensures
        e@ == Fault::Rejected(message@),
{
    ExtensionError::Rejected(copied(message))
}

/// Agreement of a check with the fault it looks for.
pub open spec fn reports(r: Result<(), ExtensionError>, fault: Option<Seq<char>>) -> bool {
    match r {
        Ok(_) => fault is None,
        Err(e) => fault is Some && e@ == Fault::Rejected(fault->0),
    }
}

pub fn validate_schema(schema: &Json) -> (r: Result<(), ExtensionError>)
    ensures
        reports(r, schema_fault(schema@, 0)),
{
    schema_at(schema, 0)
}

fn keyword(key: &str) -> (r: bool)
    ensures
        r == is_keyword(key@),
{
    same(key, "type") || same(key, "properties") || same(key, "required") || same(key, "additionalProperties") || same(
        key,
        "items",
    ) || same(key, "enum") || same(key, "maxLength") || same(key, "maxItems") || same(key, "minimum") || same(key, "maximum")
        || same(key, "description")
}

fn known_kind(kind: &str) -> (r: bool)
    ensures
        r == is_kind(kind@),
{
    same(kind, "object") || same(kind, "array") || same(kind, "string") || same(kind, "integer") || same(kind, "number")
        || same(kind, "boolean") || same(kind, "null")
}

fn keywords(fields: &Vec<(String, Json)>) -> (r: bool)
    ensures
        r == !(exists|i: int| 0 <= i < fields_of(fields@).len() && !is_keyword((#[trigger] fields_of(fields@)[i]).0)),
{
    let mut i: usize = 0;
    while i < fields.len()
        invariant
            i <= fields.len(),
            forall|j: int| 0 <= j < i ==> is_keyword((#[trigger] fields@[j]).0@),
        decreases fields.len() - i,
    {
        if !keyword(&fields[i].0) {
            assert(fields_of(fields@).len() == fields.len());
            assert(!is_keyword(fields_of(fields@)[i as int].0));
            return false;
        }
        i = i + 1;
    }
    assert forall|j: int| 0 <= j < fields_of(fields@).len() implies is_keyword((#[trigger] fields_of(fields@)[j]).0) by {
        assert(is_keyword(fields@[j].0@));
    }
    true
}

fn check_required(schema: &Json, kind: &str) -> (r: Result<(), ExtensionError>)
    ensures
        reports(r, required_fault(schema@, kind@)),
{
    match schema.get("required") {
        None => Ok(()),
        Some(Json::Array(items)) => {
            assert(trees(items@).len() == items.len());
            if !same(kind, "object") || items.len() > 64 {
                return Err(bad("required references undefined property"));
            }
            let mut i: usize = 0;
            while i < items.len()
                invariant
                    i <= items.len() <= 64,
                    kind@ == "object"@,
                    member(schema@, "required"@) == Some(Tree::Array(trees(items@))),
                    forall|j: int| 0 <= j < i ==> names_property(schema@, tree(#[trigger] items@[j])),
                decreases items.len() - i,
            {
                let known = match (&items[i], schema.get("properties")) {
                    (Json::Text(name), Some(properties)) => properties.get(name).is_some(),
                    _ => false,
                };
                if !known {
                    assert(trees(items@).len() == items.len());
                    assert(!names_property(schema@, trees(items@)[i as int]));
                    return Err(bad("required references undefined property"));
                }
                i = i + 1;
            }
            assert forall|j: int| 0 <= j < trees(items@).len() implies names_property(schema@, #[trigger] trees(items@)[j]) by {
                assert(names_property(schema@, tree(items@[j])));
            }
            Ok(())
        },
        Some(_) => Err(bad("required must be array")),
    }
}

fn check_bound(bound: Option<&Json>, kind: &str, wanted: &str) -> (r: Result<(), ExtensionError>)
    ensures
        reports(
            r,
            bound_fault(
                match bound {
                    Some(b) => Some(b@),
                    None => None,
                },
                kind@,
                wanted@,
            ),
        ),
{
    match bound {
        None => Ok(()),
        Some(Json::Unsigned(_)) => if same(kind, wanted) { Ok(()) } else { Err(bad("invalid schema bound")) },
        Some(_) => Err(bad("invalid schema bound")),
    }
}

fn check_range(bound: Option<&Json>, kind: &str) -> (r: Result<(), ExtensionError>)
    ensures
        reports(
            r,
            range_fault(
                match bound {
                    Some(b) => Some(b@),
                    None => None,
                },
                kind@,
            ),
        ),
{
    match bound {
        None => Ok(()),
        Some(v) => if !v.number() || !(same(kind, "number") || same(kind, "integer")) || !v.exact() {
            Err(bad("invalid numeric bound"))
        } else {
            Ok(())
        },
    }
}

fn check_tail(schema: &Json, kind: &str) -> (r: Result<(), ExtensionError>)
    ensures
        reports(r, tail_fault(schema@, kind@)),
{
    if let Err(e) = check_bound(schema.get("maxLength"), kind, "string") {
        return Err(e);
    }
    if let Err(e) = check_bound(schema.get("maxItems"), kind, "array") {
        return Err(e);
    }
    if let Err(e) = check_range(schema.get("minimum"), kind) {
        return Err(e);
    }
    if let Err(e) = check_range(schema.get("maximum"), kind) {
        return Err(e);
    }
    match schema.get("enum") {
        None => {},
        Some(Json::Array(items)) => {
            assert(trees(items@).len() == items.len());
            if items.len() == 0 || items.len() > 64 {
                return Err(bad("enum must contain 1..64 values"));
            }
        },
        Some(_) => {
            return Err(bad("enum must contain 1..64 values"));
        },
    }
    match schema.get("description") {
        None => {},
        Some(Json::Text(_)) => {},
        Some(_) => {
            return Err(bad("description must be text"));
        },
    }
    Ok(())
}

fn schema_at(schema: &Json, at: usize) -> (r: Result<(), ExtensionError>)
    requires
        at <= 13,
    ensures
        reports(r, schema_fault(schema@, at as nat)),
    decreases 13 - at, 0int,
{
    if at > 12 || schema.size() > 65536 {
        return Err(bad("schema limit exceeded"));
    }
    match schema {
        Json::Object(fields) => {
            assert(schema@ == Tree::Object(fields_of(fields@)));
            if !keywords(fields) {
                return Err(bad("unsupported schema keyword"));
            }
            assert(!(exists|i: int|
                0 <= i < schema@->Object_0.len() && !is_keyword((#[trigger] schema@->Object_0[i]).0)));
        },
        _ => {
            return Err(bad("schema must be an object"));
        },
    }
    let kind: &String = match schema.get("type") {
        Some(Json::Text(kind)) => kind,
        _ => {
            return Err(bad("schema requires one string type"));
        },
    };
    if !known_kind(kind) {
        return Err(bad("unsupported schema type"));
    }
    match schema.get("properties") {
        None => {},
        Some(properties) => {
            if !same(kind, "object") {
                return Err(bad("properties require object"));
            }
            match properties {
                Json::Object(props) => {
                    assert(fields_of(props@).len() == props.len());
                    if props.len() > 64 {
                        return Err(bad("too many properties"));
                    }
                    if let Err(e) = children_at(props, at + 1) {
                        return Err(e);
                    }
                },
                _ => {
                    return Err(bad("properties must be object"));
                },
            }
        },
    }
    if let Err(e) = check_required(schema, kind) {
        return Err(e);
    }
    if let Some(additional) = schema.get("additionalProperties") {
        let boolean = match additional {
            Json::Bool(_) => true,
            _ => false,
        };
        if !same(kind, "object") || !boolean {
            return Err(bad("additionalProperties must be boolean"));
        }
    }
    if let Some(items) = schema.get("items") {
        if !same(kind, "array") {
            return Err(bad("items require array"));
        }
        if let Err(e) = schema_at(items, at + 1) {
            return Err(e);
        }
    }
    check_tail(schema, kind)
}

fn children_at(fields: &Vec<(String, Json)>, at: usize) -> (r: Result<(), ExtensionError>)
    requires
        1 <= at <= 13,
    ensures
        reports(r, children_fault(fields_of(fields@), at as nat)),
    decreases 13 - at, 1int,
{
    let ghost all = fields_of(fields@);
    let mut i: usize = 0;
    assert(all.subrange(0, all.len() as int) =~= all);
    while i < fields.len()
        invariant
            i <= fields.len(),
            1 <= at <= 13,
            all == fields_of(fields@),
            children_fault(all, at as nat) == children_fault(all.subrange(i as int, all.len() as int), at as nat),
        decreases fields.len() - i,
    {
        let ghost rest = all.subrange(i as int, all.len() as int);
        assert(all.len() == fields.len());
        assert(rest[0] == all[i as int]);
        assert(rest.drop_first() =~= all.subrange(i + 1, all.len() as int));
        if let Err(e) = schema_at(&fields[i].1, at) {
            return Err(e);
        }
        i = i + 1;
    }
    Ok(())
}

pub fn validate_value(schema: &Json, value: &Json) -> (r: Result<(), ExtensionError>)
    ensures
        reports(r, check_fault(schema@, value@)),
{
    if let Err(e) = validate_schema(schema) {
        return Err(e);
    }
    if !value.within_depth(24) {
        return Err(bad("value nesting exceeds 24 levels"));
    }
    value_at(schema, value, 0)
}

fn matches_kind(kind: &str, value: &Json) -> (r: bool)
    ensures
        r == kind_matches(kind@, value@),
{
    match value {
        Json::Object(_) => same(kind, "object"),
        Json::Array(_) => same(kind, "array"),
        Json::Text(_) => same(kind, "string"),
        Json::Unsigned(_) | Json::Negative(_) => same(kind, "number") || same(kind, "integer"),
        Json::Real(_) => same(kind, "number"),
        Json::Bool(_) => same(kind, "boolean"),
        Json::Null => same(kind, "null"),
    }
}

fn not_in_enum(schema: &Json, value: &Json) -> (r: bool)
    ensures
        r == outside_enum(schema@, value@),
{
    match schema.get("enum") {
        Some(Json::Array(items)) => {
            let mut i: usize = 0;
            while i < items.len()
                invariant
                    i <= items.len(),
                    member(schema@, "enum"@) == Some(Tree::Array(trees(items@))),
                    forall|j: int| 0 <= j < i ==> !alike(tree(#[trigger] items@[j]), value@),
                decreases items.len() - i,
            {
                if items[i].equals(value) {
                    proof {
                        let all = trees(items@);
                        assert(all.len() == items.len());
                        assert(all[i as int] == tree(items@[i as int]));
                        assert(alike(all[i as int], value@));
                        assert(lists(all, value@));
                    }
                    return false;
                }
                i = i + 1;
            }
            assert forall|j: int| 0 <= j < trees(items@).len() implies !alike(#[trigger] trees(items@)[j], value@) by {
                assert(!alike(tree(items@[j]), value@));
            }
            assert(!lists(trees(items@), value@));
            true
        },
        _ => false,
    }
}

fn lacks_required(schema: &Json, value: &Json) -> (r: bool)
    ensures
        r == misses_required(schema@, value@),
{
    match schema.get("required") {
        Some(Json::Array(items)) => {
            let mut i: usize = 0;
            while i < items.len()
                invariant
                    i <= items.len(),
                    member(schema@, "required"@) == Some(Tree::Array(trees(items@))),
                    forall|j: int| 0 <= j < i ==> member(value@, item_text(tree(#[trigger] items@[j]))) is Some,
                decreases items.len() - i,
            {
                let found = match &items[i] {
                    Json::Text(name) => value.get(name).is_some(),
                    _ => {
                        let none = String::new();
                        assert(none@ =~= item_text(tree(items@[i as int])));
                        value.get(&none).is_some()
                    },
                };
                if !found {
                    assert(trees(items@).len() == items.len());
                    assert(member(value@, item_text(trees(items@)[i as int])) is None);
                    return true;
                }
                i = i + 1;
            }
            assert forall|j: int| 0 <= j < trees(items@).len() implies member(value@, item_text(#[trigger] trees(items@)[j])) is Some by {
                assert(member(value@, item_text(tree(items@[j]))) is Some);
            }
            false
        },
        _ => false,
    }
}

fn exceeds(limit: Option<&Json>, n: usize) -> (r: bool)
    ensures
        r == over(
            match limit {
                Some(l) => Some(l@),
                None => None,
            },
            n as nat,
        ),
{
    match limit {
        Some(Json::Unsigned(max)) => n as u64 > *max,
        _ => false,
    }
}

fn range_breach(schema: &Json, value: &Json) -> (r: bool)
    ensures
        r == out_of_range(schema@, value@),
{
    let low = match schema.get("minimum") {
        Some(min) => match value.against(min) {
            Some(Order::Less) => true,
            _ => false,
        },
        None => false,
    };
    let high = match schema.get("maximum") {
        Some(max) => match value.against(max) {
            Some(Order::Greater) => true,
            _ => false,
        },
        None => false,
    };
    low || high
}

fn value_at(schema: &Json, value: &Json, at: usize) -> (r: Result<(), ExtensionError>)
    requires
        at <= 25,
    ensures
        reports(r, value_fault(schema@, value@, at as nat)),
    decreases 25 - at, 0int,
{
    if at > 24 || value.size() > 262144 {
        return Err(bad("value limit exceeded"));
    }
    let matching = match schema.get("type") {
        Some(Json::Text(kind)) => matches_kind(kind, value),
        _ => {
            let none = String::new();
            assert(none@ =~= kind_of(schema@));
            matches_kind(&none, value)
        },
    };
    if !matching {
        return Err(bad("value type does not match schema"));
    }
    if (schema.get("minimum").is_some() || schema.get("maximum").is_some()) && !value.exact() {
        return Err(bad("bounded numeric values must be within the exact integer range of binary64"));
    }
    if not_in_enum(schema, value) {
        return Err(bad("value outside enum"));
    }
    match value {
        Json::Object(fields) => {
            if lacks_required(schema, value) {
                return Err(bad("missing required property"));
            }
            fields_at(schema, fields, at + 1)
        },
        Json::Array(items) => {
            assert(trees(items@).len() == items.len());
            if exceeds(schema.get("maxItems"), items.len()) {
                return Err(bad("array too long"));
            }
            match schema.get("items") {
                Some(item_schema) => items_at(item_schema, items, at + 1),
                None => Ok(()),
            }
        },
        Json::Text(text) => {
            let count: usize = text.as_str().unicode_len();
            if exceeds(schema.get("maxLength"), count) {
                return Err(bad("string too long"));
            }
            Ok(())
        },
        _ => {
            if range_breach(schema, value) {
                return Err(bad("number outside bounds"));
            }
            Ok(())
        },
    }
}

fn fields_at(schema: &Json, fields: &Vec<(String, Json)>, at: usize) -> (r: Result<(), ExtensionError>)
    requires
        1 <= at <= 25,
    ensures
        reports(r, fields_fault(schema@, fields_of(fields@), at as nat)),
    decreases 25 - at, 1int,
{
    let ghost all = fields_of(fields@);
    let mut i: usize = 0;
    assert(all.subrange(0, all.len() as int) =~= all);
    while i < fields.len()
        invariant
            i <= fields.len(),
            1 <= at <= 25,
            all == fields_of(fields@),
            fields_fault(schema@, all, at as nat) == fields_fault(schema@, all.subrange(i as int, all.len() as int), at as nat),
        decreases fields.len() - i,
    {
        let ghost rest = all.subrange(i as int, all.len() as int);
        assert(all.len() == fields.len());
        assert(rest[0] == all[i as int]);
        assert(rest.drop_first() =~= all.subrange(i + 1, all.len() as int));
        let child: Option<&Json> = match schema.get("properties") {
            Some(properties) => properties.get(&fields[i].0),
            None => None,
        };
        match child {
            Some(child) => {
                if let Err(e) = value_at(child, &fields[i].1, at) {
                    return Err(e);
                }
            },
            None => {
                if let Some(Json::Bool(false)) = schema.get("additionalProperties") {
                    return Err(bad("unknown property"));
                }
            },
        }
        i = i + 1;
    }
    Ok(())
}

fn items_at(schema: &Json, items: &Vec<Json>, at: usize) -> (r: Result<(), ExtensionError>)
    requires
        1 <= at <= 25,
    ensures
        reports(r, items_fault(schema@, trees(items@), at as nat)),
    decreases 25 - at, 1int,
{
    let ghost all = trees(items@);
    let mut i: usize = 0;
    assert(all.subrange(0, all.len() as int) =~= all);
    while i < items.len()
        invariant
            i <= items.len(),
            1 <= at <= 25,
            all == trees(items@),
            items_fault(schema@, all, at as nat) == items_fault(schema@, all.subrange(i as int, all.len() as int), at as nat),
        decreases items.len() - i,
    {
        let ghost rest = all.subrange(i as int, all.len() as int);
        assert(all.len() == items.len());
        assert(rest[0] == all[i as int]);
        assert(rest.drop_first() =~= all.subrange(i + 1, all.len() as int));
        if let Err(e) = value_at(schema, &items[i], at) {
            return Err(e);
        }
        i = i + 1;
    }
    Ok(())
}

/// An accepted value has the declared type, lies in the declared enumeration
/// and keeps within the limits on size and nesting.
pub proof fn accepted_values_have_the_declared_type(schema: Tree, value: Tree)
    requires
        check_fault(schema, value) is None,
    ensures
        kind_matches(kind_of(schema), value),
        !outside_enum(schema, value),
        encoded_size(value) <= 262144,
        depth(value) <= 24,
{
}

/// A number that a schema of numbers accepts lies within the declared bounds, as the numbers
/// that they denote; and where nothing else is declared, every number within them is accepted.
pub proof fn accepted_numbers_lie_within_bounds(schema: Tree, value: Tree, n: nat)
    requires
        schema_fault(schema, 0) is None,
        value is Unsigned || value is Negative || value is Real,
        fits_scale(value, n),
        member(schema, "minimum"@) is Some ==> fits_scale(member(schema, "minimum"@)->0, n),
        member(schema, "maximum"@) is Some ==> fits_scale(member(schema, "maximum"@)->0, n),
    ensures
        ({
            let v = at_scale(value, n);
            let above = member(schema, "minimum"@) is Some ==> at_scale(member(schema, "minimum"@)->0, n) <= v;
            let below = member(schema, "maximum"@) is Some ==> v <= at_scale(member(schema, "maximum"@)->0, n);
            let bounded = member(schema, "minimum"@) is Some || member(schema, "maximum"@) is Some;
            let limit = 9007199254740992 * pow2(n);
            let kind = member(schema, "type"@);
            &&& check_fault(schema, value) is None ==> above && below && (bounded ==> -limit <= v <= limit)
            &&& above && below && (bounded ==> -limit <= v <= limit) && encoded_size(value) <= 262144
                && (kind == Some(Tree::Text("number"@)) || (kind == Some(Tree::Text("integer"@)) && !(value is Real)))
                && member(schema, "enum"@) is None ==> check_fault(schema, value) is None
            &&& !(above && below) && encoded_size(value) <= 262144 && (kind == Some(
                Tree::Text("number"@),
            ) || (kind == Some(Tree::Text("integer"@)) && !(value is Real))) && member(schema, "enum"@) is None && -limit
                <= v <= limit ==> check_fault(schema, value) == Some("number outside bounds"@)
        }),
{
    exact_numbers_are_small(value, n);
    if let Some(min) = member(schema, "minimum"@) {
        numbers_compare_by_value(value, min, n);
    }
    if let Some(max) = member(schema, "maximum"@) {
        numbers_compare_by_value(value, max, n);
    }
}

/// An accepted value is of the declared type: an object, an array, a text, a whole number, a
/// number, a truth value or nothing, as the schema says.
pub proof fn accepted_values_are_of_the_declared_form(schema: Tree, value: Tree)
    requires
        check_fault(schema, value) is None,
    ensures
        member(schema, "type"@) is Some,
        member(schema, "type"@) == Some(Tree::Text("object"@)) <==> value is Object,
        member(schema, "type"@) == Some(Tree::Text("array"@)) <==> value is Array,
        member(schema, "type"@) == Some(Tree::Text("string"@)) <==> value is Text,
        member(schema, "type"@) == Some(Tree::Text("boolean"@)) <==> value is Bool,
        member(schema, "type"@) == Some(Tree::Text("null"@)) <==> value is Null,
        value is Real ==> member(schema, "type"@) == Some(Tree::Text("number"@)),
        value is Unsigned || value is Negative ==> member(schema, "type"@) == Some(Tree::Text("number"@)) || member(
            schema,
            "type"@,
        ) == Some(Tree::Text("integer"@)),
        member(schema, "enum"@) is Some ==> member(schema, "enum"@)->0 is Array && exists|i: int|
            0 <= i < member(schema, "enum"@)->0->Array_0.len() && alike(
                #[trigger] member(schema, "enum"@)->0->Array_0[i],
                value,
            ),
{
    reveal_strlit("object");
    reveal_strlit("array");
    reveal_strlit("string");
    reveal_strlit("integer");
    reveal_strlit("number");
    reveal_strlit("boolean");
    reveal_strlit("null");
    assert("object"@[0] == 'o' && "array"@[0] == 'a' && "string"@[0] == 's' && "integer"@[0] == 'i' && "number"@[0] == 'n'
        && "boolean"@[0] == 'b' && "null"@[0] == 'n' && "number"@.len() == 6 && "null"@.len() == 4);
}

/// An accepted text is at most as long as the schema allows, and where only that is declared
/// every such text is accepted.
pub proof fn accepted_texts_fit(schema: Tree, text: Seq<char>)
    requires
        schema_fault(schema, 0) is None,
    ensures
        ({
            let fits = match member(schema, "maxLength"@) {
                Some(Tree::Unsigned(limit)) => text.len() <= limit,
                _ => true,
            };
            &&& check_fault(schema, Tree::Text(text)) is None ==> fits
            &&& fits && encoded_size(Tree::Text(text)) <= 262144 && member(schema, "type"@) == Some(Tree::Text("string"@))
                && member(schema, "enum"@) is None ==> check_fault(schema, Tree::Text(text)) is None
            &&& check_fault(schema, Tree::Text(text)) is None && member(schema, "maxLength"@) is Some ==> member(
                schema,
                "maxLength"@,
            )->0 is Unsigned
        }),
{
    reveal_strlit("integer");
    reveal_strlit("number");
    reveal_strlit("string");
    assert("string"@[0] == 's' && "integer"@[0] == 'i' && "number"@[0] == 'n');
}

proof fn no_fault_in_items(schema: Tree, items: Seq<Tree>, at: nat)
    ensures
        items_fault(schema, items, at) is None <==> forall|i: int|
            0 <= i < items.len() ==> value_fault(schema, #[trigger] items[i], at) is None,
    decreases items.len(),
{
    if items.len() > 0 {
        let rest = items.drop_first();
        no_fault_in_items(schema, rest, at);
        if items_fault(schema, items, at) is None {
            assert forall|i: int| 0 <= i < items.len() implies value_fault(schema, #[trigger] items[i], at) is None by {
                if i > 0 {
                    assert(rest[i - 1] == items[i]);
                }
            }
        } else if value_fault(schema, items[0], at) is None {
            let j = choose|j: int| 0 <= j < rest.len() && value_fault(schema, #[trigger] rest[j], at) is Some;
            assert(items[j + 1] == rest[j]);
        }
    }
}

/// An accepted array is at most as long as the schema allows, and each of its items is
/// accepted by the schema of the items.
pub proof fn accepted_arrays_fit(schema: Tree, items: Seq<Tree>, at: nat)
    requires
        value_fault(schema, Tree::Array(items), at) is None,
    ensures
        match member(schema, "maxItems"@) {
            Some(Tree::Unsigned(limit)) => items.len() <= limit,
            _ => true,
        },
        member(schema, "items"@) is Some ==> forall|i: int|
            0 <= i < items.len() ==> value_fault(member(schema, "items"@)->0, #[trigger] items[i], at + 1) is None,
{
    if let Some(inner) = member(schema, "items"@) {
        no_fault_in_items(inner, items, at + 1);
    }
}

/// What a schema says of one field of an object.
pub open spec fn field_accepted(schema: Tree, key: Seq<char>, value: Tree, at: nat) -> bool {
    let declared = match member(schema, "properties"@) {
        Some(properties) => member(properties, key),
        None => None,
    };
    if declared is Some {
        value_fault(declared->0, value, at) is None
    } else {
        member(schema, "additionalProperties"@) != Some(Tree::Bool(false))
    }
}

proof fn no_fault_in_fields(schema: Tree, fields: Seq<(Seq<char>, Tree)>, at: nat)
    ensures
        fields_fault(schema, fields, at) is None <==> forall|i: int|
            0 <= i < fields.len() ==> field_accepted(schema, (#[trigger] fields[i]).0, fields[i].1, at),
    decreases fields.len(),
{
    if fields.len() > 0 {
        let rest = fields.drop_first();
        no_fault_in_fields(schema, rest, at);
        if fields_fault(schema, fields, at) is None {
            assert forall|i: int| 0 <= i < fields.len() implies field_accepted(
                schema,
                (#[trigger] fields[i]).0,
                fields[i].1,
                at,
            ) by {
                if i > 0 {
                    assert(rest[i - 1] == fields[i]);
                }
            }
        } else if field_accepted(schema, fields[0].0, fields[0].1, at) {
            let j = choose|j: int|
                0 <= j < rest.len() && !field_accepted(schema, (#[trigger] rest[j]).0, rest[j].1, at);
            assert(fields[j + 1] == rest[j]);
        }
    }
}

/// An accepted object has every required member; each of its fields is accepted by the schema
/// of its name, and has a declared name where no others are allowed.
pub proof fn accepted_objects_are_as_declared(schema: Tree, fields: Seq<(Seq<char>, Tree)>, at: nat)
    requires
        value_fault(schema, Tree::Object(fields), at) is None,
    ensures
        forall|i: int|
            0 <= i < fields.len() ==> {
                let declared = match member(schema, "properties"@) {
                    Some(properties) => member(properties, (#[trigger] fields[i]).0),
                    None => None,
                };
                &&& declared is Some ==> value_fault(declared->0, fields[i].1, at + 1) is None
                &&& member(schema, "additionalProperties"@) == Some(Tree::Bool(false)) ==> declared is Some
            },
        forall|name: Seq<char>|
            member(schema, "required"@) is Some && member(schema, "required"@)->0 is Array && #[trigger] member(
                schema,
                "required"@,
            )->0->Array_0.contains(Tree::Text(name)) ==> member(Tree::Object(fields), name) is Some,
{
    no_fault_in_fields(schema, fields, at + 1);
    assert forall|i: int| 0 <= i < fields.len() implies {
        let declared = match member(schema, "properties"@) {
            Some(properties) => member(properties, (#[trigger] fields[i]).0),
            None => None,
        };
        &&& declared is Some ==> value_fault(declared->0, fields[i].1, at + 1) is None
        &&& member(schema, "additionalProperties"@) == Some(Tree::Bool(false)) ==> declared is Some
    } by {
        assert(field_accepted(schema, fields[i].0, fields[i].1, at + 1));
    }
    assert forall|name: Seq<char>|
        member(schema, "required"@) is Some && member(schema, "required"@)->0 is Array && #[trigger] member(
            schema,
            "required"@,
        )->0->Array_0.contains(Tree::Text(name)) implies member(Tree::Object(fields), name) is Some by {
        let items = member(schema, "required"@)->0->Array_0;
        let i = choose|i: int| 0 <= i < items.len() && items[i] == Tree::Text(name);
        assert(item_text(items[i]) == name);
    }
}

} // verus!
