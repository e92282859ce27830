//! Building JSON values.
use super::{group_json, trees, with_member, Json, Tree};
use crate::text::{copied, opt, texts};
use vstd::prelude::*;

verus! {

broadcast use group_json;

pub open spec fn empty_object() -> Tree {
    Tree::Object(Seq::empty())
}

pub fn object() -> (r: Json)
    ensures
        r@ == empty_object(),
{
    let r = Json::Object(Vec::new());
    assert(r@->Object_0 =~= Seq::<(Seq<char>, Tree)>::empty());
    r
}

/// An object with one more field.
pub fn with(object: Json, key: &str, value: Json) -> (r: Json)
    ensures
        r@ == with_member(object@, key@, value@),
{
    let mut r = object;
    r.set(key, value);
    r
}

pub fn text_value(text: &str) -> (r: Json)
    ensures
        r@ == Tree::Text(text@),
{
    Json::Text(copied(text))
}

/// A text, or nothing.
pub open spec fn text_or_null(text: Option<Seq<char>>) -> Tree {
    match text {
        None => Tree::Null,
        Some(t) => Tree::Text(t),
    }
}

pub fn opt_json(text: &Option<String>) -> (r: Json)
    ensures
        r@ == text_or_null(opt(*text)),
{
    match text {
        None => Json::Null,
        Some(t) => text_value(t),
    }
}

pub open spec fn number_tree(n: Option<u64>) -> Tree {
    match n {
        Some(n) => Tree::Unsigned(n),
        None => Tree::Null,
    }
}

pub fn number_value(n: Option<u64>) -> (r: Json)
    ensures
        r@ == number_tree(n),
{
    match n {
        Some(n) => Json::Unsigned(n),
        None => Json::Null,
    }
}

/// A list of texts.
pub open spec fn texts_tree(list: Seq<Seq<char>>) -> Tree {
    Tree::Array(list.map_values(|t: Seq<char>| Tree::Text(t)))
}

pub fn texts_json(list: &Vec<String>) -> (r: Json)
    ensures
        r@ == texts_tree(texts(list@)),
{
    let mut items: Vec<Json> = Vec::new();
    let mut i: usize = 0;
    while i < list.len()
        invariant
            i <= list.len(),
            items.len() == i,
            forall|j: int| 0 <= j < i ==> (#[trigger] items@[j])@ == Tree::Text(list@[j]@),
        decreases list.len() - i,
    {
        items.push(text_value(&list[i]));
        i = i + 1;
    }
    let ghost all = items@;
    let r = Json::Array(items);
    proof {
        let want = texts(list@).map_values(|t: Seq<char>| Tree::Text(t));
        assert(trees(all).len() == want.len());
        assert forall|j: int| 0 <= j < want.len() implies trees(all)[j] == want[j] by {
            assert(all[j]@ == Tree::Text(list@[j]@));
        }
        assert(trees(all) =~= want);
    }
    r
}

} // verus!
