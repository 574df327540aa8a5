//! What can be read off the items of a JSON array.

use crate::json::{Json, JsonView, views};
use crate::text::strs;
use vstd::prelude::*;
use vstd::string::*;

verus! {

/// A text appended where there is one.
pub open spec fn with_text(list: Seq<Seq<char>>, text: Option<Seq<char>>) -> Seq<Seq<char>> {
    match text {
        Some(t) => list.push(t),
        None => list,
    }
}

/// The strings, numbers and booleans among the items, as text.
pub open spec fn scalars(items: Seq<JsonView>) -> Seq<Seq<char>>
    decreases items.len(),
{
    if items.len() == 0 {
        seq![]
    } else {
        with_text(scalars(items.drop_last()), items.last().scalar())
    }
}

/// The strings among the items.
pub open spec fn texts(items: Seq<JsonView>) -> Seq<Seq<char>>
    decreases items.len(),
{
    if items.len() == 0 {
        seq![]
    } else {
        with_text(texts(items.drop_last()), items.last().text())
    }
}

/// The string in a field of a value.
pub open spec fn text_field(v: JsonView, key: Seq<char>) -> Option<Seq<char>> {
    match v.field(key) {
        Some(f) => f.text(),
        None => None,
    }
}

/// The scalar in a field of a value, as text.
pub open spec fn scalar_field(v: JsonView, key: Seq<char>) -> Option<Seq<char>> {
    match v.field(key) {
        Some(f) => f.scalar(),
        None => None,
    }
}

/// The strings that the items have in a field.
pub open spec fn field_texts(items: Seq<JsonView>, key: Seq<char>) -> Seq<Seq<char>>
    decreases items.len(),
{
    if items.len() == 0 {
        seq![]
    } else {
        with_text(field_texts(items.drop_last(), key), text_field(items.last(), key))
    }
}

/// The strings, numbers and booleans among the items, as text.
pub fn scalars_of(items: &Vec<Json>) -> (r: Vec<String>)
    ensures
        strs(r@) == scalars(views(items@)),
{
    let mut out: Vec<String> = Vec::new();
    let ghost all = views(items@);
    for i in 0..items.len()
        invariant
            all == views(items@),
            strs(out@) == scalars(all.take(i as int)),
    {
        let ghost held = out@;
        assert(all.take(i + 1).drop_last() == all.take(i as int));
        assert(all.take(i + 1).last() == items@[i as int]@);
        if let Some(s) = items[i].as_scalar_string() {
            out.push(s);
            assert(strs(out@) == strs(held).push(s@));
        }
    }
    assert(all.take(all.len() as int) == all);
    out
}

/// The strings among the items.
pub fn texts_of(items: &Vec<Json>) -> (r: Vec<String>)
    ensures
        strs(r@) == texts(views(items@)),
{
    let mut out: Vec<String> = Vec::new();
    let ghost all = views(items@);
    for i in 0..items.len()
        invariant
            all == views(items@),
            strs(out@) == texts(all.take(i as int)),
    {
        let ghost held = out@;
        assert(all.take(i + 1).drop_last() == all.take(i as int));
        assert(all.take(i + 1).last() == items@[i as int]@);
        if let Some(s) = items[i].as_str() {
            out.push(s.to_string());
            assert(strs(out@) == strs(held).push(s@));
        }
    }
    assert(all.take(all.len() as int) == all);
    out
}

/// The string in a field of a value.
pub fn text_at<'a>(v: &'a Json, key: &str) -> (r: Option<&'a str>)
    ensures
        crate::json::seen(r) == text_field(v@, key@),
{
    match v.get(key) {
        Some(f) => f.as_str(),
        None => None,
    }
}

/// The scalar in a field of a value, as text.
pub fn scalar_at(v: &Json, key: &str) -> (r: Option<String>)
    ensures
        crate::text::opt_str(r) == scalar_field(v@, key@),
{
    match v.get(key) {
        Some(f) => f.as_scalar_string(),
        None => None,
    }
}

/// The strings that the items have in a field.
pub fn field_texts_of(items: &Vec<Json>, key: &str) -> (r: Vec<String>)
    ensures
        strs(r@) == field_texts(views(items@), key@),
{
    let mut out: Vec<String> = Vec::new();
    let ghost all = views(items@);
    for i in 0..items.len()
        invariant
            all == views(items@),
            strs(out@) == field_texts(all.take(i as int), key@),
    {
        let ghost held = out@;
        assert(all.take(i + 1).drop_last() == all.take(i as int));
        assert(all.take(i + 1).last() == items@[i as int]@);
        if let Some(s) = text_at(&items[i], key) {
            out.push(s.to_string());
            assert(strs(out@) == strs(held).push(s@));
        }
    }
    assert(all.take(all.len() as int) == all);
    out
}

} // verus!
