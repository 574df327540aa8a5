//! Reading and printing JSON text with `serde_json`.

use crate::json::{Json, JsonMap, JsonView, lemma_array_view, seen, trees, views};
use crate::number::number_view;
use crate::strmap::{ascending, keys_of};
use crate::text::{before, lemma_before_irreflexive};
use vstd::prelude::*;
use vstd::string::*;

verus! {

/// `serde_json::Value`, an opaque JSON value.
#[verifier::external_type_specification]
#[verifier::external_body]
pub struct ExValue(serde_json::Value);

/// `serde_json::Error`, what reading a text as JSON fails with.
#[verifier::external_type_specification]
#[verifier::external_body]
pub struct ExError(serde_json::Error);

/// What a `serde_json::Value` holds.
pub uninterp spec fn value_tree(v: serde_json::Value) -> JsonView;

/// What `serde_json::from_str` reads a text as, where the text is JSON.
pub uninterp spec fn json_parse(text: Seq<char>) -> Option<JsonView>;

/// What a `serde_json::Value` prints as.
pub uninterp spec fn json_print(j: JsonView) -> Seq<char>;

/// A `serde_json::Value` opened one level deep.
pub enum Parts {
    Null,
    Bool(bool),
    Number(serde_json::Number),
    Str(String),
    Array(Vec<serde_json::Value>),
    Object(Vec<(String, serde_json::Value)>),
}

/// What a list of values holds.
pub open spec fn value_trees(items: Seq<serde_json::Value>) -> Seq<JsonView> {
    items.map_values(|v: serde_json::Value| value_tree(v))
}

/// The object that a list of entries stands for.
pub open spec fn entry_trees(pairs: Seq<(String, serde_json::Value)>) -> Map<Seq<char>, JsonView>
    decreases pairs.len(),
{
    if pairs.len() == 0 {
        Map::empty()
    } else {
        entry_trees(pairs.drop_last()).insert(pairs.last().0@, value_tree(pairs.last().1))
    }
}

/// No two entries have the same key.
pub open spec fn distinct(pairs: Seq<(String, serde_json::Value)>) -> bool {
    forall|i: int, j: int|
        0 <= i < j < pairs.len() ==> #[trigger] pairs[i].0@ != #[trigger] pairs[j].0@
}

proof fn lemma_entry_trees_finite(pairs: Seq<(String, serde_json::Value)>)
    ensures
        entry_trees(pairs).dom().finite(),
    decreases pairs.len(),
{
    if pairs.len() > 0 {
        lemma_entry_trees_finite(pairs.drop_last());
    }
}

/// Where no key repeats, every entry is a field of the object.
proof fn lemma_entry_trees(pairs: Seq<(String, serde_json::Value)>, i: int)
    requires
        distinct(pairs),
        0 <= i < pairs.len(),
    ensures
        entry_trees(pairs).dom().finite(),
        entry_trees(pairs).dom().contains(pairs[i].0@),
        entry_trees(pairs)[pairs[i].0@] == value_tree(pairs[i].1),
    decreases pairs.len(),
{
    lemma_entry_trees_finite(pairs);
    if i < pairs.len() - 1 {
        assert(pairs[i].0@ != pairs[pairs.len() - 1].0@);
        assert(pairs.drop_last()[i] == pairs[i]);
        lemma_entry_trees(pairs.drop_last(), i);
    }
}

/// What the parts of a value say that it holds.
pub open spec fn parts_tree(p: Parts) -> JsonView {
    match p {
        Parts::Null => JsonView::Null,
        Parts::Bool(b) => JsonView::Bool(b),
        Parts::Number(n) => JsonView::Number(number_view(n)),
        Parts::Str(s) => JsonView::Str(s@),
        Parts::Array(items) => JsonView::Array(value_trees(items@)),
        Parts::Object(pairs) => JsonView::Object(entry_trees(pairs@)),
    }
}

/// `serde_json::from_str` for a `serde_json::Value`. What it makes of a text
/// depends on the text alone, and is named.
#[verifier::external_body]
fn read_value(text: &str) -> (r: Result<serde_json::Value, serde_json::Error>)
    ensures
        match r {
            Ok(v) => json_parse(text@) == Some(value_tree(v)),
            Err(_) => json_parse(text@) is None,
        },
{
    serde_json::from_str(text)
}

/// A `serde_json::Value` holds what its variant carries; an object holds the
/// entries that `serde_json::Map::into_iter` yields.
#[verifier::external_body]
fn take_apart(v: serde_json::Value) -> (r: Parts)
    ensures
        value_tree(v) == parts_tree(r),
        r matches Parts::Object(pairs) ==> distinct(pairs@),
{
    match v {
        serde_json::Value::Null => Parts::Null,
        serde_json::Value::Bool(b) => Parts::Bool(b),
        serde_json::Value::Number(n) => Parts::Number(n),
        serde_json::Value::String(s) => Parts::Str(s),
        serde_json::Value::Array(items) => Parts::Array(items),
        serde_json::Value::Object(map) => Parts::Object(map.into_iter().collect()),
    }
}

/// A `serde_json::Value` made by one of its variants holds what the variant is
/// given; `serde_json::Map::from_iter` holds every entry, as no two have the same
/// key.
#[verifier::external_body]
fn put_together(p: Parts) -> (r: serde_json::Value)
    requires
        p matches Parts::Object(pairs) ==> distinct(pairs@),
    ensures
        value_tree(r) == parts_tree(p),
{
    match p {
        Parts::Null => serde_json::Value::Null,
        Parts::Bool(b) => serde_json::Value::Bool(b),
        Parts::Number(n) => serde_json::Value::Number(n),
        Parts::Str(s) => serde_json::Value::String(s),
        Parts::Array(items) => serde_json::Value::Array(items),
        Parts::Object(pairs) => serde_json::Value::Object(pairs.into_iter().collect()),
    }
}

/// A `serde_json::Value` displays as compact JSON. The text depends on what the
/// value holds alone, and is named.
#[verifier::external_body]
fn print_value(v: &serde_json::Value) -> (r: String)
    ensures
        r@ == json_print(value_tree(*v)),
{
    v.to_string()
}

/// The JSON value that a `serde_json::Value` holds.
pub fn from_value(v: serde_json::Value) -> (r: Json)
    ensures
        r@ == value_tree(v),
    decreases value_tree(v),
{
    match take_apart(v) {
        Parts::Null => Json::Null,
        Parts::Bool(b) => Json::Bool(b),
        Parts::Number(n) => Json::Number(n),
        Parts::Str(s) => Json::Str(s),
        Parts::Array(items) => {
            let ghost all = items@;
            let mut out: Vec<Json> = Vec::new();
            for item in it: items
                invariant
                    it.seq() == all,
                    value_tree(v) == JsonView::Array(value_trees(all)),
                    views(out@) == value_trees(all).take(it.index() as int),
            {
                let ghost held = out@;
                let ghost i = it.index() as int;
                assert(item == all[i]);
                assert(decreases_to!(value_tree(v) => value_tree(v)->Array_0));
                assert(value_trees(all)[i] == value_tree(item));
                out.push(from_value(item));
                assert(views(out@) == views(held).push(value_tree(item)));
                assert(value_trees(all).take(i + 1) == value_trees(all).take(i).push(
                    value_tree(item),
                ));
            }
            assert(value_trees(all).take(all.len() as int) == value_trees(all));
            proof {
                broadcast use lemma_array_view;

            }
            Json::Array(out)
        },
        Parts::Object(pairs) => {
            let ghost all = pairs@;
            let mut out = JsonMap::empty();
            assert(entry_trees(all.take(0)) == Map::<Seq<char>, JsonView>::empty());
            for pair in it: pairs
                invariant
                    it.seq() == all,
                    distinct(all),
                    value_tree(v) == JsonView::Object(entry_trees(all)),
                    out.fields() == entry_trees(all.take(it.index() as int)),
            {
                let ghost i = it.index() as int;
                assert(pair == all[i]);
                proof {
                    lemma_entry_trees(all, i);
                    let fields = value_tree(v)->Object_0;
                    assert(decreases_to!(value_tree(v) => fields));
                    assert(decreases_to!(fields => fields[pair.0@]));
                }
                let (name, value) = pair;
                assert(all.take(i + 1).drop_last() == all.take(i));
                out.put(name.as_str(), from_value(value));
            }
            assert(all.take(all.len() as int) == all);
            Json::Object(out)
        },
    }
}

/// The `serde_json::Value` that holds a JSON value.
pub fn to_value(j: &Json) -> (r: serde_json::Value)
    ensures
        value_tree(r) == j@,
    decreases *j,
{
    match j {
        Json::Null => put_together(Parts::Null),
        Json::Bool(b) => put_together(Parts::Bool(*b)),
        Json::Number(n) => put_together(Parts::Number(n.clone())),
        Json::Str(s) => put_together(Parts::Str(s.clone())),
        Json::Array(items) => {
            let mut out: Vec<serde_json::Value> = Vec::new();
            for i in 0..items.len()
                invariant
                    *j == Json::Array(*items),
                    value_trees(out@) == views(items@).take(i as int),
            {
                let ghost held = out@;
                assert(decreases_to!(*j => j->Array_0));
                let item = to_value(&items[i]);
                out.push(item);
                assert(value_trees(out@) == value_trees(held).push(items@[i as int]@));
                assert(views(items@).take(i + 1) == views(items@).take(i as int).push(
                    items@[i as int]@,
                ));
            }
            assert(views(items@).take(items@.len() as int) == views(items@));
            proof {
                broadcast use lemma_array_view;

            }
            put_together(Parts::Array(out))
        },
        Json::Object(m) => {
            let mut out: Vec<(String, serde_json::Value)> = Vec::new();
            let count: usize = m.len();
            assert(trees(m.pairs().take(0)) == Map::<Seq<char>, JsonView>::empty());
            for i in 0..count
                invariant
                    *j == Json::Object(*m),
                    count == m.pairs().len(),
                    ascending(keys_of(m.pairs())),
                    out@.len() == i,
                    forall|k: int| 0 <= k < i ==> #[trigger] out@[k].0@ == m.pairs()[k].0@,
                    entry_trees(out@) == trees(m.pairs().take(i as int)),
            {
                let ghost held = out@;
                proof {
                    m.lemma_pairs_smaller();
                    assert(decreases_to!(*j => j->Object_0));
                    assert(decreases_to!(m.pairs() => m.pairs()[i as int]));
                }
                let (name, value) = m.entry(i);
                out.push((name.clone(), to_value(value)));
                assert(out@.drop_last() == held);
                assert(m.pairs().take(i + 1).drop_last() == m.pairs().take(i as int));
            }
            assert(m.pairs().take(count as int) == m.pairs());
            assert(distinct(out@)) by {
                assert forall|a: int, b: int| 0 <= a < b < out@.len() implies #[trigger] out@[a].0@
                    != #[trigger] out@[b].0@ by {
                    assert(before(keys_of(m.pairs())[a], keys_of(m.pairs())[b]));
                    lemma_before_irreflexive(out@[a].0@);
                }
            }
            put_together(Parts::Object(out))
        },
    }
}

/// The JSON value that a text stands for, where it is JSON.
pub fn parse(text: &str) -> (r: Option<Json>)
    ensures
        seen(r) == json_parse(text@),
{
    match read_value(text) {
        Ok(v) => Some(from_value(v)),
        Err(_) => None,
    }
}

/// A JSON value as compact text.
pub fn print(j: &Json) -> (r: String)
    ensures
        r@ == json_print(j@),
{
    print_value(&to_value(j))
}

} // verus!
