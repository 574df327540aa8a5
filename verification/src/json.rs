//! JSON values and how they are read.

use crate::number::{NumberView, number_of, number_text, number_view, print_number};
use crate::strmap::{StrMap, in_order, map_of};
use crate::text::opt_str;
use vstd::prelude::*;
use vstd::string::*;

verus! {

/// A JSON value.
#[derive(Debug, PartialEq)]
pub enum Json {
    Null,
    Bool(bool),
    Number(serde_json::Number),
    Str(String),
    Array(Vec<Json>),
    Object(StrMap<Json>),
}

/// A JSON object.
pub type JsonMap = StrMap<Json>;

/// A JSON value as a mathematical value.
pub enum JsonView {
    Null,
    Bool(bool),
    Number(NumberView),
    Str(Seq<char>),
    Array(Seq<JsonView>),
    Object(Map<Seq<char>, JsonView>),
}

/// The mathematical value of a JSON value.
pub open spec fn tree(j: Json) -> JsonView
    decreases j,
{
    match j {
        Json::Null => JsonView::Null,
        Json::Bool(b) => JsonView::Bool(b),
        Json::Number(n) => JsonView::Number(number_view(n)),
        Json::Str(s) => JsonView::Str(s@),
        Json::Array(items) => JsonView::Array(
            Seq::new(
                items@.len(),
                |i: int|
                    if 0 <= i < items@.len() {
                        tree(items@[i])
                    } else {
                        JsonView::Null
                    },
            ),
        ),
        Json::Object(m) => {
            proof {
                m.lemma_pairs_smaller();
            }
            JsonView::Object(trees(m.pairs()))
        },
    }
}

/// The mathematical values of a list of entries.
pub open spec fn trees(pairs: Seq<(String, Json)>) -> Map<Seq<char>, JsonView>
    decreases pairs,
{
    if pairs.len() == 0 {
        Map::empty()
    } else {
        trees(pairs.drop_last()).insert(pairs.last().0@, tree(pairs.last().1))
    }
}

impl View for Json {
    type V = JsonView;

    open spec fn view(&self) -> JsonView {
        tree(*self)
    }
}

/// The mathematical values of a list of JSON values.
pub open spec fn views(items: Seq<Json>) -> Seq<JsonView> {
    items.map_values(|j: Json| j@)
}

/// An optional value by its view.
pub open spec fn seen<T: View>(o: Option<T>) -> Option<T::V> {
    match o {
        Some(x) => Some(x@),
        None => None,
    }
}

/// The field of an object, where it has one of that name.
pub open spec fn lookup(m: Map<Seq<char>, JsonView>, key: Seq<char>) -> Option<JsonView> {
    if m.dom().contains(key) {
        Some(m[key])
    } else {
        None
    }
}

/// An array is seen item by item.
pub broadcast proof fn lemma_array_view(items: Vec<Json>)
    ensures
        #[trigger] tree(Json::Array(items)) == JsonView::Array(views(items@)),
{
    assert(tree(Json::Array(items))->Array_0 =~= views(items@));
}

/// The fields of an object are the values of its map, each by its view.
proof fn lemma_trees(pairs: Seq<(String, Json)>)
    ensures
        trees(pairs).dom() == map_of(pairs).dom(),
        forall|k: Seq<char>|
            map_of(pairs).dom().contains(k) ==> #[trigger] trees(pairs)[k] == map_of(pairs)[k]@,
    decreases pairs.len(),
{
    if pairs.len() > 0 {
        lemma_trees(pairs.drop_last());
    }
    assert(trees(pairs).dom() =~= map_of(pairs).dom());
}

/// An object without fields is an empty map.
pub proof fn lemma_no_fields(m: JsonMap)
    ensures
        (m@ == Map::<Seq<char>, Json>::empty()) == (m.fields() == Map::<
            Seq<char>,
            JsonView,
        >::empty()),
{
    lemma_trees(m.pairs());
    if m@ == Map::<Seq<char>, Json>::empty() {
        assert(m.fields() =~= Map::<Seq<char>, JsonView>::empty());
    }
    if m.fields() == Map::<Seq<char>, JsonView>::empty() {
        assert(m@.dom() =~= Set::<Seq<char>>::empty());
        assert(m@ =~= Map::<Seq<char>, Json>::empty());
    }
}

impl StrMap<Json> {
    /// The fields of an object.
    pub open spec fn fields(self) -> Map<Seq<char>, JsonView> {
        trees(self.pairs())
    }

    /// The object without fields.
    pub fn empty() -> (r: Self)
        ensures
            r.fields() == Map::<Seq<char>, JsonView>::empty(),
    {
        StrMap::new()
    }

    /// The field of a name.
    pub fn field(&self, key: &str) -> (r: Option<&Json>)
        ensures
            seen(r) == lookup(self.fields(), key@),
    {
        proof {
            lemma_trees(self.pairs());
        }
        self.get(key)
    }

    /// Whether there is a field of that name.
    pub fn has_field(&self, key: &str) -> (r: bool)
        ensures
            r == self.fields().dom().contains(key@),
    {
        self.field(key).is_some()
    }

    /// Sets the field of a name.
    pub fn put(&mut self, key: &str, value: Json)
        ensures
            final(self).fields() == old(self).fields().insert(key@, value@),
    {
        let ghost held = *self;
        self.insert(key.to_string(), value);
        proof {
            lemma_trees(held.pairs());
            lemma_trees(self.pairs());
            assert(self.fields() =~= held.fields().insert(key@, value@));
        }
    }

    /// Removes the field of a name.
    pub fn drop_field(&mut self, key: &str)
        ensures
            final(self).fields() == old(self).fields().remove(key@),
    {
        let ghost held = *self;
        self.remove(key);
        proof {
            lemma_trees(held.pairs());
            lemma_trees(self.pairs());
            assert(self.fields() =~= held.fields().remove(key@));
        }
    }

    /// How many fields there are.
    pub fn field_count(&self) -> (r: usize)
        ensures
            r == in_order(self.fields().dom()).len(),
            r == self.pairs().len(),
    {
        proof {
            lemma_trees(self.pairs());
        }
        self.len()
    }

    /// The name and value of a field, counted in ascending order of the names.
    pub fn field_at(&self, i: usize) -> (r: (&String, &Json))
        requires
            i < self.pairs().len(),
        ensures
            r.0@ == in_order(self.fields().dom())[i as int],
            self.fields().dom().contains(r.0@),
            self.fields()[r.0@] == r.1@,
            *r.1 == self.pairs()[i as int].1,
    {
        proof {
            lemma_trees(self.pairs());
        }
        self.entry(i)
    }
}

// ----------------------------------------------------------------- reading

impl JsonView {
    /// The text of a string.
    pub open spec fn text(self) -> Option<Seq<char>> {
        match self {
            JsonView::Str(s) => Some(s),
            _ => None,
        }
    }

    /// The items of an array.
    pub open spec fn items(self) -> Option<Seq<JsonView>> {
        match self {
            JsonView::Array(s) => Some(s),
            _ => None,
        }
    }

    /// The fields of an object.
    pub open spec fn members(self) -> Option<Map<Seq<char>, JsonView>> {
        match self {
            JsonView::Object(m) => Some(m),
            _ => None,
        }
    }

    /// The value of a number that is an unsigned integer of 64 bits.
    pub open spec fn unsigned(self) -> Option<u64> {
        match self {
            JsonView::Number(NumberView::Unsigned(n)) => Some(n),
            _ => None,
        }
    }

    /// The value of a boolean.
    pub open spec fn truth(self) -> Option<bool> {
        match self {
            JsonView::Bool(b) => Some(b),
            _ => None,
        }
    }

    /// The field of an object; nothing else has fields.
    pub open spec fn field(self, key: Seq<char>) -> Option<JsonView> {
        match self {
            JsonView::Object(m) => lookup(m, key),
            _ => None,
        }
    }

    /// A string, a number or a boolean as text.
    pub open spec fn scalar(self) -> Option<Seq<char>> {
        match self {
            JsonView::Str(s) => Some(s),
            JsonView::Number(n) => Some(number_text(n)),
            JsonView::Bool(b) => Some(
                if b {
                    "true"@
                } else {
                    "false"@
                },
            ),
            _ => None,
        }
    }
}

impl Json {
    /// The text of a string.
    pub fn as_str(&self) -> (r: Option<&str>)
        ensures
            seen(r) == self@.text(),
    {
        match self {
            Json::Str(s) => Some(s.as_str()),
            _ => None,
        }
    }

    /// The items of an array.
    pub fn as_array(&self) -> (r: Option<&Vec<Json>>)
        ensures
            match r {
                Some(items) => self@ == JsonView::Array(views(items@)) && *self == Json::Array(
                    *items,
                ),
                None => self@.items() is None,
            },
    {
        proof {
            broadcast use lemma_array_view;

        }
        match self {
            Json::Array(items) => Some(items),
            _ => None,
        }
    }

    /// The fields of an object.
    pub fn as_object(&self) -> (r: Option<&JsonMap>)
        ensures
            match r {
                Some(m) => self@ == JsonView::Object(m.fields()) && *self == Json::Object(*m),
                None => self@.members() is None,
            },
    {
        match self {
            Json::Object(m) => Some(m),
            _ => None,
        }
    }

    /// The value of a number that is an unsigned integer of 64 bits.
    pub fn as_u64(&self) -> (r: Option<u64>)
        ensures
            r == self@.unsigned(),
    {
        match self {
            Json::Number(n) => n.as_u64(),
            _ => None,
        }
    }

    /// The value of a boolean.
    pub fn as_bool(&self) -> (r: Option<bool>)
        ensures
            r == self@.truth(),
    {
        match self {
            Json::Bool(b) => Some(*b),
            _ => None,
        }
    }

    /// Whether this is `null`.
    pub fn is_null(&self) -> (r: bool)
        ensures
            r == (self@ == JsonView::Null),
    {
        match self {
            Json::Null => true,
            _ => false,
        }
    }

    /// The field of an object; nothing else has fields.
    pub fn get(&self, key: &str) -> (r: Option<&Json>)
        ensures
            seen(r) == self@.field(key@),
    {
        match self {
            Json::Object(m) => m.field(key),
            _ => None,
        }
    }

    /// A number.
    pub fn from_u64(value: u64) -> (r: Json)
        ensures
            r@ == JsonView::Number(NumberView::Unsigned(value)),
    {
        Json::Number(number_of(value))
    }

    /// A string.
    pub fn from_text(text: &str) -> (r: Json)
        ensures
            r@ == JsonView::Str(text@),
    {
        Json::Str(text.to_string())
    }

    /// A string, a number or a boolean as text.
    pub fn as_scalar_string(&self) -> (r: Option<String>)
        ensures
            opt_str(r) == self@.scalar(),
    {
        match self {
            Json::Str(s) => Some(s.clone()),
            Json::Number(n) => Some(print_number(n)),
            Json::Bool(b) => if *b {
                Some("true".to_string())
            } else {
                Some("false".to_string())
            },
            _ => None,
        }
    }

    /// Another value like this one.
    pub fn copy(&self) -> (r: Json)
        ensures
            r@ == self@,
        decreases *self,
    {
        match self {
            Json::Null => Json::Null,
            Json::Bool(b) => Json::Bool(*b),
            Json::Number(n) => Json::Number(n.clone()),
            Json::Str(s) => Json::Str(s.clone()),
            Json::Array(items) => {
                let mut out: Vec<Json> = Vec::new();
                for i in 0..items.len()
                    invariant
                        *self == Json::Array(*items),
                        views(out@) == views(items@).take(i as int),
                {
                    let ghost held = out@;
                    assert(decreases_to!(*self => self->Array_0));
                    let item = items[i].copy();
                    out.push(item);
                    assert(views(out@) == views(held).push(items@[i as int]@));
                    assert(views(items@).take(i + 1) == views(items@).take(i as int).push(
                        items@[i as int]@,
                    ));
                }
                assert(views(items@).take(items@.len() as int) == views(items@));
                proof {
                    broadcast use lemma_array_view;

                }
                Json::Array(out)
            },
            Json::Object(m) => {
                proof {
                    m.lemma_pairs_smaller();
                }
                Json::Object(copy_fields(m))
            },
        }
    }
}

/// Another object like this one.
pub fn copy_fields(m: &JsonMap) -> (r: JsonMap)
    ensures
        r.fields() == m.fields(),
    decreases m.pairs(),
{
    let mut out = JsonMap::empty();
    let count = m.field_count();
    assert(trees(m.pairs().take(0)) == Map::<Seq<char>, JsonView>::empty());
    for i in 0..count
        invariant
            count == m.pairs().len(),
            out.fields() == trees(m.pairs().take(i as int)),
    {
        let (name, value) = m.entry(i);
        assert(decreases_to!(m.pairs() => m.pairs()[i as int]));
        let value = value.copy();
        assert(m.pairs().take(i + 1).drop_last() == m.pairs().take(i as int));
        out.put(name.as_str(), value);
    }
    assert(m.pairs().take(count as int) == m.pairs());
    out
}

} // verus!
