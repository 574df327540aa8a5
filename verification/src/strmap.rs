//! Maps from strings and sets of strings, kept in ascending order of their keys.

use crate::text::{before, is_before, lemma_before_irreflexive, lemma_before_total,
    lemma_before_transitive, same};
use vstd::prelude::*;
use vstd::string::*;

verus! {

// ------------------------------------------------------------------ order

/// Every string stands strictly before those that follow it.
pub open spec fn ascending(keys: Seq<Seq<char>>) -> bool {
    forall|i: int, j: int| 0 <= i < j < keys.len() ==> before(#[trigger] keys[i], #[trigger] keys[j])
}

/// The strings of a finite set, in ascending order.
pub open spec fn in_order(set: Set<Seq<char>>) -> Seq<Seq<char>> {
    choose|s: Seq<Seq<char>>| ascending(s) && s.to_set() == set
}

/// There is one way to put the strings of a set in ascending order.
pub proof fn lemma_ascending_unique(a: Seq<Seq<char>>, b: Seq<Seq<char>>)
    requires
        ascending(a),
        ascending(b),
        a.to_set() == b.to_set(),
    ensures
        a == b,
    decreases a.len(),
{
    if a.len() == 0 {
        if b.len() > 0 {
            assert(b.to_set().contains(b[0]));
            assert(a.to_set().contains(b[0]));
        }
        assert(a =~= b);
    } else {
        let top = a.last();
        assert(a.to_set().contains(top));
        assert(b.to_set().contains(top));
        let j = choose|j: int| 0 <= j < b.len() && b[j] == top;
        if j < b.len() - 1 {
            assert(b.to_set().contains(b.last()));
            assert(a.to_set().contains(b.last()));
            let i = choose|i: int| 0 <= i < a.len() && a[i] == b.last();
            assert(before(top, b.last()));
            if i < a.len() - 1 {
                lemma_before_transitive(top, b.last(), top);
            }
            lemma_before_irreflexive(top);
            assert(false);
        }
        let s = a.drop_last();
        let t = b.drop_last();
        assert(ascending(s)) by {
            assert forall|i: int, j: int| 0 <= i < j < s.len() implies before(
                #[trigger] s[i],
                #[trigger] s[j],
            ) by {
                assert(before(a[i], a[j]));
            }
        }
        assert(ascending(t)) by {
            assert forall|i: int, j: int| 0 <= i < j < t.len() implies before(
                #[trigger] t[i],
                #[trigger] t[j],
            ) by {
                assert(before(b[i], b[j]));
            }
        }
        assert forall|k: Seq<char>| s.to_set().contains(k) implies t.to_set().contains(k) by {
            let i = choose|i: int| 0 <= i < s.len() && s[i] == k;
            assert(before(a[i], a.last()));
            lemma_before_irreflexive(k);
            assert(a.to_set().contains(a[i]));
            assert(b.to_set().contains(k));
            let m = choose|m: int| 0 <= m < b.len() && b[m] == k;
            assert(t[m] == k);
        }
        assert forall|k: Seq<char>| t.to_set().contains(k) implies s.to_set().contains(k) by {
            let i = choose|i: int| 0 <= i < t.len() && t[i] == k;
            assert(before(b[i], b.last()));
            lemma_before_irreflexive(k);
            assert(b.to_set().contains(b[i]));
            assert(a.to_set().contains(k));
            let m = choose|m: int| 0 <= m < a.len() && a[m] == k;
            assert(s[m] == k);
        }
        assert(s.to_set() =~= t.to_set());
        lemma_ascending_unique(s, t);
        assert(a =~= s.push(top));
        assert(b =~= t.push(top));
    }
}

/// An ascending sequence is its own set in order.
pub proof fn lemma_in_order(s: Seq<Seq<char>>)
    requires
        ascending(s),
    ensures
        in_order(s.to_set()) == s,
{
    lemma_ascending_unique(in_order(s.to_set()), s);
}

/// A string has a place among ascending strings that it is not one of.
proof fn lemma_place(s: Seq<Seq<char>>, x: Seq<char>) -> (at: int)
    requires
        ascending(s),
        !s.contains(x),
    ensures
        0 <= at <= s.len(),
        forall|j: int| 0 <= j < at ==> before(#[trigger] s[j], x),
        forall|j: int| at <= j < s.len() ==> before(x, #[trigger] s[j]),
    decreases s.len(),
{
    if s.len() == 0 {
        0
    } else if before(s.last(), x) {
        assert forall|j: int| 0 <= j < s.len() implies before(#[trigger] s[j], x) by {
            if j < s.len() - 1 {
                lemma_before_transitive(s[j], s.last(), x);
            }
        }
        s.len() as int
    } else {
        let head = s.drop_last();
        assert forall|i: int, j: int| 0 <= i < j < head.len() implies before(
            #[trigger] head[i],
            #[trigger] head[j],
        ) by {
            assert(before(s[i], s[j]));
        }
        assert(!head.contains(x)) by {
            if head.contains(x) {
                let j = choose|j: int| 0 <= j < head.len() && head[j] == x;
                assert(s[j] == x);
            }
        }
        let at = lemma_place(head, x);
        lemma_before_total(s.last(), x);
        assert(s.contains(s[s.len() - 1]));
        assert forall|j: int| 0 <= j < at implies before(#[trigger] s[j], x) by {
            assert(head[j] == s[j]);
        }
        assert forall|j: int| at <= j < s.len() implies before(x, #[trigger] s[j]) by {
            if j < head.len() {
                assert(head[j] == s[j]);
            }
        }
        at
    }
}

/// The strings of a finite set can be put in ascending order.
pub proof fn lemma_set_in_order(set: Set<Seq<char>>)
    requires
        set.finite(),
    ensures
        ascending(in_order(set)),
        in_order(set).to_set() == set,
    decreases set.len(),
{
    if set.len() == 0 {
        let none = Seq::<Seq<char>>::empty();
        assert(none.to_set() =~= set);
        assert(ascending(none));
    } else {
        let x = set.choose();
        let rest = set.remove(x);
        lemma_set_in_order(rest);
        let s = in_order(rest);
        assert(!s.contains(x)) by {
            if s.contains(x) {
                assert(s.to_set().contains(x));
            }
        }
        let at = lemma_place(s, x);
        let t = s.insert(at, x);
        assert forall|i: int, j: int| 0 <= i < j < t.len() implies before(
            #[trigger] t[i],
            #[trigger] t[j],
        ) by {
            let a = if i < at {
                i
            } else {
                i - 1
            };
            let b = if j < at {
                j
            } else {
                j - 1
            };
            if i == at {
                assert(before(x, s[b]));
            } else if j == at {
                assert(before(s[a], x));
            } else {
                assert(before(s[a], s[b]));
            }
        }
        assert(t.to_set() =~= set) by {
            assert forall|k: Seq<char>| t.contains(k) implies set.contains(k) by {
                let i = choose|i: int| 0 <= i < t.len() && t[i] == k;
                if i != at {
                    let a = if i < at {
                        i
                    } else {
                        i - 1
                    };
                    assert(s[a] == k);
                    assert(s.to_set().contains(k));
                }
            }
            assert forall|k: Seq<char>| set.contains(k) implies t.contains(k) by {
                if k == x {
                    assert(t[at] == x);
                } else {
                    assert(rest.contains(k));
                    assert(s.to_set().contains(k));
                    let i = choose|i: int| 0 <= i < s.len() && s[i] == k;
                    if i < at {
                        assert(t[i] == k);
                    } else {
                        assert(t[i + 1] == k);
                    }
                }
            }
        }
    }
}

// ------------------------------------------------------------------- maps

/// A map from strings. Its keys are kept in ascending order.
#[derive(Debug, PartialEq)]
pub struct StrMap<V> {
    entries: Vec<(String, V)>,
}

/// The keys of a list of entries.
pub open spec fn keys_of<V>(pairs: Seq<(String, V)>) -> Seq<Seq<char>> {
    pairs.map_values(|p: (String, V)| p.0@)
}

/// The map that a list of entries stands for.
pub open spec fn map_of<V>(pairs: Seq<(String, V)>) -> Map<Seq<char>, V>
    decreases pairs.len(),
{
    if pairs.len() == 0 {
        Map::empty()
    } else {
        map_of(pairs.drop_last()).insert(pairs.last().0@, pairs.last().1)
    }
}

/// A list of entries stands for a finite map.
pub proof fn lemma_map_of_finite<V>(pairs: Seq<(String, V)>)
    ensures
        map_of(pairs).dom().finite(),
    decreases pairs.len(),
{
    if pairs.len() > 0 {
        lemma_map_of_finite(pairs.drop_last());
    }
}

/// Where keys ascend, a list of entries maps each key to its own value and has
/// no other keys.
pub proof fn lemma_map_of<V>(pairs: Seq<(String, V)>)
    requires
        ascending(keys_of(pairs)),
    ensures
        map_of(pairs).dom() == keys_of(pairs).to_set(),
        forall|i: int| 0 <= i < pairs.len() ==> #[trigger] map_of(pairs)[pairs[i].0@] == pairs[i].1,
    decreases pairs.len(),
{
    let keys = keys_of(pairs);
    if pairs.len() > 0 {
        let rest = pairs.drop_last();
        assert(keys_of(rest) =~= keys.drop_last());
        assert(ascending(keys_of(rest))) by {
            assert forall|i: int, j: int| 0 <= i < j < keys_of(rest).len() implies before(
                #[trigger] keys_of(rest)[i],
                #[trigger] keys_of(rest)[j],
            ) by {
                assert(before(keys[i], keys[j]));
            }
        }
        lemma_map_of(rest);
        assert forall|i: int| 0 <= i < pairs.len() implies #[trigger] map_of(pairs)[pairs[i].0@]
            == pairs[i].1 by {
            if i < pairs.len() - 1 {
                assert(before(keys[i], keys[pairs.len() - 1]));
                lemma_before_irreflexive(keys[i]);
                assert(rest[i] == pairs[i]);
                assert(map_of(rest)[rest[i].0@] == rest[i].1);
            }
        }
        assert(keys =~= keys_of(rest).push(pairs.last().0@));
        assert(map_of(pairs).dom() =~= keys.to_set()) by {
            assert forall|k: Seq<char>| map_of(pairs).dom().contains(k) implies keys.to_set().contains(k) by {
                if k != pairs.last().0@ {
                    assert(keys_of(rest).to_set().contains(k));
                    let i = choose|i: int| 0 <= i < keys_of(rest).len() && keys_of(rest)[i] == k;
                    assert(keys[i] == k);
                } else {
                    assert(keys[pairs.len() - 1] == k);
                }
            }
            assert forall|k: Seq<char>| keys.to_set().contains(k) implies map_of(pairs).dom().contains(k) by {
                let i = choose|i: int| 0 <= i < keys.len() && keys[i] == k;
                if i < pairs.len() - 1 {
                    assert(keys_of(rest)[i] == k);
                    assert(keys_of(rest).to_set().contains(k));
                }
            }
        }
    } else {
        assert(map_of(pairs).dom() =~= keys.to_set());
    }
}

impl<V> View for StrMap<V> {
    type V = Map<Seq<char>, V>;

    open spec fn view(&self) -> Map<Seq<char>, V> {
        map_of(self.pairs())
    }
}

impl<V> StrMap<V> {
    #[verifier::type_invariant]
    spec fn sorted(self) -> bool {
        ascending(keys_of(self.entries@))
    }

    /// The entries, in ascending order of their keys.
    pub closed spec fn pairs(self) -> Seq<(String, V)> {
        self.entries@
    }

    /// A map is larger than its list of entries, which makes recursion into its
    /// values end.
    pub proof fn lemma_pairs_smaller(self)
        ensures
            decreases_to!(self => self.pairs()),
    {
        assert(decreases_to!(self => self.entries));
    }

    /// The keys of a map, and where they stand.
    proof fn lemma_entries(self)
        requires
            self.sorted(),
        ensures
            ascending(keys_of(self.entries@)),
            self@.dom() == keys_of(self.entries@).to_set(),
            in_order(self@.dom()) == keys_of(self.entries@),
            forall|i: int|
                0 <= i < self.entries@.len() ==> #[trigger] self@[self.entries@[i].0@]
                    == self.entries@[i].1,
    {
        lemma_map_of(self.entries@);
        lemma_in_order(keys_of(self.entries@));
    }

    /// The empty map.
    pub fn new() -> (r: Self)
        ensures
            r@ == Map::<Seq<char>, V>::empty(),
            r.pairs() == Seq::<(String, V)>::empty(),
    {
        StrMap { entries: Vec::new() }
    }

    /// How many keys there are.
    pub fn len(&self) -> (r: usize)
        ensures
            r == in_order(self@.dom()).len(),
            r == self.pairs().len(),
            ascending(keys_of(self.pairs())),
    {
        proof {
            use_type_invariant(self);
            self.lemma_entries();
        }
        self.entries.len()
    }

    /// Whether there are no keys.
    pub fn is_empty(&self) -> (r: bool)
        ensures
            r == (self@ == Map::<Seq<char>, V>::empty()),
    {
        proof {
            use_type_invariant(self);
            self.lemma_entries();
            if self.entries@.len() == 0 {
                assert(self@ =~= Map::<Seq<char>, V>::empty());
            } else {
                assert(keys_of(self.entries@).to_set().contains(keys_of(self.entries@)[0]));
            }
        }
        self.entries.len() == 0
    }

    /// The entry at a position, counted in ascending order of the keys.
    pub fn entry(&self, i: usize) -> (r: (&String, &V))
        requires
            i < self.pairs().len(),
        ensures
            r.0@ == in_order(self@.dom())[i as int],
            self@.dom().contains(r.0@),
            self@[r.0@] == *r.1,
            self.pairs()[i as int] == (*r.0, *r.1),
    {
        proof {
            use_type_invariant(self);
            self.lemma_entries();
            let keys = keys_of(self.entries@);
            assert(keys.to_set().contains(keys[i as int]));
        }
        let e = &self.entries[i];
        (&e.0, &e.1)
    }

    /// How many keys stand before the given one, and whether the key itself is
    /// next.
    fn slot(&self, key: &str) -> (r: (usize, bool))
        ensures
            r.0 <= self.entries@.len(),
            forall|j: int| 0 <= j < r.0 ==> before(#[trigger] self.entries@[j].0@, key@),
            forall|j: int|
                r.0 <= j < self.entries@.len() ==> !before(#[trigger] self.entries@[j].0@, key@),
            r.1 == (r.0 < self.entries@.len() && self.entries@[r.0 as int].0@ == key@),
    {
        proof {
            use_type_invariant(self);
        }
        let mut i: usize = 0;
        while i < self.entries.len() && is_before(self.entries[i].0.as_str(), key)
            invariant
                i <= self.entries@.len(),
                forall|j: int| 0 <= j < i ==> before(#[trigger] self.entries@[j].0@, key@),
            decreases self.entries@.len() - i,
        {
            i = i + 1;
        }
        proof {
            assert forall|j: int| i <= j < self.entries@.len() implies !before(
                #[trigger] self.entries@[j].0@,
                key@,
            ) by {
                if i < j && before(self.entries@[j].0@, key@) {
                    let keys = keys_of(self.entries@);
                    assert(before(keys[i as int], keys[j]));
                    lemma_before_transitive(keys[i as int], keys[j], key@);
                }
            }
        }
        let hit = i < self.entries.len() && same(self.entries[i].0.as_str(), key);
        (i, hit)
    }

    /// The value under a key.
    pub fn get(&self, key: &str) -> (r: Option<&V>)
        ensures
            match r {
                Some(v) => self@.dom().contains(key@) && self@[key@] == *v,
                None => !self@.dom().contains(key@),
            },
    {
        let (at, hit) = self.slot(key);
        proof {
            use_type_invariant(self);
            self.lemma_entries();
            let keys = keys_of(self.entries@);
            if hit {
                assert(keys[at as int] == key@);
                assert(keys.to_set().contains(key@));
            } else if keys.to_set().contains(key@) {
                let j = choose|j: int| 0 <= j < keys.len() && keys[j] == key@;
                lemma_before_irreflexive(key@);
                assert(j >= at);
                assert(before(keys[at as int], keys[j]));
                assert(!before(self.entries@[at as int].0@, key@));
            }
        }
        if hit {
            Some(&self.entries[at].1)
        } else {
            None
        }
    }

    /// Whether there is a value under a key.
    pub fn contains_key(&self, key: &str) -> (r: bool)
        ensures
            r == self@.dom().contains(key@),
    {
        self.get(key).is_some()
    }

    /// Puts a value under a key, in place of the one that stood there.
    pub fn insert(&mut self, key: String, value: V)
        ensures
            final(self)@ == old(self)@.insert(key@, value),
    {
        let (at, hit) = self.slot(key.as_str());
        proof {
            use_type_invariant(&*self);
            self.lemma_entries();
        }
        let ghost held = self.entries@;
        let mut entries: Vec<(String, V)> = Vec::new();
        std::mem::swap(&mut entries, &mut self.entries);
        if hit {
            let _ = entries.remove(at);
        }
        let ghost kept = entries@;
        entries.insert(at, (key, value));
        proof {
            lemma_put(held, at as int, hit, (key, value));
            assert(entries@ == kept.insert(at as int, (key, value)));
        }
        self.entries = entries;
    }

    /// Takes away the value under a key, if there is one.
    pub fn remove(&mut self, key: &str)
        ensures
            final(self)@ == old(self)@.remove(key@),
    {
        let (at, hit) = self.slot(key);
        proof {
            use_type_invariant(&*self);
            self.lemma_entries();
        }
        let ghost held = self.entries@;
        if !hit {
            proof {
                let keys = keys_of(held);
                if keys.to_set().contains(key@) {
                    let j = choose|j: int| 0 <= j < keys.len() && keys[j] == key@;
                    lemma_before_irreflexive(key@);
                    assert(before(keys[at as int], keys[j]));
                    assert(!before(held[at as int].0@, key@));
                }
                assert(self@ =~= self@.remove(key@));
            }
            return;
        }
        let mut entries: Vec<(String, V)> = Vec::new();
        std::mem::swap(&mut entries, &mut self.entries);
        let _ = entries.remove(at);
        proof {
            lemma_take_out(held, at as int);
        }
        self.entries = entries;
    }
}

impl<V> Default for StrMap<V> {
    fn default() -> (r: Self)
        ensures
            r@ == Map::<Seq<char>, V>::empty(),
    {
        StrMap::new()
    }
}

/// Putting an entry where its key belongs keeps the keys ascending and maps that
/// key to the new value.
proof fn lemma_put<V>(held: Seq<(String, V)>, at: int, hit: bool, e: (String, V))
    requires
        ascending(keys_of(held)),
        0 <= at <= held.len(),
        forall|j: int| 0 <= j < at ==> before(#[trigger] held[j].0@, e.0@),
        forall|j: int| at <= j < held.len() ==> !before(#[trigger] held[j].0@, e.0@),
        hit == (at < held.len() && held[at].0@ == e.0@),
    ensures
        ascending(keys_of((if hit { held.remove(at) } else { held }).insert(at, e))),
        map_of((if hit { held.remove(at) } else { held }).insert(at, e)) == map_of(held).insert(
            e.0@,
            e.1,
        ),
{
    let kept = if hit {
        held.remove(at)
    } else {
        held
    };
    let next = kept.insert(at, e);
    let keys = keys_of(held);
    let shift = if hit {
        0int
    } else {
        1int
    };
    assert forall|j: int| at < j < next.len() implies next[j] == held[j - shift] by {}
    assert forall|j: int| at < j < next.len() implies before(e.0@, #[trigger] next[j].0@) by {
        let o = held[j - shift];
        assert(next[j] == o);
        if hit {
            assert(before(keys[at], keys[j]));
        } else {
            lemma_before_total(o.0@, e.0@);
            assert(!before(held[j - shift].0@, e.0@));
            if o.0@ == e.0@ {
                if j - shift > at {
                    assert(before(keys[at], keys[j - shift]));
                    assert(!before(held[at].0@, e.0@));
                }
            }
        }
    }
    assert forall|i: int, j: int| 0 <= i < j < next.len() implies before(
        #[trigger] keys_of(next)[i],
        #[trigger] keys_of(next)[j],
    ) by {
        if j < at {
            assert(before(keys[i], keys[j]));
        } else if j == at {
            assert(before(held[i].0@, e.0@));
        } else if i == at {
            assert(before(e.0@, next[j].0@));
        } else if i < at {
            assert(before(keys[i], keys[j - shift]));
        } else {
            assert(before(keys[i - shift], keys[j - shift]));
        }
    }
    lemma_map_of(held);
    lemma_map_of(next);
    let m = map_of(held).insert(e.0@, e.1);
    assert(map_of(next).dom() =~= m.dom()) by {
        assert forall|k: Seq<char>| keys_of(next).to_set().contains(k) implies m.dom().contains(k) by {
            let j = choose|j: int| 0 <= j < next.len() && keys_of(next)[j] == k;
            if j < at {
                assert(keys[j] == k);
                assert(keys.to_set().contains(k));
            } else if j > at {
                assert(keys[j - shift] == k);
                assert(keys.to_set().contains(k));
            }
        }
        assert forall|k: Seq<char>| m.dom().contains(k) implies keys_of(next).to_set().contains(k) by {
            if k == e.0@ {
                assert(keys_of(next)[at] == k);
            } else {
                assert(keys.to_set().contains(k));
                let j = choose|j: int| 0 <= j < keys.len() && keys[j] == k;
                if j < at {
                    assert(keys_of(next)[j] == k);
                } else {
                    assert(keys_of(next)[j + shift] == k);
                }
            }
        }
    }
    assert forall|k: Seq<char>| m.dom().contains(k) implies map_of(next)[k] == m[k] by {
        if k == e.0@ {
            assert(next[at].0@ == k);
            assert(map_of(next)[next[at].0@] == e.1);
        } else {
            assert(keys.to_set().contains(k));
            let j = choose|j: int| 0 <= j < keys.len() && keys[j] == k;
            assert(map_of(held)[held[j].0@] == held[j].1);
            let n = if j < at {
                j
            } else {
                j + shift
            };
            assert(next[n] == held[j]);
            assert(map_of(next)[next[n].0@] == next[n].1);
        }
    }
    assert(map_of(next) =~= m);
}

/// Taking an entry out keeps the keys ascending and removes its key.
proof fn lemma_take_out<V>(held: Seq<(String, V)>, at: int)
    requires
        ascending(keys_of(held)),
        0 <= at < held.len(),
    ensures
        ascending(keys_of(held.remove(at))),
        map_of(held.remove(at)) == map_of(held).remove(held[at].0@),
{
    let next = held.remove(at);
    let keys = keys_of(held);
    let gone = held[at].0@;
    assert forall|i: int, j: int| 0 <= i < j < next.len() implies before(
        #[trigger] keys_of(next)[i],
        #[trigger] keys_of(next)[j],
    ) by {
        let a = if i < at {
            i
        } else {
            i + 1
        };
        let b = if j < at {
            j
        } else {
            j + 1
        };
        assert(before(keys[a], keys[b]));
    }
    lemma_map_of(held);
    lemma_map_of(next);
    let m = map_of(held).remove(gone);
    assert(map_of(next).dom() =~= m.dom()) by {
        assert forall|k: Seq<char>| keys_of(next).to_set().contains(k) implies m.dom().contains(k) by {
            let j = choose|j: int| 0 <= j < next.len() && keys_of(next)[j] == k;
            let o = if j < at {
                j
            } else {
                j + 1
            };
            assert(keys[o] == k);
            assert(keys.to_set().contains(k));
            if k == gone {
                if o < at {
                    assert(before(keys[o], keys[at]));
                } else {
                    assert(before(keys[at], keys[o]));
                }
                lemma_before_irreflexive(k);
            }
        }
        assert forall|k: Seq<char>| m.dom().contains(k) implies keys_of(next).to_set().contains(k) by {
            assert(keys.to_set().contains(k));
            let j = choose|j: int| 0 <= j < keys.len() && keys[j] == k;
            let n = if j < at {
                j
            } else {
                j - 1
            };
            assert(keys_of(next)[n] == k);
        }
    }
    assert forall|k: Seq<char>| m.dom().contains(k) implies map_of(next)[k] == m[k] by {
        assert(keys.to_set().contains(k));
        let j = choose|j: int| 0 <= j < keys.len() && keys[j] == k;
        assert(map_of(held)[held[j].0@] == held[j].1);
        let n = if j < at {
            j
        } else {
            j - 1
        };
        assert(next[n] == held[j]);
        assert(map_of(next)[next[n].0@] == next[n].1);
    }
    assert(map_of(next) =~= m);
}

} // verus!
