//! Sets of strings, walked in ascending order.

use crate::strmap::{StrMap, in_order};
use crate::text::strs;
use vstd::prelude::*;
use vstd::string::*;

verus! {

/// A set of strings.
#[derive(Debug, PartialEq)]
pub struct StrSet {
    members: StrMap<bool>,
}

impl View for StrSet {
    type V = Set<Seq<char>>;

    closed spec fn view(&self) -> Set<Seq<char>> {
        self.members@.dom()
    }
}

impl StrSet {
    /// The empty set.
    pub fn new() -> (r: Self)
        ensures
            r@ == Set::<Seq<char>>::empty(),
    {
        StrSet { members: StrMap::new() }
    }

    /// Whether the set holds nothing.
    pub fn is_empty(&self) -> (r: bool)
        ensures
            r == (self@ == Set::<Seq<char>>::empty()),
    {
        proof {
            if self@ == Set::<Seq<char>>::empty() {
                assert(self.members@ =~= Map::<Seq<char>, bool>::empty());
            }
        }
        self.members.is_empty()
    }

    /// Whether the set holds a string.
    pub fn contains(&self, wanted: &str) -> (r: bool)
        ensures
            r == self@.contains(wanted@),
    {
        self.members.contains_key(wanted)
    }

    /// Adds a string.
    pub fn insert(&mut self, member: String)
        ensures
            final(self)@ == old(self)@.insert(member@),
    {
        let ghost held = self.members@;
        self.members.insert(member, true);
        assert(self.members@.dom() =~= held.dom().insert(member@));
    }

    /// The strings of the set in ascending order.
    pub fn to_list(&self) -> (r: Vec<String>)
        ensures
            strs(r@) == in_order(self@),
    {
        let mut out: Vec<String> = Vec::new();
        let count: usize = self.members.len();
        for i in 0..count
            invariant
                count == in_order(self@).len(),
                count == self.members.pairs().len(),
                strs(out@) == in_order(self@).take(i as int),
        {
            let ghost held = out@;
            let (name, _present) = self.members.entry(i);
            out.push(name.clone());
            assert(strs(out@) == strs(held).push(name@));
            assert(in_order(self@).take(i + 1) == in_order(self@).take(i as int).push(name@));
        }
        assert(in_order(self@).take(count as int) == in_order(self@));
        out
    }

    /// Another set like this one.
    pub fn copy(&self) -> (r: StrSet)
        ensures
            r@ == self@,
    {
        let mut out = StrMap::new();
        let count: usize = self.members.len();
        let ghost pairs = self.members.pairs();
        assert(crate::strmap::map_of(pairs.take(0)) == Map::<Seq<char>, bool>::empty());
        for i in 0..count
            invariant
                pairs == self.members.pairs(),
                count == pairs.len(),
                out@ == crate::strmap::map_of(pairs.take(i as int)),
        {
            let (name, present) = self.members.entry(i);
            assert(pairs.take(i + 1).drop_last() == pairs.take(i as int));
            out.insert(name.clone(), *present);
        }
        assert(pairs.take(count as int) == pairs);
        StrSet { members: out }
    }
}

impl Default for StrSet {
    fn default() -> (r: Self)
        ensures
            r@ == Set::<Seq<char>>::empty(),
    {
        StrSet::new()
    }
}

} // verus!
