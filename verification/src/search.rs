//! Finding and replacing one text inside another.

use crate::text::{chars_of, string_between};
use vstd::prelude::*;
use vstd::string::*;

verus! {

/// `p` stands in `s` at position `i`.
pub open spec fn occurs_at(s: Seq<char>, p: Seq<char>, i: int) -> bool {
    &&& 0 <= i
    &&& i + p.len() <= s.len()
    &&& s.subrange(i, i + p.len()) == p
}

/// `p` stands somewhere in `s`.
pub open spec fn occurs(s: Seq<char>, p: Seq<char>) -> bool {
    exists|i: int| occurs_at(s, p, i)
}

/// The first position at or after `from` where `p` stands in `s`.
pub open spec fn find(s: Seq<char>, p: Seq<char>, from: int) -> Option<int>
    decreases s.len() - from,
{
    if from < 0 || from + p.len() > s.len() {
        None
    } else if occurs_at(s, p, from) {
        Some(from)
    } else if from == s.len() {
        None
    } else {
        find(s, p, from + 1)
    }
}

/// `find` answers with the least position that fits, and with none only when
/// none fits.
pub proof fn lemma_find(s: Seq<char>, p: Seq<char>, from: int)
    requires
        0 <= from,
    ensures
        match find(s, p, from) {
            Some(i) => {
                &&& from <= i
                &&& occurs_at(s, p, i)
                &&& forall|j: int| from <= j < i ==> !occurs_at(s, p, j)
            },
            None => forall|j: int| from <= j ==> !occurs_at(s, p, j),
        },
    decreases s.len() - from,
{
    if from + p.len() <= s.len() && !occurs_at(s, p, from) && from < s.len() {
        lemma_find(s, p, from + 1);
    }
}

/// A text occurs exactly when a search from the start finds it.
pub proof fn lemma_occurs_is_found(s: Seq<char>, p: Seq<char>)
    ensures
        occurs(s, p) <==> find(s, p, 0) is Some,
{
    lemma_find(s, p, 0);
}

/// The text from `from` on with every `p`, found from left to right without
/// overlap, replaced by `v`. An empty `p` is never replaced.
pub open spec fn replace_from(s: Seq<char>, p: Seq<char>, v: Seq<char>, from: int) -> Seq<char>
    decreases s.len() - from,
{
    if from < 0 || from > s.len() || p.len() == 0 {
        s.skip(from)
    } else {
        proof {
            lemma_find(s, p, from);
        }
        match find(s, p, from) {
            None => s.skip(from),
            Some(i) => s.subrange(from, i) + v + replace_from(s, p, v, i + p.len()),
        }
    }
}

/// `s` with every occurrence of the nonempty `p`, found from left to right
/// without overlap, replaced by `v`.
pub open spec fn replace_all(s: Seq<char>, p: Seq<char>, v: Seq<char>) -> Seq<char> {
    replace_from(s, p, v, 0)
}

/// `s` with the first occurrence of `p` replaced by `v`. The empty text occurs
/// at the very start.
pub open spec fn replace_first(s: Seq<char>, p: Seq<char>, v: Seq<char>) -> Seq<char> {
    match find(s, p, 0) {
        None => s,
        Some(i) => s.take(i) + v + s.skip(i + p.len()),
    }
}

/// How often the nonempty `p` is found from `from` on, from left to right
/// without overlap.
pub open spec fn count_from(s: Seq<char>, p: Seq<char>, from: int) -> nat
    decreases s.len() - from,
{
    if from < 0 || from > s.len() || p.len() == 0 {
        0
    } else {
        proof {
            lemma_find(s, p, from);
        }
        match find(s, p, from) {
            None => 0,
            Some(i) => 1 + count_from(s, p, i + p.len()),
        }
    }
}

/// How often the nonempty `p` is found, from left to right without overlap.
pub open spec fn count(s: Seq<char>, p: Seq<char>) -> nat {
    count_from(s, p, 0)
}

/// Where a text occurs once, replacing the first occurrence and replacing every
/// occurrence are the same.
pub proof fn lemma_single_occurrence(s: Seq<char>, p: Seq<char>, v: Seq<char>)
    requires
        p.len() > 0,
        count(s, p) <= 1,
    ensures
        replace_first(s, p, v) == replace_all(s, p, v),
{
    reveal_with_fuel(count_from, 2);
    reveal_with_fuel(replace_from, 2);
    lemma_find(s, p, 0);
    match find(s, p, 0) {
        None => {
            assert(s.skip(0) == s);
        },
        Some(i) => {
            let after = i + p.len();
            lemma_find(s, p, after);
            assert(count_from(s, p, after) == 0);
            assert(find(s, p, after) is None);
            assert(s.subrange(0, i) == s.take(i));
        },
    }
}

/// Replacing a text that does not occur changes nothing.
pub proof fn law_nothing_to_replace(s: Seq<char>, p: Seq<char>, v: Seq<char>)
    requires
        !occurs(s, p),
    ensures
        replace_first(s, p, v) == s,
        replace_all(s, p, v) == s,
{
    lemma_find(s, p, 0);
    assert(s.skip(0) == s);
}

/// Whether `p` stands in `s` at position `i`.
fn stands_at(s: &Vec<char>, p: &Vec<char>, i: usize) -> (r: bool)
    requires
        i + p@.len() <= s@.len(),
    ensures
        r == occurs_at(s@, p@, i as int),
{
    let total: usize = s.len();
    for j in 0..p.len()
        invariant
            total == s@.len(),
            i + p@.len() <= total,
            forall|k: int| 0 <= k < j ==> p@[k] == s@[i + k],
    {
        if p[j] != s[i + j] {
            assert(s@.subrange(i as int, i + p@.len())[j as int] != p@[j as int]);
            return false;
        }
    }
    assert(s@.subrange(i as int, i + p@.len()) =~= p@);
    true
}

/// The first position at or after `from` where `p` stands in `s`.
fn position(s: &Vec<char>, p: &Vec<char>, from: usize) -> (r: Option<usize>)
    requires
        from <= s@.len(),
    ensures
        match r {
            Some(i) => {
                &&& find(s@, p@, from as int) == Some(i as int)
                &&& from <= i
                &&& i + p@.len() <= s@.len() <= usize::MAX
            },
            None => find(s@, p@, from as int) is None,
        },
{
    let total: usize = s.len();
    let wanted: usize = p.len();
    let mut i: usize = from;
    while i <= total && wanted <= total - i
        invariant
            total == s@.len(),
            wanted == p@.len(),
            from <= i <= total + 1,
            i > total ==> find(s@, p@, from as int) is None,
            i <= total ==> find(s@, p@, from as int) == find(s@, p@, i as int),
        decreases total + 1 - i,
    {
        if stands_at(s, p, i) {
            return Some(i);
        }
        if i == total {
            return None;
        }
        i = i + 1;
    }
    None
}

/// `str::contains` with a string.
pub fn contains(s: &str, p: &str) -> (r: bool)
    ensures
        r == occurs(s@, p@),
{
    let text = chars_of(s);
    let wanted = chars_of(p);
    proof {
        lemma_occurs_is_found(s@, p@);
    }
    position(&text, &wanted, 0).is_some()
}

/// `str::replacen` with a count of one.
pub fn replaced_first(s: &str, p: &str, v: &str) -> (r: String)
    ensures
        r@ == replace_first(s@, p@, v@),
{
    let text = chars_of(s);
    let wanted = chars_of(p);
    proof {
        lemma_find(s@, p@, 0);
    }
    match position(&text, &wanted, 0) {
        None => {
            let all = string_between(&text, 0, text.len());
            assert(s@.subrange(0, s@.len() as int) == s@);
            all
        },
        Some(i) => {
            let mut out = string_between(&text, 0, i);
            out.append(v);
            let rest = string_between(&text, i + wanted.len(), text.len());
            assert(rest@ == s@.skip(i + p@.len()));
            out.append(rest.as_str());
            out
        },
    }
}

/// `str::replace` for a nonempty pattern.
pub fn replaced_all(s: &str, p: &str, v: &str) -> (r: String)
    requires
        p@.len() > 0,
    ensures
        r@ == replace_all(s@, p@, v@),
{
    let text = chars_of(s);
    let wanted = chars_of(p);
    let mut out = String::new();
    let mut from: usize = 0;
    assert(out@ + replace_from(s@, p@, v@, 0) == replace_all(s@, p@, v@));
    loop
        invariant
            text@ == s@,
            wanted@ == p@,
            p@.len() > 0,
            from <= text@.len(),
            out@ + replace_from(s@, p@, v@, from as int) == replace_all(s@, p@, v@),
        decreases text@.len() - from,
    {
        proof {
            lemma_find(s@, p@, from as int);
        }
        let ghost held = out@;
        match position(&text, &wanted, from) {
            None => {
                let rest = string_between(&text, from, text.len());
                assert(rest@ == s@.skip(from as int));
                out.append(rest.as_str());
                return out;
            },
            Some(i) => {
                out.append(string_between(&text, from, i).as_str());
                out.append(v);
                assert(out@ + replace_from(s@, p@, v@, i + p@.len()) == held + replace_from(
                    s@,
                    p@,
                    v@,
                    from as int,
                ));
                from = i + wanted.len();
            },
        }
    }
}

/// Whether the nonempty `p` is found more than once, as `str::matches` counts.
pub fn occurs_twice(s: &str, p: &str) -> (r: bool)
    requires
        p@.len() > 0,
    ensures
        r == (count(s@, p@) > 1),
{
    let text = chars_of(s);
    let wanted = chars_of(p);
    proof {
        lemma_find(s@, p@, 0);
    }
    match position(&text, &wanted, 0) {
        None => false,
        Some(i) => {
            proof {
                reveal_with_fuel(count_from, 2);
                lemma_find(s@, p@, i + p@.len());
            }
            position(&text, &wanted, i + wanted.len()).is_some()
        },
    }
}

} // verus!
