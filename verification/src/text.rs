//! Strings as sequences of characters: comparison, trimming, splitting,
//! joining and decimal numbers.

use vstd::prelude::*;
use vstd::string::*;

verus! {

/// `String::push` appends the given character to the end of the string.
pub assume_specification[ String::push ](s: &mut String, c: char)
    ensures
        final(s)@ == old(s)@.push(c),
;

// ------------------------------------------------------------ characters

/// The characters of a list of strings.
pub open spec fn strs(list: Seq<String>) -> Seq<Seq<char>> {
    list.map_values(|s: String| s@)
}

/// The characters of an optional string.
pub open spec fn opt_str(s: Option<String>) -> Option<Seq<char>> {
    match s {
        Some(x) => Some(x@),
        None => None,
    }
}

/// The characters of a string, in order.
pub fn chars_of(s: &str) -> (r: Vec<char>)
    ensures
        r@ == s@,
{
    let mut out: Vec<char> = Vec::new();
    for c in it: s.chars()
        invariant
            out@ == s@.take(it.index() as int),
            it.seq() == s@,
    {
        out.push(c);
    }
    out
}

/// The string made of the characters from one position up to another.
pub fn string_between(chars: &Vec<char>, from: usize, to: usize) -> (r: String)
    requires
        from <= to <= chars@.len(),
    ensures
        r@ == chars@.subrange(from as int, to as int),
{
    let mut out = String::new();
    for i in from..to
        invariant
            from <= i <= to <= chars@.len(),
            out@ == chars@.subrange(from as int, i as int),
    {
        out.push(chars[i]);
    }
    out
}

/// Whether two strings hold the same characters.
pub fn same(a: &str, b: &str) -> (r: bool)
    ensures
        r == (a@ == b@),
{
    let x = a.as_bytes();
    let y = b.as_bytes();
    proof {
        vstd::utf8::encode_utf8_decode_utf8(a@);
        vstd::utf8::encode_utf8_decode_utf8(b@);
    }
    if x.len() != y.len() {
        return false;
    }
    for i in 0..x.len()
        invariant
            x@.len() == y@.len(),
            x@.take(i as int) == y@.take(i as int),
            x@ == a.spec_bytes(),
            y@ == b.spec_bytes(),
    {
        if x[i] != y[i] {
            assert(x@[i as int] != y@[i as int]);
            return false;
        }
    }
    assert(x@.take(x@.len() as int) == x@);
    assert(y@.take(y@.len() as int) == y@);
    true
}

/// Whether a list of strings holds one with these characters.
pub fn listed(list: &Vec<String>, wanted: &str) -> (r: bool)
    ensures
        r == strs(list@).contains(wanted@),
{
    for i in 0..list.len()
        invariant
            forall|j: int| 0 <= j < i ==> strs(list@)[j] != wanted@,
    {
        if same(list[i].as_str(), wanted) {
            assert(strs(list@)[i as int] == wanted@);
            return true;
        }
    }
    false
}

// ----------------------------------------------------------------- order

/// Lexicographic order by code point, which is the order of `str`.
pub open spec fn before(a: Seq<char>, b: Seq<char>) -> bool
    decreases b.len(),
{
    if b.len() == 0 {
        false
    } else if a.len() == 0 {
        true
    } else if a[0] == b[0] {
        before(a.skip(1), b.skip(1))
    } else {
        a[0] < b[0]
    }
}

/// Nothing stands before itself.
pub proof fn lemma_before_irreflexive(a: Seq<char>)
    ensures
        !before(a, a),
    decreases a.len(),
{
    if a.len() > 0 {
        lemma_before_irreflexive(a.skip(1));
    }
}

/// The order is transitive.
pub proof fn lemma_before_transitive(a: Seq<char>, b: Seq<char>, c: Seq<char>)
    requires
        before(a, b),
        before(b, c),
    ensures
        before(a, c),
    decreases c.len(),
{
    if a.len() > 0 && a[0] == b[0] && b[0] == c[0] {
        lemma_before_transitive(a.skip(1), b.skip(1), c.skip(1));
    }
}

/// Two different strings are ordered one way or the other.
pub proof fn lemma_before_total(a: Seq<char>, b: Seq<char>)
    ensures
        before(a, b) || a == b || before(b, a),
    decreases b.len(),
{
    if a.len() > 0 && b.len() > 0 && a[0] == b[0] {
        lemma_before_total(a.skip(1), b.skip(1));
        if a.skip(1) == b.skip(1) {
            assert(a =~= seq![a[0]] + a.skip(1));
            assert(b =~= seq![b[0]] + b.skip(1));
        }
    } else if a.len() == 0 && b.len() == 0 {
        assert(a =~= b);
    }
}

/// Whether the first string stands strictly before the second.
pub fn is_before(a: &str, b: &str) -> (r: bool)
    ensures
        r == before(a@, b@),
{
    let x = chars_of(a);
    let y = chars_of(b);
    let mut i: usize = 0;
    assert(a@.skip(0) == a@);
    assert(b@.skip(0) == b@);
    while i < x.len() && i < y.len() && x[i] == y[i]
        invariant
            x@ == a@,
            y@ == b@,
            i <= x@.len(),
            i <= y@.len(),
            before(a@, b@) == before(a@.skip(i as int), b@.skip(i as int)),
        decreases x@.len() - i,
    {
        assert(a@.skip(i as int).skip(1) == a@.skip(i + 1));
        assert(b@.skip(i as int).skip(1) == b@.skip(i + 1));
        i = i + 1;
    }
    if i >= y.len() {
        false
    } else if i >= x.len() {
        true
    } else {
        x[i] < y[i]
    }
}

// ------------------------------------------------------------ predicates

/// The Unicode `White_Space` property, which is what `char::is_whitespace` tests.
pub open spec fn white(c: char) -> bool {
    ||| '\u{9}' <= c <= '\u{d}'
    ||| c == ' '
    ||| c == '\u{85}'
    ||| c == '\u{a0}'
    ||| c == '\u{1680}'
    ||| '\u{2000}' <= c <= '\u{200a}'
    ||| c == '\u{2028}'
    ||| c == '\u{2029}'
    ||| c == '\u{202f}'
    ||| c == '\u{205f}'
    ||| c == '\u{3000}'
}

/// Whether a character is white space.
pub fn is_white(c: char) -> (r: bool)
    ensures
        r == white(c),
{
    ('\u{9}' <= c && c <= '\u{d}') || c == ' ' || c == '\u{85}' || c == '\u{a0}' || c == '\u{1680}'
        || ('\u{2000}' <= c && c <= '\u{200a}') || c == '\u{2028}' || c == '\u{2029}' || c
        == '\u{202f}' || c == '\u{205f}' || c == '\u{3000}'
}

/// An ASCII decimal digit.
pub open spec fn digit(c: char) -> bool {
    '0' <= c <= '9'
}

/// Every character is an ASCII digit (so also when there is none).
pub open spec fn all_digits(s: Seq<char>) -> bool {
    forall|i: int| 0 <= i < s.len() ==> digit(#[trigger] s[i])
}

/// Whether every character is an ASCII digit.
pub fn is_all_digits(s: &str) -> (r: bool)
    ensures
        r == all_digits(s@),
{
    let chars = chars_of(s);
    for i in 0..chars.len()
        invariant
            chars@ == s@,
            forall|j: int| 0 <= j < i ==> digit(#[trigger] s@[j]),
    {
        if !('0' <= chars[i] && chars[i] <= '9') {
            assert(!digit(s@[i as int]));
            return false;
        }
    }
    true
}

/// Whether the second string is a prefix of the first.
pub fn begins_with(s: &str, prefix: &str) -> (r: bool)
    ensures
        r == prefix@.is_prefix_of(s@),
{
    let x = chars_of(s);
    let p = chars_of(prefix);
    if p.len() > x.len() {
        return false;
    }
    for i in 0..p.len()
        invariant
            x@ == s@,
            p@ == prefix@,
            p@.len() <= x@.len(),
            forall|j: int| 0 <= j < i ==> p@[j] == x@[j],
    {
        if p[i] != x[i] {
            assert(s@.subrange(0, prefix@.len() as int)[i as int] != prefix@[i as int]);
            return false;
        }
    }
    assert(s@.subrange(0, prefix@.len() as int) =~= prefix@);
    true
}

// --------------------------------------------------------------- trimming

/// Without its trailing white space.
pub open spec fn trim_end(s: Seq<char>) -> Seq<char>
    decreases s.len(),
{
    if s.len() > 0 && white(s.last()) {
        trim_end(s.drop_last())
    } else {
        s
    }
}

/// Without its leading white space.
pub open spec fn trim_start(s: Seq<char>) -> Seq<char>
    decreases s.len(),
{
    if s.len() > 0 && white(s[0]) {
        trim_start(s.skip(1))
    } else {
        s
    }
}

/// Without white space at either end.
pub open spec fn trim(s: Seq<char>) -> Seq<char> {
    trim_end(trim_start(s))
}

/// Without the given character at the end, however often it stands there.
pub open spec fn trim_end_char(s: Seq<char>, c: char) -> Seq<char>
    decreases s.len(),
{
    if s.len() > 0 && s.last() == c {
        trim_end_char(s.drop_last(), c)
    } else {
        s
    }
}

/// `str::trim_end`.
pub fn trimmed_end(s: &str) -> (r: String)
    ensures
        r@ == trim_end(s@),
{
    let chars = chars_of(s);
    let mut to: usize = chars.len();
    assert(s@.take(to as int) == s@);
    while to > 0 && is_white(chars[to - 1])
        invariant
            chars@ == s@,
            to <= chars@.len(),
            trim_end(s@) == trim_end(s@.take(to as int)),
        decreases to,
    {
        assert(s@.take(to as int).drop_last() == s@.take(to - 1));
        to = to - 1;
    }
    string_between(&chars, 0, to)
}

/// `str::trim`.
pub fn trimmed(s: &str) -> (r: String)
    ensures
        r@ == trim(s@),
{
    let chars = chars_of(s);
    let mut from: usize = 0;
    assert(s@.skip(0) == s@);
    while from < chars.len() && is_white(chars[from])
        invariant
            chars@ == s@,
            from <= chars@.len(),
            trim_start(s@) == trim_start(s@.skip(from as int)),
        decreases chars@.len() - from,
    {
        assert(s@.skip(from as int).skip(1) == s@.skip(from + 1));
        from = from + 1;
    }
    let rest = string_between(&chars, from, chars.len());
    assert(rest@ == s@.skip(from as int));
    trimmed_end(rest.as_str())
}

/// `str::trim_end_matches` with one character.
pub fn trimmed_end_char(s: &str, c: char) -> (r: String)
    ensures
        r@ == trim_end_char(s@, c),
{
    let chars = chars_of(s);
    let mut to: usize = chars.len();
    assert(s@.take(to as int) == s@);
    while to > 0 && chars[to - 1] == c
        invariant
            chars@ == s@,
            to <= chars@.len(),
            trim_end_char(s@, c) == trim_end_char(s@.take(to as int), c),
        decreases to,
    {
        assert(s@.take(to as int).drop_last() == s@.take(to - 1));
        to = to - 1;
    }
    string_between(&chars, 0, to)
}

/// What is left in front of a suffix, where the string ends with it.
pub open spec fn strip_suffix(s: Seq<char>, suffix: Seq<char>) -> Option<Seq<char>> {
    if suffix.is_suffix_of(s) {
        Some(s.take(s.len() - suffix.len()))
    } else {
        None
    }
}

/// `str::strip_suffix`.
pub fn without_suffix(s: &str, suffix: &str) -> (r: Option<String>)
    ensures
        opt_str(r) == strip_suffix(s@, suffix@),
{
    let x = chars_of(s);
    let p = chars_of(suffix);
    if p.len() > x.len() {
        return None;
    }
    let total: usize = x.len();
    let cut: usize = total - p.len();
    for i in 0..p.len()
        invariant
            x@ == s@,
            p@ == suffix@,
            total == x@.len(),
            cut + p@.len() == total,
            forall|j: int| 0 <= j < i ==> p@[j] == x@[cut + j],
    {
        if p[i] != x[cut + i] {
            assert(s@.subrange((s@.len() - suffix@.len()) as int, s@.len() as int)[i as int]
                != suffix@[i as int]);
            return None;
        }
    }
    assert(s@.subrange((s@.len() - suffix@.len()) as int, s@.len() as int) =~= suffix@);
    Some(string_between(&x, 0, cut))
}

// --------------------------------------------------------------- splitting

/// The first position at or after `from` that holds `c`, or the length.
pub open spec fn next_char(s: Seq<char>, c: char, from: int) -> int
    decreases s.len() - from,
{
    if from >= s.len() {
        s.len() as int
    } else if s[from] == c {
        from
    } else {
        next_char(s, c, from + 1)
    }
}

/// The pieces from position `from` on, parted at every `c`.
pub open spec fn pieces_from(s: Seq<char>, c: char, from: int) -> Seq<Seq<char>>
    decreases s.len() - from,
{
    if from < 0 || from > s.len() {
        seq![]
    } else {
        let end = next_char(s, c, from);
        proof {
            lemma_next_char(s, c, from);
        }
        if end >= s.len() {
            seq![s.subrange(from, s.len() as int)]
        } else {
            seq![s.subrange(from, end)] + pieces_from(s, c, end + 1)
        }
    }
}

/// The pieces of a string parted at every `c`; one more than there are `c`.
pub open spec fn pieces(s: Seq<char>, c: char) -> Seq<Seq<char>> {
    pieces_from(s, c, 0)
}

/// A line without the carriage return that belongs to its line ending.
pub open spec fn without_return(line: Seq<char>) -> Seq<char> {
    if line.len() > 0 && line.last() == '\r' {
        line.drop_last()
    } else {
        line
    }
}

/// The lines from position `from` on.
pub open spec fn lines_from(s: Seq<char>, from: int) -> Seq<Seq<char>>
    decreases s.len() - from,
{
    if from < 0 || from >= s.len() {
        seq![]
    } else {
        let end = next_char(s, '\n', from);
        proof {
            lemma_next_char(s, '\n', from);
        }
        if end >= s.len() {
            seq![s.subrange(from, s.len() as int)]
        } else {
            seq![without_return(s.subrange(from, end))] + lines_from(s, end + 1)
        }
    }
}

/// The lines of a text. A line ends with a line feed or with a carriage return
/// and a line feed; the last line needs no ending.
pub open spec fn lines(s: Seq<char>) -> Seq<Seq<char>> {
    lines_from(s, 0)
}

/// `next_char` stays between its start and the end, and skips no `c`.
pub proof fn lemma_next_char(s: Seq<char>, c: char, from: int)
    requires
        0 <= from <= s.len(),
    ensures
        from <= next_char(s, c, from) <= s.len(),
        next_char(s, c, from) < s.len() ==> s[next_char(s, c, from)] == c,
        forall|i: int| from <= i < next_char(s, c, from) ==> s[i] != c,
    decreases s.len() - from,
{
    if from < s.len() && s[from] != c {
        lemma_next_char(s, c, from + 1);
    }
}

/// Two texts with a line feed between them.
pub open spec fn stacked(p: Seq<char>, q: Seq<char>) -> Seq<char> {
    p + "\n"@ + q
}

/// Behind what precedes it, a character is found where it is found alone.
proof fn lemma_next_char_behind(head: Seq<char>, s: Seq<char>, c: char, from: int)
    requires
        0 <= from <= s.len(),
    ensures
        next_char(head + s, c, head.len() + from) == head.len() + next_char(s, c, from),
    decreases s.len() - from,
{
    if from < s.len() {
        assert((head + s)[head.len() + from] == s[from]);
        if s[from] != c {
            lemma_next_char_behind(head, s, c, from + 1);
        }
    }
}

/// Before what follows it, a character is found where it is found alone, or else in
/// what follows.
proof fn lemma_next_char_before(s: Seq<char>, tail: Seq<char>, c: char, from: int)
    requires
        0 <= from <= s.len(),
    ensures
        next_char(s, c, from) < s.len() ==> next_char(s + tail, c, from) == next_char(s, c, from),
        next_char(s, c, from) >= s.len() ==> next_char(s + tail, c, from) == next_char(
            s + tail,
            c,
            s.len() as int,
        ),
    decreases s.len() - from,
{
    if from < s.len() {
        assert((s + tail)[from] == s[from]);
        if s[from] != c {
            lemma_next_char_before(s, tail, c, from + 1);
        }
    }
}

/// The lines of a text stay what they are behind another text.
proof fn lemma_lines_behind(head: Seq<char>, s: Seq<char>, from: int)
    requires
        0 <= from,
    ensures
        lines_from(head + s, head.len() + from) == lines_from(s, from),
    decreases s.len() - from,
{
    if from < s.len() {
        let end = next_char(s, '\n', from);
        lemma_next_char(s, '\n', from);
        lemma_next_char_behind(head, s, '\n', from);
        assert((head + s).subrange(head.len() + from, head.len() + end) =~= s.subrange(from, end));
        if end < s.len() {
            lemma_lines_behind(head, s, end + 1);
        }
    }
}

/// The lines of a text that a line feed is put behind: a carriage return at the end
/// of the last line belongs to the line feed.
pub open spec fn ended(all: Seq<Seq<char>>) -> Seq<Seq<char>> {
    all.drop_last().push(without_return(all.last()))
}

proof fn lemma_lines_stacked_from(p: Seq<char>, q: Seq<char>, from: int)
    requires
        0 <= from < p.len(),
        p.last() != '\n',
    ensures
        lines_from(p, from).len() > 0,
        lines_from(p, from).last().len() > 0,
        lines_from(p, from).last().last() == p.last(),
        lines_from(stacked(p, q), from) == ended(lines_from(p, from)) + lines(q),
    decreases p.len() - from,
{
    reveal_strlit("\n");
    let tail = "\n"@ + q;
    let j = p + tail;
    assert(stacked(p, q) =~= j);
    let end = next_char(p, '\n', from);
    lemma_next_char(p, '\n', from);
    lemma_next_char_before(p, tail, '\n', from);
    if end < p.len() {
        assert(end + 1 < p.len());
        lemma_lines_stacked_from(p, q, end + 1);
        assert(j.subrange(from, end) =~= p.subrange(from, end));
        let first = seq![without_return(p.subrange(from, end))];
        let rest = lines_from(p, end + 1);
        assert(lines_from(p, from) == first + rest);
        assert(first + (ended(rest) + lines(q)) =~= ended(first + rest) + lines(q));
    } else {
        assert(j[p.len() as int] == '\n');
        assert(j.subrange(from, p.len() as int) =~= p.subrange(from, p.len() as int));
        assert(p + "\n"@ + q =~= j);
        lemma_lines_behind(p + "\n"@, q, 0);
        assert(lines_from(j, p.len() as int + 1) == lines(q));
        let last = p.subrange(from, p.len() as int);
        assert(ended(seq![last]) =~= seq![without_return(last)]);
    }
}

/// The lines of two stacked texts are those of the one and those of the other; a
/// carriage return at the end of the first belongs to the line feed between them.
pub proof fn lemma_lines_stacked(p: Seq<char>, q: Seq<char>)
    requires
        p.len() > 0,
        p.last() != '\n',
    ensures
        lines(p).len() > 0,
        lines(p).last().len() > 0,
        lines(p).last().last() == p.last(),
        lines(stacked(p, q)) == ended(lines(p)) + lines(q),
{
    lemma_lines_stacked_from(p, q, 0);
}

proof fn lemma_lines_stacked_apart_from(p: Seq<char>, q: Seq<char>, from: int)
    requires
        0 <= from <= p.len(),
        p.len() > 0 ==> p.last() == '\n',
    ensures
        lines_from(stacked(p, q), from) == lines_from(p, from).push(Seq::<char>::empty()) + lines(q),
    decreases p.len() - from,
{
    reveal_strlit("\n");
    let tail = "\n"@ + q;
    let j = p + tail;
    assert(stacked(p, q) =~= j);
    let end = next_char(p, '\n', from);
    lemma_next_char(p, '\n', from);
    lemma_next_char_before(p, tail, '\n', from);
    if from < p.len() {
        if end >= p.len() {
            assert(p[p.len() - 1] != '\n');
        }
        lemma_lines_stacked_apart_from(p, q, end + 1);
        assert(j.subrange(from, end) =~= p.subrange(from, end));
        let first = seq![without_return(p.subrange(from, end))];
        let rest = lines_from(p, end + 1);
        let blank = Seq::<char>::empty();
        assert(first + (rest.push(blank) + lines(q)) =~= (first + rest).push(blank) + lines(q));
    } else {
        assert(j[p.len() as int] == '\n');
        assert(j.subrange(from, p.len() as int) =~= Seq::<char>::empty());
        assert(p + "\n"@ + q =~= j);
        lemma_lines_behind(p + "\n"@, q, 0);
        assert(lines_from(j, p.len() as int + 1) == lines(q));
        assert(lines_from(p, from).push(Seq::<char>::empty()) =~= seq![Seq::<char>::empty()]);
    }
}

/// A text that ends with a line feed is parted from the one stacked under it by an
/// empty line.
pub proof fn lemma_lines_stacked_apart(p: Seq<char>, q: Seq<char>)
    requires
        p.len() > 0 ==> p.last() == '\n',
    ensures
        lines(stacked(p, q)) == lines(p).push(Seq::<char>::empty()) + lines(q),
{
    lemma_lines_stacked_apart_from(p, q, 0);
}

proof fn lemma_pieces_behind(head: Seq<char>, s: Seq<char>, c: char, from: int)
    requires
        0 <= from <= s.len(),
    ensures
        pieces_from(head + s, c, head.len() + from) == pieces_from(s, c, from),
    decreases s.len() - from,
{
    let end = next_char(s, c, from);
    lemma_next_char(s, c, from);
    lemma_next_char_behind(head, s, c, from);
    assert((head + s).subrange(head.len() + from, head.len() + end) =~= s.subrange(from, end));
    if end < s.len() {
        lemma_pieces_behind(head, s, c, end + 1);
    }
}

/// The first piece of a text is what stands before the first `c`.
pub proof fn lemma_first_piece(word: Seq<char>, c: char, rest: Seq<char>)
    requires
        !word.contains(c),
    ensures
        pieces(word + seq![c] + rest, c) == seq![word] + pieces(rest, c),
        part_once(word + seq![c] + rest, c) == Some((word, rest)),
{
    let tail = seq![c] + rest;
    let s = word + seq![c] + rest;
    assert(s =~= word + tail);
    lemma_next_char(word, c, 0);
    assert(next_char(word, c, 0) == word.len());
    lemma_next_char_before(word, tail, c, 0);
    assert(s[word.len() as int] == c);
    assert(next_char(s, c, 0) == word.len());
    assert(s.subrange(0, word.len() as int) =~= word);
    assert(s.take(word.len() as int) =~= word);
    assert(s.skip(word.len() as int + 1) =~= rest);
    lemma_pieces_behind(word + seq![c], rest, c, 0);
}

/// Lines that are joined by line feeds are the lines of the whole.
pub proof fn lemma_lines_of_joined(parts: Seq<Seq<char>>)
    requires
        parts.len() > 0,
        forall|i: int|
            0 <= i < parts.len() ==> (#[trigger] parts[i]).len() > 0 && !parts[i].contains('\n')
                && parts[i].last() != '\r',
    ensures
        lines(join(parts, "\n"@)) == parts,
        join(parts, "\n"@).len() > 0,
        join(parts, "\n"@).last() == parts.last().last(),
    decreases parts.len(),
{
    let last = parts.last();
    assert(parts[parts.len() - 1] == last);
    assert(last.contains(last.last()));
    lemma_next_char(last, '\n', 0);
    assert(next_char(last, '\n', 0) == last.len());
    assert(last.subrange(0, last.len() as int) =~= last);
    assert(lines(last) =~= seq![last]);
    if parts.len() == 1 {
        assert(parts =~= seq![last]);
    } else {
        let head = parts.drop_last();
        assert forall|i: int| 0 <= i < head.len() implies (#[trigger] head[i]).len() > 0
            && !head[i].contains('\n') && head[i].last() != '\r' by {
            assert(head[i] == parts[i]);
        }
        lemma_lines_of_joined(head);
        let p = join(head, "\n"@);
        assert(head[head.len() - 1] == head.last());
        assert(head.last().contains(head.last().last()));
        lemma_lines_stacked(p, last);
        assert(join(parts, "\n"@) == stacked(p, last));
        assert(ended(head) =~= head);
        assert(head + seq![last] =~= parts);
    }
}

/// The first position at or after `from` that holds `c`, or the length.
fn find_char(chars: &Vec<char>, c: char, from: usize) -> (r: usize)
    requires
        from <= chars@.len(),
    ensures
        r == next_char(chars@, c, from as int),
        from <= r <= chars@.len(),
{
    let mut i: usize = from;
    while i < chars.len() && chars[i] != c
        invariant
            from <= i <= chars@.len(),
            next_char(chars@, c, from as int) == next_char(chars@, c, i as int),
        decreases chars@.len() - i,
    {
        i = i + 1;
    }
    i
}

/// `str::split` at one character.
pub fn split(s: &str, c: char) -> (r: Vec<String>)
    ensures
        strs(r@) == pieces(s@, c),
{
    let chars = chars_of(s);
    let mut out: Vec<String> = Vec::new();
    let mut from: usize = 0;
    loop
        invariant
            chars@ == s@,
            from <= chars@.len(),
            strs(out@) + pieces_from(s@, c, from as int) == pieces(s@, c),
        decreases chars@.len() - from,
    {
        let end = find_char(&chars, c, from);
        let ghost held = out@;
        out.push(string_between(&chars, from, end));
        assert(strs(out@) == strs(held).push(s@.subrange(from as int, end as int)));
        if end >= chars.len() {
            assert(strs(out@) == strs(held) + pieces_from(s@, c, from as int));
            return out;
        }
        assert(strs(out@) + pieces_from(s@, c, end + 1) == strs(held) + pieces_from(
            s@,
            c,
            from as int,
        ));
        from = end + 1;
    }
}

/// What stands before and after the first `c`, where there is one.
pub open spec fn part_once(s: Seq<char>, c: char) -> Option<(Seq<char>, Seq<char>)> {
    let at = next_char(s, c, 0);
    if at < s.len() {
        Some((s.take(at), s.skip(at + 1)))
    } else {
        None
    }
}

/// `str::split_once` at one character.
pub fn split_once(s: &str, c: char) -> (r: Option<(String, String)>)
    ensures
        match r {
            Some(p) => part_once(s@, c) == Some((p.0@, p.1@)),
            None => part_once(s@, c) is None,
        },
{
    let chars = chars_of(s);
    let at = find_char(&chars, c, 0);
    if at < chars.len() {
        let head = string_between(&chars, 0, at);
        let tail = string_between(&chars, at + 1, chars.len());
        assert(tail@ == s@.skip(at + 1));
        Some((head, tail))
    } else {
        None
    }
}

/// `str::lines`.
pub fn lines_of(s: &str) -> (r: Vec<String>)
    ensures
        strs(r@) == lines(s@),
{
    let chars = chars_of(s);
    let mut out: Vec<String> = Vec::new();
    let mut from: usize = 0;
    assert(strs(out@) + lines_from(s@, 0) == lines(s@));
    while from < chars.len()
        invariant
            chars@ == s@,
            from <= chars@.len(),
            strs(out@) + lines_from(s@, from as int) == lines(s@),
        decreases chars@.len() - from,
    {
        let end = find_char(&chars, '\n', from);
        let ghost held = out@;
        if end >= chars.len() {
            out.push(string_between(&chars, from, end));
            assert(strs(out@) == strs(held) + lines_from(s@, from as int));
            return out;
        }
        if end > from && chars[end - 1] == '\r' {
            out.push(string_between(&chars, from, end - 1));
            assert(out@.last()@ == without_return(s@.subrange(from as int, end as int)));
        } else {
            out.push(string_between(&chars, from, end));
        }
        assert(strs(out@) == strs(held).push(
            without_return(s@.subrange(from as int, end as int)),
        ));
        assert(strs(out@) + lines_from(s@, end + 1) == strs(held) + lines_from(s@, from as int));
        from = end + 1;
    }
    assert(strs(out@) + lines_from(s@, from as int) == strs(out@));
    out
}

/// The parts in order with a separator between neighbours.
pub open spec fn join(parts: Seq<Seq<char>>, sep: Seq<char>) -> Seq<char>
    decreases parts.len(),
{
    if parts.len() == 0 {
        seq![]
    } else if parts.len() == 1 {
        parts[0]
    } else {
        join(parts.drop_last(), sep) + sep + parts.last()
    }
}

/// `[String]::join`.
pub fn joined(parts: &Vec<String>, sep: &str) -> (r: String)
    ensures
        r@ == join(strs(parts@), sep@),
{
    let mut out = String::new();
    for i in 0..parts.len()
        invariant
            out@ == join(strs(parts@).take(i as int), sep@),
    {
        let ghost shorter = strs(parts@).take(i as int);
        let ghost longer = strs(parts@).take(i + 1);
        assert(longer.drop_last() == shorter);
        assert(longer.last() == parts@[i as int]@);
        if i > 0 {
            out.append(sep);
        } else {
            assert(out@ + parts@[i as int]@ == parts@[i as int]@);
        }
        out.append(parts[i].as_str());
    }
    assert(strs(parts@).take(parts@.len() as int) == strs(parts@));
    out
}

// ----------------------------------------------------------------- numbers

/// The character for a decimal digit.
pub open spec fn digit_char(d: nat) -> char {
    ('0' as int + d) as char
}

/// A number in decimal, without leading zeros.
pub open spec fn decimal(n: nat) -> Seq<char>
    decreases n,
{
    if n < 10 {
        seq![digit_char(n)]
    } else {
        decimal(n / 10).push(digit_char(n % 10))
    }
}

/// The number that a row of digits stands for.
pub open spec fn digits_value(s: Seq<char>) -> nat
    decreases s.len(),
{
    if s.len() == 0 {
        0
    } else {
        digits_value(s.drop_last()) * 10 + (s.last() as int - '0' as int) as nat
    }
}

/// The digits of an unsigned number: what follows an optional plus sign.
pub open spec fn unsigned_digits(s: Seq<char>) -> Seq<char> {
    if s.len() > 0 && s[0] == '+' {
        s.skip(1)
    } else {
        s
    }
}

/// The number that a text is read as when numbers above `max` do not fit: an
/// optional plus sign and then at least one digit, nothing else.
pub open spec fn parse_unsigned(s: Seq<char>, max: nat) -> Option<nat> {
    let d = unsigned_digits(s);
    if d.len() > 0 && all_digits(d) && digits_value(d) <= max {
        Some(digits_value(d))
    } else {
        None
    }
}

/// A longer row of digits never stands for a smaller number.
proof fn lemma_digits_value_grows(s: Seq<char>, k: int)
    requires
        0 <= k <= s.len(),
        all_digits(s),
    ensures
        digits_value(s.take(k)) <= digits_value(s),
    decreases s.len(),
{
    if k < s.len() {
        assert(s.drop_last().take(k) == s.take(k));
        assert(digit(s.last()));
        lemma_digits_value_grows(s.drop_last(), k);
    } else {
        assert(s.take(k) == s);
    }
}

/// What is written in decimal reads back as the same number.
pub proof fn law_decimal_reads_back(n: nat, max: nat)
    requires
        n <= max,
    ensures
        parse_unsigned(decimal(n), max) == Some(n),
{
    lemma_decimal_digits(n);
    assert(digit(decimal(n)[0]));
}

/// Decimal text is made of digits and stands for its number.
pub proof fn lemma_decimal_digits(n: nat)
    ensures
        decimal(n).len() > 0,
        all_digits(decimal(n)),
        digits_value(decimal(n)) == n,
    decreases n,
{
    assert(0 <= '0' as int + n % 10 <= '9' as int);
    if n >= 10 {
        lemma_decimal_digits(n / 10);
        assert(decimal(n).drop_last() == decimal(n / 10));
    } else {
        assert(decimal(n).drop_last() == Seq::<char>::empty());
        assert(digits_value(Seq::<char>::empty()) == 0);
    }
}

/// `str::parse` for an unsigned integer type whose largest value is `max`.
pub fn parse_number(s: &str, max: u64) -> (r: Option<u64>)
    ensures
        match r {
            Some(n) => parse_unsigned(s@, max as nat) == Some(n as nat),
            None => parse_unsigned(s@, max as nat) is None,
        },
{
    let chars = chars_of(s);
    let from: usize = if chars.len() > 0 && chars[0] == '+' { 1 } else { 0 };
    let ghost d = unsigned_digits(s@);
    assert(d == s@.skip(from as int));
    if from >= chars.len() {
        return None;
    }
    let mut value: u64 = 0;
    assert(d.take(0) == Seq::<char>::empty());
    for i in from..chars.len()
        invariant
            chars@ == s@,
            from <= i <= chars@.len(),
            d == s@.skip(from as int),
            d == unsigned_digits(s@),
            forall|j: int| 0 <= j < i - from ==> digit(#[trigger] d[j]),
            value == digits_value(d.take(i - from)),
            value <= max,
    {
        let c = chars[i];
        assert(d[i - from] == c);
        if !('0' <= c && c <= '9') {
            assert(!digit(d[i - from]));
            return None;
        }
        let digit_value: u64 = c as u64 - '0' as u64;
        assert(d.take(i - from + 1).drop_last() == d.take(i - from));
        if value > (max - digit_value.min(max)) / 10 || digit_value > max {
            proof {
                if all_digits(d) {
                    lemma_digits_value_grows(d, i - from + 1);
                }
            }
            return None;
        }
        value = value * 10 + digit_value;
    }
    assert(d.take(d.len() as int) == d);
    Some(value)
}

/// A number in decimal.
pub fn decimal_text(n: u64) -> (r: String)
    ensures
        r@ == decimal(n as nat),
{
    let mut reversed: Vec<char> = Vec::new();
    let mut rest: u64 = n;
    while rest >= 10
        invariant
            decimal(n as nat) == decimal(rest as nat) + reversed@.reverse(),
        decreases rest,
    {
        let ghost held = reversed@;
        let ghost whole = rest;
        reversed.push(digit_of((rest % 10) as u8));
        rest = rest / 10;
        assert(reversed@.reverse() == seq![digit_char((whole % 10) as nat)] + held.reverse());
        assert(decimal(whole as nat) == decimal(rest as nat).push(
            digit_char((whole % 10) as nat),
        ));
        assert(decimal(rest as nat) + reversed@.reverse() == decimal(whole as nat)
            + held.reverse());
    }
    let mut out = String::new();
    out.push(digit_of(rest as u8));
    assert(out@ == decimal(rest as nat));
    assert(reversed@.reverse().take(0) == Seq::<char>::empty());
    let count = reversed.len();
    for i in 0..count
        invariant
            count == reversed@.len(),
            out@ == decimal(rest as nat) + reversed@.reverse().take(i as int),
    {
        out.push(reversed[count - 1 - i]);
        assert(reversed@.reverse().take(i + 1) == reversed@.reverse().take(i as int).push(
            reversed@[count - 1 - i],
        ));
    }
    assert(reversed@.reverse().take(count as int) == reversed@.reverse());
    out
}

/// The character for a decimal digit.
fn digit_of(d: u8) -> (r: char)
    requires
        d < 10,
    ensures
        r == digit_char(d as nat),
{
    (48u8 + d) as char
}

// -------------------------------------------------------------------- case

/// An ASCII capital as its small letter, any other character as itself.
pub open spec fn lower_char(c: char) -> char {
    if 'A' <= c <= 'Z' {
        (c as int + 32) as char
    } else {
        c
    }
}

/// With ASCII capitals made small.
pub open spec fn ascii_lower(s: Seq<char>) -> Seq<char> {
    s.map_values(|c: char| lower_char(c))
}

/// `str::to_ascii_lowercase`.
pub fn lowered(s: &str) -> (r: String)
    ensures
        r@ == ascii_lower(s@),
{
    let chars = chars_of(s);
    let mut out = String::new();
    for i in 0..chars.len()
        invariant
            chars@ == s@,
            out@ == ascii_lower(s@).take(i as int),
    {
        let c = chars[i];
        if 'A' <= c && c <= 'Z' {
            out.push((c as u8 + 32) as char);
        } else {
            out.push(c);
        }
        assert(ascii_lower(s@).take(i + 1) == ascii_lower(s@).take(i as int).push(
            lower_char(s@[i as int]),
        ));
    }
    out
}

/// `str::eq_ignore_ascii_case`.
pub fn same_ignoring_case(a: &str, b: &str) -> (r: bool)
    ensures
        r == (ascii_lower(a@) == ascii_lower(b@)),
{
    same(lowered(a).as_str(), lowered(b).as_str())
}

} // verus!
