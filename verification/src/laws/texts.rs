//! Laws of texts: white space, lines and lists, numbers, searching and encoding.

use crate::encode::{escape, segment, segments};
use crate::search::{count, count_from, find, lemma_find, occurs, occurs_at, replace_all,
    replace_first, replace_from};
use crate::strmap::{in_order, lemma_set_in_order};
use crate::text::{ascii_lower, before, decimal, digit_char, join, lemma_before_irreflexive,
    lemma_before_total, lemma_first_piece, lemma_lines_stacked, lemma_lines_stacked_apart,
    lemma_next_char, lines, next_char, parse_unsigned, part_once, pieces, strip_suffix, trim,
    trim_end, trim_end_char, trim_start, white};
use vstd::prelude::*;
use vstd::string::*;
use vstd::utf8::encode_utf8;

verus! {

// ------------------------------------------------------------- white space

/// White space is what Unicode calls so.
pub proof fn law_white_space(c: char)
    ensures
        white(c) <==> {
            let n = c as u32;
            ||| 9 <= n <= 13
            ||| n == 0x20
            ||| n == 0x85
            ||| n == 0xa0
            ||| n == 0x1680
            ||| 0x2000 <= n <= 0x200a
            ||| n == 0x2028
            ||| n == 0x2029
            ||| n == 0x202f
            ||| n == 0x205f
            ||| n == 0x3000
        },
{
}

/// Every character of a text is white space.
pub open spec fn blank(s: Seq<char>) -> bool {
    forall|i: int| 0 <= i < s.len() ==> white(#[trigger] s[i])
}

/// Trimming the end of a text takes nothing but white space away, and all of it.
pub proof fn law_trimmed_end(text: Seq<char>, tail: Seq<char>)
    requires
        blank(tail),
        text.len() > 0 ==> !white(text.last()),
    ensures
        trim_end(text + tail) == text,
    decreases tail.len(),
{
    if tail.len() == 0 {
        assert(text + tail == text);
    } else {
        assert((text + tail).drop_last() == text + tail.drop_last());
        assert((text + tail).last() == tail[tail.len() - 1]);
        law_trimmed_end(text, tail.drop_last());
    }
}

proof fn lemma_trimmed_start(head: Seq<char>, text: Seq<char>)
    requires
        blank(head),
        text.len() > 0 ==> !white(text[0]),
    ensures
        trim_start(head + text) == text,
    decreases head.len(),
{
    if head.len() == 0 {
        assert(head + text == text);
    } else {
        assert((head + text).skip(1) == head.skip(1) + text);
        assert((head + text)[0] == head[0]);
        lemma_trimmed_start(head.skip(1), text);
    }
}

/// Trimming a text takes the white space at both ends away, and nothing else.
pub proof fn law_trimmed(head: Seq<char>, text: Seq<char>, tail: Seq<char>)
    requires
        blank(head),
        blank(tail),
        text.len() > 0 ==> !white(text[0]) && !white(text.last()),
    ensures
        trim(head + text + tail) == text,
{
    if text.len() == 0 {
        let all = head + text + tail;
        assert forall|i: int| 0 <= i < all.len() implies white(#[trigger] all[i]) by {
            if i < head.len() {
                assert(all[i] == head[i]);
            } else {
                assert(all[i] == tail[i - head.len()]);
            }
        }
        assert(all + text == all);
        lemma_trimmed_start(all, text);
        assert(text + text == text);
        law_trimmed_end(text, text);
    } else {
        assert(head + text + tail == head + (text + tail));
        assert((text + tail)[0] == text[0]);
        lemma_trimmed_start(head, text + tail);
        law_trimmed_end(text, tail);
    }
}

/// A row of one character at the end of a text is cut off whole.
pub proof fn law_trimmed_row(text: Seq<char>, c: char, tail: Seq<char>)
    requires
        forall|i: int| 0 <= i < tail.len() ==> #[trigger] tail[i] == c,
        text.len() > 0 ==> text.last() != c,
    ensures
        trim_end_char(text + tail, c) == text,
    decreases tail.len(),
{
    if tail.len() == 0 {
        assert(text + tail == text);
    } else {
        assert((text + tail).drop_last() == text + tail.drop_last());
        assert((text + tail).last() == tail[tail.len() - 1]);
        law_trimmed_row(text, c, tail.drop_last());
    }
}

/// A suffix is found at the end, and what stands before it is left.
pub proof fn law_suffix(root: Seq<char>, suffix: Seq<char>, other: Seq<char>)
    ensures
        strip_suffix(root + suffix, suffix) == Some(root),
        strip_suffix(other, suffix) matches Some(left) ==> other == left + suffix,
{
    let s = root + suffix;
    assert(s.subrange((s.len() - suffix.len()) as int, s.len() as int) =~= suffix);
    assert(s.take(s.len() - suffix.len()) =~= root);
    if suffix.is_suffix_of(other) {
        let n = (other.len() - suffix.len()) as int;
        assert(other =~= other.take(n) + other.subrange(n, other.len() as int));
    }
}

// ----------------------------------------------------------------- letters

/// Folding letters keeps the length; `A` to `Z` become `a` to `z`, and every other
/// character stays.
pub proof fn law_folded(s: Seq<char>, i: int)
    requires
        0 <= i < s.len(),
    ensures
        ascii_lower(s).len() == s.len(),
        65 <= s[i] as u32 <= 90 ==> ascii_lower(s)[i] as u32 == s[i] as u32 + 32,
        !(65 <= s[i] as u32 <= 90) ==> ascii_lower(s)[i] == s[i],
{
}

// --------------------------------------------------------- lists and lines

/// Parts are joined with one separator between neighbours, and nothing else.
pub proof fn law_joined(parts: Seq<Seq<char>>, part: Seq<char>, sep: Seq<char>)
    ensures
        join(Seq::<Seq<char>>::empty(), sep) == Seq::<char>::empty(),
        join(seq![part], sep) == part,
        parts.len() > 0 ==> join(parts.push(part), sep) == join(parts, sep) + sep + part,
{
    assert(parts.push(part).drop_last() == parts);
}

/// A text is parted at every separator: up to the first one, and from behind it on.
pub proof fn law_parted(word: Seq<char>, c: char, rest: Seq<char>)
    requires
        !word.contains(c),
    ensures
        pieces(word, c) == seq![word],
        pieces(word + seq![c] + rest, c) == seq![word] + pieces(rest, c),
        part_once(word, c) is None,
        part_once(word + seq![c] + rest, c) == Some((word, rest)),
{
    lemma_first_piece(word, c, rest);
    lemma_next_char(word, c, 0);
    assert(next_char(word, c, 0) == word.len());
    assert(word.subrange(0, word.len() as int) =~= word);
}

/// Whether a text fits on one line: it holds no line feed, and no carriage return
/// that would count as part of one.
pub open spec fn one_line(s: Seq<char>) -> bool {
    !s.contains('\n') && (s.len() > 0 ==> s.last() != '\r')
}

proof fn lemma_lines_joined(parts: Seq<Seq<char>>)
    requires
        parts.len() > 0,
        forall|i: int| 0 <= i < parts.len() ==> one_line(#[trigger] parts[i]),
    ensures
        ({
            let text = join(parts, "\n"@);
            if parts.last().len() > 0 {
                &&& lines(text) == parts
                &&& text.len() > 0
                &&& text.last() == parts.last().last()
            } else {
                &&& lines(text) == parts.drop_last()
                &&& text.len() > 0 ==> text.last() == '\n'
            }
        }),
    decreases parts.len(),
{
    reveal_strlit("\n");
    let last = parts.last();
    assert(parts[parts.len() - 1] == last);
    lemma_next_char(last, '\n', 0);
    assert(next_char(last, '\n', 0) == last.len());
    assert(last.subrange(0, last.len() as int) =~= last);
    if last.len() > 0 {
        assert(last.contains(last.last()));
        assert(lines(last) =~= seq![last]);
    } else {
        assert(lines(last) =~= Seq::<Seq<char>>::empty());
    }
    if parts.len() == 1 {
        assert(parts =~= seq![last]);
        assert(parts.drop_last() =~= Seq::<Seq<char>>::empty());
    } else {
        let head = parts.drop_last();
        assert forall|i: int| 0 <= i < head.len() implies one_line(#[trigger] head[i]) by {
            assert(head[i] == parts[i]);
        }
        lemma_lines_joined(head);
        let p = join(head, "\n"@);
        let before_last = head.last();
        assert(head[head.len() - 1] == before_last);
        assert(join(parts, "\n"@) == p + "\n"@ + last);
        assert(head.drop_last().push(before_last) =~= head);
        if before_last.len() > 0 {
            assert(before_last.contains(before_last.last()));
            lemma_lines_stacked(p, last);
            assert(crate::text::ended(head) =~= head);
        } else {
            lemma_lines_stacked_apart(p, last);
            assert(before_last =~= Seq::<char>::empty());
        }
        if last.len() > 0 {
            assert(head + seq![last] =~= parts);
        } else {
            assert(head + Seq::<Seq<char>>::empty() =~= head);
        }
    }
}

/// Lines that are put one under the other are read as those lines, empty ones too; a
/// last line that is empty is none.
pub proof fn law_lines_read_back(parts: Seq<Seq<char>>)
    requires
        parts.len() > 0,
        forall|i: int| 0 <= i < parts.len() ==> one_line(#[trigger] parts[i]),
    ensures
        parts.last().len() > 0 ==> lines(join(parts, "\n"@)) == parts,
        parts.last().len() == 0 ==> lines(join(parts, "\n"@)) == parts.drop_last(),
{
    lemma_lines_joined(parts);
}

/// A carriage return before a line feed belongs to the line ending.
pub proof fn law_carriage_return_ends_a_line(first: Seq<char>, rest: Seq<char>)
    requires
        !first.contains('\n'),
    ensures
        lines(first + seq!['\r', '\n'] + rest) == seq![first] + lines(rest),
{
    reveal_strlit("\n");
    let p = first.push('\r');
    assert(p.last() == '\r');
    lemma_lines_stacked(p, rest);
    assert(crate::text::stacked(p, rest) =~= first + seq!['\r', '\n'] + rest);
    lemma_next_char(p, '\n', 0);
    assert(next_char(p, '\n', 0) == p.len()) by {
        if next_char(p, '\n', 0) < p.len() {
            assert(first.contains(p[next_char(p, '\n', 0)]));
        }
    }
    assert(p.subrange(0, p.len() as int) =~= p);
    assert(lines(p) =~= seq![p]);
    assert(p.drop_last() =~= first);
    assert(crate::text::ended(lines(p)) =~= seq![first]);
}

// ----------------------------------------------------------------- numbers

/// A number is written digit by digit, the last digit last.
pub proof fn law_decimal_digits(n: nat, d: nat)
    requires
        d < 10,
    ensures
        decimal(d).len() == 1,
        decimal(d)[0] as u32 == 48 + d,
        n > 0 ==> decimal(n * 10 + d) == decimal(n) + decimal(d),
{
    assert((n * 10 + d) / 10 == n);
    assert((n * 10 + d) % 10 == d);
    assert(decimal(d)[0] == digit_char(d));
}

/// A row of digits.
pub open spec fn numeral(s: Seq<char>) -> bool {
    forall|i: int| 0 <= i < s.len() ==> '0' <= #[trigger] s[i] <= '9'
}

/// A text is read as a number just when it is a row of digits, behind a plus sign or
/// none, and the number is not too large; each digit more counts ten times as much.
pub proof fn law_numbers_are_read(s: Seq<char>, c: char, max: nat)
    requires
        s.len() > 0,
    ensures
        parse_unsigned(s, max) is Some ==> parse_unsigned(s, max)->0 <= max,
        parse_unsigned(s, max) is Some && s[0] == '+' ==> s.len() > 1 && numeral(s.skip(1)),
        parse_unsigned(s, max) is Some && s[0] != '+' ==> numeral(s),
        parse_unsigned(Seq::<char>::empty(), max) is None,
        48 <= c as u32 <= 57 && (c as u32 - 48) <= max ==> parse_unsigned(seq![c], max) == Some(
            (c as u32 - 48) as nat,
        ),
        parse_unsigned(s, max) is Some && 48 <= c as u32 <= 57 && parse_unsigned(s, max)->0 * 10 + (
        c as u32 - 48) <= max ==> parse_unsigned(s.push(c), max) == Some(
            (parse_unsigned(s, max)->0 * 10 + (c as u32 - 48)) as nat,
        ),
        !(48 <= c as u32 <= 57) ==> parse_unsigned(s.push(c), max) is None,
{
    let d = crate::text::unsigned_digits(s);
    assert(seq![c].drop_last() =~= Seq::<char>::empty());
    reveal_with_fuel(crate::text::digits_value, 2);
    assert(crate::text::unsigned_digits(s.push(c)) =~= d.push(c));
    assert(d.push(c).drop_last() =~= d);
    assert(d.push(c)[d.len() as int] == c);
    if crate::text::all_digits(d) && 48 <= c as u32 <= 57 {
        assert forall|i: int| 0 <= i < d.push(c).len() implies crate::text::digit(
            #[trigger] d.push(c)[i],
        ) by {
            if i < d.len() {
                assert(d.push(c)[i] == d[i]);
            }
        }
    }
    if !(48 <= c as u32 <= 57) {
        assert(!crate::text::digit(d.push(c)[d.len() as int]));
    }
}

// --------------------------------------------------------------- searching

proof fn lemma_find_behind(head: Seq<char>, s: Seq<char>, p: Seq<char>, from: int)
    requires
        0 <= from,
    ensures
        match find(s, p, from) {
            Some(i) => find(head + s, p, head.len() + from) == Some(head.len() + i),
            None => find(head + s, p, head.len() + from) is None,
        },
    decreases s.len() - from,
{
    if from + p.len() <= s.len() {
        assert((head + s).subrange(head.len() + from, head.len() + from + p.len()) =~= s.subrange(
            from,
            from + p.len(),
        ));
        if !occurs_at(s, p, from) && from < s.len() {
            lemma_find_behind(head, s, p, from + 1);
        }
    }
}

proof fn lemma_replace_behind(head: Seq<char>, s: Seq<char>, p: Seq<char>, v: Seq<char>, from: int)
    requires
        0 <= from <= s.len(),
        p.len() > 0,
    ensures
        replace_from(head + s, p, v, head.len() + from) == replace_from(s, p, v, from),
        count_from(head + s, p, head.len() + from) == count_from(s, p, from),
    decreases s.len() - from,
{
    lemma_find_behind(head, s, p, from);
    lemma_find(s, p, from);
    assert((head + s).skip(head.len() + from) =~= s.skip(from));
    match find(s, p, from) {
        None => {},
        Some(i) => {
            assert((head + s).subrange(head.len() + from, head.len() + i) =~= s.subrange(from, i));
            lemma_replace_behind(head, s, p, v, i + p.len());
        },
    }
}

/// Whether a text goes on with another at a position.
pub open spec fn reads(s: Seq<char>, p: Seq<char>, at: int) -> bool {
    s.subrange(at, at + p.len()) == p
}

/// Occurrences are found from left to right without overlap: the first one is
/// replaced, and, where every one is, the search goes on behind it.
pub proof fn law_replaced(a: Seq<char>, p: Seq<char>, b: Seq<char>, v: Seq<char>)
    requires
        p.len() > 0,
        forall|j: int| 0 <= j < a.len() ==> !#[trigger] reads(a + p + b, p, j),
    ensures
        replace_first(a + p + b, p, v) == a + v + b,
        replace_all(a + p + b, p, v) == a + v + replace_all(b, p, v),
        count(a + p + b, p) == 1 + count(b, p),
        occurs(a + p + b, p),
{
    let s = a + p + b;
    let n = a.len() as int;
    assert(s.subrange(n, n + p.len()) =~= p);
    assert(occurs_at(s, p, n));
    lemma_find(s, p, 0);
    assert(find(s, p, 0) == Some(n)) by {
        match find(s, p, 0) {
            None => {},
            Some(i) => {
                if i < n {
                    assert(reads(s, p, i));
                }
            },
        }
    }
    assert(s.take(n) =~= a);
    assert(s.subrange(0, n) =~= a);
    assert(s.skip(n + p.len()) =~= b);
    lemma_replace_behind(a + p, b, p, v, 0);
}

/// What does not occur is neither counted nor replaced.
pub proof fn law_nothing_found(s: Seq<char>, p: Seq<char>, v: Seq<char>)
    requires
        p.len() > 0,
        forall|j: int| 0 <= j <= s.len() - p.len() ==> !#[trigger] reads(s, p, j),
    ensures
        !occurs(s, p),
        count(s, p) == 0,
        replace_first(s, p, v) == s,
        replace_all(s, p, v) == s,
{
    if occurs(s, p) {
        let i = choose|i: int| occurs_at(s, p, i);
        assert(reads(s, p, i));
    }
    crate::search::law_nothing_to_replace(s, p, v);
    lemma_find(s, p, 0);
}

// ------------------------------------------------------------------- order

/// Strings are ordered as in a dictionary, by code point: what they share at the
/// beginning does not matter, a string stands before its continuations, and otherwise
/// the first character that differs decides.
pub proof fn law_dictionary_order(shared: Seq<char>, a: Seq<char>, b: Seq<char>)
    ensures
        before(shared + a, shared + b) == before(a, b),
        b.len() > 0 ==> before(Seq::<char>::empty(), b),
        a.len() > 0 && b.len() > 0 && a[0] != b[0] ==> before(a, b) == (a[0] < b[0]),
        !before(a, a),
        a != b ==> before(a, b) || before(b, a),
    decreases shared.len(),
{
    lemma_before_irreflexive(a);
    lemma_before_total(a, b);
    if shared.len() == 0 {
        assert(shared + a == a);
        assert(shared + b == b);
    } else {
        assert((shared + a).skip(1) == shared.skip(1) + a);
        assert((shared + b).skip(1) == shared.skip(1) + b);
        law_dictionary_order(shared.skip(1), a, b);
    }
}

/// The strings of a set in order are those of the set, each once, every one before
/// those that follow it.
pub proof fn law_in_order(set: Set<Seq<char>>, i: int, j: int)
    requires
        set.finite(),
        0 <= i < j < in_order(set).len(),
    ensures
        in_order(set).to_set() == set,
        before(in_order(set)[i], in_order(set)[j]),
{
    lemma_set_in_order(set);
}

// ---------------------------------------------------------------- encoding

/// Values are encoded byte by byte.
pub proof fn law_encoded_in_turn(a: Seq<u8>, b: Seq<u8>, also: Seq<u8>)
    ensures
        escape(a + b, also) == escape(a, also) + escape(b, also),
    decreases a.len(),
{
    if a.len() == 0 {
        assert(a + b == b);
        assert(escape(a, also) + escape(b, also) == escape(b, also));
    } else {
        assert((a + b).skip(1) == a.skip(1) + b);
        law_encoded_in_turn(a.skip(1), b, also);
        let head = crate::encode::escape_byte(a[0], also);
        assert(head + (escape(a.skip(1), also) + escape(b, also)) == head + escape(a.skip(1), also)
            + escape(b, also));
    }
}

/// Letters, digits and `-`, `.`, `_`, `~` stand for themselves in a path; every other
/// byte is a percent sign and its two hexadecimal digits, in capitals. A slash stays
/// only where a value may span several segments.
pub proof fn law_encoded_byte(b: u8)
    ensures
        ({
            let plain = 48 <= b <= 57 || 65 <= b <= 90 || 97 <= b <= 122 || b == 45 || b == 46 || b
                == 95 || b == 126;
            let one = escape(seq![b], seq![45u8, 46u8, 95u8, 126u8]);
            let several = escape(seq![b], seq![45u8, 46u8, 95u8, 126u8, 47u8]);
            &&& plain ==> one.len() == 1 && one[0] as u32 == b as u32
            &&& !plain ==> {
                &&& one.len() == 3
                &&& one[0] == '%'
                &&& one[1] as u32 == (if b / 16 < 10 {
                    48 + b / 16
                } else {
                    55 + b / 16
                })
                &&& one[2] as u32 == (if b % 16 < 10 {
                    48 + b % 16
                } else {
                    55 + b % 16
                })
            }
            &&& b == 47 ==> several == seq!['/']
            &&& b != 47 ==> several == one
        }),
{
    reveal_with_fuel(escape, 2);
    let four = seq![45u8, 46u8, 95u8, 126u8];
    let five = seq![45u8, 46u8, 95u8, 126u8, 47u8];
    assert(seq![b].skip(1) =~= Seq::<u8>::empty());
    assert(four[0] == 45 && four[1] == 46 && four[2] == 95 && four[3] == 126);
    assert(five[0] == 45 && five[1] == 46 && five[2] == 95 && five[3] == 126 && five[4] == 47);
    assert(four.contains(b) <==> b == 45 || b == 46 || b == 95 || b == 126);
    assert(five.contains(b) <==> b == 45 || b == 46 || b == 95 || b == 126 || b == 47);
    assert(escape(seq![b], four) =~= crate::encode::escape_byte(b, four));
    assert(escape(seq![b], five) =~= crate::encode::escape_byte(b, five));
    assert(47u8 as char == '/');
}

/// A value is encoded by its UTF-8 bytes.
pub proof fn law_encoded_value(value: Seq<char>)
    ensures
        segment(value) == escape(encode_utf8(value), seq![45u8, 46u8, 95u8, 126u8]),
        segments(value) == escape(encode_utf8(value), seq![45u8, 46u8, 95u8, 126u8, 47u8]),
{
}

} // verus!
