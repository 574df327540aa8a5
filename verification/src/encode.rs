//! Percent-encoding of values that become part of a URL path.

use crate::text::chars_of;
use vstd::prelude::*;
use vstd::string::*;
use vstd::utf8::{encode_scalar, encode_utf8, encode_utf8_decode_utf8};

verus! {

/// A hexadecimal digit, with capital letters.
pub open spec fn hex(d: u8) -> char {
    if d < 10 {
        (48 + d) as char
    } else {
        (55 + d) as char
    }
}

/// An ASCII letter or digit.
pub open spec fn alphanumeric(b: u8) -> bool {
    48 <= b <= 57 || 65 <= b <= 90 || 97 <= b <= 122
}

/// What one byte becomes: letters, digits and the ASCII bytes in `also` stay, any
/// other byte becomes a percent sign and two hexadecimal digits.
pub open spec fn escape_byte(b: u8, also: Seq<u8>) -> Seq<char> {
    if alphanumeric(b) || also.contains(b) {
        seq![b as char]
    } else {
        seq!['%', hex(b / 16), hex(b % 16)]
    }
}

/// What a sequence of bytes becomes.
pub open spec fn escape(bytes: Seq<u8>, also: Seq<u8>) -> Seq<char>
    decreases bytes.len(),
{
    if bytes.len() == 0 {
        seq![]
    } else {
        escape_byte(bytes[0], also) + escape(bytes.skip(1), also)
    }
}

/// `-`, `.`, `_` and `~`.
pub open spec fn unreserved() -> Seq<u8> {
    seq![45u8, 46u8, 95u8, 126u8]
}

/// `-`, `.`, `_`, `~` and `/`.
pub open spec fn unreserved_or_slash() -> Seq<u8> {
    seq![45u8, 46u8, 95u8, 126u8, 47u8]
}

/// A value as a single path segment: a project path such as `group/sub/project`
/// becomes `group%2Fsub%2Fproject`.
pub open spec fn segment(value: Seq<char>) -> Seq<char> {
    escape(encode_utf8(value), unreserved())
}

/// A value that may span several segments: its slashes stay.
pub open spec fn segments(value: Seq<char>) -> Seq<char> {
    escape(encode_utf8(value), unreserved_or_slash())
}

/// `percent_encoding::utf8_percent_encode` with its set `NON_ALPHANUMERIC`: of the
/// UTF-8 bytes of the text, ASCII letters and digits stay and every other byte
/// becomes a percent sign and two capital hexadecimal digits.
#[verifier::external_body]
fn percent_encode(text: &str) -> (r: String)
    ensures
        r@ == escape(encode_utf8(text@), seq![]),
{
    percent_encoding::utf8_percent_encode(text, percent_encoding::NON_ALPHANUMERIC).to_string()
}

/// Encoding is done byte by byte.
proof fn lemma_escape_concat(a: Seq<u8>, b: Seq<u8>, also: Seq<u8>)
    ensures
        escape(a + b, also) == escape(a, also) + escape(b, also),
    decreases a.len(),
{
    if a.len() == 0 {
        assert(a + b == b);
    } else {
        assert((a + b).skip(1) == a.skip(1) + b);
        lemma_escape_concat(a.skip(1), b, also);
    }
}

/// UTF-8 encodes character by character.
pub proof fn lemma_utf8_push(s: Seq<char>, c: char)
    ensures
        encode_utf8(s.push(c)) == encode_utf8(s) + encode_scalar(c as u32),
    decreases s.len(),
{
    reveal_with_fuel(encode_utf8, 2);
    if s.len() == 0 {
        assert(s.push(c).drop_first() == Seq::<char>::empty());
        assert(encode_scalar(c as u32) + Seq::<u8>::empty() == encode_scalar(c as u32));
        assert(encode_utf8(s) + encode_scalar(c as u32) == encode_scalar(c as u32));
    } else {
        assert(s.push(c).drop_first() == s.drop_first().push(c));
        lemma_utf8_push(s.drop_first(), c);
    }
}

/// A character is encoded by its own ASCII byte or by bytes beyond ASCII.
proof fn lemma_scalar_bytes(c: u32)
    ensures
        c < 0x80 ==> encode_scalar(c) == seq![c as u8],
        c >= 0x80 ==> forall|i: int|
            0 <= i < encode_scalar(c).len() ==> #[trigger] encode_scalar(c)[i] >= 0x80,
{
    if c < 0x80 {
        assert((c & 0x7F) as u8 == c as u8) by (bit_vector)
            requires
                c < 0x80,
        ;
    } else {
        assert(0x80u8 | ((c & 0x3F) as u8) >= 0x80 && 0x80u8 | (((c >> 6) & 0x3F) as u8) >= 0x80
            && 0x80u8 | (((c >> 12) & 0x3F) as u8) >= 0x80 && 0xC0u8 | (((c >> 6) & 0x1F) as u8)
            >= 0x80 && 0xE0u8 | (((c >> 12) & 0x0F) as u8) >= 0x80 && 0xF0u8 | (((c >> 18)
            & 0x7) as u8) >= 0x80) by (bit_vector);
    }
}

/// Bytes that are kept only by name are encoded as if nothing were kept, where
/// none of them is among those named.
proof fn lemma_nothing_kept(bytes: Seq<u8>, also: Seq<u8>)
    requires
        forall|i: int| 0 <= i < bytes.len() ==> !also.contains(#[trigger] bytes[i]),
    ensures
        escape(bytes, also) == escape(bytes, seq![]),
    decreases bytes.len(),
{
    if bytes.len() > 0 {
        assert(!also.contains(bytes[0]));
        assert forall|i: int| 0 <= i < bytes.skip(1).len() implies !also.contains(
            #[trigger] bytes.skip(1)[i],
        ) by {
            assert(bytes.skip(1)[i] == bytes[i + 1]);
        }
        lemma_nothing_kept(bytes.skip(1), also);
    }
}

/// Whether a character is one of the ASCII characters to keep.
fn is_kept(c: char, kept: &Vec<u8>) -> (r: bool)
    requires
        forall|i: int| 0 <= i < kept@.len() ==> #[trigger] kept@[i] < 0x80,
    ensures
        r == ((c as u32) < 0x80 && kept@.contains(c as u8)),
{
    for i in 0..kept.len()
        invariant
            forall|k: int| 0 <= k < kept@.len() ==> #[trigger] kept@[k] < 0x80,
            forall|j: int| 0 <= j < i ==> kept@[j] as u32 != c as u32,
    {
        if kept[i] as u32 == c as u32 {
            assert(kept@[i as int] == c as u8);
            return true;
        }
    }
    false
}

/// Percent-encodes one character, unless it is a letter, a digit or to be kept.
fn encode_char(c: char, kept: &Vec<u8>) -> (r: String)
    requires
        forall|i: int| 0 <= i < kept@.len() ==> #[trigger] kept@[i] < 0x80,
    ensures
        r@ == escape(encode_scalar(c as u32), kept@),
{
    let mut single = String::new();
    single.push(c);
    proof {
        lemma_scalar_bytes(c as u32);
    }
    if is_kept(c, kept) {
        proof {
            reveal_with_fuel(escape, 2);
            assert(seq![c as u8].skip(1) == Seq::<u8>::empty());
            assert((c as u8) as char == c);
        }
        single
    } else {
        proof {
            lemma_utf8_push(Seq::<char>::empty(), c);
            assert(encode_utf8(Seq::<char>::empty()) + encode_scalar(c as u32) == encode_scalar(
                c as u32,
            ));
            assert(single@ == Seq::<char>::empty().push(c));
            assert forall|k: int| 0 <= k < encode_scalar(c as u32).len() implies !kept@.contains(
                #[trigger] encode_scalar(c as u32)[k],
            ) by {
                if kept@.contains(encode_scalar(c as u32)[k]) {
                    let j = choose|j: int|
                        0 <= j < kept@.len() && kept@[j] == encode_scalar(c as u32)[k];
                    assert(kept@[j] < 0x80);
                }
            }
            lemma_nothing_kept(encode_scalar(c as u32), kept@);
        }
        percent_encode(single.as_str())
    }
}

/// Percent-encodes all of a value but letters, digits and the characters to keep.
fn encode_keeping(value: &str, kept: &Vec<u8>) -> (r: String)
    requires
        forall|i: int| 0 <= i < kept@.len() ==> #[trigger] kept@[i] < 0x80,
    ensures
        r@ == escape(encode_utf8(value@), kept@),
{
    let chars = chars_of(value);
    let mut out = String::new();
    for i in 0..chars.len()
        invariant
            chars@ == value@,
            forall|k: int| 0 <= k < kept@.len() ==> #[trigger] kept@[k] < 0x80,
            out@ == escape(encode_utf8(value@.take(i as int)), kept@),
    {
        let c = chars[i];
        proof {
            assert(value@.take(i + 1) == value@.take(i as int).push(c));
            lemma_utf8_push(value@.take(i as int), c);
            lemma_escape_concat(
                encode_utf8(value@.take(i as int)),
                encode_scalar(c as u32),
                kept@,
            );
        }
        out.append(encode_char(c, kept).as_str());
    }
    assert(value@.take(chars@.len() as int) == value@);
    out
}

/// A value as a single path segment.
pub fn enc(value: &str) -> (r: String)
    ensures
        r@ == segment(value@),
{
    let kept: Vec<u8> = vec![45u8, 46u8, 95u8, 126u8];
    assert(kept@ == unreserved());
    encode_keeping(value, &kept)
}

/// A value that may span several path segments.
pub fn enc_multi(value: &str) -> (r: String)
    ensures
        r@ == segments(value@),
{
    let kept: Vec<u8> = vec![45u8, 46u8, 95u8, 126u8, 47u8];
    assert(kept@ == unreserved_or_slash());
    encode_keeping(value, &kept)
}

// -------------------------------------------------------------------- laws

/// A character that may stand in an encoded value.
pub open spec fn encoded_char(c: char, also: Seq<u8>) -> bool {
    ||| c == '%'
    ||| (c as u32) < 0x80 && (alphanumeric(c as u8) || also.contains(c as u8))
}

/// An encoded value holds nothing but letters, digits, percent signs and the
/// characters that were to be kept.
pub proof fn law_encoded_chars(bytes: Seq<u8>, also: Seq<u8>)
    requires
        forall|i: int| 0 <= i < also.len() ==> #[trigger] also[i] < 0x80,
    ensures
        forall|i: int|
            0 <= i < escape(bytes, also).len() ==> encoded_char(
                #[trigger] escape(bytes, also)[i],
                also,
            ),
    decreases bytes.len(),
{
    if bytes.len() > 0 {
        law_encoded_chars(bytes.skip(1), also);
        let head = escape_byte(bytes[0], also);
        assert forall|i: int| 0 <= i < head.len() implies encoded_char(#[trigger] head[i], also) by {
            let b = bytes[0];
            if alphanumeric(b) || also.contains(b) {
                if also.contains(b) {
                    let j = choose|j: int| 0 <= j < also.len() && also[j] == b;
                    assert(also[j] < 0x80);
                }
                assert((b as char) as u8 == b);
            } else {
                assert(b / 16 < 16);
            }
        }
        let tail = escape(bytes.skip(1), also);
        assert forall|i: int| 0 <= i < escape(bytes, also).len() implies encoded_char(
            #[trigger] escape(bytes, also)[i],
            also,
        ) by {
            if i < head.len() {
                assert(escape(bytes, also)[i] == head[i]);
            } else {
                assert(escape(bytes, also)[i] == tail[i - head.len()]);
            }
        }
    }
}

/// A value encoded as a single segment holds no slash, no brace and none of the
/// characters that end a path.
pub proof fn law_segment_is_one_segment(value: Seq<char>)
    ensures
        forall|i: int|
            0 <= i < segment(value).len() ==> {
                let c = #[trigger] segment(value)[i];
                c != '/' && c != '{' && c != '}' && c != '?' && c != '#' && c != ' '
            },
{
    law_encoded_chars(encode_utf8(value), unreserved());
    assert forall|i: int| 0 <= i < segment(value).len() implies {
        let c = #[trigger] segment(value)[i];
        c != '/' && c != '{' && c != '}' && c != '?' && c != '#' && c != ' '
    } by {
        assert(encoded_char(segment(value)[i], unreserved()));
    }
}

/// A value encoded for several segments still holds no brace and none of the
/// characters that end a path.
pub proof fn law_segments_stay_in_the_path(value: Seq<char>)
    ensures
        forall|i: int|
            0 <= i < segments(value).len() ==> {
                let c = #[trigger] segments(value)[i];
                c != '{' && c != '}' && c != '?' && c != '#' && c != ' '
            },
{
    law_encoded_chars(encode_utf8(value), unreserved_or_slash());
    assert forall|i: int| 0 <= i < segments(value).len() implies {
        let c = #[trigger] segments(value)[i];
        c != '{' && c != '}' && c != '?' && c != '#' && c != ' '
    } by {
        assert(encoded_char(segments(value)[i], unreserved_or_slash()));
    }
}

/// Two sequences of bytes with the same encoding are the same.
proof fn lemma_escape_injective(a: Seq<u8>, b: Seq<u8>, also: Seq<u8>)
    requires
        forall|i: int| 0 <= i < also.len() ==> #[trigger] also[i] < 0x80,
        !also.contains(37u8),
        escape(a, also) == escape(b, also),
    ensures
        a == b,
    decreases a.len(),
{
    if a.len() == 0 {
        if b.len() > 0 {
            assert(escape(b, also).len() > 0);
        }
        assert(a =~= b);
    } else if b.len() == 0 {
        assert(escape(a, also).len() > 0);
    } else {
        let x = a[0];
        let y = b[0];
        let ea = escape_byte(x, also);
        let eb = escape_byte(y, also);
        let whole = escape(a, also);
        assert(whole[0] == ea[0]);
        assert(whole[0] == eb[0]);
        let plain_x = alphanumeric(x) || also.contains(x);
        let plain_y = alphanumeric(y) || also.contains(y);
        if also.contains(x) {
            let j = choose|j: int| 0 <= j < also.len() && also[j] == x;
            assert(also[j] < 0x80);
        }
        if also.contains(y) {
            let j = choose|j: int| 0 <= j < also.len() && also[j] == y;
            assert(also[j] < 0x80);
        }
        if plain_x {
            assert((x as char) as u8 == x);
        }
        if plain_y {
            assert((y as char) as u8 == y);
        }
        if !plain_x {
            assert(whole[1] == hex(x / 16) && whole[2] == hex(x % 16));
        }
        if !plain_y {
            assert(whole[1] == hex(y / 16) && whole[2] == hex(y % 16));
        }
        assert(x == y);
        assert(escape(a.skip(1), also) =~= whole.skip(ea.len() as int));
        assert(escape(b.skip(1), also) =~= whole.skip(eb.len() as int));
        lemma_escape_injective(a.skip(1), b.skip(1), also);
        assert(a =~= seq![x] + a.skip(1));
        assert(b =~= seq![y] + b.skip(1));
    }
}

/// Different values become different segments.
pub proof fn law_segment_injective(a: Seq<char>, b: Seq<char>)
    requires
        segment(a) == segment(b),
    ensures
        a == b,
{
    lemma_escape_injective(encode_utf8(a), encode_utf8(b), unreserved());
    encode_utf8_decode_utf8(a);
    encode_utf8_decode_utf8(b);
}

} // verus!
