//! The rules of HTTP that requests and replies are held to.

use crate::encode::lemma_utf8_push;
use crate::text::opt_str;
use vstd::prelude::*;
use vstd::string::*;
use vstd::utf8::{encode_scalar, encode_utf8};

verus! {

/// A character that may stand in the name of an HTTP method.
pub open spec fn method_char(c: char) -> bool {
    ||| '0' <= c <= '9'
    ||| 'A' <= c <= 'Z'
    ||| 'a' <= c <= 'z'
    ||| c == '!'
    ||| c == '#'
    ||| c == '$'
    ||| c == '%'
    ||| c == '&'
    ||| c == '\''
    ||| c == '*'
    ||| c == '+'
    ||| c == '-'
    ||| c == '.'
    ||| c == '^'
    ||| c == '_'
    ||| c == '`'
    ||| c == '|'
    ||| c == '~'
}

/// The name of an HTTP method: at least one character, none out of place.
pub open spec fn method_name(s: Seq<char>) -> bool {
    s.len() > 0 && forall|i: int| 0 <= i < s.len() ==> method_char(#[trigger] s[i])
}

/// `reqwest::Method::from_bytes` accepts the name of a method just when it is not
/// empty and every byte is a letter, a digit or one of the other token characters
/// of HTTP.
#[verifier::external_body]
pub(crate) fn is_method(name: &str) -> (r: bool)
    ensures
        r == method_name(name@),
{
    reqwest::Method::from_bytes(name.as_bytes()).is_ok()
}

/// A character that may stand in the value of a header.
pub open spec fn header_char(c: char) -> bool {
    (c >= ' ' && c != '\u{7f}') || c == '\t'
}

/// The value of a header: no control characters but tabs.
pub open spec fn header_value(s: Seq<char>) -> bool {
    forall|i: int| 0 <= i < s.len() ==> header_char(#[trigger] s[i])
}

/// `reqwest::header::HeaderValue::from_str` accepts a value just when none of its
/// bytes is a control character other than a tab.
#[verifier::external_body]
pub(crate) fn is_header_value(value: &str) -> (r: bool)
    ensures
        r == header_value(value@),
{
    reqwest::header::HeaderValue::from_str(value).is_ok()
}

/// The words that `reqwest::StatusCode::canonical_reason` has for a status code,
/// where the code is one that `reqwest::StatusCode::from_u16` accepts.
pub uninterp spec fn reason(status: u16) -> Option<Seq<char>>;

/// `reqwest::StatusCode::canonical_reason` looks a status code up in a table of
/// registered codes. The table is named, not stated; it has nothing for a code
/// that `reqwest::StatusCode::from_u16` refuses, one below 100 or above 999.
#[verifier::external_body]
pub(crate) fn reason_of(status: u16) -> (r: Option<String>)
    ensures
        opt_str(r) == reason(status),
        status < 100 || status > 999 ==> r is None,
{
    let code = reqwest::StatusCode::from_u16(status).ok()?;
    code.canonical_reason().map(|words| words.to_string())
}

/// The status codes that mean success.
pub open spec fn success(status: u16) -> bool {
    200 <= status < 300
}

// -------------------------------------------------------------- truncation

/// The longest beginning of a text that takes no more than so many bytes in UTF-8.
pub open spec fn fitting(s: Seq<char>, max: nat) -> Seq<char>
    decreases s.len(),
{
    if s.len() == 0 || encode_utf8(s).len() <= max {
        s
    } else {
        fitting(s.drop_last(), max)
    }
}

/// A text that takes too many bytes is cut where it still fits, and says so.
pub open spec fn cut(s: Seq<char>, max: nat) -> Seq<char> {
    if encode_utf8(s).len() <= max {
        s
    } else {
        fitting(s, max) + "\n… [truncated]"@
    }
}

/// How many bytes a character takes in UTF-8.
fn width(c: char) -> (r: usize)
    ensures
        r == encode_scalar(c as u32).len(),
        1 <= r <= 4,
{
    if (c as u32) < 0x80 {
        1
    } else if (c as u32) < 0x800 {
        2
    } else if (c as u32) < 0x10000 {
        3
    } else {
        4
    }
}

/// One more character takes more bytes.
proof fn lemma_longer(s: Seq<char>, n: int)
    requires
        0 <= n <= s.len(),
    ensures
        encode_utf8(s.take(n)).len() <= encode_utf8(s).len(),
    decreases s.len(),
{
    if n < s.len() {
        assert(s.drop_last().take(n) == s.take(n));
        lemma_longer(s.drop_last(), n);
        assert(s == s.drop_last().push(s.last()));
        lemma_utf8_push(s.drop_last(), s.last());
    } else {
        assert(s.take(n) == s);
    }
}

/// A beginning that fits, where one character more does not, is the longest.
proof fn lemma_fitting(s: Seq<char>, max: nat, n: int)
    requires
        0 <= n <= s.len(),
        encode_utf8(s.take(n)).len() <= max,
        n < s.len() ==> encode_utf8(s.take(n + 1)).len() > max,
    ensures
        fitting(s, max) == s.take(n),
    decreases s.len(),
{
    if n < s.len() {
        lemma_longer(s, n + 1);
        assert(s.drop_last().take(n) == s.take(n));
        if n < s.len() - 1 {
            assert(s.drop_last().take(n + 1) == s.take(n + 1));
        }
        lemma_fitting(s.drop_last(), max, n);
    } else {
        assert(s.take(n) == s);
    }
}

/// Cuts a text that takes more than so many bytes, never inside a character, and
/// marks the cut.
pub fn truncate(s: String, max: usize) -> (r: String)
    ensures
        r@ == cut(s@, max as nat),
{
    let chars = crate::text::chars_of(s.as_str());
    let mut n: usize = 0;
    let mut used: usize = 0;
    assert(s@.take(0) == Seq::<char>::empty());
    assert(encode_utf8(Seq::<char>::empty()).len() == 0);
    while n < chars.len()
        invariant
            chars@ == s@,
            n <= chars@.len(),
            used == encode_utf8(s@.take(n as int)).len(),
            used <= max,
        decreases chars@.len() - n,
    {
        let w: usize = width(chars[n]);
        proof {
            assert(s@.take(n + 1) == s@.take(n as int).push(s@[n as int]));
            lemma_utf8_push(s@.take(n as int), s@[n as int]);
        }
        if w > max - used {
            proof {
                lemma_longer(s@, n + 1);
                lemma_fitting(s@, max as nat, n as int);
            }
            let head = crate::text::string_between(&chars, 0, n);
            return head.concat("\n… [truncated]");
        }
        n = n + 1;
        used = used + w;
    }
    assert(s@.take(n as int) == s@);
    s
}

/// A text that is cut begins as the whole does, in no more bytes than allowed, and
/// one more character would not have fitted.
pub proof fn law_cut_keeps_a_longest_beginning(s: Seq<char>, max: nat)
    ensures
        fitting(s, max).is_prefix_of(s),
        encode_utf8(fitting(s, max)).len() <= max,
        fitting(s, max).len() < s.len() ==> encode_utf8(
            s.take(fitting(s, max).len() as int + 1),
        ).len() > max,
    decreases s.len(),
{
    if s.len() == 0 || encode_utf8(s).len() <= max {
        assert(s == s.subrange(0, s.len() as int));
        assert(encode_utf8(Seq::<char>::empty()).len() == 0);
    } else {
        let t = s.drop_last();
        law_cut_keeps_a_longest_beginning(t, max);
        let f = fitting(t, max);
        assert(f == s.subrange(0, f.len() as int));
        if f.len() < t.len() {
            assert(t.take(f.len() as int + 1) == s.take(f.len() as int + 1));
        } else {
            assert(s.take(f.len() as int + 1) == s);
        }
    }
}

} // verus!
