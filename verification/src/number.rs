//! JSON numbers as `serde_json` holds them.

use crate::text::{chars_of, decimal};
use vstd::prelude::*;
use vstd::string::*;

verus! {

/// `serde_json::Number`, held as it is: an unsigned or negative integer of 64
/// bits or a finite floating-point number.
#[verifier::external_type_specification]
#[verifier::external_body]
pub struct ExNumber(serde_json::Number);

/// A JSON number as a mathematical value: an unsigned integer of 64 bits by its
/// value, any other number by the text that it prints as.
pub enum NumberView {
    Unsigned(u64),
    Other(Seq<char>),
}

/// What `serde_json::Number::as_u64` returns.
pub uninterp spec fn number_unsigned(n: serde_json::Number) -> Option<u64>;

/// What `serde_json::Number` prints as.
pub uninterp spec fn number_display(n: serde_json::Number) -> Seq<char>;

/// The mathematical value of a number.
pub open spec fn number_view(n: serde_json::Number) -> NumberView {
    match number_unsigned(n) {
        Some(u) => NumberView::Unsigned(u),
        None => NumberView::Other(number_display(n)),
    }
}

/// A number as text.
pub open spec fn number_text(n: NumberView) -> Seq<char> {
    match n {
        NumberView::Unsigned(u) => decimal(u as nat),
        NumberView::Other(t) => t,
    }
}

/// Whether a character begins the exponent of a number.
pub open spec fn exponent_mark(c: char) -> bool {
    c == 'e' || c == 'E'
}

/// Whether the text of a number stands for zero: every digit before its exponent
/// is zero, whatever its sign.
pub open spec fn zero_text(text: Seq<char>) -> bool {
    forall|i: int|
        0 <= i < text.len() && (forall|j: int| 0 <= j <= i ==> !exponent_mark(#[trigger] text[j]))
            ==> !('1' <= #[trigger] text[i] <= '9')
}

/// Whether a number is zero.
pub open spec fn zero(n: NumberView) -> bool {
    match n {
        NumberView::Unsigned(u) => u == 0,
        NumberView::Other(t) => zero_text(t),
    }
}

/// Whether the text of a number stands for zero.
fn is_zero_text(text: &str) -> (r: bool)
    ensures
        r == zero_text(text@),
{
    let chars = chars_of(text);
    for i in 0..chars.len()
        invariant
            chars@ == text@,
            forall|j: int| 0 <= j < i ==> !exponent_mark(#[trigger] text@[j]),
            forall|j: int| 0 <= j < i ==> !('1' <= #[trigger] text@[j] <= '9'),
    {
        let c: char = chars[i];
        assert(c == text@[i as int]);
        if c == 'e' || c == 'E' {
            return true;
        }
        if '1' <= c && c <= '9' {
            return false;
        }
    }
    true
}

/// Whether a number is zero: `0`, or a zero with a sign or with decimals.
pub fn is_zero(n: &serde_json::Number) -> (r: bool)
    ensures
        r == zero(number_view(*n)),
{
    match n.as_u64() {
        Some(u) => u == 0,
        None => is_zero_text(print_number(n).as_str()),
    }
}

/// `serde_json::Number::as_u64` gives the value of an integer between zero and
/// `u64::MAX` and nothing for any other number. The result is a property of the
/// number, so it is named.
pub assume_specification[ serde_json::Number::as_u64 ](n: &serde_json::Number) -> (r: Option<u64>)
    ensures
        r == number_unsigned(*n),
;

/// The clone of a `serde_json::Number` is the same number.
pub assume_specification[ <serde_json::Number as Clone>::clone ](n: &serde_json::Number) -> (r:
    serde_json::Number)
    ensures
        r == *n,
;

/// `serde_json::Number` displays an unsigned integer in decimal. How it displays
/// any other number is named, not stated.
#[verifier::external_body]
pub(crate) fn print_number(n: &serde_json::Number) -> (r: String)
    ensures
        r@ == number_display(*n),
        r@ == number_text(number_view(*n)),
{
    n.to_string()
}

/// `serde_json::Number::from` turns an unsigned integer into the number of that
/// value.
#[verifier::external_body]
pub(crate) fn number_of(value: u64) -> (r: serde_json::Number)
    ensures
        number_unsigned(r) == Some(value),
{
    serde_json::Number::from(value)
}

} // verus!
