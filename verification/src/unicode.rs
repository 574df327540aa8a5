//! Case mapping and quoting as the standard library defines them.

use vstd::prelude::*;
use vstd::string::*;

verus! {

/// What `str::to_uppercase` returns.
pub uninterp spec fn uppercase(s: Seq<char>) -> Seq<char>;

/// What `str::to_lowercase` returns.
pub uninterp spec fn lowercase(s: Seq<char>) -> Seq<char>;

/// What the `{:?}` format of a `str` prints.
pub uninterp spec fn quote(s: Seq<char>) -> Seq<char>;

/// `str::to_uppercase` follows the Unicode case tables, so its result is only
/// named here: it depends on nothing but the text.
pub assume_specification[ str::to_uppercase ](s: &str) -> (r: String)
    ensures
        r@ == uppercase(s@),
;

/// `str::to_lowercase` follows the Unicode case tables, so its result is only
/// named here: it depends on nothing but the text.
pub assume_specification[ str::to_lowercase ](s: &str) -> (r: String)
    ensures
        r@ == lowercase(s@),
;

/// The `{:?}` format of a `str`: quotation marks around the text, with escapes
/// for what does not print. Which characters are escaped follows the Unicode
/// tables, so the result is only named here: it depends on nothing but the text.
#[verifier::external_body]
pub(crate) fn quoted(s: &str) -> (r: String)
    ensures
        r@ == quote(s@),
{
    format!("{:?}", s)
}

} // verus!
