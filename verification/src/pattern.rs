//! Regular expressions over tool names.

use vstd::prelude::*;
use vstd::string::*;

verus! {

/// `regex::Regex`, a compiled regular expression.
#[verifier::external_type_specification]
#[verifier::external_body]
pub struct ExRegex(regex::Regex);

/// `regex::Error`, why a pattern does not compile.
#[verifier::external_type_specification]
#[verifier::external_body]
pub struct ExRegexError(regex::Error);

/// Whether `regex::Regex::new` accepts a pattern.
pub uninterp spec fn pattern_valid(pattern: Seq<char>) -> bool;

/// Whether the expression that `regex::Regex::new` makes of a pattern matches
/// somewhere in a text.
pub uninterp spec fn pattern_matches(pattern: Seq<char>, text: Seq<char>) -> bool;

/// Whether a compiled expression matches somewhere in a text.
pub uninterp spec fn regex_matches(re: regex::Regex, text: Seq<char>) -> bool;

/// `regex::Regex::new` compiles a pattern. Which patterns it accepts and what
/// they match is named, not stated: both depend on nothing but the pattern.
pub assume_specification[ regex::Regex::new ](re: &str) -> (r: Result<regex::Regex, regex::Error>)
    ensures
        r is Ok == pattern_valid(re@),
        r matches Ok(x) ==> forall|text: Seq<char>| #[trigger]
            regex_matches(x, text) == pattern_matches(re@, text),
;

/// `regex::Regex::is_match` tells whether the expression matches anywhere in the
/// text. What it matches is named, not stated.
pub assume_specification[ regex::Regex::is_match ](re: &regex::Regex, haystack: &str) -> (r: bool)
    ensures
        r == regex_matches(*re, haystack@),
;

/// The clone of a `regex::Regex` is the same expression.
pub assume_specification[ <regex::Regex as Clone>::clone ](re: &regex::Regex) -> (r: regex::Regex)
    ensures
        r == *re,
;

/// An optional expression that was compiled from an optional pattern: there is one
/// where there is a pattern, and it matches what the pattern matches.
pub open spec fn compiled_from(re: Option<regex::Regex>, pattern: Option<Seq<char>>) -> bool {
    match (re, pattern) {
        (Some(x), Some(p)) => forall|text: Seq<char>| #[trigger]
            regex_matches(x, text) == pattern_matches(p, text),
        (None, None) => true,
        _ => false,
    }
}

} // verus!
