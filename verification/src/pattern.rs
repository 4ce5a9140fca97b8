//! The regular-expression engine, as far as this library relies on it.
//!
//! Matching is done by the `regex` crate. Nothing in this module is proved:
//! each item states what the library takes on trust from the engine, and the
//! rest of the library is verified against these statements alone.

use crate::text::texts;
use regex::Regex;
use vstd::prelude::*;

verus! {

/// A compiled regular expression of the engine. Its inside is not modelled.
#[verifier::external_type_specification]
#[verifier::external_body]
pub struct ExRegex(regex::Regex);

/// The engine's report of a pattern that it could not compile.
#[verifier::external_type_specification]
#[verifier::external_body]
pub struct ExRegexError(regex::Error);

/// What `Regex::new` makes of `pattern`: the compiled expression, or `None`
/// where the engine refuses the pattern.
pub uninterp spec fn compiled(pattern: Seq<char>) -> Option<Regex>;

/// Whether `Regex::is_match` finds a match of `re` anywhere in `haystack`.
pub uninterp spec fn has_match(re: Regex, haystack: Seq<char>) -> bool;

/// The texts of the matches that `Regex::find_iter` yields for `re` in
/// `haystack`: successive, non-overlapping, from left to right.
pub uninterp spec fn occurrences(re: Regex, haystack: Seq<char>) -> Seq<Seq<char>>;

/// Calls `Regex::new`. The outcome depends on the pattern alone, so it is
/// named by [`compiled`]; which patterns compile is left to the engine.
#[verifier::external_body]
pub(crate) fn compile(pattern: &str) -> (r: Result<Regex, regex::Error>)
    ensures
        match r {
            Ok(re) => compiled(pattern@) == Some(re),
            Err(_) => compiled(pattern@) is None,
        },
{
    Regex::new(pattern)
}

/// Calls `Regex::is_match`, which reports whether the expression matches
/// anywhere in the haystack. The answer is named by [`has_match`].
#[verifier::external_body]
pub(crate) fn is_match(re: &Regex, haystack: &str) -> (b: bool)
    ensures
        b == has_match(*re, haystack@),
{
    re.is_match(haystack)
}

/// Calls `Regex::find_iter` and copies out the text of each match, in the
/// order in which the iterator yields them. The list is named by
/// [`occurrences`].
#[verifier::external_body]
pub(crate) fn find_all(re: &Regex, haystack: &str) -> (found: Vec<String>)
    ensures
        texts(found@) == occurrences(*re, haystack@),
{
    let mut found = Vec::new();
    for m in re.find_iter(haystack) {
        found.push(m.as_str().to_string());
    }
    found
}

} // verus!
