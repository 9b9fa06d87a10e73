//! Name patterns: regular expressions, compiled and run by the `regex` crate.

use regex::Regex;
use vstd::prelude::*;

verus! {

/// Whether `Regex::new` accepts `pattern`: it is a syntactically valid
/// expression and its compiled form stays within the crate's default size
/// limit.
pub uninterp spec fn pattern_compiles(pattern: Seq<char>) -> bool;

/// Whether the expression compiled from `pattern` by `Regex::new` has a match
/// anywhere in `text`, as `Regex::is_match` reports it. Only meaningful where
/// `pattern_compiles(pattern)`.
pub uninterp spec fn pattern_matches(pattern: Seq<char>, text: Seq<char>) -> bool;

/// Compiles `pattern` with `regex::Regex::new` and searches `path` with
/// `regex::Regex::is_match`.
///
/// Trusted: the result is `None` exactly when `Regex::new` returns an error,
/// and otherwise holds what `is_match` returned. Both calls depend on their
/// arguments alone, which is what the two names above record; nothing else is
/// claimed about which patterns compile or what they match. The expression
/// is compiled anew on every call, so that the contract speaks of two texts
/// and of nothing else.
#[verifier::external_body]
pub(crate) fn regex_search(pattern: &str, path: &str) -> (found: Option<bool>)
    ensures
        found == (if pattern_compiles(pattern@) {
            Some(pattern_matches(pattern@, path@))
        } else {
            None::<bool>
        }),
{
    match Regex::new(pattern) {
        Ok(compiled) => Some(compiled.is_match(path)),
        Err(_) => None,
    }
}

/// Whether `pattern` can be compiled into a matcher.
pub fn pattern_is_valid(pattern: &str) -> (valid: bool)
    ensures
        valid == pattern_compiles(pattern@),
{
    // What is searched does not matter here: only whether compiling succeeded.
    regex_search(pattern, "").is_some()
}

} // verus!
