//! Glob matching, through the `glob` crate.
use vstd::prelude::*;

verus! {

/// Whether `glob::Pattern::new` accepts `pattern`.
pub uninterp spec fn glob_valid(pattern: Seq<char>) -> bool;

/// What `glob::Pattern::matches` answers for the pattern compiled from
/// `pattern` and the candidate text `candidate`.
pub uninterp spec fn glob_match(pattern: Seq<char>, candidate: Seq<char>) -> bool;

/// Calls `glob::Pattern::new(pattern)` and reports whether it succeeded.
/// The contract claims only that the answer is `glob_valid` of the text.
#[verifier::external_body]
pub(crate) fn pattern_is_valid(pattern: &str) -> (r: bool)
    ensures
        r == glob_valid(pattern@),
{
    ::glob::Pattern::new(pattern).is_ok()
}

/// Compiles `pattern` with `glob::Pattern::new` and calls
/// `glob::Pattern::matches` on `candidate`. The contract claims only that the
/// answer is `glob_match` of the two texts; `requires` rules out the patterns
/// that do not compile.
#[verifier::external_body]
pub(crate) fn pattern_matches(pattern: &str, candidate: &str) -> (r: bool)
    requires
        glob_valid(pattern@),
    ensures
        r == glob_match(pattern@, candidate@),
{
    match ::glob::Pattern::new(pattern) {
        Ok(p) => p.matches(candidate),
        Err(_) => false,
    }
}

} // verus!
