//! The pattern engine that decides whether a text matches a pattern.

use vstd::prelude::*;

verus! {

/// What the pattern engine answers for `pattern` on `haystack`: `None` when
/// it does not accept the pattern, else `Some` of whether some part of
/// `haystack` matches it. The engine's pattern language is not modelled
/// here: this function only names its answer.
pub uninterp spec fn regex_search(pattern: Seq<char>, haystack: Seq<char>) -> Option<bool>;

/// Compiles `pattern` with `regex::Regex::new` and, where that succeeds, asks
/// `Regex::is_match` whether `haystack` holds a match. The contract claims
/// one thing of the two calls: that their answer depends on the two texts
/// alone, so that it can go by the name `regex_search`. A pattern that the
/// engine refuses, for its syntax or for its size, gives `None`.
#[verifier::external_body]
pub(crate) fn search(pattern: &str, haystack: &str) -> (outcome: Option<bool>)
    ensures
        outcome == regex_search(pattern@, haystack@),
{
    match regex::Regex::new(pattern) {
        Ok(compiled) => Some(compiled.is_match(haystack)),
        Err(_) => None,
    }
}

/// Reads the engine's answer as a decision: a pattern that the engine did
/// not accept matches nothing.
pub fn engine_verdict(outcome: Option<bool>) -> (matched: bool)
    ensures
        matched == (outcome == Some(true)),
{
    match outcome {
        Some(found) => found,
        None => false,
    }
}

} // verus!
