//! Fuzzy scoring of one name against the typed text.

use vstd::prelude::*;

verus! {

/// The score that `sublime_fuzzy::best_match` gives to `target` for `query`,
/// or `None` where it finds no full match. The matcher is deterministic, so
/// this is a function of the two texts alone.
pub uninterp spec fn best_match_score(query: Seq<char>, target: Seq<char>) -> Option<isize>;

/// The score of `target` for `query` as the ranking uses it: zero stands for
/// "no match".
pub open spec fn score_of(query: Seq<char>, target: Seq<char>) -> isize {
    match best_match_score(query, target) {
        Some(s) => s,
        None => 0,
    }
}

/// Calls `sublime_fuzzy::best_match` and keeps the score of the match it
/// returns. Trusted: the result is the matcher's score for these two texts.
#[verifier::external_body]
pub(crate) fn fuzzy_score(query: &str, target: &str) -> (r: Option<isize>)
    ensures
        r == best_match_score(query@, target@),
{
    sublime_fuzzy::best_match(query, target).map(|m| m.score())
}

/// The score of `target` for `query`, zero where nothing matches.
pub fn score(query: &str, target: &str) -> (r: isize)
    ensures
        r == score_of(query@, target@),
{
    match fuzzy_score(query, target) {
        Some(s) => s,
        None => 0,
    }
}

} // verus!
