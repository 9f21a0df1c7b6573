//! The two matchers of the `fuzzy-matcher` crate that do the scoring.
//!
//! Nothing in this file is proved. Each function below makes one call into
//! `fuzzy-matcher`, and its contract is what the rest of the library takes on
//! trust about that call.

use crate::alignment::is_subsequence;
use vstd::prelude::*;

verus! {

/// The longest source, in characters, that is handed to clangd's matcher for
/// an alignment.
///
/// That matcher marks impossible table cells with the score -2^30 and walks
/// back through the table by comparing scores. A real alignment loses at most
/// 10 points for each skipped character and at most 40 for a matched one, and
/// an impossible one gains at most 47 for each pattern character, so up to
/// this length every real alignment scores above every impossible one and the
/// walk stays inside the table.
pub const CLANGD_SOURCE_LIMIT: usize = 10_000_000;

/// What `fuzzy_matcher::skim::fuzzy_match` returns for a choice and a pattern.
pub uninterp spec fn skim_score(choice: Seq<char>, pattern: Seq<char>) -> Option<i64>;

/// What `fuzzy_matcher::skim::fuzzy_indices` returns for a choice and a pattern.
pub uninterp spec fn skim_indices(choice: Seq<char>, pattern: Seq<char>) -> Option<
    (i64, Seq<usize>),
>;

/// What `fuzzy_matcher::clangd::fuzzy_match` returns for a choice and a pattern.
pub uninterp spec fn clangd_score(choice: Seq<char>, pattern: Seq<char>) -> Option<i64>;

/// What `fuzzy_matcher::clangd::fuzzy_indices` returns for a choice and a pattern.
pub uninterp spec fn clangd_indices(choice: Seq<char>, pattern: Seq<char>) -> Option<
    (i64, Seq<usize>),
>;

/// A matcher's score and positions, with the positions as a sequence.
pub open spec fn indices_view(found: Option<(i64, Vec<usize>)>) -> Option<(i64, Seq<usize>)> {
    match found {
        Some((score, at)) => Some((score, at@)),
        None => None,
    }
}

/// Calls `fuzzy_matcher::skim::fuzzy_match`.
///
/// Taken on trust: the result depends on the characters of the two texts
/// alone, and there is a score whenever the pattern is a subsequence of the
/// choice up to ASCII case. The matcher returns 0 for an empty pattern;
/// otherwise its first pass looks, pattern character by pattern character,
/// for the positions behind the first match of the previous one that hold
/// the same letter, and only gives up when it finds none.
#[allow(deprecated)]
#[verifier::external_body]
pub(crate) fn skim_fuzzy_match(choice: &str, pattern: &str) -> (score: Option<i64>)
    ensures
        score == skim_score(choice@, pattern@),
        is_subsequence(pattern@, choice@) ==> score is Some,
{
    fuzzy_matcher::skim::fuzzy_match(choice, pattern)
}

/// Calls `fuzzy_matcher::skim::fuzzy_indices`.
///
/// Taken on trust: the result depends on the characters of the two texts
/// alone. Nothing is assumed about the positions it returns.
#[allow(deprecated)]
#[verifier::external_body]
pub(crate) fn skim_fuzzy_indices(choice: &str, pattern: &str) -> (found: Option<
    (i64, Vec<usize>),
>)
    ensures
        indices_view(found) == skim_indices(choice@, pattern@),
{
    fuzzy_matcher::skim::fuzzy_indices(choice, pattern)
}

/// Calls `fuzzy_matcher::clangd::fuzzy_match`.
///
/// Taken on trust: the result depends on the characters of the two texts
/// alone, and there is a score whenever the pattern is a subsequence of the
/// choice up to ASCII case. The matcher first scans the choice once for the
/// pattern's characters in order, comparing with `eq_ignore_ascii_case`, and
/// returns a score whenever that scan succeeds. The score is computed in
/// integers but for its last step, which subtracts the natural logarithm of
/// the choice's length plus one, rounded down; for the length of any text
/// that fits in memory that logarithm is far enough from a whole number for
/// the rounding to give the same integer everywhere.
#[verifier::external_body]
pub(crate) fn clangd_fuzzy_match(choice: &str, pattern: &str) -> (score: Option<i64>)
    ensures
        score == clangd_score(choice@, pattern@),
        is_subsequence(pattern@, choice@) ==> score is Some,
{
    fuzzy_matcher::clangd::fuzzy_match(choice, pattern)
}

/// Calls `fuzzy_matcher::clangd::fuzzy_indices`.
///
/// Taken on trust: the result depends on the characters of the two texts
/// alone. Nothing is assumed about the positions it returns. The choice may
/// not be longer than `CLANGD_SOURCE_LIMIT`, so that the matcher's walk back
/// through its table cannot leave the table.
#[verifier::external_body]
pub(crate) fn clangd_fuzzy_indices(choice: &str, pattern: &str) -> (found: Option<
    (i64, Vec<usize>),
>)
    requires
        choice@.len() <= CLANGD_SOURCE_LIMIT,
    ensures
        indices_view(found) == clangd_indices(choice@, pattern@),
{
    fuzzy_matcher::clangd::fuzzy_indices(choice, pattern)
}

} // verus!
