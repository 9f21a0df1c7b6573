//! The two queries: the score of a pattern in a source, and the positions of
//! the source that the pattern lands on.
//!
//! Both answer exactly where the pattern is a subsequence of the source up to
//! ASCII case, which the library finds out by itself in one pass over the
//! source. The score is the matcher's. The positions are the matcher's too,
//! as long as they are an alignment of the pattern in the source; where they
//! are not, the leftmost alignment takes their place.

use crate::alignment::{
    check_alignment, is_alignment, is_leftmost_alignment, is_subsequence, leftmost,
    leftmost_alignment, lemma_empty_pattern, lemma_leftmost_exists, lemma_leftmost_unique,
    positions,
};
use crate::matcher::{
    clangd_fuzzy_indices, clangd_fuzzy_match, clangd_indices, clangd_score, skim_fuzzy_indices,
    skim_fuzzy_match, skim_indices, skim_score, CLANGD_SOURCE_LIMIT,
};
use crate::text::chars_of;
use vstd::prelude::*;

verus! {

/// Which matcher scores the alignments.
#[derive(Clone, Copy, Debug, PartialEq, Eq)]
pub enum Policy {
    /// Skim's matcher, tuned for paths and free text.
    GeneralText,
    /// Clangd's matcher, tuned for identifiers.
    IdentifierAware,
}

/// The score that the matcher of `policy` gives `pattern` in `source`.
pub open spec fn matcher_score(policy: Policy, pattern: Seq<char>, source: Seq<char>) -> Option<
    i64,
> {
    match policy {
        Policy::GeneralText => skim_score(source, pattern),
        Policy::IdentifierAware => clangd_score(source, pattern),
    }
}

/// The score of `pattern` in `source`, given what the matcher answered:
/// 0 for the empty pattern, none where the pattern is no subsequence of the
/// source, and the matcher's answer otherwise.
pub open spec fn settled_score(
    pattern: Seq<char>,
    source: Seq<char>,
    answer: Option<i64>,
) -> Option<i64> {
    if pattern.len() == 0 {
        Some(0i64)
    } else if !is_subsequence(pattern, source) {
        None
    } else {
        answer
    }
}

/// The score of `pattern` in `source` under `policy`.
pub open spec fn score_of(policy: Policy, pattern: Seq<char>, source: Seq<char>) -> Option<i64> {
    settled_score(pattern, source, matcher_score(policy, pattern, source))
}

/// The positions in a matcher's answer, if it gave one.
pub open spec fn proposed_positions(answer: Option<(i64, Seq<usize>)>) -> Option<Seq<int>> {
    match answer {
        Some((_, at)) => Some(positions(at)),
        None => None,
    }
}

/// The positions that the matcher of `policy` proposes for `pattern` in
/// `source`. Clangd's matcher is not asked about a source longer than
/// `CLANGD_SOURCE_LIMIT`.
pub open spec fn matcher_proposal(policy: Policy, pattern: Seq<char>, source: Seq<char>) -> Option<
    Seq<int>,
> {
    match policy {
        Policy::GeneralText => proposed_positions(skim_indices(source, pattern)),
        Policy::IdentifierAware => if source.len() <= CLANGD_SOURCE_LIMIT {
            proposed_positions(clangd_indices(source, pattern))
        } else {
            None
        },
    }
}

/// The alignment of `pattern` in `source`, given what the matcher proposed:
/// none where the pattern is no subsequence of the source; the proposal
/// where it is an alignment; the leftmost alignment otherwise.
pub open spec fn settled_alignment(
    pattern: Seq<char>,
    source: Seq<char>,
    proposed: Option<Seq<int>>,
) -> Option<Seq<int>> {
    if !is_subsequence(pattern, source) {
        None
    } else if proposed is Some && is_alignment(pattern, source, proposed->0) {
        proposed
    } else {
        Some(leftmost(pattern, source))
    }
}

/// The alignment of `pattern` in `source` under `policy`.
pub open spec fn alignment_of(policy: Policy, pattern: Seq<char>, source: Seq<char>) -> Option<
    Seq<int>,
> {
    settled_alignment(pattern, source, matcher_proposal(policy, pattern, source))
}

/// An optional list of positions, as mathematical integers.
pub open spec fn optional_positions(at: Option<Vec<usize>>) -> Option<Seq<int>> {
    match at {
        Some(at) => Some(positions(at@)),
        None => None,
    }
}

/// Whether `pattern` is a subsequence of `source` up to ASCII case, found by
/// one pass over `source`.
pub fn is_match(pattern: &str, source: &str) -> (matched: bool)
    ensures
        matched == is_subsequence(pattern@, source@),
{
    let pattern_chars = chars_of(pattern);
    let source_chars = chars_of(source);
    leftmost_alignment(pattern_chars.as_slice(), source_chars.as_slice()).is_some()
}

/// The score of `pattern` in `source` under `policy`, or none where
/// `pattern` is no subsequence of `source`.
///
/// The empty pattern scores 0. The matcher is asked only about a pattern
/// that is not empty and is a subsequence of the source.
pub fn score(policy: Policy, pattern: &str, source: &str) -> (found: Option<i64>)
    ensures
        found == score_of(policy, pattern@, source@),
        found is Some <==> is_subsequence(pattern@, source@),
        pattern@.len() == 0 ==> found == Some(0i64),
        pattern@.len() > 0 && source@.len() == 0 ==> found is None,
{
    let pattern_chars = chars_of(pattern);
    let source_chars = chars_of(source);
    proof {
        lemma_empty_source(pattern@, source@);
    }
    if pattern_chars.len() == 0 {
        proof {
            lemma_empty_pattern(pattern@, source@);
        }
        Some(0)
    } else if leftmost_alignment(pattern_chars.as_slice(), source_chars.as_slice()).is_none() {
        None
    } else {
        match policy {
            Policy::GeneralText => skim_fuzzy_match(source, pattern),
            Policy::IdentifierAware => clangd_fuzzy_match(source, pattern),
        }
    }
}

/// The positions of `source` that `pattern` lands on under `policy`, one for
/// each character of `pattern` and in its order, or none where `pattern` is
/// no subsequence of `source`.
///
/// Positions count characters, from 0. They are the ones the matcher
/// proposes, provided that these are an alignment of `pattern` in `source`,
/// and the leftmost alignment otherwise; under `Policy::IdentifierAware` a
/// source longer than `CLANGD_SOURCE_LIMIT` is always aligned leftmost.
pub fn match_indices(policy: Policy, pattern: &str, source: &str) -> (found: Option<Vec<usize>>)
    ensures
        optional_positions(found) == alignment_of(policy, pattern@, source@),
        found is Some <==> is_subsequence(pattern@, source@),
        found matches Some(at) ==> is_alignment(pattern@, source@, positions(at@)),
        pattern@.len() == 0 ==> (found matches Some(at) && at@.len() == 0),
        pattern@.len() > 0 && source@.len() == 0 ==> found is None,
{
    let pattern_chars = chars_of(pattern);
    let source_chars = chars_of(source);
    proof {
        lemma_empty_source(pattern@, source@);
        if pattern@.len() == 0 {
            lemma_empty_pattern(pattern@, source@);
        }
    }
    match leftmost_alignment(pattern_chars.as_slice(), source_chars.as_slice()) {
        Some(fallback) => {
            if pattern_chars.len() == 0 {
                proof {
                    lemma_leftmost_unique(
                        pattern@,
                        source@,
                        positions(fallback@),
                        leftmost(pattern@, source@),
                    );
                }
                Some(fallback)
            } else {
                let proposed = ask_matcher(policy, pattern, source, source_chars.len());
                Some(
                    pick_alignment(
                        pattern_chars.as_slice(),
                        source_chars.as_slice(),
                        proposed,
                        fallback,
                    ),
                )
            }
        },
        None => None,
    }
}

/// Settles the alignment of `pattern` in `source` for any proposal that a
/// matcher may have made: the proposal where it is an alignment of `pattern`
/// in `source`, the leftmost alignment where it is not, and none where
/// `pattern` is no subsequence of `source`.
pub fn settle_alignment(
    pattern: &[char],
    source: &[char],
    proposed: Option<Vec<usize>>,
) -> (found: Option<Vec<usize>>)
    ensures
        optional_positions(found) == settled_alignment(
            pattern@,
            source@,
            optional_positions(proposed),
        ),
        found is Some <==> is_subsequence(pattern@, source@),
        found matches Some(at) ==> is_alignment(pattern@, source@, positions(at@)),
{
    match leftmost_alignment(pattern, source) {
        Some(fallback) => Some(pick_alignment(pattern, source, proposed, fallback)),
        None => None,
    }
}

/// The proposal if it is an alignment of `pattern` in `source`, else
/// `fallback`.
fn pick_alignment(
    pattern: &[char],
    source: &[char],
    proposed: Option<Vec<usize>>,
    fallback: Vec<usize>,
) -> (at: Vec<usize>)
    requires
        is_leftmost_alignment(pattern@, source@, positions(fallback@)),
    ensures
        Some(positions(at@)) == settled_alignment(
            pattern@,
            source@,
            optional_positions(proposed),
        ),
        is_alignment(pattern@, source@, positions(at@)),
{
    proof {
        lemma_leftmost_unique(
            pattern@,
            source@,
            positions(fallback@),
            leftmost(pattern@, source@),
        );
    }
    match proposed {
        Some(at) => {
            if check_alignment(pattern, source, at.as_slice()) {
                at
            } else {
                fallback
            }
        },
        None => fallback,
    }
}

/// Asks the matcher of `policy` for its positions of `pattern` in `source`.
fn ask_matcher(policy: Policy, pattern: &str, source: &str, source_len: usize) -> (proposed:
    Option<Vec<usize>>)
    requires
        source_len == source@.len(),
    ensures
        optional_positions(proposed) == matcher_proposal(policy, pattern@, source@),
{
    let answer = match policy {
        Policy::GeneralText => skim_fuzzy_indices(source, pattern),
        Policy::IdentifierAware => {
            if source_len <= CLANGD_SOURCE_LIMIT {
                clangd_fuzzy_indices(source, pattern)
            } else {
                None
            }
        },
    };
    match answer {
        Some((_, at)) => Some(at),
        None => None,
    }
}

/// The score of `pat` in `src` by skim's matcher.
pub fn calc_fuzz_score_skim(pat: &str, src: &str) -> (found: Option<i64>)
    ensures
        found == score_of(Policy::GeneralText, pat@, src@),
        found is Some <==> is_subsequence(pat@, src@),
{
    score(Policy::GeneralText, pat, src)
}

/// The score of `pat` in `src` by clangd's matcher.
pub fn calc_fuzz_score_clangd(pat: &str, src: &str) -> (found: Option<i64>)
    ensures
        found == score_of(Policy::IdentifierAware, pat@, src@),
        found is Some <==> is_subsequence(pat@, src@),
{
    score(Policy::IdentifierAware, pat, src)
}

/// The positions of `src` that `pat` lands on by skim's matcher.
pub fn find_indices_skim(pat: &str, src: &str) -> (found: Option<Vec<usize>>)
    ensures
        optional_positions(found) == alignment_of(Policy::GeneralText, pat@, src@),
        found is Some <==> is_subsequence(pat@, src@),
        found matches Some(at) ==> is_alignment(pat@, src@, positions(at@)),
{
    match_indices(Policy::GeneralText, pat, src)
}

/// The positions of `src` that `pat` lands on by clangd's matcher.
pub fn find_indices_clangd(pat: &str, src: &str) -> (found: Option<Vec<usize>>)
    ensures
        optional_positions(found) == alignment_of(Policy::IdentifierAware, pat@, src@),
        found is Some <==> is_subsequence(pat@, src@),
        found matches Some(at) ==> is_alignment(pat@, src@, positions(at@)),
{
    match_indices(Policy::IdentifierAware, pat, src)
}

/// A pattern that is not empty is no subsequence of the empty source.
pub proof fn lemma_empty_source(pattern: Seq<char>, source: Seq<char>)
    ensures
        pattern.len() > 0 && source.len() == 0 ==> !is_subsequence(pattern, source),
{
    if pattern.len() > 0 && source.len() == 0 {
        assert forall|at: Seq<int>| !is_alignment(pattern, source, at) by {
            if is_alignment(pattern, source, at) {
                assert(0 <= at[0] < source.len());
            }
        }
    }
}

/// Whatever the matcher proposes, an alignment is settled exactly where the
/// pattern is a subsequence of the source, and what is settled is an
/// alignment of the pattern in the source: as many positions as the pattern
/// has characters, strictly increasing, inside the source, each holding the
/// same letter as the pattern's character.
pub proof fn lemma_settled_alignment(
    pattern: Seq<char>,
    source: Seq<char>,
    proposed: Option<Seq<int>>,
)
    ensures
        settled_alignment(pattern, source, proposed) is Some <==> is_subsequence(pattern, source),
        settled_alignment(pattern, source, proposed) matches Some(at) ==> is_alignment(
            pattern,
            source,
            at,
        ),
{
    if is_subsequence(pattern, source) {
        lemma_leftmost_exists(pattern, source);
    }
}

/// Under either policy a query finds positions exactly where the pattern is
/// a subsequence of the source up to ASCII case, and the positions found are
/// an alignment of the pattern in the source.
pub proof fn lemma_alignment_iff_subsequence(policy: Policy, pattern: Seq<char>, source: Seq<char>)
    ensures
        alignment_of(policy, pattern, source) is Some <==> is_subsequence(pattern, source),
        alignment_of(policy, pattern, source) matches Some(at) ==> is_alignment(
            pattern,
            source,
            at,
        ),
{
    lemma_settled_alignment(pattern, source, matcher_proposal(policy, pattern, source));
}

/// The empty pattern matches every source, the empty one too, with the
/// score 0 and no positions.
pub proof fn lemma_empty_pattern_matches(policy: Policy, pattern: Seq<char>, source: Seq<char>)
    requires
        pattern.len() == 0,
    ensures
        score_of(policy, pattern, source) == Some(0i64),
        alignment_of(policy, pattern, source) == Some(Seq::<int>::empty()),
{
    lemma_empty_pattern(pattern, source);
    lemma_alignment_iff_subsequence(policy, pattern, source);
}

/// A pattern that is not empty has no match in the empty source.
pub proof fn lemma_empty_source_matches_nothing(
    policy: Policy,
    pattern: Seq<char>,
    source: Seq<char>,
)
    requires
        pattern.len() > 0,
        source.len() == 0,
    ensures
        score_of(policy, pattern, source) is None,
        alignment_of(policy, pattern, source) is None,
{
    lemma_empty_source(pattern, source);
}

/// The outcome of a query depends on the policy and on the characters of the
/// two texts alone: texts with the same characters have the same score and
/// the same positions.
pub proof fn lemma_same_texts_same_outcome(
    policy: Policy,
    pattern: Seq<char>,
    source: Seq<char>,
    same_pattern: Seq<char>,
    same_source: Seq<char>,
)
    requires
        pattern.len() == same_pattern.len(),
        source.len() == same_source.len(),
        forall|i: int| 0 <= i < pattern.len() ==> pattern[i] == same_pattern[i],
        forall|i: int| 0 <= i < source.len() ==> source[i] == same_source[i],
    ensures
        score_of(policy, pattern, source) == score_of(policy, same_pattern, same_source),
        alignment_of(policy, pattern, source) == alignment_of(policy, same_pattern, same_source),
{
    assert(pattern =~= same_pattern);
    assert(source =~= same_source);
}

} // verus!
