//! Alignments: where the characters of a pattern land in a source.

use crate::text::{is_same_letter, same_letter};
use vstd::prelude::*;

verus! {

/// `at` is an alignment of `pattern` in `source`: one position of `source`
/// for each character of `pattern`, strictly increasing, and the character
/// at each position is the same letter as the pattern's.
pub open spec fn is_alignment(pattern: Seq<char>, source: Seq<char>, at: Seq<int>) -> bool {
    &&& at.len() == pattern.len()
    &&& forall|i: int|
        0 <= i < at.len() ==> 0 <= #[trigger] at[i] < source.len() && same_letter(
            source[at[i]],
            pattern[i],
        )
    &&& forall|i: int, j: int| 0 <= i < j < at.len() ==> #[trigger] at[i] < #[trigger] at[j]
}

/// `pattern` is a subsequence of `source` up to ASCII case: some alignment
/// of it exists.
pub open spec fn is_subsequence(pattern: Seq<char>, source: Seq<char>) -> bool {
    exists|at: Seq<int>| is_alignment(pattern, source, at)
}

/// Every position of `a` is at or before the position of `b` with the same
/// index.
pub open spec fn at_or_before(a: Seq<int>, b: Seq<int>) -> bool {
    forall|i: int| 0 <= i < a.len() && i < b.len() ==> #[trigger] a[i] <= b[i]
}

/// `at` is the leftmost alignment of `pattern` in `source`: an alignment
/// none of whose positions can be moved to the left in any other alignment.
pub open spec fn is_leftmost_alignment(
    pattern: Seq<char>,
    source: Seq<char>,
    at: Seq<int>,
) -> bool {
    &&& is_alignment(pattern, source, at)
    &&& forall|other: Seq<int>| #[trigger]
        is_alignment(pattern, source, other) ==> at_or_before(at, other)
}

/// The leftmost alignment of `pattern` in `source`, where `pattern` is a
/// subsequence of `source`.
pub open spec fn leftmost(pattern: Seq<char>, source: Seq<char>) -> Seq<int> {
    choose|at: Seq<int>| is_leftmost_alignment(pattern, source, at)
}

/// Positions held in machine integers, as mathematical ones.
pub open spec fn positions(at: Seq<usize>) -> Seq<int> {
    Seq::new(at.len(), |i: int| at[i] as int)
}

/// Where the search for the next pattern character starts once `at` is
/// placed: just behind the last position, or at the start of the source.
pub open spec fn search_start(at: Seq<int>) -> int {
    if at.len() == 0 {
        0
    } else {
        at.last() + 1
    }
}

/// The first `k` positions of an alignment align the first `k` characters
/// of the pattern.
pub proof fn lemma_alignment_prefix(pattern: Seq<char>, source: Seq<char>, at: Seq<int>, k: int)
    requires
        is_alignment(pattern, source, at),
        0 <= k <= pattern.len(),
    ensures
        is_alignment(pattern.take(k), source, at.take(k)),
{
}

/// Only the empty alignment aligns the empty pattern, and it is leftmost.
pub proof fn lemma_empty_pattern(pattern: Seq<char>, source: Seq<char>)
    requires
        pattern.len() == 0,
    ensures
        is_leftmost_alignment(pattern, source, Seq::<int>::empty()),
        is_subsequence(pattern, source),
        forall|at: Seq<int>| #[trigger]
            is_alignment(pattern, source, at) ==> at == Seq::<int>::empty(),
{
}

/// A pattern has at most one leftmost alignment in a source.
pub proof fn lemma_leftmost_unique(
    pattern: Seq<char>,
    source: Seq<char>,
    a: Seq<int>,
    b: Seq<int>,
)
    requires
        is_leftmost_alignment(pattern, source, a),
        is_leftmost_alignment(pattern, source, b),
    ensures
        a == b,
{
}

/// Placing the next pattern character on the first position behind a
/// leftmost alignment that holds the same letter gives the leftmost
/// alignment of the longer pattern prefix.
proof fn lemma_extend_leftmost(pattern: Seq<char>, source: Seq<char>, at: Seq<int>, j: int)
    requires
        at.len() < pattern.len(),
        is_leftmost_alignment(pattern.take(at.len() as int), source, at),
        search_start(at) <= j < source.len(),
        same_letter(source[j], pattern[at.len() as int]),
        forall|x: int|
            search_start(at) <= x < j ==> !same_letter(
                #[trigger] source[x],
                pattern[at.len() as int],
            ),
    ensures
        is_leftmost_alignment(pattern.take(at.len() as int + 1), source, at.push(j)),
{
    let k = at.len() as int;
    let longer = pattern.take(k + 1);
    let next = at.push(j);
    assert forall|other: Seq<int>| #[trigger]
        is_alignment(longer, source, other) implies at_or_before(next, other) by {
        // The head of `other` aligns the shorter prefix, so `at` is at or
        // before it; the last position of `other` lies behind that head and
        // holds the letter, so it cannot lie before `j`.
        lemma_alignment_prefix(longer, source, other, k);
        assert(longer.take(k) =~= pattern.take(k));
    }
}

/// When no position behind a leftmost alignment of a pattern prefix holds
/// the next pattern character, the pattern is no subsequence of the source.
proof fn lemma_stuck(pattern: Seq<char>, source: Seq<char>, at: Seq<int>)
    requires
        at.len() < pattern.len(),
        is_leftmost_alignment(pattern.take(at.len() as int), source, at),
        forall|x: int|
            search_start(at) <= x < source.len() ==> !same_letter(
                #[trigger] source[x],
                pattern[at.len() as int],
            ),
    ensures
        !is_subsequence(pattern, source),
{
    let k = at.len() as int;
    assert forall|other: Seq<int>| !is_alignment(pattern, source, other) by {
        if is_alignment(pattern, source, other) {
            // `other[k]` would lie behind `at` and hold the letter.
            lemma_alignment_prefix(pattern, source, other, k);
            assert(same_letter(source[other[k]], pattern[k]));
        }
    }
}

/// The first position from `from` on that holds the letter `c`, where the
/// position `upto` holds it.
proof fn lemma_first_match(source: Seq<char>, c: char, from: int, upto: int) -> (j: int)
    requires
        0 <= from <= upto < source.len(),
        same_letter(source[upto], c),
    ensures
        from <= j <= upto,
        same_letter(source[j], c),
        forall|x: int| from <= x < j ==> !same_letter(#[trigger] source[x], c),
    decreases upto - from,
{
    if same_letter(source[from], c) {
        from
    } else {
        lemma_first_match(source, c, from + 1, upto)
    }
}

/// A pattern that is a subsequence of a source has a leftmost alignment in
/// it.
pub proof fn lemma_leftmost_exists(pattern: Seq<char>, source: Seq<char>)
    requires
        is_subsequence(pattern, source),
    ensures
        is_leftmost_alignment(pattern, source, leftmost(pattern, source)),
    decreases pattern.len(),
{
    if pattern.len() == 0 {
        lemma_empty_pattern(pattern, source);
    } else {
        let k = pattern.len() - 1;
        let shorter = pattern.take(k);
        let any = choose|at: Seq<int>| is_alignment(pattern, source, at);
        lemma_alignment_prefix(pattern, source, any, k);
        lemma_leftmost_exists(shorter, source);
        let head = leftmost(shorter, source);
        let j = lemma_first_match(source, pattern[k], search_start(head), any[k]);
        lemma_extend_leftmost(pattern, source, head, j);
        assert(pattern.take(k + 1) =~= pattern);
    }
}

/// Finds the leftmost alignment of `pattern` in `source` in one pass over
/// `source`, or finds that `pattern` is no subsequence of it.
pub fn leftmost_alignment(pattern: &[char], source: &[char]) -> (found: Option<Vec<usize>>)
    ensures
        found is Some <==> is_subsequence(pattern@, source@),
        found matches Some(at) ==> is_leftmost_alignment(pattern@, source@, positions(at@)),
{
    let mut at: Vec<usize> = Vec::new();
    let mut j: usize = 0;
    proof {
        lemma_empty_pattern(pattern@.take(0), source@);
    }
    while j < source.len() && at.len() < pattern.len()
        invariant
            j <= source.len(),
            at.len() <= pattern.len(),
            is_leftmost_alignment(pattern@.take(at.len() as int), source@, positions(at@)),
            search_start(positions(at@)) <= j,
            at.len() < pattern.len() ==> forall|x: int|
                search_start(positions(at@)) <= x < j ==> !same_letter(
                    #[trigger] source@[x],
                    pattern@[at.len() as int],
                ),
        decreases source.len() - j,
    {
        if is_same_letter(source[j], pattern[at.len()]) {
            proof {
                lemma_extend_leftmost(pattern@, source@, positions(at@), j as int);
                assert(positions(at@.push(j)) =~= positions(at@).push(j as int));
            }
            at.push(j);
        }
        j = j + 1;
    }
    if at.len() == pattern.len() {
        proof {
            assert(pattern@.take(at.len() as int) =~= pattern@);
        }
        Some(at)
    } else {
        proof {
            lemma_stuck(pattern@, source@, positions(at@));
        }
        None
    }
}

/// Whether `at` is an alignment of `pattern` in `source`.
pub fn check_alignment(pattern: &[char], source: &[char], at: &[usize]) -> (ok: bool)
    ensures
        ok == is_alignment(pattern@, source@, positions(at@)),
{
    if at.len() != pattern.len() {
        return false;
    }
    let mut i: usize = 0;
    while i < at.len()
        invariant
            i <= at.len(),
            at.len() == pattern.len(),
            is_alignment(pattern@.take(i as int), source@, positions(at@).take(i as int)),
        decreases at.len() - i,
    {
        let p: usize = at[i];
        proof {
            assert(positions(at@)[i as int] == p);
            if i > 0 {
                assert(positions(at@)[i - 1] == at@[i - 1]);
            }
        }
        if p >= source.len() || !is_same_letter(source[p], pattern[i]) || (i > 0 && at[i - 1]
            >= p) {
            return false;
        }
        proof {
            let before = positions(at@).take(i as int);
            let longer = positions(at@).take(i + 1);
            assert forall|k: int, l: int| 0 <= k < l < longer.len() implies #[trigger] longer[k]
                < #[trigger] longer[l] by {
                if l == i && k < i - 1 {
                    assert(before[k] < before[i - 1]);
                }
            }
        }
        i = i + 1;
    }
    proof {
        assert(positions(at@).take(i as int) =~= positions(at@));
    }
    true
}

} // verus!
