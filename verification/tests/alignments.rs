use fuz_core::alignment::{check_alignment, leftmost_alignment};
use fuz_core::query::settle_alignment;

fn chars(text: &str) -> Vec<char> {
    text.chars().collect()
}

#[test]
fn leftmost_alignment_takes_the_first_places() {
    assert_eq!(leftmost_alignment(&chars("ab"), &chars("aabb")), Some(vec![0, 2]));
    assert_eq!(leftmost_alignment(&chars("b"), &chars("ab_b")), Some(vec![1]));
    assert_eq!(leftmost_alignment(&chars("bar"), &chars("babar_bar")), Some(vec![0, 1, 4]));
    assert_eq!(leftmost_alignment(&chars("aa"), &chars("aXa")), Some(vec![0, 2]));
    assert_eq!(leftmost_alignment(&chars("aaa"), &chars("aaa")), Some(vec![0, 1, 2]));
    assert_eq!(leftmost_alignment(&chars("GS"), &chars("getStatus")), Some(vec![0, 3]));
    assert_eq!(leftmost_alignment(&chars("ts"), &chars("getStatus")), Some(vec![2, 3]));
}

#[test]
fn leftmost_alignment_of_the_empty_pattern() {
    assert_eq!(leftmost_alignment(&chars(""), &chars("")), Some(vec![]));
    assert_eq!(leftmost_alignment(&chars(""), &chars("abc")), Some(vec![]));
}

#[test]
fn leftmost_alignment_fails_without_a_subsequence() {
    assert_eq!(leftmost_alignment(&chars("a"), &chars("")), None);
    assert_eq!(leftmost_alignment(&chars("ba"), &chars("ab")), None);
    assert_eq!(leftmost_alignment(&chars("aa"), &chars("a")), None);
    assert_eq!(leftmost_alignment(&chars("abx"), &chars("abc")), None);
    assert_eq!(leftmost_alignment(&chars("abcd"), &chars("abc")), None);
}

#[test]
fn check_alignment_accepts_alignments() {
    assert!(check_alignment(&chars("fb"), &chars("foo_bar"), &[0, 4]));
    assert!(check_alignment(&chars("FB"), &chars("foo_bar"), &[0, 4]));
    assert!(check_alignment(&chars("b"), &chars("ab_b"), &[3]));
    assert!(check_alignment(&chars("b"), &chars("ab_b"), &[1]));
    assert!(check_alignment(&chars(""), &chars("abc"), &[]));
    assert!(check_alignment(&chars(""), &chars(""), &[]));
    assert!(check_alignment(&chars("世"), &chars("Hello, 世界"), &[7]));
}

#[test]
fn check_alignment_rejects_the_rest() {
    assert!(!check_alignment(&chars("fb"), &chars("foo_bar"), &[0]));
    assert!(!check_alignment(&chars("fb"), &chars("foo_bar"), &[0, 4, 5]));
    assert!(!check_alignment(&chars("fb"), &chars("foo_bar"), &[0, 3]));
    assert!(!check_alignment(&chars("fb"), &chars("foo_bar"), &[1, 4]));
    assert!(!check_alignment(&chars("fb"), &chars("foo_bar"), &[4, 0]));
    assert!(!check_alignment(&chars("oo"), &chars("foo_bar"), &[1, 1]));
    assert!(!check_alignment(&chars("oo"), &chars("foo_bar"), &[2, 1]));
    assert!(!check_alignment(&chars("r"), &chars("foo_bar"), &[7]));
    assert!(!check_alignment(&chars("r"), &chars("foo_bar"), &[usize::MAX]));
    assert!(!check_alignment(&chars(""), &chars("abc"), &[0]));
    assert!(!check_alignment(&chars("a"), &chars(""), &[0]));
    assert!(!check_alignment(&chars("世"), &chars("Hello, 世界"), &[9]));
}

#[test]
fn settle_alignment_keeps_a_proposal_that_is_an_alignment() {
    let kept = settle_alignment(&chars("b"), &chars("ab_b"), Some(vec![3]));
    assert_eq!(kept, Some(vec![3]));
    let kept = settle_alignment(&chars("b"), &chars("ab_b"), Some(vec![1]));
    assert_eq!(kept, Some(vec![1]));
    let kept = settle_alignment(&chars("bar"), &chars("babar_bar"), Some(vec![2, 3, 8]));
    assert_eq!(kept, Some(vec![2, 3, 8]));
    let kept = settle_alignment(&chars(""), &chars("abc"), Some(vec![]));
    assert_eq!(kept, Some(vec![]));
}

#[test]
fn settle_alignment_falls_back_to_the_leftmost_alignment() {
    let source = chars("ab_b");
    let pattern = chars("b");
    assert_eq!(settle_alignment(&pattern, &source, None), Some(vec![1]));
    assert_eq!(settle_alignment(&pattern, &source, Some(vec![])), Some(vec![1]));
    assert_eq!(settle_alignment(&pattern, &source, Some(vec![0])), Some(vec![1]));
    assert_eq!(settle_alignment(&pattern, &source, Some(vec![2])), Some(vec![1]));
    assert_eq!(settle_alignment(&pattern, &source, Some(vec![4])), Some(vec![1]));
    assert_eq!(settle_alignment(&pattern, &source, Some(vec![1, 3])), Some(vec![1]));
    let pattern = chars("bb");
    assert_eq!(settle_alignment(&pattern, &source, Some(vec![3, 1])), Some(vec![1, 3]));
    assert_eq!(settle_alignment(&pattern, &source, Some(vec![3, 3])), Some(vec![1, 3]));
    assert_eq!(settle_alignment(&chars(""), &source, Some(vec![0])), Some(vec![]));
    assert_eq!(settle_alignment(&chars(""), &source, None), Some(vec![]));
}

#[test]
fn settle_alignment_finds_nothing_without_a_subsequence() {
    assert_eq!(settle_alignment(&chars("xyz"), &chars("abc"), None), None);
    assert_eq!(settle_alignment(&chars("xyz"), &chars("abc"), Some(vec![0, 1, 2])), None);
    assert_eq!(settle_alignment(&chars("a"), &chars(""), Some(vec![0])), None);
    assert_eq!(settle_alignment(&chars("a"), &chars(""), Some(vec![])), None);
}
