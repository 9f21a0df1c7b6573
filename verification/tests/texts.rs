use fuz_core::text::{chars_of, is_same_letter};

#[test]
fn letters_are_the_same_up_to_ascii_case() {
    assert!(is_same_letter('a', 'a'));
    assert!(is_same_letter('a', 'A'));
    assert!(is_same_letter('A', 'a'));
    assert!(is_same_letter('Z', 'z'));
    assert!(is_same_letter('M', 'M'));
    assert!(is_same_letter('_', '_'));
    assert!(is_same_letter('7', '7'));
    assert!(is_same_letter('世', '世'));
}

#[test]
fn other_characters_are_told_apart() {
    assert!(!is_same_letter('a', 'b'));
    assert!(!is_same_letter('A', 'b'));
    assert!(!is_same_letter('@', '`'));
    assert!(!is_same_letter('[', '{'));
    assert!(!is_same_letter('0', 'P'));
    assert!(!is_same_letter('é', 'É'));
    assert!(!is_same_letter('k', '\u{212A}'));
    assert!(!is_same_letter('世', '界'));
}

#[test]
fn same_letter_agrees_with_the_standard_library() {
    for a in 0u32..300 {
        for b in 0u32..300 {
            let (a, b) = (char::from_u32(a).unwrap(), char::from_u32(b).unwrap());
            assert_eq!(is_same_letter(a, b), a.eq_ignore_ascii_case(&b));
        }
    }
}

#[test]
fn chars_of_lists_the_characters() {
    assert_eq!(chars_of(""), Vec::<char>::new());
    assert_eq!(chars_of("a_B"), vec!['a', '_', 'B']);
    assert_eq!(chars_of("Hello, 世界"), "Hello, 世界".chars().collect::<Vec<char>>());
    assert_eq!(chars_of("é世").len(), 2);
}
