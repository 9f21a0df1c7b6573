//! Characters and how they are compared.

use vstd::prelude::*;

verus! {

/// The character with an ASCII capital letter replaced by its small letter.
pub open spec fn fold_ascii(c: char) -> char {
    if 'A' <= c <= 'Z' {
        ((c as u32) + 32) as char
    } else {
        c
    }
}

/// Two characters are the same letter when they are equal up to ASCII case.
pub open spec fn same_letter(a: char, b: char) -> bool {
    fold_ascii(a) == fold_ascii(b)
}

/// Code point of `c` after ASCII case folding.
fn folded_code(c: char) -> (code: u32)
    ensures
        code == fold_ascii(c) as u32,
{
    let code: u32 = c as u32;
    if 65 <= code && code <= 90 {
        code + 32
    } else {
        code
    }
}

/// Whether `a` and `b` are equal up to ASCII case.
pub fn is_same_letter(a: char, b: char) -> (same: bool)
    ensures
        same == same_letter(a, b),
{
    folded_code(a) == folded_code(b)
}

/// The characters of `s`, in order.
pub fn chars_of(s: &str) -> (chars: Vec<char>)
    ensures
        chars@ == s@,
{
    let mut chars: Vec<char> = Vec::new();
    for c in it: s.chars()
        invariant
            chars@ == it.seq().take(it.index() as int),
    {
        chars.push(c);
    }
    chars
}

} // verus!
