//! Runs of characters of one class, the building block of the grammars in
//! this crate.

use vstd::prelude::*;

use crate::unicode::{is_digit_char, is_regex_digit, is_space_char, is_white_space};

verus! {

/// The character classes that the grammars repeat.
#[derive(Clone, Copy, PartialEq, Eq, Structural)]
pub enum CharClass {
    /// `\d` of `regex`: Unicode decimal digits.
    Digit,
    /// `[0-9]`
    AsciiDigit,
    /// `[0-9a-zA-Z-]`
    Word,
    /// `[a-zA-Z0-9._-]`
    CoordinateChar,
    /// Every character but `:`.
    NotColon,
    /// Unicode `White_Space`.
    WhiteSpace,
}

pub open spec fn is_ascii_digit(c: char) -> bool {
    '0' <= c && c <= '9'
}

pub open spec fn is_nonzero_digit(c: char) -> bool {
    '1' <= c && c <= '9'
}

pub open spec fn is_ascii_letter(c: char) -> bool {
    ('a' <= c && c <= 'z') || ('A' <= c && c <= 'Z')
}

/// `[a-zA-Z-]`
pub open spec fn is_letter_or_hyphen(c: char) -> bool {
    is_ascii_letter(c) || c == '-'
}

/// `[0-9a-zA-Z-]`
pub open spec fn is_word_char(c: char) -> bool {
    is_ascii_digit(c) || is_letter_or_hyphen(c)
}

/// `[a-zA-Z0-9._-]`
pub open spec fn is_coordinate_char(c: char) -> bool {
    is_ascii_letter(c) || is_ascii_digit(c) || c == '.' || c == '_' || c == '-'
}

pub open spec fn in_class(k: CharClass, c: char) -> bool {
    match k {
        CharClass::Digit => is_regex_digit(c),
        CharClass::AsciiDigit => is_ascii_digit(c),
        CharClass::Word => is_word_char(c),
        CharClass::CoordinateChar => is_coordinate_char(c),
        CharClass::NotColon => c != ':',
        CharClass::WhiteSpace => is_white_space(c),
    }
}

/// Where the longest run of characters of class `k` that starts at `i` ends.
pub open spec fn run_end(s: Seq<char>, i: int, k: CharClass) -> int
    decreases s.len() - i,
{
    if 0 <= i < s.len() && in_class(k, s[i]) {
        run_end(s, i + 1, k)
    } else {
        i
    }
}

pub proof fn lemma_run_end(s: Seq<char>, i: int, k: CharClass)
    requires
        0 <= i <= s.len(),
    ensures
        i <= run_end(s, i, k) <= s.len(),
        forall|j: int| i <= j < run_end(s, i, k) ==> in_class(k, #[trigger] s[j]),
        run_end(s, i, k) < s.len() ==> !in_class(k, s[run_end(s, i, k)]),
    decreases s.len() - i,
{
    if i < s.len() && in_class(k, s[i]) {
        lemma_run_end(s, i + 1, k);
    }
}

/// A run is pinned down by its characters and the one that stops it.
pub proof fn lemma_run_end_at(s: Seq<char>, i: int, e: int, k: CharClass)
    requires
        0 <= i <= e <= s.len(),
        forall|j: int| i <= j < e ==> in_class(k, #[trigger] s[j]),
        e < s.len() ==> !in_class(k, s[e]),
    ensures
        run_end(s, i, k) == e,
    decreases e - i,
{
    if i < e {
        lemma_run_end_at(s, i + 1, e, k);
    }
}

pub fn class_has(k: CharClass, c: char) -> (r: bool)
    ensures
        r == in_class(k, c),
{
    match k {
        CharClass::Digit => is_digit_char(c),
        CharClass::AsciiDigit => '0' <= c && c <= '9',
        CharClass::Word => ('0' <= c && c <= '9') || ('a' <= c && c <= 'z') || ('A' <= c && c
            <= 'Z') || c == '-',
        CharClass::CoordinateChar => ('a' <= c && c <= 'z') || ('A' <= c && c <= 'Z') || ('0' <= c
            && c <= '9') || c == '.' || c == '_' || c == '-',
        CharClass::NotColon => c != ':',
        CharClass::WhiteSpace => is_space_char(c),
    }
}

/// Reads the run of class `k` that starts at `i`.
pub fn scan_run(s: &Vec<char>, i: usize, k: CharClass) -> (r: usize)
    requires
        i <= s@.len(),
    ensures
        r == run_end(s@, i as int, k),
{
    let mut j = i;
    while j < s.len() && class_has(k, s[j])
        invariant
            i <= j <= s@.len(),
            run_end(s@, j as int, k) == run_end(s@, i as int, k),
        decreases s@.len() - j,
    {
        j += 1;
    }
    j
}

} // verus!
