//! Text after a version is not read.

use vstd::prelude::*;

use super::round_trip::{layout_facts, lemma_layout_facts};
use super::version::{
    build_end, build_part, dotted_idents_end, dotted_words_end, ident_end, lemma_dotted_idents_end,
    lemma_ident_end, number_end, patch_end, prerelease_end, prerelease_part, update_part,
    version_layout,
};
use super::{java_version_from_layout, java_version_of, opt_span_text, span_text};
use crate::scan::{in_class, is_word_char, lemma_run_end, lemma_run_end_at, run_end, CharClass};
use crate::unicode::is_regex_digit;

verus! {

/// A character that no part of a version takes and that starts no part:
/// not a `\d` digit, not in `[0-9a-zA-Z-]`, and none of `.`, `_` and `+`.
/// A space is one.
pub open spec fn ends_version(x: char) -> bool {
    !is_regex_digit(x) && !is_word_char(x) && x != '.' && x != '_' && x != '+'
}

/// `s`, then `x`, then anything.
pub open spec fn extended(s: Seq<char>, x: char, rest: Seq<char>) -> Seq<char> {
    s + seq![x] + rest
}

proof fn lemma_extended_char(s: Seq<char>, x: char, rest: Seq<char>, k: int)
    requires
        0 <= k <= s.len(),
    ensures
        extended(s, x, rest)[k] == if k < s.len() {
            s[k]
        } else {
            x
        },
        extended(s, x, rest).len() > s.len(),
{
    assert(extended(s, x, rest)[k] == (s + seq![x])[k]);
}

proof fn lemma_run_extended(s: Seq<char>, x: char, rest: Seq<char>, i: int, k: CharClass)
    requires
        ends_version(x),
        0 <= i <= s.len(),
        k == CharClass::Digit || k == CharClass::AsciiDigit || k == CharClass::Word,
    ensures
        run_end(extended(s, x, rest), i, k) == run_end(s, i, k),
{
    let t = extended(s, x, rest);
    let e = run_end(s, i, k);
    lemma_run_end(s, i, k);
    assert forall|j: int| i <= j < e implies in_class(k, #[trigger] t[j]) by {
        lemma_extended_char(s, x, rest, j);
    }
    lemma_extended_char(s, x, rest, e);
    lemma_run_end_at(t, i, e, k);
}

proof fn lemma_ident_extended(s: Seq<char>, x: char, rest: Seq<char>, i: int)
    requires
        ends_version(x),
        0 <= i <= s.len(),
    ensures
        ident_end(extended(s, x, rest), i) == ident_end(s, i),
{
    lemma_extended_char(s, x, rest, i);
    if i < s.len() {
        lemma_run_extended(s, x, rest, i + 1, CharClass::Digit);
    }
    lemma_run_extended(s, x, rest, i, CharClass::Digit);
    let j = run_end(s, i, CharClass::Digit);
    lemma_run_end(s, i, CharClass::Digit);
    lemma_extended_char(s, x, rest, j);
    if j < s.len() {
        lemma_run_extended(s, x, rest, j + 1, CharClass::Word);
    }
}

proof fn lemma_dotted_idents_extended(s: Seq<char>, x: char, rest: Seq<char>, e: int)
    requires
        ends_version(x),
        0 <= e <= s.len(),
    ensures
        dotted_idents_end(extended(s, x, rest), e) == dotted_idents_end(s, e),
    decreases s.len() - e,
{
    lemma_extended_char(s, x, rest, e);
    if e < s.len() && s[e] == '.' {
        lemma_ident_extended(s, x, rest, e + 1);
        lemma_ident_end(s, e + 1);
        if let Some(f) = ident_end(s, e + 1) {
            lemma_dotted_idents_extended(s, x, rest, f);
        }
    }
}

proof fn lemma_dotted_words_extended(s: Seq<char>, x: char, rest: Seq<char>, e: int)
    requires
        ends_version(x),
        0 <= e <= s.len(),
    ensures
        dotted_words_end(extended(s, x, rest), e) == dotted_words_end(s, e),
    decreases s.len() - e,
{
    lemma_extended_char(s, x, rest, e);
    if e < s.len() {
        lemma_extended_char(s, x, rest, e + 1);
    }
    if e + 1 < s.len() && s[e] == '.' && is_word_char(s[e + 1]) {
        lemma_run_extended(s, x, rest, e + 1, CharClass::Word);
        lemma_run_end(s, e + 1, CharClass::Word);
        lemma_dotted_words_extended(s, x, rest, run_end(s, e + 1, CharClass::Word));
    }
}

proof fn lemma_build_extended(s: Seq<char>, x: char, rest: Seq<char>, i: int)
    requires
        ends_version(x),
        0 <= i <= s.len(),
    ensures
        build_end(extended(s, x, rest), i) == build_end(s, i),
{
    lemma_extended_char(s, x, rest, i);
    if i < s.len() && is_word_char(s[i]) {
        lemma_run_extended(s, x, rest, i, CharClass::Word);
        lemma_run_end(s, i, CharClass::Word);
        lemma_dotted_words_extended(s, x, rest, run_end(s, i, CharClass::Word));
    }
}

proof fn lemma_number_extended(s: Seq<char>, x: char, rest: Seq<char>, i: int)
    requires
        ends_version(x),
        0 <= i <= s.len(),
    ensures
        number_end(extended(s, x, rest), i) == number_end(s, i),
        number_end(s, i) matches Some(e) ==> i < e <= s.len(),
{
    lemma_extended_char(s, x, rest, i);
    if i < s.len() {
        lemma_run_extended(s, x, rest, i + 1, CharClass::Digit);
        lemma_run_end(s, i + 1, CharClass::Digit);
    }
}

proof fn lemma_patch_extended(s: Seq<char>, x: char, rest: Seq<char>, i: int)
    requires
        ends_version(x),
        0 <= i <= s.len(),
    ensures
        patch_end(extended(s, x, rest), i) == patch_end(s, i),
{
    lemma_extended_char(s, x, rest, i);
    if i < s.len() {
        lemma_run_extended(s, x, rest, i + 1, CharClass::Digit);
        let j = run_end(s, i + 1, CharClass::Digit);
        lemma_run_end(s, i + 1, CharClass::Digit);
        lemma_extended_char(s, x, rest, j);
        if j < s.len() {
            lemma_extended_char(s, x, rest, j + 1);
        }
        if j + 1 < s.len() {
            lemma_run_extended(s, x, rest, j + 1, CharClass::AsciiDigit);
        }
    }
}

proof fn lemma_update_extended(s: Seq<char>, x: char, rest: Seq<char>, c: int)
    requires
        ends_version(x),
        0 <= c <= s.len(),
    ensures
        update_part(extended(s, x, rest), c) == update_part(s, c),
{
    lemma_extended_char(s, x, rest, c);
    if c < s.len() {
        lemma_extended_char(s, x, rest, c + 1);
    }
    if c + 1 < s.len() {
        lemma_run_extended(s, x, rest, c + 1, CharClass::AsciiDigit);
    }
}

proof fn lemma_prerelease_extended(s: Seq<char>, x: char, rest: Seq<char>, d: int)
    requires
        ends_version(x),
        0 <= d <= s.len(),
    ensures
        prerelease_part(extended(s, x, rest), d) == prerelease_part(s, d),
{
    lemma_extended_char(s, x, rest, d);
    if d < s.len() {
        lemma_ident_extended(s, x, rest, d + 1);
        lemma_ident_end(s, d + 1);
        if let Some(e) = ident_end(s, d + 1) {
            lemma_dotted_idents_extended(s, x, rest, e);
        }
        assert(prerelease_end(extended(s, x, rest), d + 1) == prerelease_end(s, d + 1));
    }
}

proof fn lemma_build_part_extended(s: Seq<char>, x: char, rest: Seq<char>, e: int)
    requires
        ends_version(x),
        0 <= e <= s.len(),
    ensures
        build_part(extended(s, x, rest), e) == build_part(s, e),
{
    lemma_extended_char(s, x, rest, e);
    if e < s.len() {
        lemma_build_extended(s, x, rest, e + 1);
    }
}

proof fn lemma_layout_extended(s: Seq<char>, x: char, rest: Seq<char>)
    requires
        ends_version(x),
    ensures
        version_layout(extended(s, x, rest)) == version_layout(s),
{
    let t = extended(s, x, rest);
    lemma_number_extended(s, x, rest, 0);
    if let Some(a) = number_end(s, 0) {
        lemma_extended_char(s, x, rest, a);
        if a < s.len() && s[a] == '.' {
            lemma_number_extended(s, x, rest, a + 1);
            if let Some(b) = number_end(s, a + 1) {
                lemma_extended_char(s, x, rest, b);
                if b < s.len() && s[b] == '.' {
                    lemma_patch_extended(s, x, rest, b + 1);
                    if let Some(c) = patch_end(s, b + 1) {
                        if s[b + 1] != '0' {
                            lemma_run_end(s, b + 2, CharClass::Digit);
                            let j = run_end(s, b + 2, CharClass::Digit);
                            if j + 1 < s.len() {
                                lemma_run_end(s, j + 1, CharClass::AsciiDigit);
                            }
                        }
                        lemma_update_extended(s, x, rest, c);
                        let (u, d) = update_part(s, c);
                        if c + 1 < s.len() {
                            lemma_run_end(s, c + 1, CharClass::AsciiDigit);
                        }
                        lemma_prerelease_extended(s, x, rest, d);
                        let (p, e) = prerelease_part(s, d);
                        if d + 1 <= s.len() {
                            lemma_ident_end(s, d + 1);
                            if let Some(f) = ident_end(s, d + 1) {
                                lemma_dotted_idents_end(s, f);
                            }
                        }
                        lemma_build_part_extended(s, x, rest, e);
                    }
                }
            }
        }
    }
}

/// Text that follows a version after a space (or any character that ends a
/// version) is not read: the result is that of the version alone.
pub proof fn law_trailing_text_is_ignored(s: Seq<char>, x: char, rest: Seq<char>)
    requires
        ends_version(x),
    ensures
        java_version_of(s + seq![x] + rest) == java_version_of(s),
{
    let t = extended(s, x, rest);
    lemma_layout_extended(s, x, rest);
    if let Some(l) = version_layout(s) {
        lemma_layout_facts(s);
        assert(layout_facts(s, l));
        assert(span_text(t, l.major) =~= span_text(s, l.major));
        assert(span_text(t, l.minor) =~= span_text(s, l.minor));
        assert(span_text(t, l.patch) =~= span_text(s, l.patch));
        if let Some(q) = l.update_number {
            assert(span_text(t, q) =~= span_text(s, q));
        }
        if let Some(q) = l.prerelease {
            assert(span_text(t, q) =~= span_text(s, q));
        }
        if let Some(q) = l.build_metadata {
            assert(span_text(t, q) =~= span_text(s, q));
        }
        assert(opt_span_text(t, l.update_number) == opt_span_text(s, l.update_number));
        assert(opt_span_text(t, l.prerelease) == opt_span_text(s, l.prerelease));
        assert(opt_span_text(t, l.build_metadata) == opt_span_text(s, l.build_metadata));
        assert(java_version_from_layout(t, l) == java_version_from_layout(s, l));
    }
}

} // verus!
