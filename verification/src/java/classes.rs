//! What the ASCII classes of the version pattern let through, stated over the
//! characters themselves: `[0-9a-zA-Z-]` in build metadata, `[a-zA-Z-]`
//! followed by `[0-9a-zA-Z-]*` in a pre-release identifier, and nothing
//! else besides dots and decimal digits.

use vstd::prelude::*;

use super::{java_version_of, JavaVersionView};
use crate::scan::{in_class, lemma_run_end, lemma_run_end_at, run_end, CharClass};
use crate::unicode::is_regex_digit;
use super::version::{
    build_part, dotted_idents_end, dotted_words_end, ident_end, lemma_ident_end, number_end,
    patch_end, prerelease_part, update_part, version_layout,
};

verus! {

/// The text `1.2.3` followed by `sep`.
pub open spec fn version_123(sep: char) -> Seq<char> {
    seq!['1', '.', '2', '.', '3', sep]
}

proof fn lemma_version_123_head(s: Seq<char>, sep: char)
    requires
        s.len() > 6,
        s.subrange(0, 6) == version_123(sep),
        sep == '+' || sep == '-',
    ensures
        run_end(s, 1, CharClass::Digit) == 1,
        run_end(s, 3, CharClass::Digit) == 3,
        run_end(s, 5, CharClass::Digit) == 5,
{
    assert(s[1] == s.subrange(0, 6)[1]);
    assert(s[3] == s.subrange(0, 6)[3]);
    assert(s[5] == s.subrange(0, 6)[5]);
    lemma_run_end_at(s, 1, 1, CharClass::Digit);
    lemma_run_end_at(s, 3, 3, CharClass::Digit);
    lemma_run_end_at(s, 5, 5, CharClass::Digit);
}

/// Build metadata made of ASCII letters, digits and hyphens is read whole:
/// after `1.2.3+`, every non-empty text over `[0-9a-zA-Z-]` is the build
/// metadata of the version read.
pub proof fn law_build_metadata_takes_ascii_words(w: Seq<char>)
    requires
        w.len() > 0,
        forall|k: int|
            0 <= k < w.len() ==> {
                let c = #[trigger] w[k];
                ('0' <= c && c <= '9') || ('a' <= c && c <= 'z') || ('A' <= c && c <= 'Z') || c
                    == '-'
            },
    ensures
        java_version_of(version_123('+') + w) == Ok::<JavaVersionView, super::JavaVersionError>(
            JavaVersionView {
                major: 1,
                minor: Some(2),
                patch: Some(seq!['3']),
                update_number: None,
                prerelease: None,
                build_metadata: Some(w),
            },
        ),
{
    let s = version_123('+') + w;
    assert(s.subrange(0, 6) =~= version_123('+'));
    lemma_version_123_head(s, '+');
    assert forall|k: int| 6 <= k < s.len() implies crate::scan::in_class(
        CharClass::Word,
        #[trigger] s[k],
    ) by {
        assert(s[k] == w[k - 6]);
    }
    assert(s[6] == w[0]);
    lemma_run_end_at(s, 6, s.len() as int, CharClass::Word);
    assert(dotted_words_end(s, s.len() as int) == s.len());
    let l = version_layout(s).unwrap();
    assert(l.build_metadata == Some((6int, s.len() as int)));
    assert(s.subrange(0, 1) =~= seq!['1']);
    assert(s.subrange(2, 3) =~= seq!['2']);
    assert(s.subrange(4, 5) =~= seq!['3']);
    assert(s.subrange(6, s.len() as int) =~= w);
    assert(super::decimal_value(seq!['1']) == 1) by {
        reveal_with_fuel(super::decimal_value, 2);
        assert(seq!['1'].drop_last() =~= Seq::<char>::empty());
        assert(seq!['1'].last() == '1');
    }
    assert(super::decimal_value(seq!['2']) == 2) by {
        reveal_with_fuel(super::decimal_value, 2);
        assert(seq!['2'].drop_last() =~= Seq::<char>::empty());
        assert(seq!['2'].last() == '2');
    }
}

/// A pre-release identifier that starts with an ASCII letter or a hyphen is
/// read whole: after `1.2.3-`, such a character followed by any text over
/// `[0-9a-zA-Z-]` is the pre-release of the version read.
pub proof fn law_prerelease_takes_letter_words(c: char, w: Seq<char>)
    requires
        ('a' <= c && c <= 'z') || ('A' <= c && c <= 'Z') || c == '-',
        forall|k: int|
            0 <= k < w.len() ==> {
                let d = #[trigger] w[k];
                ('0' <= d && d <= '9') || ('a' <= d && d <= 'z') || ('A' <= d && d <= 'Z') || d
                    == '-'
            },
    ensures
        java_version_of(version_123('-') + seq![c] + w) == Ok::<
            JavaVersionView,
            super::JavaVersionError,
        >(
            JavaVersionView {
                major: 1,
                minor: Some(2),
                patch: Some(seq!['3']),
                update_number: None,
                prerelease: Some(seq![c] + w),
                build_metadata: None,
            },
        ),
{
    let s = version_123('-') + seq![c] + w;
    assert(s.subrange(0, 6) =~= version_123('-'));
    lemma_version_123_head(s, '-');
    assert(s[6] == c);
    lemma_run_end_at(s, 6, 6, CharClass::Digit);
    assert forall|k: int| 7 <= k < s.len() implies crate::scan::in_class(
        CharClass::Word,
        #[trigger] s[k],
    ) by {
        assert(s[k] == w[k - 7]);
    }
    lemma_run_end_at(s, 7, s.len() as int, CharClass::Word);
    assert(dotted_idents_end(s, s.len() as int) == s.len());
    let l = version_layout(s).unwrap();
    assert(l.prerelease == Some((6int, s.len() as int)));
    assert(l.build_metadata is None);
    assert(s.subrange(0, 1) =~= seq!['1']);
    assert(s.subrange(2, 3) =~= seq!['2']);
    assert(s.subrange(4, 5) =~= seq!['3']);
    assert(s.subrange(6, s.len() as int) =~= seq![c] + w);
    assert(super::decimal_value(seq!['1']) == 1) by {
        reveal_with_fuel(super::decimal_value, 2);
        assert(seq!['1'].drop_last() =~= Seq::<char>::empty());
        assert(seq!['1'].last() == '1');
    }
    assert(super::decimal_value(seq!['2']) == 2) by {
        reveal_with_fuel(super::decimal_value, 2);
        assert(seq!['2'].drop_last() =~= Seq::<char>::empty());
        assert(seq!['2'].last() == '2');
    }
}

/// `[0-9a-zA-Z-]`, spelled out.
pub open spec fn ascii_word_char(c: char) -> bool {
    ('0' <= c && c <= '9') || ('a' <= c && c <= 'z') || ('A' <= c && c <= 'Z') || c == '-'
}

proof fn lemma_word_run_chars(s: Seq<char>, i: int)
    requires
        0 <= i <= s.len(),
    ensures
        forall|k: int| i <= k < run_end(s, i, CharClass::Word) ==> ascii_word_char(#[trigger] s[k]),
{
    lemma_run_end(s, i, CharClass::Word);
    assert forall|k: int| i <= k < run_end(s, i, CharClass::Word) implies ascii_word_char(
        #[trigger] s[k],
    ) by {
        assert(in_class(CharClass::Word, s[k]));
    }
}

proof fn lemma_dotted_words_chars(s: Seq<char>, e: int)
    requires
        0 <= e <= s.len(),
    ensures
        e <= dotted_words_end(s, e) <= s.len(),
        forall|k: int|
            e <= k < dotted_words_end(s, e) ==> ascii_word_char(#[trigger] s[k]) || s[k] == '.',
    decreases s.len() - e,
{
    if e + 1 < s.len() && s[e] == '.' && crate::scan::is_word_char(s[e + 1]) {
        lemma_run_end(s, e + 1, CharClass::Word);
        lemma_word_run_chars(s, e + 1);
        lemma_dotted_words_chars(s, run_end(s, e + 1, CharClass::Word));
    }
}

proof fn lemma_build_part_chars(s: Seq<char>, e: int)
    requires
        0 <= e,
    ensures
        build_part(s, e) matches Some(p) ==> 0 <= p.0 <= p.1 <= s.len() && forall|k: int|
            p.0 <= k < p.1 ==> ascii_word_char(#[trigger] s[k]) || s[k] == '.',
{
    if e < s.len() && s[e] == '+' && e + 1 < s.len() && crate::scan::is_word_char(s[e + 1]) {
        lemma_run_end(s, e + 1, CharClass::Word);
        lemma_word_run_chars(s, e + 1);
        lemma_dotted_words_chars(s, run_end(s, e + 1, CharClass::Word));
    }
}

proof fn lemma_digit_run_chars(s: Seq<char>, i: int)
    requires
        0 <= i <= s.len(),
    ensures
        forall|k: int| i <= k < run_end(s, i, CharClass::Digit) ==> is_regex_digit(#[trigger] s[k]),
{
    lemma_run_end(s, i, CharClass::Digit);
    assert forall|k: int| i <= k < run_end(s, i, CharClass::Digit) implies is_regex_digit(
        #[trigger] s[k],
    ) by {
        assert(in_class(CharClass::Digit, s[k]));
    }
}

proof fn lemma_ident_chars(s: Seq<char>, i: int)
    requires
        0 <= i,
    ensures
        ident_end(s, i) matches Some(f) ==> i < f <= s.len() && forall|k: int|
            i <= k < f ==> ascii_word_char(#[trigger] s[k]) || is_regex_digit(s[k]),
{
    lemma_ident_end(s, i);
    if i < s.len() {
        if s[i] == '0' {
        } else if crate::scan::is_nonzero_digit(s[i]) {
            lemma_digit_run_chars(s, i + 1);
        } else {
            lemma_digit_run_chars(s, i);
            lemma_run_end(s, i, CharClass::Digit);
            let j = run_end(s, i, CharClass::Digit);
            if j < s.len() {
                lemma_word_run_chars(s, j + 1);
            }
        }
    }
}

proof fn lemma_dotted_idents_chars(s: Seq<char>, e: int)
    requires
        0 <= e <= s.len(),
    ensures
        e <= dotted_idents_end(s, e) <= s.len(),
        forall|k: int|
            e <= k < dotted_idents_end(s, e) ==> ascii_word_char(#[trigger] s[k]) || s[k] == '.'
                || is_regex_digit(s[k]),
    decreases s.len() - e,
{
    if e < s.len() && s[e] == '.' {
        lemma_ident_chars(s, e + 1);
        if let Some(f) = ident_end(s, e + 1) {
            lemma_dotted_idents_chars(s, f);
        }
    }
}

proof fn lemma_prerelease_part_chars(s: Seq<char>, d: int)
    requires
        0 <= d,
    ensures
        prerelease_part(s, d).0 matches Some(p) ==> 0 <= p.0 <= p.1 <= s.len() && forall|k: int|
            p.0 <= k < p.1 ==> ascii_word_char(#[trigger] s[k]) || s[k] == '.' || is_regex_digit(
                s[k],
            ),
{
    if d < s.len() && s[d] == '-' {
        lemma_ident_chars(s, d + 1);
        if let Some(f) = ident_end(s, d + 1) {
            lemma_dotted_idents_chars(s, f);
        }
    }
}

/// What a version read holds in its last two parts: build metadata only
/// ASCII letters, digits, hyphens and dots; a pre-release only those and
/// decimal digits (`\d`, which a numeric identifier may hold).
pub proof fn law_read_tail_characters(s: Seq<char>)
    ensures
        java_version_of(s) matches Ok(v) ==> {
            &&& v.build_metadata matches Some(b) ==> forall|k: int|
                0 <= k < b.len() ==> ascii_word_char(#[trigger] b[k]) || b[k] == '.'
            &&& v.prerelease matches Some(p) ==> forall|k: int|
                0 <= k < p.len() ==> ascii_word_char(#[trigger] p[k]) || p[k] == '.'
                    || is_regex_digit(p[k])
        },
{
    if let Ok(v) = java_version_of(s) {
        let l = version_layout(s)->0;
        let a = number_end(s, 0)->0;
        let b = number_end(s, a + 1)->0;
        let c = patch_end(s, b + 1)->0;
        crate::java::round_trip::lemma_layout_facts(s);
        let d = update_part(s, c).1;
        let e = prerelease_part(s, d).1;
        assert(l.prerelease == prerelease_part(s, d).0);
        assert(l.build_metadata == build_part(s, e));
        assert(0 <= d) by {
            assert(0 <= c);
        }
        lemma_prerelease_part_chars(s, d);
        assert(0 <= e);
        lemma_build_part_chars(s, e);
        if let Some(bm) = v.build_metadata {
            let p = l.build_metadata->0;
            assert forall|k: int| 0 <= k < bm.len() implies ascii_word_char(#[trigger] bm[k])
                || bm[k] == '.' by {
                assert(bm[k] == s[p.0 + k]);
            }
        }
        if let Some(pr) = v.prerelease {
            let p = l.prerelease->0;
            assert forall|k: int| 0 <= k < pr.len() implies ascii_word_char(#[trigger] pr[k])
                || pr[k] == '.' || is_regex_digit(pr[k]) by {
                assert(pr[k] == s[p.0 + k]);
            }
        }
    }
}

} // verus!
