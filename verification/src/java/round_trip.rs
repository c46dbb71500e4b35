//! Writing a version back as text and reading that text again.

use vstd::prelude::*;

use super::version::{
    build_end, build_part, dotted_idents_end, dotted_words_end, ident_end, lemma_build_end,
    lemma_dotted_idents_end, lemma_dotted_words_end, lemma_ident_end, lemma_prerelease_end,
    number_end, patch_end, prerelease_end, prerelease_part, update_part, version_layout, Layout,
};
use super::{
    all_ascii_digits, decimal_text, decimal_value, digit_char, digit_value,
    java_version_from_layout, java_version_of, lemma_decimal_prefix, opt_span_text, opt_text,
    span_text, u8_of_text, version_text, JavaVersionError, JavaVersionView,
};
use crate::scan::{
    in_class, is_ascii_digit, is_nonzero_digit, is_word_char, lemma_run_end,
    lemma_run_end_at, run_end, CharClass,
};
use crate::unicode::is_regex_digit;

verus! {

// ---------------------------------------------------------------------------
// Reading depends only on the characters read.

/// `t` holds the characters `s[i..j]`, shifted by `delta`.
pub open spec fn agree(s: Seq<char>, t: Seq<char>, i: int, j: int, delta: int) -> bool {
    &&& 0 <= i <= j <= s.len()
    &&& 0 <= i + delta
    &&& j + delta <= t.len()
    &&& forall|k: int| i <= k < j ==> #[trigger] s[k] == t[k + delta]
}

/// A character that ends every part of a version: no digit, no letter or
/// hyphen, no dot.
pub open spec fn stop_char(c: char) -> bool {
    !is_regex_digit(c) && !is_word_char(c) && c != '.'
}

proof fn lemma_run_local(s: Seq<char>, t: Seq<char>, i: int, e: int, delta: int, k: CharClass)
    requires
        run_end(s, i, k) == e,
        agree(s, t, i, e, delta),
        e + delta < t.len() ==> !in_class(k, t[e + delta]),
    ensures
        run_end(t, i + delta, k) == e + delta,
{
    lemma_run_end(s, i, k);
    assert forall|j: int| i + delta <= j < e + delta implies in_class(k, #[trigger] t[j]) by {
        assert(s[j - delta] == t[j - delta + delta]);
    }
    lemma_run_end_at(t, i + delta, e + delta, k);
}

proof fn lemma_ident_local(s: Seq<char>, t: Seq<char>, i: int, e: int, delta: int)
    requires
        ident_end(s, i) == Some(e),
        agree(s, t, i, e, delta),
        e + delta < t.len() ==> ((e < s.len() && t[e + delta] == s[e]) || stop_char(
            t[e + delta],
        )),
    ensures
        ident_end(t, i + delta) == Some(e + delta),
{
    lemma_ident_end(s, i);
    assert(t[i + delta] == s[i]);
    if s[i] == '0' {
    } else if is_nonzero_digit(s[i]) {
        lemma_run_end(s, i + 1, CharClass::Digit);
        lemma_run_local(s, t, i + 1, e, delta, CharClass::Digit);
    } else {
        let j = run_end(s, i, CharClass::Digit);
        lemma_run_end(s, i, CharClass::Digit);
        lemma_run_end(s, j + 1, CharClass::Word);
        assert(t[j + delta] == s[j]);
        lemma_run_local(s, t, i, j, delta, CharClass::Digit);
        lemma_run_local(s, t, j + 1, e, delta, CharClass::Word);
    }
}

proof fn lemma_dotted_idents_local(s: Seq<char>, t: Seq<char>, e: int, x: int, delta: int)
    requires
        dotted_idents_end(s, e) == x,
        agree(s, t, e, x, delta),
        x + delta < t.len() ==> stop_char(t[x + delta]),
    ensures
        dotted_idents_end(t, e + delta) == x + delta,
    decreases s.len() - e,
{
    lemma_dotted_idents_end(s, e);
    if e < s.len() && s[e] == '.' && ident_end(s, e + 1) is Some {
        let f = ident_end(s, e + 1)->0;
        lemma_ident_end(s, e + 1);
        lemma_dotted_idents_end(s, f);
        assert(t[e + delta] == s[e]);
        lemma_ident_local(s, t, e + 1, f, delta);
        lemma_dotted_idents_local(s, t, f, x, delta);
    } else {
        assert(x == e);
    }
}

proof fn lemma_prerelease_local(s: Seq<char>, t: Seq<char>, i: int, x: int, delta: int)
    requires
        prerelease_end(s, i) == Some(x),
        agree(s, t, i, x, delta),
        x + delta < t.len() ==> stop_char(t[x + delta]),
    ensures
        prerelease_end(t, i + delta) == Some(x + delta),
{
    let e = ident_end(s, i)->0;
    lemma_ident_end(s, i);
    lemma_dotted_idents_end(s, e);
    lemma_ident_local(s, t, i, e, delta);
    lemma_dotted_idents_local(s, t, e, x, delta);
}

proof fn lemma_dotted_words_local(s: Seq<char>, t: Seq<char>, e: int, x: int, delta: int)
    requires
        dotted_words_end(s, e) == x,
        agree(s, t, e, x, delta),
        x + delta < t.len() ==> stop_char(t[x + delta]),
    ensures
        dotted_words_end(t, e + delta) == x + delta,
    decreases s.len() - e,
{
    lemma_dotted_words_end(s, e);
    if 0 <= e && e + 1 < s.len() && s[e] == '.' && is_word_char(s[e + 1]) {
        let g = run_end(s, e + 1, CharClass::Word);
        lemma_run_end(s, e + 1, CharClass::Word);
        lemma_dotted_words_end(s, g);
        assert(t[e + delta] == s[e]);
        assert(t[e + 1 + delta] == s[e + 1]);
        if g < x {
            assert(t[g + delta] == s[g]);
        }
        lemma_run_local(s, t, e + 1, g, delta, CharClass::Word);
        lemma_dotted_words_local(s, t, g, x, delta);
    } else {
        assert(x == e);
    }
}

proof fn lemma_build_local(s: Seq<char>, t: Seq<char>, i: int, y: int, delta: int)
    requires
        build_end(s, i) == Some(y),
        agree(s, t, i, y, delta),
        y + delta < t.len() ==> stop_char(t[y + delta]),
    ensures
        build_end(t, i + delta) == Some(y + delta),
{
    let e0 = run_end(s, i, CharClass::Word);
    lemma_run_end(s, i, CharClass::Word);
    lemma_dotted_words_end(s, e0);
    assert(t[i + delta] == s[i]);
    if e0 < y {
        assert(t[e0 + delta] == s[e0]);
    }
    lemma_run_local(s, t, i, e0, delta, CharClass::Word);
    lemma_dotted_words_local(s, t, e0, y, delta);
}

proof fn lemma_number_local(s: Seq<char>, t: Seq<char>, i: int, e: int)
    requires
        number_end(s, i) == Some(e),
        agree(s, t, i, e, 0),
        e < t.len(),
        t[e] == '.',
    ensures
        number_end(t, i) == Some(e),
{
    if s[i] != '0' {
        lemma_run_end(s, i + 1, CharClass::Digit);
    }
    assert(s[i] == t[i + 0]);
    if s[i] != '0' {
        lemma_run_local(s, t, i + 1, e, 0, CharClass::Digit);
    }
}

proof fn lemma_patch_local(s: Seq<char>, t: Seq<char>, i: int, c: int)
    requires
        patch_end(s, i) == Some(c),
        agree(s, t, i, c, 0),
        c < t.len() ==> !is_regex_digit(t[c]) && t[c] != '.',
    ensures
        patch_end(t, i) == Some(c),
{
    if s[i] == '0' {
        assert(s[i] == t[i + 0]);
    } else {
        let j = run_end(s, i + 1, CharClass::Digit);
        lemma_run_end(s, i + 1, CharClass::Digit);
        if j + 1 < s.len() && s[j] == '.' && is_ascii_digit(s[j + 1]) {
            lemma_run_end(s, j + 1, CharClass::AsciiDigit);
            assert(s[i] == t[i + 0]);
            assert(s[j] == t[j + 0]);
            assert(s[j + 1] == t[j + 1 + 0]);
            lemma_run_local(s, t, i + 1, j, 0, CharClass::Digit);
            lemma_run_local(s, t, j + 1, c, 0, CharClass::AsciiDigit);
        } else {
            assert(s[i] == t[i + 0]);
            lemma_run_local(s, t, i + 1, j, 0, CharClass::Digit);
        }
    }
}


// ---------------------------------------------------------------------------
// Numbers are written as they were read.

proof fn lemma_digit_char_value(c: char)
    requires
        is_ascii_digit(c),
    ensures
        digit_char(digit_value(c)) == c,
        0 <= digit_value(c) < 10,
{
}

proof fn lemma_decimal_canonical(m: Seq<char>)
    requires
        m.len() > 0,
        all_ascii_digits(m),
        m.len() > 1 ==> m[0] != '0',
    ensures
        decimal_value(m) >= 0,
        decimal_text(decimal_value(m) as nat) == m,
    decreases m.len(),
{
    assert(is_ascii_digit(m[m.len() - 1]));
    lemma_digit_char_value(m.last());
    if m.len() == 1 {
        assert(m.drop_last().len() == 0);
        assert(decimal_value(m.drop_last()) == 0);
        assert(decimal_text(decimal_value(m) as nat) =~= m);
    } else {
        let p = m.drop_last();
        assert(all_ascii_digits(p)) by {
            assert forall|i: int| 0 <= i < p.len() implies is_ascii_digit(#[trigger] p[i]) by {
                assert(p[i] == m[i]);
            }
        }
        lemma_decimal_canonical(p);
        lemma_decimal_prefix(p, 1);
        let p1 = p.take(1);
        assert(p1.drop_last() =~= Seq::<char>::empty());
        assert(decimal_value(p1.drop_last()) == 0);
        assert(p1.last() == m[0]);
        assert(is_ascii_digit(m[0]));
        assert(decimal_value(p1) == digit_value(m[0]));
        let x = decimal_value(p);
        let d = digit_value(m.last());
        assert(x >= 1);
        assert(decimal_value(m) == x * 10 + d);
        let n = (x * 10 + d) as nat;
        assert(n / 10 == x && n % 10 == d) by (nonlinear_arith)
            requires
                n == x * 10 + d,
                0 <= d < 10,
                x >= 1,
        ;
        assert(decimal_text(n) == decimal_text((n / 10) as nat).push(digit_char((n % 10) as int)));
        assert(m =~= p.push(m.last()));
    }
}


// ---------------------------------------------------------------------------
// The text a read version is written as, in terms of the string it was read
// from.

/// The update part as written: `_` and the digits, if there were any.
pub open spec fn part_u(s: Seq<char>, l: Layout) -> Seq<char> {
    opt_text('_', opt_span_text(s, l.update_number))
}

pub open spec fn part_r(s: Seq<char>, l: Layout) -> Seq<char> {
    opt_text('-', opt_span_text(s, l.prerelease))
}

pub open spec fn part_b(s: Seq<char>, l: Layout) -> Seq<char> {
    opt_text('+', opt_span_text(s, l.build_metadata))
}

/// The written text: `s` up to the end of the patch, then the optional parts.
pub open spec fn rewritten(s: Seq<char>, l: Layout) -> Seq<char> {
    s.subrange(0, l.patch.1) + part_u(s, l) + part_r(s, l) + part_b(s, l)
}

/// Where the reading of `s` goes on after the update part.
pub open spec fn update_stop(s: Seq<char>, l: Layout) -> int {
    update_part(s, l.patch.1).1
}

/// Where the reading of `s` goes on after the pre-release part.
pub open spec fn prerelease_stop(s: Seq<char>, l: Layout) -> int {
    prerelease_part(s, update_stop(s, l)).1
}

/// How far the pre-release and the build metadata move in the written text:
/// back by one where a bare `_` was dropped.
pub open spec fn shift(s: Seq<char>, l: Layout) -> int {
    l.patch.1 + part_u(s, l).len() - update_stop(s, l)
}

pub open spec fn shifted(p: Option<(int, int)>, delta: int) -> Option<(int, int)> {
    match p {
        Some(q) => Some((q.0 + delta, q.1 + delta)),
        None => None,
    }
}

pub open spec fn rewritten_layout(s: Seq<char>, l: Layout) -> Layout {
    Layout {
        major: l.major,
        minor: l.minor,
        patch: l.patch,
        update_number: l.update_number,
        prerelease: shifted(l.prerelease, shift(s, l)),
        build_metadata: shifted(l.build_metadata, shift(s, l)),
    }
}

/// What reading `s` found, spelled out.
pub open spec fn layout_facts(s: Seq<char>, l: Layout) -> bool {
    let a = l.major.1;
    let b = l.minor.1;
    let c = l.patch.1;
    let d = update_stop(s, l);
    let e = prerelease_stop(s, l);
    &&& l.major.0 == 0 && 0 < a && l.minor.0 == a + 1 && a + 1 < b
    &&& l.patch.0 == b + 1 && b + 1 < c <= s.len()
    &&& s[a] == '.' && s[b] == '.'
    &&& number_end(s, 0) == Some(a) && number_end(s, a + 1) == Some(b)
    &&& patch_end(s, b + 1) == Some(c)
    &&& (l.update_number matches Some(us) ==> {
        &&& us == (c + 1, d)
        &&& s[c] == '_' && c + 1 < d <= s.len()
        &&& is_ascii_digit(s[c + 1])
        &&& run_end(s, c + 1, CharClass::AsciiDigit) == d
    })
    &&& (l.update_number is None ==> d == c || (d == c + 1 && s[c] == '_'))
    &&& (l.prerelease matches Some(ps) ==> {
        &&& ps == (d + 1, e)
        &&& s[d] == '-' && d + 1 < e <= s.len()
        &&& prerelease_end(s, d + 1) == Some(e)
    })
    &&& (l.prerelease is None ==> e == d)
    &&& (l.build_metadata matches Some(bs) ==> {
        &&& bs.0 == e + 1
        &&& s[e] == '+' && e + 1 < bs.1 <= s.len()
        &&& build_end(s, e + 1) == Some(bs.1)
    })
}

pub proof fn lemma_layout_facts(s: Seq<char>)
    requires
        version_layout(s) is Some,
    ensures
        layout_facts(s, version_layout(s)->0),
{
    let l = version_layout(s)->0;
    let a = number_end(s, 0)->0;
    if s[0] != '0' {
        lemma_run_end(s, 1, CharClass::Digit);
    }
    let b = number_end(s, a + 1)->0;
    if s[a + 1] != '0' {
        lemma_run_end(s, a + 2, CharClass::Digit);
    }
    let c = patch_end(s, b + 1)->0;
    if s[b + 1] != '0' {
        lemma_run_end(s, b + 2, CharClass::Digit);
        let j = run_end(s, b + 2, CharClass::Digit);
        if j + 1 < s.len() {
            lemma_run_end(s, j + 1, CharClass::AsciiDigit);
        }
    }
    if c + 1 < s.len() {
        lemma_run_end(s, c + 1, CharClass::AsciiDigit);
    }
    let d = update_stop(s, l);
    lemma_prerelease_end(s, d + 1);
    let e = prerelease_stop(s, l);
    lemma_build_end(s, e + 1);
}

proof fn lemma_index4(w: Seq<char>, x: Seq<char>, y: Seq<char>, z: Seq<char>, k: int)
    requires
        0 <= k < w.len() + x.len() + y.len() + z.len(),
    ensures
        (w + x + y + z)[k] == if k < w.len() {
            w[k]
        } else if k < w.len() + x.len() {
            x[k - w.len()]
        } else if k < w.len() + x.len() + y.len() {
            y[k - w.len() - x.len()]
        } else {
            z[k - w.len() - x.len() - y.len()]
        },
{
    if k < w.len() + x.len() + y.len() {
        assert((w + x + y + z)[k] == (w + x + y)[k]);
        if k < w.len() + x.len() {
            assert((w + x + y)[k] == (w + x)[k]);
        }
    }
}

/// The characters of the written text.
proof fn lemma_rewritten_chars(s: Seq<char>, l: Layout)
    requires
        layout_facts(s, l),
    ensures
        ({
            let t = rewritten(s, l);
            let c = l.patch.1;
            let d = update_stop(s, l);
            let e = prerelease_stop(s, l);
            let delta = shift(s, l);
            let d_t = d + delta;
            let e_t = e + delta;
            &&& d_t == c + part_u(s, l).len()
            &&& e_t == d_t + part_r(s, l).len()
            &&& t.len() == e_t + part_b(s, l).len()
            &&& agree(s, t, 0, c, 0)
            &&& (l.update_number is Some ==> agree(s, t, c, d, 0) && delta == 0)
            &&& (l.prerelease is Some ==> agree(s, t, d, e, delta))
            &&& (l.build_metadata matches Some(bs) ==> agree(s, t, e, bs.1, delta) && t.len()
                == bs.1 + delta)
            &&& (l.build_metadata is None ==> t.len() == e_t)
            &&& (c < t.len() ==> t[c] == '_' || t[c] == '-' || t[c] == '+')
            &&& (d_t < t.len() ==> t[d_t] == '-' || t[d_t] == '+')
            &&& (e_t < t.len() ==> t[e_t] == '+')
        }),
{
    let t = rewritten(s, l);
    let c = l.patch.1;
    let d = update_stop(s, l);
    let e = prerelease_stop(s, l);
    let delta = shift(s, l);
    let p0 = s.subrange(0, c);
    let u = part_u(s, l);
    let r = part_r(s, l);
    let b = part_b(s, l);
    assert forall|k: int| 0 <= k < c implies #[trigger] s[k] == t[k + 0] by {
        lemma_index4(p0, u, r, b, k);
    }
    if let Some(us) = l.update_number {
        assert forall|k: int| c <= k < d implies #[trigger] s[k] == t[k + 0] by {
            lemma_index4(p0, u, r, b, k);
            if k > c {
                assert(u[k - c] == s.subrange(c + 1, d)[k - c - 1]);
            }
        }
    }
    if let Some(ps) = l.prerelease {
        assert forall|k: int| d <= k < e implies #[trigger] s[k] == t[k + delta] by {
            lemma_index4(p0, u, r, b, k + delta);
            if k > d {
                assert(r[k - d] == s.subrange(d + 1, e)[k - d - 1]);
            }
        }
    }
    if let Some(bs) = l.build_metadata {
        assert forall|k: int| e <= k < bs.1 implies #[trigger] s[k] == t[k + delta] by {
            lemma_index4(p0, u, r, b, k + delta);
            if k > e {
                assert(b[k - e] == s.subrange(e + 1, bs.1)[k - e - 1]);
            }
        }
    }
    if c < t.len() {
        lemma_index4(p0, u, r, b, c);
    }
    if d + delta < t.len() {
        lemma_index4(p0, u, r, b, d + delta);
    }
    if e + delta < t.len() {
        lemma_index4(p0, u, r, b, e + delta);
    }
}

/// Reading the written text finds the numbers and the patch where `s` has them.
#[verifier::spinoff_prover]
proof fn lemma_rewritten_head(s: Seq<char>, l: Layout)
    requires
        layout_facts(s, l),
    ensures
        number_end(rewritten(s, l), 0) == Some(l.major.1),
        number_end(rewritten(s, l), l.major.1 + 1) == Some(l.minor.1),
        patch_end(rewritten(s, l), l.minor.1 + 1) == Some(l.patch.1),
        rewritten(s, l)[l.major.1] == '.',
        rewritten(s, l)[l.minor.1] == '.',
        l.major.1 < rewritten(s, l).len(),
        l.minor.1 < rewritten(s, l).len(),
{
    lemma_rewritten_chars(s, l);
    let t = rewritten(s, l);
    let a = l.major.1;
    let b = l.minor.1;
    let c = l.patch.1;
    assert(s[a] == t[a + 0]);
    assert(s[b] == t[b + 0]);
    lemma_number_local(s, t, 0, a);
    lemma_number_local(s, t, a + 1, b);
    lemma_patch_local(s, t, b + 1, c);
}

/// Reading the written text finds the update number where `s` has it.
#[verifier::spinoff_prover]
proof fn lemma_rewritten_update(s: Seq<char>, l: Layout)
    requires
        layout_facts(s, l),
    ensures
        update_part(rewritten(s, l), l.patch.1) == (
            l.update_number,
            update_stop(s, l) + shift(s, l),
        ),
{
    lemma_rewritten_chars(s, l);
    let t = rewritten(s, l);
    let c = l.patch.1;
    let d = update_stop(s, l);
    if let Some(us) = l.update_number {
        assert(s[c] == t[c + 0]);
        assert(s[c + 1] == t[c + 1 + 0]);
        lemma_run_local(s, t, c + 1, d, 0, CharClass::AsciiDigit);
    }
}

/// Reading the written text finds the pre-release where `s` has it, moved by
/// the shift.
#[verifier::spinoff_prover]
proof fn lemma_rewritten_prerelease(s: Seq<char>, l: Layout)
    requires
        layout_facts(s, l),
    ensures
        prerelease_part(rewritten(s, l), update_stop(s, l) + shift(s, l)) == (
            shifted(l.prerelease, shift(s, l)),
            prerelease_stop(s, l) + shift(s, l),
        ),
{
    lemma_rewritten_chars(s, l);
    let t = rewritten(s, l);
    let d = update_stop(s, l);
    let e = prerelease_stop(s, l);
    let delta = shift(s, l);
    if let Some(ps) = l.prerelease {
        assert(s[d] == t[d + delta]);
        lemma_prerelease_local(s, t, d + 1, e, delta);
    }
}

/// Reading the written text finds the build metadata where `s` has it, moved
/// by the shift.
#[verifier::spinoff_prover]
proof fn lemma_rewritten_build(s: Seq<char>, l: Layout)
    requires
        layout_facts(s, l),
    ensures
        build_part(rewritten(s, l), prerelease_stop(s, l) + shift(s, l)) == shifted(
            l.build_metadata,
            shift(s, l),
        ),
{
    lemma_rewritten_chars(s, l);
    let t = rewritten(s, l);
    let e = prerelease_stop(s, l);
    let delta = shift(s, l);
    if let Some(bs) = l.build_metadata {
        assert(s[e] == t[e + delta]);
        lemma_build_local(s, t, e + 1, bs.1, delta);
    }
}

/// Reading the written text finds the same parts, the last two moved by the
/// shift.
proof fn lemma_rewritten_layout(s: Seq<char>)
    requires
        version_layout(s) is Some,
    ensures
        version_layout(rewritten(s, version_layout(s)->0)) == Some(
            rewritten_layout(s, version_layout(s)->0),
        ),
{
    let l = version_layout(s)->0;
    lemma_layout_facts(s);
    lemma_rewritten_head(s, l);
    lemma_rewritten_update(s, l);
    lemma_rewritten_prerelease(s, l);
    lemma_rewritten_build(s, l);
}

proof fn lemma_shifted_text(s: Seq<char>, t: Seq<char>, p: Option<(int, int)>, delta: int)
    requires
        p matches Some(q) ==> agree(s, t, q.0, q.1, delta),
    ensures
        opt_span_text(t, shifted(p, delta)) == opt_span_text(s, p),
{
    if let Some(q) = p {
        assert forall|k: int| 0 <= k < q.1 - q.0 implies #[trigger] span_text(
            t,
            (q.0 + delta, q.1 + delta),
        )[k] == span_text(s, q)[k] by {
            assert(s[q.0 + k] == t[q.0 + k + delta]);
        }
        assert(span_text(t, (q.0 + delta, q.1 + delta)) =~= span_text(s, q));
    }
}

/// The parts found in the written text are the parts found in `s`.
proof fn lemma_rewritten_texts(s: Seq<char>)
    requires
        version_layout(s) is Some,
    ensures
        java_version_from_layout(
            rewritten(s, version_layout(s)->0),
            rewritten_layout(s, version_layout(s)->0),
        ) == java_version_from_layout(s, version_layout(s)->0),
{
    let l = version_layout(s)->0;
    lemma_layout_facts(s);
    lemma_rewritten_chars(s, l);
    let t = rewritten(s, l);
    let lt = rewritten_layout(s, l);
    let delta = shift(s, l);
    let c = l.patch.1;
    let d = update_stop(s, l);
    let e = prerelease_stop(s, l);
    assert(agree(s, t, 0, l.major.1, 0));
    assert(agree(s, t, l.minor.0, l.minor.1, 0));
    assert(agree(s, t, l.patch.0, l.patch.1, 0));
    lemma_shifted_text(s, t, Some(l.major), 0);
    lemma_shifted_text(s, t, Some(l.minor), 0);
    lemma_shifted_text(s, t, Some(l.patch), 0);
    if let Some(us) = l.update_number {
        assert(agree(s, t, us.0, us.1, 0));
    }
    lemma_shifted_text(s, t, l.update_number, 0);
    assert(shifted(l.update_number, 0) == l.update_number);
    if let Some(ps) = l.prerelease {
        assert(agree(s, t, ps.0, ps.1, delta));
    }
    lemma_shifted_text(s, t, l.prerelease, delta);
    if let Some(bs) = l.build_metadata {
        assert(agree(s, t, bs.0, bs.1, delta));
    }
    lemma_shifted_text(s, t, l.build_metadata, delta);
    assert(span_text(t, lt.major) == span_text(s, l.major));
    assert(span_text(t, lt.minor) == span_text(s, l.minor));
    assert(span_text(t, lt.patch) == span_text(s, l.patch));
}

proof fn lemma_number_text(s: Seq<char>, i: int, e: int)
    requires
        0 <= i,
        number_end(s, i) == Some(e),
        u8_of_text(s.subrange(i, e)) is Some,
    ensures
        i < e <= s.len(),
        decimal_text(u8_of_text(s.subrange(i, e))->0 as nat) == s.subrange(i, e),
{
    let m = s.subrange(i, e);
    if s[i] != '0' {
        lemma_run_end(s, i + 1, CharClass::Digit);
    }
    assert(m[0] == s[i]);
    lemma_decimal_canonical(m);
}

/// A version read from `s` is written as `rewritten`.
proof fn lemma_version_text_is_rewritten(s: Seq<char>, v: JavaVersionView)
    requires
        java_version_of(s) == Ok::<JavaVersionView, JavaVersionError>(v),
    ensures
        version_text(v) == rewritten(s, version_layout(s)->0),
{
    let l = version_layout(s)->0;
    lemma_layout_facts(s);
    let a = l.major.1;
    let b = l.minor.1;
    let c = l.patch.1;
    lemma_number_text(s, 0, a);
    lemma_number_text(s, a + 1, b);
    let head = decimal_text(v.major as nat) + seq!['.'] + decimal_text(
        match v.minor {
            Some(m) => m as nat,
            None => 0,
        },
    ) + seq!['.'] + match v.patch {
        Some(p) => p,
        None => Seq::empty(),
    };
    assert(head =~= s.subrange(0, c));
    assert(version_text(v) =~= head + part_u(s, l) + part_r(s, l) + part_b(s, l));
}

/// Every version read from a string has a minor version and a patch, and the
/// patch starts with an ASCII digit.
pub proof fn law_read_version_has_minor_and_patch(s: Seq<char>)
    ensures
        java_version_of(s) matches Ok(v) ==> v.minor is Some && (v.patch matches Some(p) && p.len()
            > 0 && is_ascii_digit(p[0])),
{
    if let Ok(v) = java_version_of(s) {
        lemma_layout_facts(s);
        let l = version_layout(s)->0;
        assert(span_text(s, l.patch)[0] == s[l.patch.0]);
    }
}

/// A version read from a string, written back as text and read again, is the
/// same version.
pub proof fn law_version_text_read_back(s: Seq<char>)
    ensures
        java_version_of(s) matches Ok(v) ==> java_version_of(version_text(v)) == Ok::<
            JavaVersionView,
            JavaVersionError,
        >(v),
{
    if let Ok(v) = java_version_of(s) {
        lemma_version_text_is_rewritten(s, v);
        lemma_rewritten_layout(s);
        lemma_rewritten_texts(s);
    }
}

} // verus!
