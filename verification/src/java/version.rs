//! The grammar of Java version strings.
//!
//! A version string is read with the pattern
//!
//! ```text
//! ^(?P<major>0|[1-9]\d*)\.(?P<minor>0|[1-9]\d*)\.(?P<patch>0|[1-9]\d*(?:\.[0-9]+)?)
//! (?:_(?P<update_number>[0-9]+)?)?
//! (?:-(?P<prerelease>(?:0|[1-9]\d*|\d*[a-zA-Z-][0-9a-zA-Z-]*)(?:\.(?:0|[1-9]\d*|\d*[a-zA-Z-][0-9a-zA-Z-]*))*))?
//! (?:\+(?P<build_metadata>[0-9a-zA-Z-]+(?:\.[0-9a-zA-Z-]+)*))?
//! ```
//!
//! under leftmost-first semantics: the pattern is anchored at the start only,
//! so the match is the first way through the pattern in priority order
//! (earlier alternatives first, greedy repetitions as long as possible).
//! Every part after the patch is optional, so once the patch is read the rest
//! never forces a step back; the spec functions below follow that first path
//! part by part and give the end position of each part, or `None` where the
//! part cannot be read at all.
//!
//! `\d` is Unicode-aware (`is_regex_digit`); `[0-9]`, `[a-zA-Z-]` and
//! `[0-9a-zA-Z-]` are ASCII classes.

use vstd::prelude::*;

use crate::scan::{
    is_ascii_digit, is_letter_or_hyphen, is_nonzero_digit, is_word_char, lemma_run_end,
    run_end, scan_run, CharClass,
};

verus! {

/// `0|[1-9]\d*` at `i`.
pub open spec fn number_end(s: Seq<char>, i: int) -> Option<int> {
    if 0 <= i < s.len() && s[i] == '0' {
        Some(i + 1)
    } else if 0 <= i < s.len() && is_nonzero_digit(s[i]) {
        Some(run_end(s, i + 1, CharClass::Digit))
    } else {
        None
    }
}

/// `0|[1-9]\d*(?:\.[0-9]+)?` at `i`.
pub open spec fn patch_end(s: Seq<char>, i: int) -> Option<int> {
    if 0 <= i < s.len() && s[i] == '0' {
        Some(i + 1)
    } else if 0 <= i < s.len() && is_nonzero_digit(s[i]) {
        let j = run_end(s, i + 1, CharClass::Digit);
        if j + 1 < s.len() && s[j] == '.' && is_ascii_digit(s[j + 1]) {
            Some(run_end(s, j + 1, CharClass::AsciiDigit))
        } else {
            Some(j)
        }
    } else {
        None
    }
}

/// One pre-release identifier, `0|[1-9]\d*|\d*[a-zA-Z-][0-9a-zA-Z-]*`, at `i`.
pub open spec fn ident_end(s: Seq<char>, i: int) -> Option<int> {
    if 0 <= i < s.len() && s[i] == '0' {
        Some(i + 1)
    } else if 0 <= i < s.len() && is_nonzero_digit(s[i]) {
        Some(run_end(s, i + 1, CharClass::Digit))
    } else {
        let j = run_end(s, i, CharClass::Digit);
        if 0 <= i && j < s.len() && is_letter_or_hyphen(s[j]) {
            Some(run_end(s, j + 1, CharClass::Word))
        } else {
            None
        }
    }
}

/// `(?:\.IDENT)*` from `e`, taking as many identifiers as can be read.
pub open spec fn dotted_idents_end(s: Seq<char>, e: int) -> int
    decreases s.len() - e,
{
    if 0 <= e < s.len() && s[e] == '.' {
        match ident_end(s, e + 1) {
            Some(f) => {
                proof {
                    lemma_ident_end(s, e + 1);
                }
                dotted_idents_end(s, f)
            },
            None => e,
        }
    } else {
        e
    }
}

/// The pre-release part, `IDENT(?:\.IDENT)*`, at `i`.
pub open spec fn prerelease_end(s: Seq<char>, i: int) -> Option<int> {
    match ident_end(s, i) {
        Some(e) => Some(dotted_idents_end(s, e)),
        None => None,
    }
}

/// `(?:\.[0-9a-zA-Z-]+)*` from `e`.
pub open spec fn dotted_words_end(s: Seq<char>, e: int) -> int
    decreases s.len() - e,
{
    if 0 <= e && e + 1 < s.len() && s[e] == '.' && is_word_char(s[e + 1]) {
        proof {
            lemma_run_end(s, e + 1, CharClass::Word);
        }
        dotted_words_end(s, run_end(s, e + 1, CharClass::Word))
    } else {
        e
    }
}

/// The build metadata, `[0-9a-zA-Z-]+(?:\.[0-9a-zA-Z-]+)*`, at `i`.
pub open spec fn build_end(s: Seq<char>, i: int) -> Option<int> {
    if 0 <= i < s.len() && is_word_char(s[i]) {
        Some(dotted_words_end(s, run_end(s, i, CharClass::Word)))
    } else {
        None
    }
}

/// Where each named group of the pattern starts and ends in a match.
pub struct Layout {
    pub major: (int, int),
    pub minor: (int, int),
    pub patch: (int, int),
    pub update_number: Option<(int, int)>,
    pub prerelease: Option<(int, int)>,
    pub build_metadata: Option<(int, int)>,
}

/// The optional `_` and update number after the patch, which ends at `c`:
/// the group's span, if it takes part, and where the reading goes on.
pub open spec fn update_part(s: Seq<char>, c: int) -> (Option<(int, int)>, int) {
    if 0 <= c < s.len() && s[c] == '_' {
        if c + 1 < s.len() && is_ascii_digit(s[c + 1]) {
            let e = run_end(s, c + 1, CharClass::AsciiDigit);
            (Some((c + 1, e)), e)
        } else {
            (None, c + 1)
        }
    } else {
        (None, c)
    }
}

/// The optional `-` and pre-release from `d`.
pub open spec fn prerelease_part(s: Seq<char>, d: int) -> (Option<(int, int)>, int) {
    if 0 <= d < s.len() && s[d] == '-' {
        match prerelease_end(s, d + 1) {
            Some(x) => (Some((d + 1, x)), x),
            None => (None, d),
        }
    } else {
        (None, d)
    }
}

/// The optional `+` and build metadata from `e`.
pub open spec fn build_part(s: Seq<char>, e: int) -> Option<(int, int)> {
    if 0 <= e < s.len() && s[e] == '+' {
        match build_end(s, e + 1) {
            Some(y) => Some((e + 1, y)),
            None => None,
        }
    } else {
        None
    }
}

/// The match of the version pattern on `s`, if there is one.
pub open spec fn version_layout(s: Seq<char>) -> Option<Layout> {
    match number_end(s, 0) {
        None => None,
        Some(a) => if !(a < s.len() && s[a] == '.') {
            None
        } else {
            match number_end(s, a + 1) {
                None => None,
                Some(b) => if !(b < s.len() && s[b] == '.') {
                    None
                } else {
                    match patch_end(s, b + 1) {
                        None => None,
                        Some(c) => {
                            let (update_number, d) = update_part(s, c);
                            let (prerelease, e) = prerelease_part(s, d);
                            Some(
                                Layout {
                                    major: (0, a),
                                    minor: (a + 1, b),
                                    patch: (b + 1, c),
                                    update_number,
                                    prerelease,
                                    build_metadata: build_part(s, e),
                                },
                            )
                        },
                    }
                },
            }
        },
    }
}

// ---------------------------------------------------------------------------
// Facts about the spec functions.

pub proof fn lemma_ident_end(s: Seq<char>, i: int)
    requires
        0 <= i,
    ensures
        ident_end(s, i) matches Some(e) ==> i < e <= s.len(),
{
    if i < s.len() {
        lemma_run_end(s, i + 1, CharClass::Digit);
        lemma_run_end(s, i, CharClass::Digit);
        let j = run_end(s, i, CharClass::Digit);
        if j < s.len() {
            lemma_run_end(s, j + 1, CharClass::Word);
        }
    }
}

// ---------------------------------------------------------------------------
// Executable reading of the grammar.

fn is_word_char_exec(c: char) -> (r: bool)
    ensures
        r == is_word_char(c),
{
    ('0' <= c && c <= '9') || ('a' <= c && c <= 'z') || ('A' <= c && c <= 'Z') || c == '-'
}

fn scan_number(s: &Vec<char>, i: usize) -> (r: Option<usize>)
    requires
        i <= s@.len(),
    ensures
        r matches Some(e) ==> number_end(s@, i as int) == Some(e as int),
        r is None ==> number_end(s@, i as int) is None,
{
    if i < s.len() && s[i] == '0' {
        Some(i + 1)
    } else if i < s.len() && '1' <= s[i] && s[i] <= '9' {
        Some(scan_run(s, i + 1, CharClass::Digit))
    } else {
        None
    }
}

fn scan_patch(s: &Vec<char>, i: usize) -> (r: Option<usize>)
    requires
        i <= s@.len(),
    ensures
        r matches Some(e) ==> patch_end(s@, i as int) == Some(e as int),
        r is None ==> patch_end(s@, i as int) is None,
{
    if i < s.len() && s[i] == '0' {
        Some(i + 1)
    } else if i < s.len() && '1' <= s[i] && s[i] <= '9' {
        let j = scan_run(s, i + 1, CharClass::Digit);
        proof {
            lemma_run_end(s@, i + 1, CharClass::Digit);
        }
        if j < s.len() && s[j] == '.' && j + 1 < s.len() && '0' <= s[j + 1] && s[j + 1] <= '9' {
            Some(scan_run(s, j + 1, CharClass::AsciiDigit))
        } else {
            Some(j)
        }
    } else {
        None
    }
}

fn scan_ident(s: &Vec<char>, i: usize) -> (r: Option<usize>)
    requires
        i <= s@.len(),
    ensures
        r matches Some(e) ==> ident_end(s@, i as int) == Some(e as int),
        r is None ==> ident_end(s@, i as int) is None,
{
    if i < s.len() && s[i] == '0' {
        Some(i + 1)
    } else if i < s.len() && '1' <= s[i] && s[i] <= '9' {
        Some(scan_run(s, i + 1, CharClass::Digit))
    } else {
        let j = scan_run(s, i, CharClass::Digit);
        proof {
            lemma_run_end(s@, i as int, CharClass::Digit);
        }
        if j < s.len() && (('a' <= s[j] && s[j] <= 'z') || ('A' <= s[j] && s[j] <= 'Z') || s[j]
            == '-') {
            Some(scan_run(s, j + 1, CharClass::Word))
        } else {
            None
        }
    }
}

fn scan_prerelease(s: &Vec<char>, i: usize) -> (r: Option<usize>)
    requires
        i <= s@.len(),
    ensures
        r matches Some(e) ==> prerelease_end(s@, i as int) == Some(e as int),
        r is None ==> prerelease_end(s@, i as int) is None,
{
    match scan_ident(s, i) {
        None => None,
        Some(e0) => {
            proof {
                lemma_ident_end(s@, i as int);
            }
            let mut e = e0;
            loop
                invariant
                    e <= s@.len(),
                    ident_end(s@, i as int) == Some(e0 as int),
                    dotted_idents_end(s@, e as int) == dotted_idents_end(s@, e0 as int),
                decreases s@.len() - e,
            {
                if e < s.len() && s[e] == '.' {
                    match scan_ident(s, e + 1) {
                        Some(f) => {
                            proof {
                                lemma_ident_end(s@, e + 1);
                            }
                            e = f;
                        },
                        None => {
                            return Some(e);
                        },
                    }
                } else {
                    return Some(e);
                }
            }
        },
    }
}

fn scan_build(s: &Vec<char>, i: usize) -> (r: Option<usize>)
    requires
        i <= s@.len(),
    ensures
        r matches Some(e) ==> build_end(s@, i as int) == Some(e as int),
        r is None ==> build_end(s@, i as int) is None,
{
    if i < s.len() && is_word_char_exec(s[i]) {
        let e0 = scan_run(s, i, CharClass::Word);
        proof {
            lemma_run_end(s@, i as int, CharClass::Word);
        }
        let mut e = e0;
        while e < s.len() && s[e] == '.' && e + 1 < s.len() && is_word_char_exec(s[e + 1])
            invariant
                e <= s@.len(),
                dotted_words_end(s@, e as int) == dotted_words_end(s@, e0 as int),
            decreases s@.len() - e,
        {
            proof {
                lemma_run_end(s@, e + 1, CharClass::Word);
            }
            e = scan_run(s, e + 1, CharClass::Word);
        }
        Some(e)
    } else {
        None
    }
}

/// Where each group of the pattern starts and ends, as positions in the text.
pub struct Spans {
    pub major: (usize, usize),
    pub minor: (usize, usize),
    pub patch: (usize, usize),
    pub update_number: Option<(usize, usize)>,
    pub prerelease: Option<(usize, usize)>,
    pub build_metadata: Option<(usize, usize)>,
}

pub open spec fn span_view(p: (usize, usize)) -> (int, int) {
    (p.0 as int, p.1 as int)
}

pub open spec fn opt_span_view(p: Option<(usize, usize)>) -> Option<(int, int)> {
    match p {
        Some(q) => Some(span_view(q)),
        None => None,
    }
}

impl View for Spans {
    type V = Layout;

    open spec fn view(&self) -> Layout {
        Layout {
            major: span_view(self.major),
            minor: span_view(self.minor),
            patch: span_view(self.patch),
            update_number: opt_span_view(self.update_number),
            prerelease: opt_span_view(self.prerelease),
            build_metadata: opt_span_view(self.build_metadata),
        }
    }
}

/// Matches the version pattern against `s`.
pub fn match_version(s: &Vec<char>) -> (r: Option<Spans>)
    ensures
        r matches Some(sp) ==> version_layout(s@) == Some(sp@),
        r is None ==> version_layout(s@) is None,
        r matches Some(sp) ==> {
            &&& sp.major.0 <= sp.major.1 <= s@.len()
            &&& sp.minor.0 <= sp.minor.1 <= s@.len()
            &&& sp.patch.0 <= sp.patch.1 <= s@.len()
            &&& (sp.update_number matches Some(u) ==> u.0 <= u.1 <= s@.len())
            &&& (sp.prerelease matches Some(u) ==> u.0 <= u.1 <= s@.len())
            &&& (sp.build_metadata matches Some(u) ==> u.0 <= u.1 <= s@.len())
        },
{
    let a = match scan_number(s, 0) {
        Some(a) => a,
        None => return None,
    };
    proof {
        lemma_run_end(s@, 1, CharClass::Digit);
    }
    if !(a < s.len() && s[a] == '.') {
        return None;
    }
    let b = match scan_number(s, a + 1) {
        Some(b) => b,
        None => return None,
    };
    proof {
        lemma_run_end(s@, a + 2, CharClass::Digit);
    }
    if !(b < s.len() && s[b] == '.') {
        return None;
    }
    let c = match scan_patch(s, b + 1) {
        Some(c) => c,
        None => return None,
    };
    proof {
        lemma_run_end(s@, b + 2, CharClass::Digit);
        let j = run_end(s@, b + 2, CharClass::Digit);
        if j + 1 < s@.len() {
            lemma_run_end(s@, j + 1, CharClass::AsciiDigit);
        }
    }
    let mut update_number: Option<(usize, usize)> = None;
    let mut d = c;
    if c < s.len() && s[c] == '_' {
        if c + 1 < s.len() && '0' <= s[c + 1] && s[c + 1] <= '9' {
            let e = scan_run(s, c + 1, CharClass::AsciiDigit);
            proof {
                lemma_run_end(s@, c + 1, CharClass::AsciiDigit);
            }
            update_number = Some((c + 1, e));
            d = e;
        } else {
            d = c + 1;
        }
    }
    assert(update_part(s@, c as int) == (opt_span_view(update_number), d as int));
    let mut prerelease: Option<(usize, usize)> = None;
    let mut e = d;
    if d < s.len() && s[d] == '-' {
        match scan_prerelease(s, d + 1) {
            Some(x) => {
                proof {
                    lemma_prerelease_end(s@, d + 1);
                }
                prerelease = Some((d + 1, x));
                e = x;
            },
            None => {},
        }
    }
    assert(prerelease_part(s@, d as int) == (opt_span_view(prerelease), e as int));
    let mut build_metadata: Option<(usize, usize)> = None;
    if e < s.len() && s[e] == '+' {
        match scan_build(s, e + 1) {
            Some(y) => {
                proof {
                    lemma_build_end(s@, e + 1);
                }
                build_metadata = Some((e + 1, y));
            },
            None => {},
        }
    }
    assert(build_part(s@, e as int) == opt_span_view(build_metadata));
    let sp = Spans {
        major: (0, a),
        minor: (a + 1, b),
        patch: (b + 1, c),
        update_number,
        prerelease,
        build_metadata,
    };
    assert(version_layout(s@) == Some(sp@));
    Some(sp)
}

pub proof fn lemma_dotted_idents_end(s: Seq<char>, e: int)
    requires
        0 <= e <= s.len(),
    ensures
        e <= dotted_idents_end(s, e) <= s.len(),
    decreases s.len() - e,
{
    if e < s.len() && s[e] == '.' {
        lemma_ident_end(s, e + 1);
        if let Some(f) = ident_end(s, e + 1) {
            lemma_dotted_idents_end(s, f);
        }
    }
}

pub proof fn lemma_prerelease_end(s: Seq<char>, i: int)
    requires
        0 <= i,
    ensures
        prerelease_end(s, i) matches Some(e) ==> i < e <= s.len(),
{
    lemma_ident_end(s, i);
    if let Some(e) = ident_end(s, i) {
        lemma_dotted_idents_end(s, e);
    }
}

pub proof fn lemma_dotted_words_end(s: Seq<char>, e: int)
    requires
        0 <= e <= s.len(),
    ensures
        e <= dotted_words_end(s, e) <= s.len(),
    decreases s.len() - e,
{
    if e + 1 < s.len() && s[e] == '.' && is_word_char(s[e + 1]) {
        lemma_run_end(s, e + 1, CharClass::Word);
        lemma_dotted_words_end(s, run_end(s, e + 1, CharClass::Word));
    }
}

pub proof fn lemma_build_end(s: Seq<char>, i: int)
    requires
        0 <= i,
    ensures
        build_end(s, i) matches Some(e) ==> i < e <= s.len(),
{
    if i < s.len() && is_word_char(s[i]) {
        lemma_run_end(s, i, CharClass::Word);
        lemma_dotted_words_end(s, run_end(s, i, CharClass::Word));
    }
}

} // verus!
