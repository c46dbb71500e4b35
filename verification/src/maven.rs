//! Maven coordinates of the form `group:artifact:version`.
//!
//! Coordinates are accepted when they match
//!
//! ```text
//! ^[a-zA-Z0-9._-]+:[a-zA-Z0-9._-]+:[0-9]+\.[0-9]+(\.[0-9]+)?(-[a-zA-Z0-9._-]+)*(\.[a-zA-Z0-9._-]+)*$
//! ```
//!
//! which is not the whole Maven specification but covers what the launcher
//! meets.

use vstd::prelude::*;

use crate::path::{
    is_path_separator, is_plain_component, join_path, new_path, path_components, path_text,
    pushed, separator_after,
};
use crate::scan::{
    in_class, is_ascii_digit, is_coordinate_char, lemma_run_end, lemma_run_end_at, run_end,
    scan_run, CharClass,
};
use crate::text::{chars_of, string_of};
use crate::unicode::is_white_space;
use std::path::PathBuf;

verus! {

broadcast use vstd::string::group_string_axioms;

/// The coordinates of an artifact in a Maven repository.
pub struct MavenCoordinates {
    pub group_id: String,
    pub artifact_id: String,
    pub version: String,
}

/// `MavenCoordinates` with its strings taken as character sequences.
pub struct MavenCoordinatesView {
    pub group_id: Seq<char>,
    pub artifact_id: Seq<char>,
    pub version: Seq<char>,
}

impl View for MavenCoordinates {
    type V = MavenCoordinatesView;

    open spec fn view(&self) -> MavenCoordinatesView {
        MavenCoordinatesView {
            group_id: self.group_id@,
            artifact_id: self.artifact_id@,
            version: self.version@,
        }
    }
}

#[derive(PartialEq, Eq, Debug, Clone, Copy, Structural)]
pub enum MavenError {
    InvalidCoordinates,
}

// ---------------------------------------------------------------------------
// The accepted shape.

/// `[a-zA-Z0-9._-]+`
pub open spec fn is_coordinate_word(t: Seq<char>) -> bool {
    t.len() > 0 && forall|i: int| 0 <= i < t.len() ==> is_coordinate_char(#[trigger] t[i])
}

/// `[0-9]+`
pub open spec fn is_ascii_number(t: Seq<char>) -> bool {
    t.len() > 0 && forall|i: int| 0 <= i < t.len() ==> is_ascii_digit(#[trigger] t[i])
}

/// `(\.[0-9]+)?(-[a-zA-Z0-9._-]+)*(\.[a-zA-Z0-9._-]+)*`: every group of it
/// starts with `-` or `.` and goes on with one or more of `[a-zA-Z0-9._-]`, a
/// class that holds `-`, `.` and the digits; so the texts it matches are the
/// empty text and the texts of two or more characters of that class whose
/// first character is `-` or `.`.
pub open spec fn is_version_tail(t: Seq<char>) -> bool {
    t.len() == 0 || (t.len() >= 2 && (t[0] == '-' || t[0] == '.') && forall|i: int|
        0 <= i < t.len() ==> is_coordinate_char(#[trigger] t[i]))
}

/// `[0-9]+\.[0-9]+` followed by a version tail.
pub open spec fn is_maven_version(v: Seq<char>) -> bool {
    exists|a: int, b: int|
        0 < a && a + 1 < b <= v.len() && #[trigger] is_ascii_number(v.subrange(0, a)) && v[a]
            == '.' && #[trigger] is_ascii_number(v.subrange(a + 1, b)) && is_version_tail(
            v.subrange(b, v.len() as int),
        )
}

/// Whether `s`, as a whole, is `group:artifact:version` in the accepted shape.
pub open spec fn is_maven_coordinates_text(s: Seq<char>) -> bool {
    exists|i: int, j: int|
        0 < i && i + 1 < j < s.len() && s[i] == ':' && s[j] == ':' && #[trigger] is_coordinate_word(
            s.subrange(0, i),
        ) && #[trigger] is_coordinate_word(s.subrange(i + 1, j)) && is_maven_version(
            s.subrange(j + 1, s.len() as int),
        )
}

/// The same shape, read from left to right one run at a time.
pub open spec fn coordinates_scan(s: Seq<char>) -> bool {
    let i = run_end(s, 0, CharClass::CoordinateChar);
    let j = run_end(s, i + 1, CharClass::CoordinateChar);
    let a = run_end(s, j + 1, CharClass::AsciiDigit);
    let b = run_end(s, a + 1, CharClass::AsciiDigit);
    &&& 0 < i < s.len() && s[i] == ':'
    &&& i + 1 < j < s.len() && s[j] == ':'
    &&& j + 1 < a < s.len() && s[a] == '.'
    &&& a + 1 < b
    &&& (b == s.len() || (b + 1 < s.len() && (s[b] == '-' || s[b] == '.') && run_end(
        s,
        b,
        CharClass::CoordinateChar,
    ) == s.len()))
}

proof fn lemma_scan_gives_shape(s: Seq<char>)
    requires
        coordinates_scan(s),
    ensures
        is_maven_coordinates_text(s),
{
    let i = run_end(s, 0, CharClass::CoordinateChar);
    lemma_run_end(s, 0, CharClass::CoordinateChar);
    let j = run_end(s, i + 1, CharClass::CoordinateChar);
    lemma_run_end(s, i + 1, CharClass::CoordinateChar);
    let a = run_end(s, j + 1, CharClass::AsciiDigit);
    lemma_run_end(s, j + 1, CharClass::AsciiDigit);
    let b = run_end(s, a + 1, CharClass::AsciiDigit);
    lemma_run_end(s, a + 1, CharClass::AsciiDigit);
    let g = s.subrange(0, i);
    let r = s.subrange(i + 1, j);
    let v = s.subrange(j + 1, s.len() as int);
    assert(is_coordinate_word(g)) by {
        assert forall|k: int| 0 <= k < g.len() implies is_coordinate_char(#[trigger] g[k]) by {
            assert(in_class(CharClass::CoordinateChar, s[k]));
        }
    }
    assert(is_coordinate_word(r)) by {
        assert forall|k: int| 0 <= k < r.len() implies is_coordinate_char(#[trigger] r[k]) by {
            assert(in_class(CharClass::CoordinateChar, s[i + 1 + k]));
        }
    }
    let a1 = a - (j + 1);
    let b1 = b - (j + 1);
    let n1 = v.subrange(0, a1);
    let n2 = v.subrange(a1 + 1, b1);
    let t = v.subrange(b1, v.len() as int);
    assert(is_ascii_number(n1)) by {
        assert forall|k: int| 0 <= k < n1.len() implies is_ascii_digit(#[trigger] n1[k]) by {
            assert(in_class(CharClass::AsciiDigit, s[j + 1 + k]));
        }
    }
    assert(is_ascii_number(n2)) by {
        assert forall|k: int| 0 <= k < n2.len() implies is_ascii_digit(#[trigger] n2[k]) by {
            assert(in_class(CharClass::AsciiDigit, s[a + 1 + k]));
        }
    }
    assert(is_version_tail(t)) by {
        if b < s.len() {
            lemma_run_end(s, b, CharClass::CoordinateChar);
            assert forall|k: int| 0 <= k < t.len() implies is_coordinate_char(#[trigger] t[k]) by {
                assert(in_class(CharClass::CoordinateChar, s[b + k]));
            }
        }
    }
    assert(v[a1] == '.');
    assert(is_maven_version(v));
}

proof fn lemma_shape_gives_scan(s: Seq<char>)
    requires
        is_maven_coordinates_text(s),
    ensures
        coordinates_scan(s),
{
    let (i, j) = choose|i: int, j: int|
        0 < i && i + 1 < j < s.len() && s[i] == ':' && s[j] == ':' && #[trigger] is_coordinate_word(
            s.subrange(0, i),
        ) && #[trigger] is_coordinate_word(s.subrange(i + 1, j)) && is_maven_version(
            s.subrange(j + 1, s.len() as int),
        );
    let g = s.subrange(0, i);
    let r = s.subrange(i + 1, j);
    let v = s.subrange(j + 1, s.len() as int);
    assert forall|k: int| 0 <= k < i implies in_class(CharClass::CoordinateChar, #[trigger] s[k]) by {
        assert(is_coordinate_char(g[k]));
    }
    lemma_run_end_at(s, 0, i, CharClass::CoordinateChar);
    assert forall|k: int| i + 1 <= k < j implies in_class(
        CharClass::CoordinateChar,
        #[trigger] s[k],
    ) by {
        assert(is_coordinate_char(r[k - (i + 1)]));
    }
    lemma_run_end_at(s, i + 1, j, CharClass::CoordinateChar);
    let (a1, b1) = choose|a: int, b: int|
        0 < a && a + 1 < b <= v.len() && #[trigger] is_ascii_number(v.subrange(0, a)) && v[a]
            == '.' && #[trigger] is_ascii_number(v.subrange(a + 1, b)) && is_version_tail(
            v.subrange(b, v.len() as int),
        );
    let a = j + 1 + a1;
    let b = j + 1 + b1;
    let n1 = v.subrange(0, a1);
    let n2 = v.subrange(a1 + 1, b1);
    let t = v.subrange(b1, v.len() as int);
    assert forall|k: int| j + 1 <= k < a implies in_class(CharClass::AsciiDigit, #[trigger] s[k]) by {
        assert(is_ascii_digit(n1[k - (j + 1)]));
    }
    assert(s[a] == v[a1]);
    lemma_run_end_at(s, j + 1, a, CharClass::AsciiDigit);
    assert forall|k: int| a + 1 <= k < b implies in_class(CharClass::AsciiDigit, #[trigger] s[k]) by {
        assert(is_ascii_digit(n2[k - (a + 1)]));
    }
    if b < s.len() {
        assert(s[b] == t[0]);
    }
    lemma_run_end_at(s, a + 1, b, CharClass::AsciiDigit);
    if b < s.len() {
        assert forall|k: int| b <= k < s.len() implies in_class(
            CharClass::CoordinateChar,
            #[trigger] s[k],
        ) by {
            assert(is_coordinate_char(t[k - b]));
        }
        lemma_run_end_at(s, b, s.len() as int, CharClass::CoordinateChar);
    }
}

/// Whether `coordinates`, as a whole, is `group:artifact:version` in the
/// accepted shape.
pub fn is_maven_coordinates(maven_coordinates: &str) -> (r: bool)
    ensures
        r == is_maven_coordinates_text(maven_coordinates@),
{
    let s = chars_of(maven_coordinates);
    let r = check_coordinates(&s);
    proof {
        if r {
            lemma_scan_gives_shape(s@);
        } else if is_maven_coordinates_text(s@) {
            lemma_shape_gives_scan(s@);
        }
    }
    r
}

fn check_coordinates(s: &Vec<char>) -> (r: bool)
    ensures
        r == coordinates_scan(s@),
{
    let n = s.len();
    let i = scan_run(s, 0, CharClass::CoordinateChar);
    proof {
        lemma_run_end(s@, 0, CharClass::CoordinateChar);
    }
    if !(0 < i && i < n && s[i] == ':') {
        return false;
    }
    let j = scan_run(s, i + 1, CharClass::CoordinateChar);
    proof {
        lemma_run_end(s@, i + 1, CharClass::CoordinateChar);
    }
    if !(i + 1 < j && j < n && s[j] == ':') {
        return false;
    }
    let a = scan_run(s, j + 1, CharClass::AsciiDigit);
    proof {
        lemma_run_end(s@, j + 1, CharClass::AsciiDigit);
    }
    if !(j + 1 < a && a < n && s[a] == '.') {
        return false;
    }
    let b = scan_run(s, a + 1, CharClass::AsciiDigit);
    proof {
        lemma_run_end(s@, a + 1, CharClass::AsciiDigit);
    }
    if !(a + 1 < b) {
        return false;
    }
    if b == n {
        return true;
    }
    b + 1 < n && (s[b] == '-' || s[b] == '.') && scan_run(s, b, CharClass::CoordinateChar) == n
}

// ---------------------------------------------------------------------------
// Splitting.

/// The first three pieces of `s` split at `:` (the text before the first
/// colon, between the first and the second, and from the second up to the
/// third or the end), if `s` has at least two colons.
pub open spec fn maven_parts(s: Seq<char>) -> Option<MavenCoordinatesView> {
    let p1 = run_end(s, 0, CharClass::NotColon);
    let p2 = run_end(s, p1 + 1, CharClass::NotColon);
    let p3 = run_end(s, p2 + 1, CharClass::NotColon);
    if p1 < s.len() && p2 < s.len() {
        Some(
            MavenCoordinatesView {
                group_id: s.subrange(0, p1),
                artifact_id: s.subrange(p1 + 1, p2),
                version: s.subrange(p2 + 1, p3),
            },
        )
    } else {
        None
    }
}

/// Splits `maven_coordinates` at its first two colons; what follows a third
/// colon is dropped.
pub fn parse_maven_coordinates(maven_coordinates: &str) -> (r: Result<MavenCoordinates, MavenError>)
    ensures
        match r {
            Ok(c) => maven_parts(maven_coordinates@) == Some(c@),
            Err(e) => maven_parts(maven_coordinates@) is None && e == MavenError::InvalidCoordinates,
        },
{
    let s = chars_of(maven_coordinates);
    let n = s.len();
    let p1 = scan_run(&s, 0, CharClass::NotColon);
    proof {
        lemma_run_end(s@, 0, CharClass::NotColon);
    }
    if p1 >= n {
        return Err(MavenError::InvalidCoordinates);
    }
    let p2 = scan_run(&s, p1 + 1, CharClass::NotColon);
    proof {
        lemma_run_end(s@, p1 + 1, CharClass::NotColon);
    }
    if p2 >= n {
        return Err(MavenError::InvalidCoordinates);
    }
    let p3 = scan_run(&s, p2 + 1, CharClass::NotColon);
    proof {
        lemma_run_end(s@, p2 + 1, CharClass::NotColon);
    }
    Ok(
        MavenCoordinates {
            group_id: string_of(maven_coordinates, 0, p1),
            artifact_id: string_of(maven_coordinates, p1 + 1, p2),
            version: string_of(maven_coordinates, p2 + 1, p3),
        },
    )
}

// ---------------------------------------------------------------------------
// Trimming.

/// Where `s[lo..e]` ends once trailing white space is dropped.
pub open spec fn trim_end(s: Seq<char>, lo: int, e: int) -> int
    decreases e - lo,
{
    if lo < e && e <= s.len() && in_class(CharClass::WhiteSpace, s[e - 1]) {
        trim_end(s, lo, e - 1)
    } else {
        e
    }
}

/// `s` without leading and trailing white space, as `str::trim` gives it.
pub open spec fn trimmed(s: Seq<char>) -> Seq<char> {
    let a = run_end(s, 0, CharClass::WhiteSpace);
    s.subrange(a, trim_end(s, a, s.len() as int))
}

fn trim_bounds(s: &Vec<char>) -> (r: (usize, usize))
    ensures
        r.0 == run_end(s@, 0, CharClass::WhiteSpace),
        r.1 == trim_end(s@, r.0 as int, s@.len() as int),
        r.0 <= r.1 <= s@.len(),
{
    let a = scan_run(s, 0, CharClass::WhiteSpace);
    proof {
        lemma_run_end(s@, 0, CharClass::WhiteSpace);
    }
    let mut e = s.len();
    while a < e && crate::scan::class_has(CharClass::WhiteSpace, s[e - 1])
        invariant
            a <= e <= s@.len(),
            trim_end(s@, a as int, e as int) == trim_end(s@, a as int, s@.len() as int),
        decreases e,
    {
        e -= 1;
    }
    (a, e)
}

// ---------------------------------------------------------------------------
// Coordinates from text, and their place in a repository.

/// What reading `s` as coordinates gives: trimmed, it must be non-empty and
/// in the accepted shape, and is then split at its colons.
pub open spec fn maven_coordinates_of(s: Seq<char>) -> Result<MavenCoordinatesView, MavenError> {
    let t = trimmed(s);
    if t.len() == 0 || !is_maven_coordinates_text(t) {
        Err(MavenError::InvalidCoordinates)
    } else {
        match maven_parts(t) {
            Some(c) => Ok(c),
            None => Err(MavenError::InvalidCoordinates),
        }
    }
}

impl MavenCoordinates {
    /// Reads coordinates in the format `group:artifact:version`, ignoring
    /// white space around them.
    pub fn try_from(coordinates: String) -> (r: Result<MavenCoordinates, MavenError>)
        ensures
            match r {
                Ok(c) => maven_coordinates_of(coordinates@) == Ok::<
                    MavenCoordinatesView,
                    MavenError,
                >(c@),
                Err(e) => maven_coordinates_of(coordinates@) == Err::<
                    MavenCoordinatesView,
                    MavenError,
                >(e),
            },
    {
        let s = chars_of(coordinates.as_str());
        let (a, e) = trim_bounds(&s);
        let trimmed_text = coordinates.as_str().substring_char(a, e);
        if a == e || !is_maven_coordinates(trimmed_text) {
            return Err(MavenError::InvalidCoordinates);
        }
        parse_maven_coordinates(trimmed_text)
    }

    /// The directory of the artifact inside a repository:
    /// `group/artifact/version`, with the platform's separator.
    pub fn into_pathbuf(self) -> (r: PathBuf)
        ensures
            is_plain_component(self.group_id@) && is_plain_component(self.artifact_id@)
                && is_plain_component(self.version@) ==> {
                &&& path_components(r) == pushed(
                    pushed(seq![self.group_id@], self.artifact_id@),
                    self.version@,
                )
                &&& is_path_separator(separator_after(r))
                &&& path_text(r) == self.group_id@.push(separator_after(r)) + self.artifact_id@.push(
                    separator_after(r),
                ) + self.version@
            },
    {
        let base = new_path();
        let p1 = join_path(&base, self.group_id.as_str());
        let p2 = join_path(&p1, self.artifact_id.as_str());
        let p3 = join_path(&p2, self.version.as_str());
        proof {
            assert(Seq::<Seq<char>>::empty().push(self.group_id@) =~= seq![self.group_id@]);
            let g = self.group_id@;
            let a = self.artifact_id@;
            let v = self.version@;
            if is_plain_component(g) && is_plain_component(a) && is_plain_component(v) {
                assert(path_text(p1) == g);
                assert(g[0] != '/' && g[g.len() - 1] != '/');
                let c = separator_after(p1);
                let t2 = g.push(c) + a;
                assert(path_text(p2) == t2);
                assert(t2[0] == g[0]);
                assert(t2.last() == a.last());
                assert(a[a.len() - 1] != '/');
                assert forall|i: int| 0 <= i < t2.len() implies #[trigger] t2[i] != ':' by {
                    if i < g.len() {
                        assert(t2[i] == g[i]);
                    } else if i > g.len() {
                        assert(t2[i] == a[i - g.len() - 1]);
                    }
                }
                assert(path_text(p3) =~= g.push(c) + a.push(c) + v);
            }
        }
        p3
    }
}

// ---------------------------------------------------------------------------
// Laws.

proof fn lemma_version_has_no_colon(v: Seq<char>)
    requires
        is_maven_version(v),
    ensures
        forall|k: int| 0 <= k < v.len() ==> #[trigger] v[k] != ':',
{
    let (a, b) = choose|a: int, b: int|
        0 < a && a + 1 < b <= v.len() && #[trigger] is_ascii_number(v.subrange(0, a)) && v[a]
            == '.' && #[trigger] is_ascii_number(v.subrange(a + 1, b)) && is_version_tail(
            v.subrange(b, v.len() as int),
        );
    assert forall|k: int| 0 <= k < v.len() implies #[trigger] v[k] != ':' by {
        if k < a {
            assert(is_ascii_digit(v.subrange(0, a)[k]));
        } else if a < k < b {
            assert(is_ascii_digit(v.subrange(a + 1, b)[k - a - 1]));
        } else if k >= b {
            assert(is_coordinate_char(v.subrange(b, v.len() as int)[k - b]));
        }
    }
}

/// Coordinates that are read are the three parts of the trimmed text: group
/// and artifact of `[a-zA-Z0-9._-]`, a version in the accepted shape, joined
/// by colons.
pub proof fn law_coordinates_are_their_parts(s: Seq<char>)
    ensures
        maven_coordinates_of(s) matches Ok(c) ==> {
            &&& c.group_id + seq![':'] + c.artifact_id + seq![':'] + c.version == trimmed(s)
            &&& is_coordinate_word(c.group_id)
            &&& is_coordinate_word(c.artifact_id)
            &&& is_maven_version(c.version)
        },
{
    let t = trimmed(s);
    if let Ok(c) = maven_coordinates_of(s) {
        let (i, j) = choose|i: int, j: int|
            0 < i && i + 1 < j < t.len() && t[i] == ':' && t[j] == ':'
                && #[trigger] is_coordinate_word(t.subrange(0, i)) && #[trigger] is_coordinate_word(
                t.subrange(i + 1, j),
            ) && is_maven_version(t.subrange(j + 1, t.len() as int));
        let g = t.subrange(0, i);
        let r = t.subrange(i + 1, j);
        let v = t.subrange(j + 1, t.len() as int);
        assert forall|k: int| 0 <= k < i implies in_class(CharClass::NotColon, #[trigger] t[k]) by {
            assert(is_coordinate_char(g[k]));
        }
        lemma_run_end_at(t, 0, i, CharClass::NotColon);
        assert forall|k: int| i + 1 <= k < j implies in_class(
            CharClass::NotColon,
            #[trigger] t[k],
        ) by {
            assert(is_coordinate_char(r[k - (i + 1)]));
        }
        lemma_run_end_at(t, i + 1, j, CharClass::NotColon);
        lemma_version_has_no_colon(v);
        assert forall|k: int| j + 1 <= k < t.len() implies in_class(
            CharClass::NotColon,
            #[trigger] t[k],
        ) by {
            assert(v[k - (j + 1)] != ':');
        }
        lemma_run_end_at(t, j + 1, t.len() as int, CharClass::NotColon);
        assert(c.group_id + seq![':'] + c.artifact_id + seq![':'] + c.version =~= t);
    }
}

proof fn lemma_trim_end_stop(s: Seq<char>, lo: int, e: int)
    requires
        0 <= lo <= e <= s.len(),
    ensures
        lo <= trim_end(s, lo, e) <= e,
        lo < trim_end(s, lo, e) ==> !in_class(CharClass::WhiteSpace, s[trim_end(s, lo, e) - 1]),
        forall|k: int| trim_end(s, lo, e) <= k < e ==> in_class(CharClass::WhiteSpace, #[trigger] s[k]),
    decreases e - lo,
{
    if lo < e && in_class(CharClass::WhiteSpace, s[e - 1]) {
        lemma_trim_end_stop(s, lo, e - 1);
    }
}

/// Trimmed text has no white space left to trim.
pub proof fn law_trimmed_is_trimmed(s: Seq<char>)
    ensures
        trimmed(trimmed(s)) == trimmed(s),
{
    let a = run_end(s, 0, CharClass::WhiteSpace);
    lemma_run_end(s, 0, CharClass::WhiteSpace);
    lemma_trim_end_stop(s, a, s.len() as int);
    let z = trim_end(s, a, s.len() as int);
    let t = s.subrange(a, z);
    if a < s.len() {
        assert(trim_end(s, a, a + 1) == a + 1);
        if z == a {
            assert(in_class(CharClass::WhiteSpace, s[a]));
        }
        assert(t[0] == s[a]);
        lemma_run_end_at(t, 0, 0, CharClass::WhiteSpace);
        assert(t[t.len() - 1] == s[z - 1]);
        assert(trim_end(t, 0, t.len() as int) == t.len());
        assert(t.subrange(0, t.len() as int) =~= t);
    } else {
        assert(t.len() == 0);
        assert(t.subrange(0, 0) =~= t);
    }
}

proof fn lemma_trim_end_at(s: Seq<char>, lo: int, x: int, e: int)
    requires
        0 <= lo <= x <= e <= s.len(),
        forall|k: int| x <= k < e ==> in_class(CharClass::WhiteSpace, #[trigger] s[k]),
        lo < x ==> !in_class(CharClass::WhiteSpace, s[x - 1]),
    ensures
        trim_end(s, lo, e) == x,
    decreases e - lo,
{
    if x < e {
        lemma_trim_end_at(s, lo, x, e - 1);
    }
}

/// White space put around a text is trimmed away with the text's own.
pub proof fn law_surrounding_white_space_is_trimmed(a: Seq<char>, c: Seq<char>, b: Seq<char>)
    requires
        forall|k: int| 0 <= k < a.len() ==> is_white_space(#[trigger] a[k]),
        forall|k: int| 0 <= k < b.len() ==> is_white_space(#[trigger] b[k]),
    ensures
        trimmed(a + c + b) == trimmed(c),
        maven_coordinates_of(a + c + b) == maven_coordinates_of(trimmed(c)),
{
    let s = a + c + b;
    let n = a.len() as int;
    let m = c.len() as int;
    assert forall|k: int| 0 <= k < n implies in_class(CharClass::WhiteSpace, #[trigger] s[k]) by {
        assert(s[k] == a[k]);
    }
    assert forall|k: int| n + m <= k < s.len() implies in_class(
        CharClass::WhiteSpace,
        #[trigger] s[k],
    ) by {
        assert(s[k] == b[k - n - m]);
    }
    let lo = run_end(c, 0, CharClass::WhiteSpace);
    lemma_run_end(c, 0, CharClass::WhiteSpace);
    assert forall|k: int| n <= k < n + lo implies in_class(
        CharClass::WhiteSpace,
        #[trigger] s[k],
    ) by {
        assert(s[k] == c[k - n]);
    }
    if lo < m {
        assert(s[n + lo] == c[lo]);
        lemma_run_end_at(s, 0, n + lo, CharClass::WhiteSpace);
        let hi = trim_end(c, lo, m);
        lemma_trim_end_stop(c, lo, m);
        assert(lo < hi) by {
            if hi == lo {
                assert(in_class(CharClass::WhiteSpace, c[lo]));
            }
        }
        assert forall|k: int| n + hi <= k < s.len() implies in_class(
            CharClass::WhiteSpace,
            #[trigger] s[k],
        ) by {
            if k < n + m {
                assert(s[k] == c[k - n]);
            }
        }
        assert(s[n + hi - 1] == c[hi - 1]);
        lemma_trim_end_at(s, n + lo, n + hi, s.len() as int);
        assert(s.subrange(n + lo, n + hi) =~= c.subrange(lo, hi));
    } else {
        lemma_run_end_at(s, 0, s.len() as int, CharClass::WhiteSpace);
        assert(trim_end(c, lo, m) == m);
        assert(trim_end(s, s.len() as int, s.len() as int) == s.len());
        assert(s.subrange(s.len() as int, s.len() as int) =~= c.subrange(m, m));
    }
    law_trimmed_is_trimmed(c);
}

/// Reading trimmed text gives what reading the text itself gives.
pub proof fn law_reading_ignores_surrounding_white_space(s: Seq<char>)
    ensures
        maven_coordinates_of(trimmed(s)) == maven_coordinates_of(s),
{
    law_trimmed_is_trimmed(s);
}

/// The parts of coordinates that are read are each one path component: none
/// is empty or holds `/`, `\` or `:`.
pub proof fn law_read_parts_are_path_components(s: Seq<char>)
    ensures
        maven_coordinates_of(s) matches Ok(c) ==> is_plain_component(c.group_id)
            && is_plain_component(c.artifact_id) && is_plain_component(c.version),
{
    law_coordinates_are_their_parts(s);
    if let Ok(c) = maven_coordinates_of(s) {
        let v = c.version;
        let (a, b) = choose|a: int, b: int|
            0 < a && a + 1 < b <= v.len() && #[trigger] is_ascii_number(v.subrange(0, a)) && v[a]
                == '.' && #[trigger] is_ascii_number(v.subrange(a + 1, b)) && is_version_tail(
                v.subrange(b, v.len() as int),
            );
        assert forall|k: int| 0 <= k < v.len() implies #[trigger] v[k] != '/' && v[k] != '\\'
            && v[k] != ':' by {
            if k < a {
                assert(is_ascii_digit(v.subrange(0, a)[k]));
            } else if a < k < b {
                assert(is_ascii_digit(v.subrange(a + 1, b)[k - a - 1]));
            } else if k >= b {
                assert(is_coordinate_char(v.subrange(b, v.len() as int)[k - b]));
            }
        }
        assert forall|k: int| 0 <= k < c.group_id.len() implies #[trigger] c.group_id[k] != '/'
            && c.group_id[k] != '\\' && c.group_id[k] != ':' by {
            assert(is_coordinate_char(c.group_id[k]));
        }
        assert forall|k: int| 0 <= k < c.artifact_id.len() implies #[trigger] c.artifact_id[k]
            != '/' && c.artifact_id[k] != '\\' && c.artifact_id[k] != ':' by {
            assert(is_coordinate_char(c.artifact_id[k]));
        }
    }
}

/// Coordinates in the accepted shape, with nothing around them, are read as
/// they stand: the result holds their three parts.
pub proof fn law_accepted_coordinates_are_read(s: Seq<char>)
    ensures
        is_maven_coordinates_text(s) ==> (maven_coordinates_of(s) matches Ok(c) && c.group_id
            + seq![':'] + c.artifact_id + seq![':'] + c.version == s),
{
    if is_maven_coordinates_text(s) {
        lemma_shape_gives_scan(s);
        let i = run_end(s, 0, CharClass::CoordinateChar);
        lemma_run_end(s, 0, CharClass::CoordinateChar);
        assert(in_class(CharClass::CoordinateChar, s[0]));
        assert(!in_class(CharClass::WhiteSpace, s[0]));
        lemma_run_end_at(s, 0, 0, CharClass::WhiteSpace);
        let last = s[s.len() - 1];
        assert(last == ':' || is_coordinate_char(last)) by {
            let j = run_end(s, i + 1, CharClass::CoordinateChar);
            let a = run_end(s, j + 1, CharClass::AsciiDigit);
            let b = run_end(s, a + 1, CharClass::AsciiDigit);
            lemma_run_end(s, a + 1, CharClass::AsciiDigit);
            if b < s.len() {
                lemma_run_end(s, b, CharClass::CoordinateChar);
            }
            assert(in_class(CharClass::AsciiDigit, s[b - 1]) || in_class(
                CharClass::CoordinateChar,
                s[s.len() - 1],
            ));
        }
        assert(!in_class(CharClass::WhiteSpace, last));
        assert(trim_end(s, 0, s.len() as int) == s.len());
        assert(trimmed(s) =~= s);
        let j = run_end(s, i + 1, CharClass::CoordinateChar);
        lemma_run_end(s, i + 1, CharClass::CoordinateChar);
        assert forall|k: int| 0 <= k < i implies in_class(CharClass::NotColon, #[trigger] s[k]) by {
            assert(in_class(CharClass::CoordinateChar, s[k]));
        }
        lemma_run_end_at(s, 0, i, CharClass::NotColon);
        assert forall|k: int| i + 1 <= k < j implies in_class(
            CharClass::NotColon,
            #[trigger] s[k],
        ) by {
            assert(in_class(CharClass::CoordinateChar, s[k]));
        }
        lemma_run_end_at(s, i + 1, j, CharClass::NotColon);
        assert(maven_parts(s) is Some);
        law_coordinates_are_their_parts(s);
    }
}

/// Group and artifact names are any non-empty texts over
/// `[a-zA-Z0-9._-]`: with the version `1.0`, they are accepted and read back
/// as they stand.
pub proof fn law_coordinate_names_take_their_class(g: Seq<char>, a: Seq<char>)
    requires
        g.len() > 0,
        a.len() > 0,
        forall|k: int|
            0 <= k < g.len() ==> {
                let c = #[trigger] g[k];
                ('a' <= c && c <= 'z') || ('A' <= c && c <= 'Z') || ('0' <= c && c <= '9') || c
                    == '.' || c == '_' || c == '-'
            },
        forall|k: int|
            0 <= k < a.len() ==> {
                let c = #[trigger] a[k];
                ('a' <= c && c <= 'z') || ('A' <= c && c <= 'Z') || ('0' <= c && c <= '9') || c
                    == '.' || c == '_' || c == '-'
            },
    ensures
        is_maven_coordinates_text(g + seq![':'] + a + seq![':', '1', '.', '0']),
        maven_coordinates_of(g + seq![':'] + a + seq![':', '1', '.', '0']) == Ok::<
            MavenCoordinatesView,
            MavenError,
        >(MavenCoordinatesView { group_id: g, artifact_id: a, version: seq!['1', '.', '0'] }),
{
    let v = seq!['1', '.', '0'];
    let s = g + seq![':'] + a + seq![':'] + v;
    assert(s =~= g + seq![':'] + a + seq![':', '1', '.', '0']);
    let i = g.len() as int;
    let j = i + 1 + a.len();
    assert(s.subrange(0, i) =~= g);
    assert(s.subrange(i + 1, j) =~= a);
    assert(s.subrange(j + 1, s.len() as int) =~= v);
    assert(s[i] == ':');
    assert(s[j] == ':');
    assert(is_coordinate_word(g));
    assert(is_coordinate_word(a));
    lemma_version_one_zero();
    assert(is_maven_coordinates_text(s));
    law_accepted_coordinates_are_read(s);
    law_coordinates_are_their_parts(s);
    let c = maven_coordinates_of(s).unwrap();
    assert(trimmed(s) == s);
    lemma_split_at_first_colons(g, a, v, c.group_id, c.artifact_id, c.version);
}

proof fn lemma_version_one_zero()
    ensures
        is_maven_version(seq!['1', '.', '0']),
{
    let v = seq!['1', '.', '0'];
    let n1 = v.subrange(0, 1);
    let n2 = v.subrange(2, 3);
    assert(n1 =~= seq!['1']);
    assert(n2 =~= seq!['0']);
    assert(is_ascii_number(n1));
    assert(is_ascii_number(n2));
    assert(v.subrange(3, 3) =~= Seq::<char>::empty());
    assert(0 < 1 && 1 + 1 < 3 <= v.len() && is_ascii_number(v.subrange(0, 1)) && v[1] == '.'
        && is_ascii_number(v.subrange(1int + 1, 3)) && is_version_tail(v.subrange(3, v.len() as int)));
}

/// Two texts joined as `g:a:v`, with no colon in `g` nor in `a`, are split
/// back into the same three parts.
proof fn lemma_split_at_first_colons(
    g: Seq<char>,
    a: Seq<char>,
    v: Seq<char>,
    g2: Seq<char>,
    a2: Seq<char>,
    v2: Seq<char>,
)
    requires
        forall|k: int| 0 <= k < g.len() ==> #[trigger] g[k] != ':',
        forall|k: int| 0 <= k < a.len() ==> #[trigger] a[k] != ':',
        forall|k: int| 0 <= k < g2.len() ==> #[trigger] g2[k] != ':',
        forall|k: int| 0 <= k < a2.len() ==> #[trigger] a2[k] != ':',
        g + seq![':'] + a + seq![':'] + v == g2 + seq![':'] + a2 + seq![':'] + v2,
    ensures
        g == g2,
        a == a2,
        v == v2,
{
    let s = g + seq![':'] + a + seq![':'] + v;
    let s2 = g2 + seq![':'] + a2 + seq![':'] + v2;
    if g.len() < g2.len() {
        assert(s[g.len() as int] == ':');
        assert(s2[g.len() as int] == g2[g.len() as int]);
    } else if g2.len() < g.len() {
        assert(s2[g2.len() as int] == ':');
        assert(s[g2.len() as int] == g[g2.len() as int]);
    }
    assert(g =~= s.subrange(0, g.len() as int));
    assert(g2 =~= s2.subrange(0, g2.len() as int));
    let o = g.len() + 1int;
    if a.len() < a2.len() {
        assert(s[o + a.len()] == ':');
        assert(s2[o + a.len()] == a2[a.len() as int]);
    } else if a2.len() < a.len() {
        assert(s2[o + a2.len()] == ':');
        assert(s[o + a2.len()] == a[a2.len() as int]);
    }
    assert(a =~= s.subrange(o, o + a.len()));
    assert(a2 =~= s2.subrange(o, o + a2.len()));
    assert(v =~= s.subrange(o + a.len() + 1, s.len() as int));
    assert(v2 =~= s2.subrange(o + a2.len() + 1, s2.len() as int));
}

/// `[a-zA-Z0-9._-]`, spelled out.
pub open spec fn ascii_coordinate_char(c: char) -> bool {
    ('a' <= c && c <= 'z') || ('A' <= c && c <= 'Z') || ('0' <= c && c <= '9') || c == '.' || c
        == '_' || c == '-'
}

/// Accepted coordinates hold nothing but ASCII letters, digits, `.`, `_`,
/// `-` and the two colons.
pub proof fn law_accepted_coordinates_characters(s: Seq<char>)
    ensures
        is_maven_coordinates_text(s) ==> forall|k: int|
            0 <= k < s.len() ==> ascii_coordinate_char(#[trigger] s[k]) || s[k] == ':',
{
    if is_maven_coordinates_text(s) {
        let (i, j) = choose|i: int, j: int|
            0 < i && i + 1 < j < s.len() && s[i] == ':' && s[j] == ':'
                && #[trigger] is_coordinate_word(s.subrange(0, i)) && #[trigger] is_coordinate_word(
                s.subrange(i + 1, j),
            ) && is_maven_version(s.subrange(j + 1, s.len() as int));
        let v = s.subrange(j + 1, s.len() as int);
        let (a, b) = choose|a: int, b: int|
            0 < a && a + 1 < b <= v.len() && #[trigger] is_ascii_number(v.subrange(0, a)) && v[a]
                == '.' && #[trigger] is_ascii_number(v.subrange(a + 1, b)) && is_version_tail(
                v.subrange(b, v.len() as int),
            );
        assert forall|k: int| 0 <= k < s.len() implies ascii_coordinate_char(#[trigger] s[k])
            || s[k] == ':' by {
            if k < i {
                assert(is_coordinate_char(s.subrange(0, i)[k]));
            } else if i < k < j {
                assert(is_coordinate_char(s.subrange(i + 1, j)[k - i - 1]));
            } else if k > j {
                let m = k - j - 1;
                assert(s[k] == v[m]);
                if m < a {
                    assert(is_ascii_digit(v.subrange(0, a)[m]));
                } else if a < m < b {
                    assert(is_ascii_digit(v.subrange(a + 1, b)[m - a - 1]));
                } else if m >= b {
                    assert(is_coordinate_char(v.subrange(b, v.len() as int)[m - b]));
                }
            }
        }
    }
}

} // verus!
