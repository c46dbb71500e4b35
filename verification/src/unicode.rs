//! Unicode character classes and case mapping, taken from `regex` and `std`.
//!
//! ASCII characters are classified by the library itself; the outside
//! functions are only consulted for characters beyond ASCII.

use vstd::prelude::*;

verus! {

/// Whether a character beyond ASCII belongs to the Unicode general category
/// `Nd` (decimal number), which is what `\d` matches in a `regex` pattern.
pub uninterp spec fn regex_decimal_digit(c: char) -> bool;

/// A decimal digit in the sense of `regex`'s Unicode-aware `\d`: ASCII `0`–`9`
/// among ASCII characters (no other ASCII character is in `Nd`), and the
/// category `Nd` beyond ASCII.
pub open spec fn is_regex_digit(c: char) -> bool {
    if (c as u32) < 128 {
        '0' <= c && c <= '9'
    } else {
        regex_decimal_digit(c)
    }
}

/// Asks `regex` whether the single character `c`, which is beyond ASCII,
/// matches `\d`.
///
/// Trusted: the contract claims that `regex::Regex::is_match` with the
/// pattern `\A\d\z` on the one-character text gives the same answer for the
/// same character every time (what `regex_decimal_digit` names).
#[verifier::external_body]
fn regex_matches_digit(c: char) -> (r: bool)
    requires
        (c as u32) >= 128,
    ensures
        r == regex_decimal_digit(c),
{
    let mut buf = [0u8; 4];
    regex::Regex::new(r"\A\d\z").unwrap().is_match(c.encode_utf8(&mut buf))
}

/// Classifies `c` as `\d` does.
pub fn is_digit_char(c: char) -> (r: bool)
    ensures
        r == is_regex_digit(c),
{
    if (c as u32) < 128 {
        '0' <= c && c <= '9'
    } else {
        regex_matches_digit(c)
    }
}

/// Unicode `White_Space`, which `char::is_whitespace` and `str::trim` go by:
/// tab, line feed, vertical tab, form feed, carriage return (U+0009 to
/// U+000D) and space among ASCII characters, and beyond ASCII next line
/// (U+0085), no-break space (U+00A0), ogham space mark (U+1680), the spaces
/// U+2000 to U+200A, line separator (U+2028), paragraph separator (U+2029),
/// narrow no-break space (U+202F), medium mathematical space (U+205F) and
/// ideographic space (U+3000).
pub open spec fn is_white_space(c: char) -> bool {
    let n = c as u32;
    ||| n == 0x20
    ||| (0x09 <= n && n <= 0x0D)
    ||| n == 0x85
    ||| n == 0xA0
    ||| n == 0x1680
    ||| (0x2000 <= n && n <= 0x200A)
    ||| n == 0x2028
    ||| n == 0x2029
    ||| n == 0x202F
    ||| n == 0x205F
    ||| n == 0x3000
}

/// Classifies `c` as `char::is_whitespace` does.
pub fn is_space_char(c: char) -> (r: bool)
    ensures
        r == is_white_space(c),
{
    let n = c as u32;
    n == 0x20 || (0x09 <= n && n <= 0x0D) || n == 0x85 || n == 0xA0 || n == 0x1680 || (0x2000
        <= n && n <= 0x200A) || n == 0x2028 || n == 0x2029 || n == 0x202F || n == 0x205F || n
        == 0x3000
}

/// The full Unicode lowercase mapping of a string that holds a character
/// beyond ASCII, as
/// `str::to_lowercase` computes it.
pub uninterp spec fn unicode_lowercase(s: Seq<char>) -> Seq<char>;

/// Lowercases `s`, which holds a character beyond ASCII, with
/// `str::to_lowercase`.
///
/// Trusted: the contract claims only that the result is a function of the
/// characters of `s` (what `unicode_lowercase` names); the mapping itself,
/// Unicode's `Lowercase` property with its special cases, is not written out.
#[verifier::external_body]
fn std_to_lowercase(s: &str) -> (r: String)
    requires
        !is_ascii_text(s@),
    ensures
        r@ == unicode_lowercase(s@),
{
    s.to_lowercase()
}

pub open spec fn is_ascii_char(c: char) -> bool {
    (c as u32) < 128
}

pub open spec fn is_ascii_text(s: Seq<char>) -> bool {
    forall|i: int| 0 <= i < s.len() ==> is_ascii_char(#[trigger] s[i])
}

/// ASCII lowercase of one character: `A`–`Z` become `a`–`z`.
pub open spec fn ascii_lower(c: char) -> char {
    if 'A' <= c && c <= 'Z' {
        ((c as u32) + 32) as char
    } else {
        c
    }
}

/// The lowercase of `s`: for a text of ASCII characters, where Unicode maps
/// `A`–`Z` to `a`–`z` and keeps every other character, the characters
/// lowercased one by one; beyond ASCII, Unicode's full mapping.
pub open spec fn lowercase_text(s: Seq<char>) -> Seq<char> {
    if is_ascii_text(s) {
        s.map_values(|c: char| ascii_lower(c))
    } else {
        unicode_lowercase(s)
    }
}

/// The lowercase of `s`, as `str::to_lowercase` gives it.
pub fn lowercase_chars(s: &str) -> (v: Vec<char>)
    ensures
        v@ == lowercase_text(s@),
{
    let cs = crate::text::chars_of(s);
    let mut i: usize = 0;
    while i < cs.len()
        invariant
            cs@ == s@,
            i <= cs.len(),
            forall|k: int| 0 <= k < i ==> is_ascii_char(#[trigger] cs@[k]),
        decreases cs.len() - i,
    {
        if (cs[i] as u32) >= 128 {
            assert(!is_ascii_char(cs@[i as int]));
            return crate::text::chars_of(std_to_lowercase(s).as_str());
        }
        i += 1;
    }
    let mut v: Vec<char> = Vec::new();
    let mut j: usize = 0;
    while j < cs.len()
        invariant
            cs@ == s@,
            is_ascii_text(s@),
            j <= cs.len(),
            v@ =~= cs@.take(j as int).map_values(|c: char| ascii_lower(c)),
        decreases cs.len() - j,
    {
        let c = cs[j];
        let l = if 'A' <= c && c <= 'Z' {
            ((c as u8) + 32) as char
        } else {
            c
        };
        v.push(l);
        j += 1;
        assert(cs@.take(j as int).drop_last() =~= cs@.take(j - 1));
    }
    assert(cs@.take(cs.len() as int) =~= cs@);
    v
}

} // verus!
