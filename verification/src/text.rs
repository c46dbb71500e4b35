//! Character-level access to strings.

use vstd::prelude::*;

verus! {

broadcast use vstd::string::group_string_axioms;

/// The characters of `s`, in order.
pub fn chars_of(s: &str) -> (v: Vec<char>)
    ensures
        v@ == s@,
{
    let mut v: Vec<char> = Vec::new();
    for c in it: s.chars()
        invariant
            it.seq() == s@,
            v@ == it.seq().take(it.index() as int),
    {
        v.push(c);
    }
    v
}

/// The characters of `s` from index `from` up to (not including) `to`, as a new `String`.
pub fn string_of(s: &str, from: usize, to: usize) -> (r: String)
    requires
        from <= to <= s@.len(),
    ensures
        r@ == s@.subrange(from as int, to as int),
{
    let part = s.substring_char(from, to);
    part.to_string()
}

/// Whether `v` holds the characters of `b`.
pub fn chars_equal(v: &Vec<char>, b: &str) -> (r: bool)
    ensures
        r == (v@ == b@),
{
    let bv = chars_of(b);
    if v.len() != bv.len() {
        return false;
    }
    let mut i: usize = 0;
    while i < v.len()
        invariant
            bv@ == b@,
            v.len() == bv.len(),
            i <= v.len(),
            forall|k: int| 0 <= k < i ==> v@[k] == bv@[k],
        decreases v.len() - i,
    {
        if v[i] != bv[i] {
            return false;
        }
        i += 1;
    }
    assert(v@ =~= bv@);
    true
}

} // verus!
