//! File-system paths, built with `std::path::PathBuf`.

use vstd::prelude::*;

use std::path::PathBuf;

verus! {

#[verifier::external_type_specification]
#[verifier::external_body]
pub struct ExPathBuf(PathBuf);

/// The components of a path, each as text, as `Path::components` lists them.
pub uninterp spec fn path_components(p: PathBuf) -> Seq<Seq<char>>;

/// The text of a path (`Path::as_os_str`, read as UTF-8, which a path made
/// of `str` parts is).
pub uninterp spec fn path_text(p: PathBuf) -> Seq<char>;

/// The separator `PathBuf::push` puts between the text of `p` and a relative
/// part: `std::path::MAIN_SEPARATOR`, which is the same whatever `p` is.
pub uninterp spec fn separator_after(p: PathBuf) -> char;

/// `/` or `\`: `std::path::MAIN_SEPARATOR` is one of them.
pub open spec fn is_path_separator(c: char) -> bool {
    c == '/' || c == '\\'
}

/// The text of a path after a plain component `part` is joined to a path
/// with text `t` that does not end in a separator: `part` itself after an
/// empty path, else `t`, one separator `c` and `part`.
pub open spec fn joined_text(t: Seq<char>, c: char, part: Seq<char>) -> Seq<char> {
    if t.len() == 0 {
        part
    } else {
        t.push(c) + part
    }
}

/// The text of a relative path with no prefix and no trailing separator:
/// it holds no `:` (which starts a drive prefix on Windows), and, unless it
/// is empty, neither starts nor ends with `/` or `\` (a root, or the start
/// of a UNC or verbatim prefix such as `\\?\C:\`, starts with one).
pub open spec fn is_plain_relative_text(t: Seq<char>) -> bool {
    &&& forall|i: int| 0 <= i < t.len() ==> #[trigger] t[i] != ':'
    &&& t.len() > 0 ==> !is_path_separator(t[0]) && !is_path_separator(t.last())
}

/// A text that, joined to a path, names one component: not empty, and free
/// of the separators `/` and `\` and of `:` (which starts a drive prefix on
/// Windows).
pub open spec fn is_plain_component(t: Seq<char>) -> bool {
    &&& t.len() > 0
    &&& forall|i: int| 0 <= i < t.len() ==> #[trigger] t[i] != '/' && t[i] != '\\' && t[i] != ':'
}

/// The components of a path after a plain component `part` is joined to a
/// path with components `cs`: `part` is added, except that `.` is normalized
/// away where it does not stand at the beginning.
pub open spec fn pushed(cs: Seq<Seq<char>>, part: Seq<char>) -> Seq<Seq<char>> {
    if part == seq!['.'] && cs.len() > 0 {
        cs
    } else {
        cs.push(part)
    }
}

/// `PathBuf::new`.
///
/// Trusted: claims that the new path has no components and no text (the
/// documentation: "Allocates an empty PathBuf").
#[verifier::external_body]
pub fn new_path() -> (r: PathBuf)
    ensures
        path_components(r) == Seq::<Seq<char>>::empty(),
        path_text(r) == Seq::<char>::empty(),
{
    PathBuf::new()
}

/// `Path::join`.
///
/// Trusted: claims that joining a plain component (`is_plain_component`) to
/// a base whose text is relative, has no prefix and does not end in a
/// separator (`is_plain_relative_text`) adds it as one more component, `.`
/// being dropped where other components come before it (`Path::components`:
/// "Occurrences of . are normalized away, except if they are at the
/// beginning of the path"; `..` is kept); and that the text is the part
/// itself after an empty base, else the base, the separator
/// (`MAIN_SEPARATOR`, `/` or `\`) and the part. Joining anything else (an
/// absolute part, which replaces the base, a part with separators, or a base
/// with a Windows prefix, which `push` may normalize) is left unsaid.
#[verifier::external_body]
pub fn join_path(base: &PathBuf, part: &str) -> (r: PathBuf)
    ensures
        is_plain_component(part@) && is_plain_relative_text(path_text(*base)) ==> path_components(r)
            == pushed(path_components(*base), part@),
        is_plain_component(part@) && is_plain_relative_text(path_text(*base)) ==> path_text(r)
            == joined_text(path_text(*base), separator_after(*base), part@),
        is_plain_component(part@) && is_plain_relative_text(path_text(*base)) ==> separator_after(r)
            == separator_after(*base) && is_path_separator(separator_after(r)),
{
    base.join(part)
}

/// Whether `base` is made of the first components of `path`, as
/// `Path::starts_with` tells.
pub uninterp spec fn path_has_prefix(path: PathBuf, base: PathBuf) -> bool;

/// `Path::starts_with`.
///
/// Trusted: claims that the answer is what `path_has_prefix` names.
#[verifier::external_body]
pub fn path_starts_with(path: &PathBuf, base: &PathBuf) -> (r: bool)
    ensures
        r == path_has_prefix(*path, *base),
{
    path.starts_with(base)
}

} // verus!
