//! Java runtimes known to the launcher: where they are, what they run on,
//! how they came to be known, and which version they report.

pub mod classes;
pub mod round_trip;
pub mod trailing;
pub mod version;

use vstd::prelude::*;

use crate::text::{chars_equal, chars_of, string_of};
use crate::unicode::{ascii_lower, is_ascii_text, lowercase_chars, lowercase_text};
use crate::scan::is_ascii_digit;
use self::version::{match_version, version_layout, Layout};

verus! {

broadcast use vstd::string::group_string_axioms;

// ---------------------------------------------------------------------------
// Version strings.

/// The version a Java runtime reports, split into the parts of its version
/// string.
#[derive(PartialEq, Eq, Debug, Clone)]
pub struct JavaVersion {
    pub major: u8,
    pub minor: Option<u8>,
    pub patch: Option<String>,
    pub update_number: Option<String>,
    pub prerelease: Option<String>,
    pub build_metadata: Option<String>,
}

/// A `JavaVersion` with its strings taken as character sequences.
pub struct JavaVersionView {
    pub major: u8,
    pub minor: Option<u8>,
    pub patch: Option<Seq<char>>,
    pub update_number: Option<Seq<char>>,
    pub prerelease: Option<Seq<char>>,
    pub build_metadata: Option<Seq<char>>,
}

pub open spec fn opt_string_view(o: Option<String>) -> Option<Seq<char>> {
    match o {
        Some(t) => Some(t@),
        None => None,
    }
}

impl View for JavaVersion {
    type V = JavaVersionView;

    open spec fn view(&self) -> JavaVersionView {
        JavaVersionView {
            major: self.major,
            minor: self.minor,
            patch: opt_string_view(self.patch),
            update_number: opt_string_view(self.update_number),
            prerelease: opt_string_view(self.prerelease),
            build_metadata: opt_string_view(self.build_metadata),
        }
    }
}

/// Why a string is not a Java version.
#[derive(PartialEq, Eq, Debug, Clone, Copy, Structural)]
pub enum JavaVersionError {
    /// The string does not start with a version.
    Unrecognized,
    /// The major version does not fit in a `u8`, or holds digits beyond ASCII.
    InvalidMajor,
    /// The minor version does not fit in a `u8`, or holds digits beyond ASCII.
    InvalidMinor,
}

pub open spec fn digit_value(c: char) -> int {
    c as int - '0' as int
}

/// The number that a string of decimal digits denotes.
pub open spec fn decimal_value(t: Seq<char>) -> int
    decreases t.len(),
{
    if t.len() == 0 {
        0
    } else {
        decimal_value(t.drop_last()) * 10 + digit_value(t.last())
    }
}

pub open spec fn all_ascii_digits(t: Seq<char>) -> bool {
    forall|i: int| 0 <= i < t.len() ==> is_ascii_digit(#[trigger] t[i])
}

/// The `u8` that a non-empty run of digits denotes: ASCII digits only, at
/// most 255.
pub open spec fn u8_of_text(t: Seq<char>) -> Option<u8> {
    if t.len() > 0 && all_ascii_digits(t) && decimal_value(t) <= 255 {
        Some(decimal_value(t) as u8)
    } else {
        None
    }
}

pub open spec fn span_text(s: Seq<char>, span: (int, int)) -> Seq<char> {
    s.subrange(span.0, span.1)
}

pub open spec fn opt_span_text(s: Seq<char>, span: Option<(int, int)>) -> Option<Seq<char>> {
    match span {
        Some(p) => Some(span_text(s, p)),
        None => None,
    }
}

/// The version that `s` holds, read with the grammar of `version`: the
/// major and minor parts as numbers, the other parts as the text they span.
pub open spec fn java_version_from_layout(s: Seq<char>, l: Layout) -> Result<
    JavaVersionView,
    JavaVersionError,
> {
    match u8_of_text(span_text(s, l.major)) {
        None => Err(JavaVersionError::InvalidMajor),
        Some(major) => match u8_of_text(span_text(s, l.minor)) {
            None => Err(JavaVersionError::InvalidMinor),
            Some(minor) => Ok(
                JavaVersionView {
                    major,
                    minor: Some(minor),
                    patch: Some(span_text(s, l.patch)),
                    update_number: opt_span_text(s, l.update_number),
                    prerelease: opt_span_text(s, l.prerelease),
                    build_metadata: opt_span_text(s, l.build_metadata),
                },
            ),
        },
    }
}

/// What reading `s` as a Java version gives.
pub open spec fn java_version_of(s: Seq<char>) -> Result<JavaVersionView, JavaVersionError> {
    match version_layout(s) {
        None => Err(JavaVersionError::Unrecognized),
        Some(l) => java_version_from_layout(s, l),
    }
}

pub proof fn lemma_decimal_prefix(t: Seq<char>, k: int)
    requires
        0 <= k <= t.len(),
        all_ascii_digits(t),
    ensures
        0 <= decimal_value(t.take(k)) <= decimal_value(t),
    decreases t.len(),
{
    if k == t.len() {
        assert(t.take(k) =~= t);
        if t.len() > 0 {
            lemma_decimal_prefix(t.drop_last(), 0);
            assert(t.drop_last().take(0) =~= t.take(0));
            assert(is_ascii_digit(t[t.len() - 1]));
        }
    } else {
        let u = t.drop_last();
        assert(all_ascii_digits(u)) by {
            assert forall|i: int| 0 <= i < u.len() implies is_ascii_digit(#[trigger] u[i]) by {
                assert(u[i] == t[i]);
            }
        }
        lemma_decimal_prefix(u, k);
        assert(u.take(k) =~= t.take(k));
        assert(is_ascii_digit(t[t.len() - 1]));
        lemma_decimal_prefix(u, u.len() as int);
        assert(u.take(u.len() as int) =~= u);
    }
}

/// Reads `s[from..to]` as a `u8`.
fn read_u8(s: &Vec<char>, from: usize, to: usize) -> (r: Option<u8>)
    requires
        from <= to <= s@.len(),
    ensures
        r == u8_of_text(s@.subrange(from as int, to as int)),
{
    let ghost t = s@.subrange(from as int, to as int);
    if from == to {
        return None;
    }
    let mut v: u32 = 0;
    let mut i = from;
    while i < to
        invariant
            from <= i <= to <= s@.len(),
            t == s@.subrange(from as int, to as int),
            all_ascii_digits(t.take(i - from)),
            v == decimal_value(t.take(i - from)),
            v <= 255,
        decreases to - i,
    {
        let c = s[i];
        if !('0' <= c && c <= '9') {
            assert(!is_ascii_digit(t[i - from]));
            return None;
        }
        let ghost prev = t.take(i - from);
        let ghost next = t.take(i - from + 1);
        assert(next.drop_last() =~= prev);
        assert(next.last() == c);
        v = v * 10 + (c as u32 - '0' as u32);
        i += 1;
        assert(all_ascii_digits(next)) by {
            assert forall|k: int| 0 <= k < next.len() implies is_ascii_digit(#[trigger] next[k]) by {
                if k < prev.len() {
                    assert(next[k] == prev[k]);
                }
            }
        }
        if v > 255 {
            proof {
                if all_ascii_digits(t) {
                    lemma_decimal_prefix(t, i - from);
                }
            }
            return None;
        }
    }
    assert(t.take(to - from) =~= t);
    Some(v as u8)
}

/// Whether reading the characters of `t` one by one into a `u8` goes past
/// 255 before it meets one that is not an ASCII digit.
pub open spec fn overflows_first(t: Seq<char>) -> bool {
    exists|j: int|
        0 <= j < t.len() && all_ascii_digits(#[trigger] t.take(j + 1)) && decimal_value(
            t.take(j + 1),
        ) > 255
}

/// The text of the error that parsing `t` as a `u8` gives, where it fails:
/// too large, or an invalid digit, whichever the reading meets first.
pub open spec fn int_error_text(t: Seq<char>) -> Seq<char> {
    if overflows_first(t) {
        "number too large to fit in target type"@
    } else {
        "invalid digit found in string"@
    }
}

/// The text an error reading `s` is reported with.
pub open spec fn error_text(e: JavaVersionError, s: Seq<char>) -> Seq<char> {
    match e {
        JavaVersionError::Unrecognized => "Could not parse java version in string: "@ + s,
        JavaVersionError::InvalidMajor => int_error_text(span_text(s, version_layout(s)->0.major)),
        JavaVersionError::InvalidMinor => int_error_text(span_text(s, version_layout(s)->0.minor)),
    }
}

/// The error text of parsing `s[from..to]`, which does not parse, as a `u8`.
fn int_error_message(s: &Vec<char>, from: usize, to: usize) -> (r: String)
    requires
        from < to <= s@.len(),
        u8_of_text(s@.subrange(from as int, to as int)) is None,
    ensures
        r@ == int_error_text(s@.subrange(from as int, to as int)),
{
    let ghost t = s@.subrange(from as int, to as int);
    let mut v: u32 = 0;
    let mut i = from;
    while i < to
        invariant
            from <= i <= to <= s@.len(),
            t == s@.subrange(from as int, to as int),
            all_ascii_digits(t.take(i - from)),
            v == decimal_value(t.take(i - from)),
            v <= 255,
            forall|j: int| 0 <= j < i - from ==> decimal_value(#[trigger] t.take(j + 1)) <= 255,
        decreases to - i,
    {
        let c = s[i];
        if !('0' <= c && c <= '9') {
            proof {
                assert forall|j: int| 0 <= j < t.len() implies !(all_ascii_digits(
                    #[trigger] t.take(j + 1),
                ) && decimal_value(t.take(j + 1)) > 255) by {
                    if j >= i - from {
                        assert(t.take(j + 1)[i - from] == t[i - from]);
                        assert(!is_ascii_digit(t.take(j + 1)[i - from]));
                    }
                }
                reveal_strlit("invalid digit found in string");
            }
            return "invalid digit found in string".to_string();
        }
        let ghost prev = t.take(i - from);
        let ghost next = t.take(i - from + 1);
        assert(next.drop_last() =~= prev);
        assert(next.last() == c);
        v = v * 10 + (c as u32 - '0' as u32);
        i += 1;
        assert(all_ascii_digits(next)) by {
            assert forall|k: int| 0 <= k < next.len() implies is_ascii_digit(#[trigger] next[k]) by {
                if k < prev.len() {
                    assert(next[k] == prev[k]);
                }
            }
        }
        if v > 255 {
            assert(overflows_first(t)) by {
                assert(t.take(i - from - 1 + 1) == next);
            }
            return "number too large to fit in target type".to_string();
        }
    }
    assert(t.take(to - from) =~= t);
    assert(false);
    String::new()
}

impl JavaVersionError {
    /// The text the error is reported with for the string `version_string`
    /// that gave it: for an unrecognized string, that it could not be parsed;
    /// for a bad major or minor version, the error of parsing it as a `u8`.
    pub fn message(self, version_string: &str) -> (r: String)
        requires
            java_version_of(version_string@) == Err::<JavaVersionView, JavaVersionError>(self),
        ensures
            r@ == error_text(self, version_string@),
    {
        match self {
            JavaVersionError::Unrecognized => {
                let mut r = "Could not parse java version in string: ".to_string();
                r.append(version_string);
                r
            },
            JavaVersionError::InvalidMajor => {
                let s = chars_of(version_string);
                let sp = match_version(&s).unwrap();
                int_error_message(&s, sp.major.0, sp.major.1)
            },
            JavaVersionError::InvalidMinor => {
                let s = chars_of(version_string);
                let sp = match_version(&s).unwrap();
                int_error_message(&s, sp.minor.0, sp.minor.1)
            },
        }
    }
}

impl JavaVersion {
    /// Reads a Java version from the start of `version_string`; text after the
    /// version is ignored.
    pub fn try_from(version_string: &str) -> (r: Result<JavaVersion, JavaVersionError>)
        ensures
            match r {
                Ok(v) => java_version_of(version_string@) == Ok::<
                    JavaVersionView,
                    JavaVersionError,
                >(v@),
                Err(e) => java_version_of(version_string@) == Err::<
                    JavaVersionView,
                    JavaVersionError,
                >(e),
            },
    {
        let s = chars_of(version_string);
        let sp = match match_version(&s) {
            Some(sp) => sp,
            None => return Err(JavaVersionError::Unrecognized),
        };
        let major = match read_u8(&s, sp.major.0, sp.major.1) {
            Some(m) => m,
            None => return Err(JavaVersionError::InvalidMajor),
        };
        let minor = match read_u8(&s, sp.minor.0, sp.minor.1) {
            Some(m) => m,
            None => return Err(JavaVersionError::InvalidMinor),
        };
        let patch = string_of(version_string, sp.patch.0, sp.patch.1);
        let update_number = match sp.update_number {
            Some(u) => Some(string_of(version_string, u.0, u.1)),
            None => None,
        };
        let prerelease = match sp.prerelease {
            Some(u) => Some(string_of(version_string, u.0, u.1)),
            None => None,
        };
        let build_metadata = match sp.build_metadata {
            Some(u) => Some(string_of(version_string, u.0, u.1)),
            None => None,
        };
        let v = JavaVersion {
            major,
            minor: Some(minor),
            patch: Some(patch),
            update_number,
            prerelease,
            build_metadata,
        };
        assert(java_version_of(version_string@) == Ok::<JavaVersionView, JavaVersionError>(v@));
        Ok(v)
    }

    /// The version `major` with no other part.
    pub fn from_major(major: u8) -> (r: JavaVersion)
        ensures
            r@ == (JavaVersionView {
                major,
                minor: None,
                patch: None,
                update_number: None,
                prerelease: None,
                build_metadata: None,
            }),
    {
        JavaVersion {
            major,
            minor: None,
            patch: None,
            update_number: None,
            prerelease: None,
            build_metadata: None,
        }
    }
}


// ---------------------------------------------------------------------------
// Writing versions back as text.

/// The ASCII digit for `d`, which is below ten.
pub open spec fn digit_char(d: int) -> char {
    if d == 0 { '0' }
    else if d == 1 { '1' }
    else if d == 2 { '2' }
    else if d == 3 { '3' }
    else if d == 4 { '4' }
    else if d == 5 { '5' }
    else if d == 6 { '6' }
    else if d == 7 { '7' }
    else if d == 8 { '8' }
    else { '9' }
}

/// The decimal notation of `n`, without leading zeros.
pub open spec fn decimal_text(n: nat) -> Seq<char>
    decreases n,
{
    if n < 10 {
        seq![digit_char(n as int)]
    } else {
        decimal_text(n / 10).push(digit_char((n % 10) as int))
    }
}

pub open spec fn opt_text(prefix: char, part: Option<Seq<char>>) -> Seq<char> {
    match part {
        Some(t) => seq![prefix] + t,
        None => Seq::empty(),
    }
}

/// The text a version is written as: `major.minor.patch`, then `_update`,
/// `-prerelease` and `+build` for the parts that are there; a missing minor
/// is written as `0` and a missing patch as nothing.
pub open spec fn version_text(v: JavaVersionView) -> Seq<char> {
    decimal_text(v.major as nat) + seq!['.'] + decimal_text(
        match v.minor {
            Some(m) => m as nat,
            None => 0,
        },
    ) + seq!['.'] + match v.patch {
        Some(p) => p,
        None => Seq::empty(),
    } + opt_text('_', v.update_number) + opt_text('-', v.prerelease) + opt_text(
        '+',
        v.build_metadata,
    )
}

fn digit_str(d: u8) -> (r: &'static str)
    requires
        d < 10,
    ensures
        r@ == seq![digit_char(d as int)],
{
    if d == 0 {
        proof { reveal_strlit("0"); }
        "0"
    } else if d == 1 {
        proof { reveal_strlit("1"); }
        "1"
    } else if d == 2 {
        proof { reveal_strlit("2"); }
        "2"
    } else if d == 3 {
        proof { reveal_strlit("3"); }
        "3"
    } else if d == 4 {
        proof { reveal_strlit("4"); }
        "4"
    } else if d == 5 {
        proof { reveal_strlit("5"); }
        "5"
    } else if d == 6 {
        proof { reveal_strlit("6"); }
        "6"
    } else if d == 7 {
        proof { reveal_strlit("7"); }
        "7"
    } else if d == 8 {
        proof { reveal_strlit("8"); }
        "8"
    } else {
        proof { reveal_strlit("9"); }
        "9"
    }
}

fn push_decimal(out: &mut String, n: u8)
    ensures
        final(out)@ == old(out)@ + decimal_text(n as nat),
{
    let ghost start = out@;
    proof {
        reveal_with_fuel(decimal_text, 3);
        assert(n / 10 / 10 == n / 100);
    }
    if n >= 100 {
        out.append(digit_str(n / 100));
        out.append(digit_str(n / 10 % 10));
        out.append(digit_str(n % 10));
        assert(decimal_text((n / 10) as nat) =~= seq![digit_char((n / 100) as int)].push(
            digit_char((n / 10 % 10) as int),
        ));
        assert(decimal_text(n as nat) =~= decimal_text((n / 10) as nat).push(
            digit_char((n % 10) as int),
        ));
        assert(out@ =~= start + decimal_text(n as nat));
    } else if n >= 10 {
        out.append(digit_str(n / 10));
        out.append(digit_str(n % 10));
        assert(decimal_text(n as nat) =~= seq![digit_char((n / 10) as int)].push(
            digit_char((n % 10) as int),
        ));
        assert(out@ =~= start + decimal_text(n as nat));
    } else {
        out.append(digit_str(n));
    }
}

fn push_part(out: &mut String, prefix: &str, part: &Option<String>)
    requires
        prefix@.len() == 1,
    ensures
        final(out)@ == old(out)@ + opt_text(prefix@[0], opt_string_view(*part)),
{
    match part {
        Some(t) => {
            out.append(prefix);
            out.append(t.as_str());
            assert(prefix@ =~= seq![prefix@[0]]);
        },
        None => {},
    }
}

impl JavaVersion {
    /// Writes the version as text (see `version_text`).
    pub fn into_string(self) -> (r: String)
        ensures
            r@ == version_text(self@),
    {
        let mut out = String::new();
        push_decimal(&mut out, self.major);
        proof { reveal_strlit("."); reveal_strlit("_"); reveal_strlit("-"); reveal_strlit("+"); }
        out.append(".");
        let minor = match self.minor {
            Some(m) => m,
            None => 0,
        };
        push_decimal(&mut out, minor);
        out.append(".");
        match &self.patch {
            Some(p) => out.append(p.as_str()),
            None => {},
        }
        push_part(&mut out, "_", &self.update_number);
        push_part(&mut out, "-", &self.prerelease);
        push_part(&mut out, "+", &self.build_metadata);
        out
    }
}


// ---------------------------------------------------------------------------
// Architectures and component kinds.

/// The two Java major versions the launcher ships.
#[derive(PartialEq, Eq, Debug, Clone, Copy, Structural)]
pub enum JavaMajorVer {
    Version8,
    Version17,
}

/// The processor architecture a Java runtime is built for.
#[derive(PartialEq, Eq, Debug, Clone, Copy, Structural)]
pub enum JavaArch {
    Amd64,
    X86,
    Aarch64,
}

/// How the launcher came to know a Java runtime.
#[derive(PartialEq, Eq, Debug, Clone, Copy, Structural)]
pub enum JavaComponentType {
    Local,
    Managed,
    Custom,
}

/// The name an architecture is stored under.
pub open spec fn arch_name(a: JavaArch) -> Seq<char> {
    match a {
        JavaArch::Amd64 => "amd64"@,
        JavaArch::X86 => "x86"@,
        JavaArch::Aarch64 => "aarch64"@,
    }
}

/// The architecture stored under the lowercase name `l`, if any.
pub open spec fn arch_of_lowercase(l: Seq<char>) -> Option<JavaArch> {
    if l == "amd64"@ {
        Some(JavaArch::Amd64)
    } else if l == "x86"@ {
        Some(JavaArch::X86)
    } else if l == "aarch64"@ {
        Some(JavaArch::Aarch64)
    } else {
        None
    }
}

/// The name a component kind is stored under.
pub open spec fn component_type_name(t: JavaComponentType) -> Seq<char> {
    match t {
        JavaComponentType::Local => "local"@,
        JavaComponentType::Managed => "managed"@,
        JavaComponentType::Custom => "custom"@,
    }
}

/// The component kind read from the lowercase name `l`: only `local` and
/// `managed` are read back; `custom` is written but never read.
pub open spec fn component_type_of_lowercase(l: Seq<char>) -> Option<JavaComponentType> {
    if l == "local"@ {
        Some(JavaComponentType::Local)
    } else if l == "managed"@ {
        Some(JavaComponentType::Managed)
    } else {
        None
    }
}

fn arch_of_lowercase_exec(l: &Vec<char>) -> (r: Option<JavaArch>)
    ensures
        r == arch_of_lowercase(l@),
{
    if chars_equal(l, "amd64") {
        Some(JavaArch::Amd64)
    } else if chars_equal(l, "x86") {
        Some(JavaArch::X86)
    } else if chars_equal(l, "aarch64") {
        Some(JavaArch::Aarch64)
    } else {
        None
    }
}

fn component_type_of_lowercase_exec(l: &Vec<char>) -> (r: Option<JavaComponentType>)
    ensures
        r == component_type_of_lowercase(l@),
{
    if chars_equal(l, "local") {
        Some(JavaComponentType::Local)
    } else if chars_equal(l, "managed") {
        Some(JavaComponentType::Managed)
    } else {
        None
    }
}

impl JavaArch {
    /// The architecture named by `s`, in any case.
    pub fn from(s: &str) -> (r: JavaArch)
        requires
            arch_of_lowercase(lowercase_text(s@)) is Some,
        ensures
            arch_of_lowercase(lowercase_text(s@)) == Some(r),
    {
        let l = lowercase_chars(s);
        arch_of_lowercase_exec(&l).unwrap()
    }

    /// The architecture named by `s`, in any case, or `None` where `s` names none.
    pub fn try_from_str(s: &str) -> (r: Option<JavaArch>)
        ensures
            r == arch_of_lowercase(lowercase_text(s@)),
    {
        let l = lowercase_chars(s);
        if arch_of_lowercase_exec(&l).is_some() {
            Some(JavaArch::from(s))
        } else {
            None
        }
    }

    /// The name the architecture is stored under.
    pub fn into_str(self) -> (r: &'static str)
        ensures
            r@ == arch_name(self),
    {
        match self {
            JavaArch::Amd64 => "amd64",
            JavaArch::X86 => "x86",
            JavaArch::Aarch64 => "aarch64",
        }
    }
}

impl JavaComponentType {
    /// The component kind named by `s`, in any case; only `local` and
    /// `managed` are accepted.
    pub fn from(s: &str) -> (r: JavaComponentType)
        requires
            component_type_of_lowercase(lowercase_text(s@)) is Some,
        ensures
            component_type_of_lowercase(lowercase_text(s@)) == Some(r),
    {
        let l = lowercase_chars(s);
        component_type_of_lowercase_exec(&l).unwrap()
    }

    /// The component kind named by `s`, in any case, or `None` where `s` is
    /// neither `local` nor `managed`.
    pub fn try_from_str(s: &str) -> (r: Option<JavaComponentType>)
        ensures
            r == component_type_of_lowercase(lowercase_text(s@)),
    {
        let l = lowercase_chars(s);
        if component_type_of_lowercase_exec(&l).is_some() {
            Some(JavaComponentType::from(s))
        } else {
            None
        }
    }

    /// The name the component kind is stored under.
    pub fn into_string(self) -> (r: String)
        ensures
            r@ == component_type_name(self),
    {
        let name = match self {
            JavaComponentType::Local => "local",
            JavaComponentType::Managed => "managed",
            JavaComponentType::Custom => "custom",
        };
        name.to_string()
    }
}

// ---------------------------------------------------------------------------
// Components.

/// A Java runtime as the launcher's database stores it: every field as text,
/// besides the flag that says whether it still works.
pub struct JavaData {
    pub path: String,
    pub arch: String,
    pub component_type: String,
    pub full_version: String,
    pub is_valid: bool,
}

/// A Java runtime the launcher knows of.
#[derive(PartialEq, Eq, Debug, Clone)]
pub struct JavaComponent {
    pub path: String,
    pub arch: JavaArch,
    /// Whether the component was added by hand or by the launcher.
    pub _type: JavaComponentType,
    pub version: JavaVersion,
}

/// A Java runtime with the flag that says whether it still works.
pub struct Java {
    pub component: JavaComponent,
    pub is_valid: bool,
}

/// Whether a stored row can be read as a component: a known architecture, a
/// kind that is read back, and a version string that reads.
pub open spec fn readable_data(d: JavaData) -> bool {
    &&& arch_of_lowercase(lowercase_text(d.arch@)) is Some
    &&& component_type_of_lowercase(lowercase_text(d.component_type@)) is Some
    &&& java_version_of(d.full_version@) is Ok
}

/// `c` is the component that the stored row `d` describes.
pub open spec fn component_of_data(d: JavaData, c: JavaComponent) -> bool {
    &&& c.path@ == d.path@
    &&& arch_of_lowercase(lowercase_text(d.arch@)) == Some(c.arch)
    &&& component_type_of_lowercase(lowercase_text(d.component_type@)) == Some(c._type)
    &&& java_version_of(d.full_version@) == Ok::<JavaVersionView, JavaVersionError>(c.version@)
}

fn version_of_readable(s: &str) -> (r: JavaVersion)
    requires
        java_version_of(s@) is Ok,
    ensures
        java_version_of(s@) == Ok::<JavaVersionView, JavaVersionError>(r@),
{
    match JavaVersion::try_from(s) {
        Ok(v) => v,
        Err(_) => {
            assert(false);
            JavaVersion::from_major(0)
        },
    }
}

impl JavaComponent {
    /// The component that a stored row describes.
    pub fn from(value: JavaData) -> (r: JavaComponent)
        requires
            readable_data(value),
        ensures
            component_of_data(value, r),
    {
        let arch = JavaArch::from(value.arch.as_str());
        let _type = JavaComponentType::from(value.component_type.as_str());
        let version = version_of_readable(value.full_version.as_str());
        JavaComponent { path: value.path, arch, _type, version }
    }

    /// The component that a stored row describes, or `None` where the row
    /// cannot be read.
    pub fn try_from_data(value: JavaData) -> (r: Option<JavaComponent>)
        ensures
            r is Some <==> readable_data(value),
            r matches Some(c) ==> component_of_data(value, c),
    {
        let arch_ok = JavaArch::try_from_str(value.arch.as_str()).is_some();
        let type_ok = JavaComponentType::try_from_str(value.component_type.as_str()).is_some();
        let version_ok = JavaVersion::try_from(value.full_version.as_str()).is_ok();
        if arch_ok && type_ok && version_ok {
            Some(JavaComponent::from(value))
        } else {
            None
        }
    }
}

impl Java {
    /// The runtime that a stored row describes.
    pub fn from(value: JavaData) -> (r: Java)
        requires
            readable_data(value),
        ensures
            r.is_valid == value.is_valid,
            component_of_data(value, r.component),
    {
        let is_valid = value.is_valid;
        Java { component: JavaComponent::from(value), is_valid }
    }

    /// The runtime that a stored row describes, or `None` where the row
    /// cannot be read.
    pub fn try_from_data(value: JavaData) -> (r: Option<Java>)
        ensures
            r is Some <==> readable_data(value),
            r matches Some(j) ==> j.is_valid == value.is_valid && component_of_data(
                value,
                j.component,
            ),
    {
        let is_valid = value.is_valid;
        match JavaComponent::try_from_data(value) {
            Some(component) => Some(Java { component, is_valid }),
            None => None,
        }
    }
}


// ---------------------------------------------------------------------------
// Laws of the stored names.

proof fn lemma_lowercase_of_lowercase_ascii(t: Seq<char>)
    requires
        forall|i: int| 0 <= i < t.len() ==> ('a' <= #[trigger] t[i] && t[i] <= 'z') || ('0' <= t[i]
            && t[i] <= '9'),
    ensures
        lowercase_text(t) == t,
{
    assert(is_ascii_text(t));
    assert(t.map_values(|c: char| ascii_lower(c)) =~= t);
}

/// The name an architecture is stored under is read back as that
/// architecture.
pub proof fn law_arch_name_read_back(a: JavaArch)
    ensures
        arch_of_lowercase(lowercase_text(arch_name(a))) == Some(a),
{
    reveal_strlit("amd64");
    reveal_strlit("x86");
    reveal_strlit("aarch64");
    lemma_lowercase_of_lowercase_ascii(arch_name(a));
}

/// The names `local` and `managed` are read back as the kinds they name;
/// `custom` is written but not read back.
pub proof fn law_component_type_name_read_back(t: JavaComponentType)
    ensures
        component_type_of_lowercase(lowercase_text(component_type_name(t))) == (match t {
            JavaComponentType::Custom => None,
            _ => Some(t),
        }),
{
    reveal_strlit("local");
    reveal_strlit("managed");
    reveal_strlit("custom");
    lemma_lowercase_of_lowercase_ascii(component_type_name(t));
}

/// A name that is read as an architecture is, lowercased, the name that
/// architecture is stored under.
pub proof fn law_read_arch_is_its_lowercase_name(s: Seq<char>)
    ensures
        arch_of_lowercase(lowercase_text(s)) matches Some(a) ==> arch_name(a) == lowercase_text(s),
{
}

/// A name that is read as a component kind is, lowercased, the name that
/// kind is stored under.
pub proof fn law_read_component_type_is_its_lowercase_name(s: Seq<char>)
    ensures
        component_type_of_lowercase(lowercase_text(s)) matches Some(t) ==> component_type_name(t)
            == lowercase_text(s),
{
}

} // verus!
