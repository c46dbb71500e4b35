use carbon::java::{JavaVersion, JavaVersionError};
use carbon::maven::is_maven_coordinates;
use regex::Regex;

/// Reads a version by running the pattern with the `regex` crate.
fn read_with_regex(re: &Regex, s: &str) -> Result<JavaVersion, JavaVersionError> {
    let captures = match re.captures(s) {
        Some(c) => c,
        None => return Err(JavaVersionError::Unrecognized),
    };
    let text = |name: &str| captures.name(name).map(|m| m.as_str().to_string());
    let major = text("major").unwrap().parse::<u8>().map_err(|_| JavaVersionError::InvalidMajor)?;
    let minor = text("minor").unwrap().parse::<u8>().map_err(|_| JavaVersionError::InvalidMinor)?;
    Ok(JavaVersion {
        major,
        minor: Some(minor),
        patch: text("patch"),
        update_number: text("update_number"),
        prerelease: text("prerelease"),
        build_metadata: text("build_metadata"),
    })
}

struct Lcg(u64);

impl Lcg {
    fn next(&mut self, bound: usize) -> usize {
        self.0 = self.0.wrapping_mul(6364136223846793005).wrapping_add(1442695040888963407);
        ((self.0 >> 33) % bound as u64) as usize
    }
}

fn random_text(rng: &mut Lcg, alphabet: &[&str], max_len: usize) -> String {
    let len = rng.next(max_len + 1);
    (0..len).map(|_| alphabet[rng.next(alphabet.len())]).collect()
}

#[test]
fn version_grammar_agrees_with_regex() {
    let re = Regex::new(
        r#"^(?P<major>0|[1-9]\d*)\.(?P<minor>0|[1-9]\d*)\.(?P<patch>0|[1-9]\d*(?:\.[0-9]+)?)(?:_(?P<update_number>[0-9]+)?)?(?:-(?P<prerelease>(?:0|[1-9]\d*|\d*[a-zA-Z-][0-9a-zA-Z-]*)(?:\.(?:0|[1-9]\d*|\d*[a-zA-Z-][0-9a-zA-Z-]*))*))?(?:\+(?P<build_metadata>[0-9a-zA-Z-]+(?:\.[0-9a-zA-Z-]+)*))?"#,
    )
    .unwrap();
    let alphabet = ["0", "1", "2", "9", ".", "_", "-", "+", "a", "Z", "\u{663}", " ", "x"];
    let mut rng = Lcg(7);
    for round in 0..60000 {
        let prefix = if round % 2 == 0 {
            ["1.2.", "17.0.", "0.0.", "255.1.", "1.8.0"][rng.next(5)]
        } else {
            ""
        };
        let s = format!("{prefix}{}", random_text(&mut rng, &alphabet, 14));
        assert_eq!(JavaVersion::try_from(s.as_str()), read_with_regex(&re, &s), "on {s:?}");
    }
}

#[test]
fn coordinate_shape_agrees_with_regex() {
    let re = Regex::new(
        r#"^[a-zA-Z0-9._-]+:[a-zA-Z0-9._-]+:[0-9]+\.[0-9]+(\.[0-9]+)?(-[a-zA-Z0-9._-]+)*(\.[a-zA-Z0-9._-]+)*$"#,
    )
    .unwrap();
    let alphabet = ["a", "Z", "0", "7", ".", "_", "-", ":", " ", "+"];
    let mut rng = Lcg(11);
    for round in 0..60000 {
        let prefix = if round % 2 == 0 { ["a:b:", "com.x:y-z:1.", "g:a:10.2"][rng.next(3)] } else { "" };
        let s = format!("{prefix}{}", random_text(&mut rng, &alphabet, 12));
        assert_eq!(is_maven_coordinates(&s), re.is_match(&s), "on {s:?}");
    }
}
