use carbon::maven::{is_maven_coordinates, parse_maven_coordinates, MavenCoordinates, MavenError};
use std::path::PathBuf;

#[test]
fn test_valid_coordinates() {
    assert!(is_maven_coordinates("com.example:example:1.0.0"));
    assert!(is_maven_coordinates("com.example:example:1.0"));
    assert!(is_maven_coordinates("com.example:example-something:1.0.final"));
    assert!(is_maven_coordinates("com.example:example-something:1.0.0.Final-beta.1"));
    assert!(is_maven_coordinates("com.example.example:example-example:1.0.0"));
    assert!(is_maven_coordinates("com.example.example:example-example:1.0.0-SNAPSHOT"));
    assert!(is_maven_coordinates("com.example.example:example-example:1.0.0-beta.1"));
}

#[test]
fn test_invalid_coordinates() {
    assert!(!is_maven_coordinates(""));
    assert!(!is_maven_coordinates("com.example:example:1"));
    assert!(!is_maven_coordinates("com.example:example"));
    assert!(!is_maven_coordinates("com.example:example:1.0.0:extra"));
}

#[test]
fn coordinates_shape_edges() {
    assert!(!is_maven_coordinates(":example:1.0"));
    assert!(!is_maven_coordinates("com::1.0"));
    assert!(!is_maven_coordinates("com:ex:1."));
    assert!(!is_maven_coordinates("com:ex:.1"));
    assert!(!is_maven_coordinates("com:ex:1.0-"));
    assert!(!is_maven_coordinates("com:ex:1.0."));
    assert!(!is_maven_coordinates("com:ex:1.0_x"));
    assert!(!is_maven_coordinates("com:ex:1.0a"));
    assert!(!is_maven_coordinates("com ex:ex:1.0"));
    assert!(!is_maven_coordinates(" com:ex:1.0"));
    assert!(is_maven_coordinates("c_m:e_x:10.20-_"));
    assert!(is_maven_coordinates("..:..:1.0.-"));
}

#[test]
fn test_parse_coordinates() {
    let coordinates = "com.example:example:1.0.0".to_string();
    let parsed_coordinates = parse_maven_coordinates(&coordinates).ok().unwrap();
    assert_eq!(parsed_coordinates.group_id, "com.example");
    assert_eq!(parsed_coordinates.artifact_id, "example");
    assert_eq!(parsed_coordinates.version, "1.0.0");

    let coordinates = "com.example.example:example-example:1.0.0-SNAPSHOT".to_string();
    let parsed_coordinates = parse_maven_coordinates(&coordinates).ok().unwrap();
    assert_eq!(parsed_coordinates.group_id, "com.example.example");
    assert_eq!(parsed_coordinates.artifact_id, "example-example");
    assert_eq!(parsed_coordinates.version, "1.0.0-SNAPSHOT");
}

#[test]
fn splitting_keeps_three_pieces() {
    let parsed = parse_maven_coordinates("a:b:c:d").ok().unwrap();
    assert_eq!((parsed.group_id.as_str(), parsed.artifact_id.as_str(), parsed.version.as_str()), ("a", "b", "c"));
    let parsed = parse_maven_coordinates("::").ok().unwrap();
    assert_eq!((parsed.group_id.as_str(), parsed.artifact_id.as_str(), parsed.version.as_str()), ("", "", ""));
    assert!(matches!(parse_maven_coordinates("a:b"), Err(MavenError::InvalidCoordinates)));
    assert!(matches!(parse_maven_coordinates(""), Err(MavenError::InvalidCoordinates)));
}

#[test]
fn test_try_from() {
    let coordinates = "com.example:example:1.0.0".to_string();
    let parsed_coordinates = MavenCoordinates::try_from(coordinates).ok().unwrap();
    assert_eq!(parsed_coordinates.group_id, "com.example");
    assert_eq!(parsed_coordinates.artifact_id, "example");
    assert_eq!(parsed_coordinates.version, "1.0.0");

    let coordinates = "".to_string();
    assert!(MavenCoordinates::try_from(coordinates).is_err());

    let coordinates = "com.example.example:example-example:1.0.0.0:extra".to_string();
    assert!(MavenCoordinates::try_from(coordinates).is_err());
}

#[test]
fn try_from_trims_white_space() {
    let parsed = MavenCoordinates::try_from("  \t com.example:example:1.0.0\n".to_string()).ok().unwrap();
    assert_eq!(parsed.group_id, "com.example");
    assert_eq!(parsed.version, "1.0.0");
    // No-break space and ideographic space are white space beyond ASCII.
    let parsed = MavenCoordinates::try_from("\u{a0}com.example:example:1.0.0\u{3000}".to_string()).ok().unwrap();
    assert_eq!(parsed.artifact_id, "example");
    // A zero-width space is not white space.
    assert!(MavenCoordinates::try_from("\u{200b}com.example:example:1.0.0".to_string()).is_err());
    assert!(MavenCoordinates::try_from(" \u{2003} ".to_string()).is_err());
}

#[test]
fn test_into_pathbuf() {
    let coordinates = "com.example:example:1.0.0".to_string();
    let parsed_coordinates = MavenCoordinates::try_from(coordinates).ok().unwrap();
    let path = parsed_coordinates.into_pathbuf();
    assert_eq!(path, PathBuf::from("com.example").join("example").join("1.0.0"));
    let names: Vec<String> =
        path.components().map(|c| c.as_os_str().to_string_lossy().into_owned()).collect();
    assert_eq!(names, vec!["com.example", "example", "1.0.0"]);
}

#[test]
fn read_coordinates_are_their_parts() {
    for text in [
        "com.example:example:1.0.0",
        "com.example:example-something:1.0.0.Final-beta.1",
        "a:b:0.0.-",
        "..:..:1.0",
    ] {
        let c = MavenCoordinates::try_from(format!(" {text}\t")).ok().unwrap();
        assert_eq!(format!("{}:{}:{}", c.group_id, c.artifact_id, c.version), text);
        let again = MavenCoordinates::try_from(text.to_string()).ok().unwrap();
        assert_eq!(again.version, c.version);
    }
}

#[test]
fn dot_parts_in_the_repository_path() {
    let names = |text: &str| -> Vec<String> {
        let path = MavenCoordinates::try_from(text.to_string()).ok().unwrap().into_pathbuf();
        path.components().map(|c| c.as_os_str().to_string_lossy().into_owned()).collect()
    };
    assert_eq!(names("..:..:1.0"), vec!["..", "..", "1.0"]);
    assert_eq!(names(".:a:1.0"), vec![".", "a", "1.0"]);
    assert_eq!(names("a:.:1.0"), vec!["a", "1.0"]);
}

#[test]
fn repository_path_text() {
    let sep = std::path::MAIN_SEPARATOR;
    let path = MavenCoordinates::try_from("com.example:example:1.0.0".to_string())
        .ok()
        .unwrap()
        .into_pathbuf();
    assert_eq!(path.to_str().unwrap(), format!("com.example{sep}example{sep}1.0.0"));
    let path = MavenCoordinates::try_from("a:.:1.0".to_string()).ok().unwrap().into_pathbuf();
    assert_eq!(path.to_str().unwrap(), format!("a{sep}.{sep}1.0"));
}

#[test]
fn white_space_around_coordinates_is_trimmed() {
    for inner in ["com.example:example:1.0.0", " a:b:1.0 ", "\u{2003}x:y:2.3\u{a0}", "", " ", "a:b"] {
        for (a, b) in [("", ""), (" \t", "\n"), ("\u{3000}", " \u{85}")] {
            let outer = MavenCoordinates::try_from(format!("{a}{inner}{b}"));
            let trimmed = MavenCoordinates::try_from(inner.trim().to_string());
            match (outer, trimmed) {
                (Ok(x), Ok(y)) => {
                    assert_eq!(x.group_id, y.group_id);
                    assert_eq!(x.artifact_id, y.artifact_id);
                    assert_eq!(x.version, y.version);
                }
                (Err(x), Err(y)) => assert_eq!(x, y),
                _ => panic!("reading {inner:?} with {a:?} and {b:?} around it differs"),
            }
        }
    }
}
