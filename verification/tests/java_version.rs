use carbon::java::{
    Java, JavaArch, JavaComponent, JavaComponentType, JavaData, JavaVersion, JavaVersionError,
};

fn version(
    major: u8,
    minor: Option<u8>,
    patch: Option<&str>,
    update_number: Option<&str>,
    prerelease: Option<&str>,
    build_metadata: Option<&str>,
) -> JavaVersion {
    JavaVersion {
        major,
        minor,
        patch: patch.map(|s| s.to_owned()),
        update_number: update_number.map(|s| s.to_owned()),
        prerelease: prerelease.map(|s| s.to_owned()),
        build_metadata: build_metadata.map(|s| s.to_owned()),
    }
}

#[test]
fn test_parse_java_version() {
    let expected: Vec<(&str, Option<JavaVersion>)> = vec![
        ("19.0.1", Some(version(19, Some(0), Some("1"), None, None, None))),
        ("amd64", None),
        ("1.8.0_352-b08", Some(version(1, Some(8), Some("0"), Some("352"), Some("b08"), None))),
        ("19.0.1+10", Some(version(19, Some(0), Some("1"), None, None, Some("10")))),
        ("1.4.0_03-b04", Some(version(1, Some(4), Some("0"), Some("03"), Some("b04"), None))),
        (
            "17.0.6-beta+2-202211152348",
            Some(version(17, Some(0), Some("6"), None, Some("beta"), Some("2-202211152348"))),
        ),
        (
            "1.8.0_362-beta-202211161809-b03+152",
            Some(version(
                1,
                Some(8),
                Some("0"),
                Some("362"),
                Some("beta-202211161809-b03"),
                Some("152"),
            )),
        ),
        ("18.0.2.1+1", Some(version(18, Some(0), Some("2.1"), None, None, Some("1")))),
        ("17.0.5+8", Some(version(17, Some(0), Some("5"), None, None, Some("8")))),
        ("17.0.5+8-LTS", Some(version(17, Some(0), Some("5"), None, None, Some("8-LTS")))),
    ];

    for (output, expected) in expected.iter() {
        let actual = JavaVersion::try_from(output).ok();
        assert_eq!(&actual, expected);
    }
}

#[test]
fn version_errors_say_which_part_failed() {
    assert_eq!(JavaVersion::try_from(""), Err(JavaVersionError::Unrecognized));
    assert_eq!(JavaVersion::try_from("17"), Err(JavaVersionError::Unrecognized));
    assert_eq!(JavaVersion::try_from("17.0"), Err(JavaVersionError::Unrecognized));
    assert_eq!(JavaVersion::try_from("01.2.3"), Err(JavaVersionError::Unrecognized));
    assert_eq!(JavaVersion::try_from("256.0.1"), Err(JavaVersionError::InvalidMajor));
    assert_eq!(JavaVersion::try_from("1.300.1"), Err(JavaVersionError::InvalidMinor));
    assert_eq!(JavaVersion::try_from("999.999.1"), Err(JavaVersionError::InvalidMajor));
    assert_eq!(JavaVersion::try_from("255.255.0").map(|v| (v.major, v.minor)), Ok((255, Some(255))));
}

#[test]
fn version_reads_only_what_the_pattern_takes() {
    // A leading zero patch stops after the zero.
    assert_eq!(
        JavaVersion::try_from("1.2.05").unwrap(),
        version(1, Some(2), Some("0"), None, None, None)
    );
    // A bare underscore takes part but captures nothing.
    assert_eq!(
        JavaVersion::try_from("1.2.3_-rc").unwrap(),
        version(1, Some(2), Some("3"), None, Some("rc"), None)
    );
    // A numeric identifier stops the pre-release before letters.
    assert_eq!(
        JavaVersion::try_from("1.2.3-12abc").unwrap(),
        version(1, Some(2), Some("3"), None, Some("12"), None)
    );
    // Dotted pre-release identifiers and a trailing dot.
    assert_eq!(
        JavaVersion::try_from("1.2.3-rc.1.x.+b.7.").unwrap(),
        version(1, Some(2), Some("3"), None, Some("rc.1.x"), None)
    );
    assert_eq!(
        JavaVersion::try_from("1.2.3-rc.1+b.7.").unwrap(),
        version(1, Some(2), Some("3"), None, Some("rc.1"), Some("b.7"))
    );
    // Trailing text is ignored.
    assert_eq!(
        JavaVersion::try_from("11.0.2 2019-01-15 LTS").unwrap(),
        version(11, Some(0), Some("2"), None, None, None)
    );
}

#[test]
fn version_digits_beyond_ascii() {
    // `\d` takes the Arabic-Indic digit three into the patch.
    assert_eq!(
        JavaVersion::try_from("1.2.3\u{663}").unwrap(),
        version(1, Some(2), Some("3\u{663}"), None, None, None)
    );
    // In the major version it does not parse as a number.
    assert_eq!(JavaVersion::try_from("1\u{663}.0.0"), Err(JavaVersionError::InvalidMajor));
    assert_eq!(JavaVersion::try_from("1.\u{663}.0"), Err(JavaVersionError::Unrecognized));
    // A pre-release identifier may start with such digits before a letter.
    assert_eq!(
        JavaVersion::try_from("1.2.3-\u{663}a").unwrap(),
        version(1, Some(2), Some("3"), None, Some("\u{663}a"), None)
    );
}

#[test]
fn version_is_written_back() {
    let cases = [
        "19.0.1",
        "1.8.0_352-b08",
        "19.0.1+10",
        "1.4.0_03-b04",
        "17.0.6-beta+2-202211152348",
        "1.8.0_362-beta-202211161809-b03+152",
        "18.0.2.1+1",
        "17.0.5+8-LTS",
        "0.0.0",
        "255.255.255",
    ];
    for case in cases {
        let v = JavaVersion::try_from(case).unwrap();
        let text = v.clone().into_string();
        assert_eq!(text, case);
        assert_eq!(JavaVersion::try_from(text.as_str()).unwrap(), v);
    }
    // What is ignored while reading is not written back.
    let v = JavaVersion::try_from("1.2.3_-rc trailing").unwrap();
    assert_eq!(v.clone().into_string(), "1.2.3-rc");
    assert_eq!(JavaVersion::try_from(v.clone().into_string().as_str()).unwrap(), v);
}

#[test]
fn from_major_has_no_other_parts() {
    let v = JavaVersion::from_major(17);
    assert_eq!(v, version(17, None, None, None, None, None));
    // A missing minor is written as 0 and a missing patch as nothing.
    assert_eq!(v.clone().into_string(), "17.0.");
    assert_eq!(JavaVersion::try_from(v.into_string().as_str()), Err(JavaVersionError::Unrecognized));
}

#[test]
fn arch_names() {
    assert_eq!(JavaArch::from("amd64"), JavaArch::Amd64);
    assert_eq!(JavaArch::from("X86"), JavaArch::X86);
    assert_eq!(JavaArch::from("AArch64"), JavaArch::Aarch64);
    assert_eq!(JavaArch::try_from_str("arm"), None);
    assert_eq!(JavaArch::try_from_str("\u{FF41}md64"), None);
    for arch in [JavaArch::Amd64, JavaArch::X86, JavaArch::Aarch64] {
        assert_eq!(JavaArch::from(arch.into_str()), arch);
    }
    assert_eq!(JavaArch::Aarch64.into_str(), "aarch64");
}

#[test]
fn component_type_names() {
    assert_eq!(JavaComponentType::from("local"), JavaComponentType::Local);
    assert_eq!(JavaComponentType::from("MANAGED"), JavaComponentType::Managed);
    assert_eq!(JavaComponentType::try_from_str("custom"), None);
    assert_eq!(JavaComponentType::Custom.into_string(), "custom");
    assert_eq!(JavaComponentType::Local.into_string(), "local");
    assert_eq!(JavaComponentType::Managed.into_string(), "managed");
}

fn data(arch: &str, component_type: &str, full_version: &str) -> JavaData {
    JavaData {
        path: "/usr/lib/jvm/java-17/bin/java".to_owned(),
        arch: arch.to_owned(),
        component_type: component_type.to_owned(),
        full_version: full_version.to_owned(),
        is_valid: true,
    }
}

#[test]
fn component_from_stored_row() {
    let c = JavaComponent::from(data("amd64", "Local", "17.0.5+8"));
    assert_eq!(c.path, "/usr/lib/jvm/java-17/bin/java");
    assert_eq!(c.arch, JavaArch::Amd64);
    assert_eq!(c._type, JavaComponentType::Local);
    assert_eq!(c.version, version(17, Some(0), Some("5"), None, None, Some("8")));

    let j = Java::from(data("x86", "managed", "1.8.0_352-b08"));
    assert!(j.is_valid);
    assert_eq!(j.component.arch, JavaArch::X86);

    assert!(JavaComponent::try_from_data(data("sparc", "local", "17.0.5")).is_none());
    assert!(JavaComponent::try_from_data(data("amd64", "custom", "17.0.5")).is_none());
    assert!(Java::try_from_data(data("amd64", "local", "17")).is_none());
    assert!(Java::try_from_data(data("amd64", "local", "17.0.5")).is_some());
}

#[test]
fn lowercase_beyond_ascii_follows_unicode() {
    let lower: String = carbon::unicode::lowercase_chars("\u{212A}ELVIN \u{c4}").into_iter().collect();
    assert_eq!(lower, "kelvin \u{e4}");
    let lower: String = carbon::unicode::lowercase_chars("AMD64").into_iter().collect();
    assert_eq!(lower, "amd64");
}

#[test]
fn version_error_messages() {
    let s = "Could not parse java version in string: 17";
    assert_eq!(JavaVersionError::Unrecognized.message("17"), s);
    for (text, number) in [
        ("300.0.1", "300"),
        ("1\u{663}.0.0", "1\u{663}"),
        ("30\u{663}.0.0", "30\u{663}"),
        ("300\u{663}.0.0", "300\u{663}"),
    ] {
        let e = JavaVersion::try_from(text).unwrap_err();
        assert_eq!(e, JavaVersionError::InvalidMajor);
        assert_eq!(e.message(text), number.parse::<u8>().unwrap_err().to_string());
    }
    let e = JavaVersion::try_from("1.300.1").unwrap_err();
    assert_eq!(e, JavaVersionError::InvalidMinor);
    assert_eq!(e.message("1.300.1"), "300".parse::<u8>().unwrap_err().to_string());
}
