use std::cmp::Ordering;
use cpsi::version::{parse_or_error, Version, VersionParseError};

fn v(s: &str) -> Version {
    Version::to_version(s).unwrap()
}

#[test]
fn parses_two_and_three_component_versions() {
    let two_components: Version = "2.42".parse().unwrap();
    let three_components: Version = "2.42.7".parse().unwrap();

    assert_eq!(two_components, v("2.42.0"));
    assert_eq!(two_components.to_string(), "2.42.0");
    assert_eq!(three_components.to_string(), "2.42.7");
    assert!(Version::is_version("0.0"));
    assert!(Version::is_version("0.0.0"));
}

#[test]
fn comparison_respects_major_minor_and_patch_boundaries() {
    let ordered = [v("0.99.99"), v("1.0.0"), v("1.1.0"), v("1.1.1"), v("2.0.0")];

    for pair in ordered.windows(2) {
        assert!(
            pair[0] < pair[1],
            "{} should precede {}",
            pair[0].to_string(),
            pair[1].to_string()
        );
    }
    assert_eq!(v("1.2"), v("1.2.0"));
    assert!(v("1.2.9") < v("1.3.0"));
    assert!(v("1.9.9") < v("2.0.0"));
}

#[test]
fn rejects_invalid_component_counts_and_numbers() {
    for input in ["", "1", "1.2.3.4"] {
        assert!(matches!(
            input.parse::<Version>(),
            Err(VersionParseError::InvalidFormat)
        ));
    }

    for input in ["1.", "1..2", "1.two", "1.2.", "1.2-rc1"] {
        assert!(matches!(
            input.parse::<Version>(),
            Err(VersionParseError::InvalidNumber)
        ));
    }
}

#[test]
fn iteration_yields_version_components_in_order() {
    assert_eq!(v("3.4.5").into_iter().collect::<Vec<_>>(), [3, 4, 5]);
}

#[test]
fn new_is_zero() {
    assert_eq!(Version::new(), v("0.0.0"));
    assert_eq!(Version::new().to_string(), "0.0.0");
}

#[test]
fn built_from_components() {
    assert_eq!(Version::from_components(1, 2, 3), v("1.2.3"));
    assert_eq!(Version::from_components(7, 0, 9).to_string(), "7.0.9");
}

#[test]
fn components_in_order() {
    assert_eq!(v("10.0.4294967295").components(), vec![10, 0, 4294967295]);
}

#[test]
fn numbers_follow_unsigned_parsing() {
    assert_eq!(parse_or_error("0"), Ok(0));
    assert_eq!(parse_or_error("007"), Ok(7));
    assert_eq!(parse_or_error("+12"), Ok(12));
    assert_eq!(parse_or_error("4294967295"), Ok(u32::MAX));
    assert_eq!(parse_or_error("4294967296"), Err(VersionParseError::InvalidNumber));
    assert_eq!(parse_or_error("99999999999999999999"), Err(VersionParseError::InvalidNumber));
    assert_eq!(parse_or_error("+"), Err(VersionParseError::InvalidNumber));
    assert_eq!(parse_or_error("-1"), Err(VersionParseError::InvalidNumber));
    assert_eq!(parse_or_error(""), Err(VersionParseError::InvalidNumber));
    assert_eq!(parse_or_error(" 1"), Err(VersionParseError::InvalidNumber));
    assert_eq!(parse_or_error("1a"), Err(VersionParseError::InvalidNumber));
    assert_eq!(parse_or_error("٣"), Err(VersionParseError::InvalidNumber));
}

#[test]
fn version_edge_cases() {
    assert_eq!(v("+1.2").to_string(), "1.2.0");
    assert_eq!(v("01.002.0003").to_string(), "1.2.3");
    assert_eq!(v("4294967295.4294967295.4294967295").to_string(), "4294967295.4294967295.4294967295");
    assert_eq!(Version::to_version("4294967296.0"), Err(VersionParseError::InvalidNumber));
    assert_eq!(Version::to_version("."), Err(VersionParseError::InvalidNumber));
    assert_eq!(Version::to_version("..."), Err(VersionParseError::InvalidFormat));
    assert!(!Version::is_version("1"));
    assert!(!Version::is_version("a.b"));
}

#[test]
fn written_version_reads_back() {
    for text in ["0.0.0", "1.2.3", "10.20.30", "4294967295.0.7"] {
        let version = v(text);
        assert_eq!(v(&version.to_string()), version);
        assert_eq!(version.to_string(), text);
    }
}

#[test]
fn missing_patch_reads_as_zero() {
    for text in ["0.0", "3.14", "+5.6", "1.x"] {
        let with_patch = format!("{text}.0");
        assert_eq!(Version::to_version(text), Version::to_version(&with_patch));
    }
}

#[test]
fn order_is_lexicographic() {
    assert_eq!(v("1.0.0").partial_cmp(&v("1.0.0")), Some(Ordering::Equal));
    assert_eq!(v("1.0.1").partial_cmp(&v("1.0.0")), Some(Ordering::Greater));
    assert_eq!(v("0.10.0").partial_cmp(&v("1.0.0")), Some(Ordering::Less));
    assert_eq!(v("2.0.0").partial_cmp(&v("1.99.99")), Some(Ordering::Greater));
    assert_eq!(v("1.2.3").cmp(&v("1.2.4")), Ordering::Less);
}

#[test]
fn error_messages() {
    assert_eq!(VersionParseError::InvalidFormat.to_string(), "version must use x.y or x.y.z format");
    assert_eq!(VersionParseError::InvalidNumber.to_string(), "version contains a non-numeric component");
}
