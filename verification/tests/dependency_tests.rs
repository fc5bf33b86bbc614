use cpsi::dependency::{valid_package_name, ComparisonOperator, Dependency};
use cpsi::errors::CpsiError;
use cpsi::version::Version;

fn v(s: &str) -> Version {
    Version::to_version(s).unwrap()
}

#[test]
fn parses_supported_operators() {
    for (input, expected) in [
        ("lib=1.2.3", ComparisonOperator::Eq),
        ("lib>1.2.3", ComparisonOperator::Gt),
        ("lib>=1.2.3", ComparisonOperator::Gte),
        ("lib<1.2.3", ComparisonOperator::Lt),
        ("lib<=1.2.3", ComparisonOperator::Lte),
    ] {
        let dependency: Dependency = input.parse().unwrap();
        assert_eq!(dependency.name, "lib");
        assert_eq!(dependency.operator, Some(expected));
        assert_eq!(dependency.version, Some(v("1.2.3")));
        assert_eq!(dependency.to_string(), input);
    }
}

#[test]
fn parses_unversioned_dependency() {
    let dependency: Dependency = "lib".parse().unwrap();
    assert_eq!(dependency.name, "lib");
    assert_eq!(dependency.version, None);
    assert_eq!(dependency.operator, None);
    assert_eq!(dependency.to_string(), "lib");
}

#[test]
fn normalizes_two_component_versions() {
    let dependency: Dependency = " glibc >= 2.42 ".parse().unwrap();

    assert_eq!(dependency.name, "glibc");
    assert_eq!(dependency.operator, Some(ComparisonOperator::Gte));
    assert_eq!(dependency.version, Some(v("2.42.0")));
    assert_eq!(dependency.to_string(), "glibc>=2.42.0");
}

#[test]
fn rejects_empty_malformed_and_unsupported_dependencies() {
    for input in [
        "",
        "   ",
        ">=1.2.3",
        "lib>=",
        "lib==1.2.3",
        "lib=>1.2.3",
        "lib><1.2.3",
        "lib>=1.2.3.4",
        "lib>=one.two.three",
        "lib^1.2.3",
        "lib~1.2.3",
        "lib*",
        "lib name",
        ".",
        "---",
    ] {
        let error = input.parse::<Dependency>().unwrap_err();
        assert!(
            matches!(error, CpsiError::InvalidDependency(_)),
            "unexpected error for {input:?}: {error:?}"
        );
    }
}

#[test]
fn refusal_carries_the_trimmed_text() {
    let error = "\t lib==1.2.3 \n".parse::<Dependency>().unwrap_err();
    assert!(matches!(error, CpsiError::InvalidDependency(text) if text == "lib==1.2.3"));
    let error = "\u{3000}".parse::<Dependency>().unwrap_err();
    assert!(matches!(error, CpsiError::InvalidDependency(text) if text.is_empty()));
}

#[test]
fn unicode_white_space_is_trimmed() {
    let dependency: Dependency = "\u{a0}\u{2003}foo.bar+1 <\u{2009}3.1.4\u{3000}".parse().unwrap();
    assert_eq!(dependency.name, "foo.bar+1");
    assert_eq!(dependency.operator, Some(ComparisonOperator::Lt));
    assert_eq!(dependency.version, Some(v("3.1.4")));
}

#[test]
fn written_dependency_reads_back() {
    for input in ["a_b-c", "x>0.1.2", "x<=4294967295.0.1", "p.q=1.1.1", "z+<2.0.0"] {
        let dependency: Dependency = input.parse().unwrap();
        let again: Dependency = dependency.to_string().parse().unwrap();
        assert_eq!(again, dependency);
    }
}

#[test]
fn missing_operator_is_written_as_at_least() {
    let dependency = Dependency {
        name: "lib".to_string(),
        version: Some(v("1.2")),
        operator: None,
    };
    assert_eq!(dependency.to_string(), "lib>=1.2.0");
    let again: Dependency = dependency.to_string().parse().unwrap();
    assert_eq!(again.operator, Some(ComparisonOperator::Gte));
    let bare = Dependency {
        name: "lib".to_string(),
        version: None,
        operator: Some(ComparisonOperator::Lt),
    };
    assert_eq!(bare.to_string(), "lib");
}

#[test]
fn package_names() {
    assert!(valid_package_name("lib"));
    assert!(valid_package_name("a"));
    assert!(valid_package_name("-9"));
    assert!(valid_package_name("g++"));
    assert!(!valid_package_name(""));
    assert!(!valid_package_name("---"));
    assert!(!valid_package_name("._+"));
    assert!(!valid_package_name("lib name"));
    assert!(!valid_package_name("libé"));
}

#[test]
fn operator_symbols() {
    for (symbol, op) in [
        ("=", ComparisonOperator::Eq),
        (">", ComparisonOperator::Gt),
        (">=", ComparisonOperator::Gte),
        ("<", ComparisonOperator::Lt),
        ("<=", ComparisonOperator::Lte),
    ] {
        assert_eq!(op.as_str(), symbol);
        assert_eq!(op.to_string(), symbol);
        assert_eq!(ComparisonOperator::parse_symbol(symbol), Ok(op));
    }
    assert_eq!(
        ComparisonOperator::parse_symbol("=="),
        Err("unsupported comparison operator: ==".to_string())
    );
    assert_eq!(
        ComparisonOperator::parse_symbol(""),
        Err("unsupported comparison operator: ".to_string())
    );
}
