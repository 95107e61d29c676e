//! Tests of the manifest parser alone: manifest text in, dependency model out.

use metadeps::{Dependency, Error, MetaData, VersionOverride};

fn parse(fixture: &str, text: &str) -> Result<MetaData, Error> {
    let origin = format!("src/tests/{}/Cargo.toml", fixture);
    MetaData::from_str(text, &origin)
}

#[test]
fn parse_good() {
    let m = parse(
        "toml-good",
        r#"
[package]
name = "toml-good"
version = "1.0.0"

[package.metadata.pkg-config]
testdata = "4"
testlib = { version = "1", feature = "test-feature" }
testmore = { version = "2", feature = "another-test-feature" }
"#,
    )
    .unwrap();

    assert_eq!(
        m,
        MetaData {
            deps: vec![
                Dependency {
                    key: "testdata".into(),
                    version: Some("4".into()),
                    name: None,
                    feature: None,
                    optional: false,
                    version_overrides: vec![],
                },
                Dependency {
                    key: "testlib".into(),
                    version: Some("1".into()),
                    name: None,
                    feature: Some("test-feature".into()),
                    optional: false,
                    version_overrides: vec![],
                },
                Dependency {
                    key: "testmore".into(),
                    version: Some("2".into()),
                    name: None,
                    feature: Some("another-test-feature".into()),
                    optional: false,
                    version_overrides: vec![],
                }
            ]
        }
    )
}

#[test]
fn parse_feature_not_string() {
    let r = parse(
        "toml-feature-not-string",
        r#"
[package.metadata.pkg-config]
testlib = { feature = 42 }
"#,
    );
    assert!(matches!(r, Err(Error::InvalidMetadata(_))));
}

#[test]
fn parse_override_name() {
    let m = parse(
        "toml-override-name",
        r#"
[package.metadata.pkg-config]
test_lib = { version = "1.0", name = "testlib", v1_2 = { version = "1.2" } }
"#,
    )
    .unwrap();

    assert_eq!(
        m,
        MetaData {
            deps: vec![Dependency {
                key: "test_lib".into(),
                version: Some("1.0".into()),
                name: Some("testlib".into()),
                feature: None,
                optional: false,
                version_overrides: vec![VersionOverride {
                    key: "v1_2".into(),
                    version: "1.2".into(),
                    name: None,
                    optional: None,
                }],
            },]
        }
    )
}

#[test]
fn parse_feature_versions() {
    let m = parse(
        "toml-feature-versions",
        r#"
[package.metadata.pkg-config]
testdata = { version = "4", v5 = { version = "5" }, v6 = { version = "6" } }
"#,
    )
    .unwrap();

    assert_eq!(
        m,
        MetaData {
            deps: vec![Dependency {
                key: "testdata".into(),
                version: Some("4".into()),
                name: None,
                feature: None,
                optional: false,
                version_overrides: vec![
                    VersionOverride {
                        key: "v5".into(),
                        version: "5".into(),
                        name: None,
                        optional: None,
                    },
                    VersionOverride {
                        key: "v6".into(),
                        version: "6".into(),
                        name: None,
                        optional: None,
                    },
                ],
            },]
        }
    )
}

#[test]
fn parse_optional() {
    let m = parse(
        "toml-optional",
        r#"
[package.metadata.pkg-config]
testbadger = { version = "1", optional = true }
testlib = { version = "1.0", optional = true, v5 = { version = "5.0", name = "testlib-5.0", optional = false } }
testmore = { version = "2", v3 = { version = "3.0", optional = true } }
"#,
    )
    .unwrap();

    assert_eq!(
        m,
        MetaData {
            deps: vec![
                Dependency {
                    key: "testbadger".into(),
                    version: Some("1".into()),
                    name: None,
                    feature: None,
                    optional: true,
                    version_overrides: vec![],
                },
                Dependency {
                    key: "testlib".into(),
                    version: Some("1.0".into()),
                    name: None,
                    feature: None,
                    optional: true,
                    version_overrides: vec![VersionOverride {
                        key: "v5".into(),
                        version: "5.0".into(),
                        name: Some("testlib-5.0".into()),
                        optional: Some(false),
                    },],
                },
                Dependency {
                    key: "testmore".into(),
                    version: Some("2".into()),
                    name: None,
                    feature: None,
                    optional: false,
                    version_overrides: vec![VersionOverride {
                        key: "v3".into(),
                        version: "3.0".into(),
                        name: None,
                        optional: Some(true),
                    },],
                },
            ]
        }
    )
}

#[test]
fn parse_override_missing_version() {
    let err = parse(
        "toml-override-no-version",
        r#"
[package.metadata.pkg-config]
testlib = { version = "1", v5 = { name = "testlib-5.0" } }
"#,
    )
    .unwrap_err();
    assert_eq!(
        err.render(),
        "No version in package.metadata.pkg-config.testlib.v5"
    );
}

#[test]
fn parse_override_bad_key() {
    let err = parse(
        "toml-override-bad-key",
        r#"
[package.metadata.pkg-config]
testlib = { version = "1", v5 = { version = "5", colour = "red" } }
"#,
    )
    .unwrap_err();
    assert_eq!(
        err.render(),
        "Unexpected key package.metadata.pkg-config.testlib.v5.colour type string"
    );
}

#[test]
fn parse_bad_toml() {
    let err = parse("toml-broken", "this is not [ valid toml").unwrap_err();
    assert!(matches!(err, Error::InvalidMetadata(_)));
    assert!(err
        .render()
        .starts_with("Error parsing TOML from src/tests/toml-broken/Cargo.toml:"));
}
