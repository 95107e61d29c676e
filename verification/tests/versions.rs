//! Tests of the dotted-numeric comparator and of version resolution,
//! including concrete instances of the engine's laws.

use metadeps::{
    flag_override_var, resolve_dep, version_lt, BuildInternalClosureError, Error, EnvVariables,
    Library, MetaData, Source,
};

#[test]
fn version_order() {
    // componentwise numeric comparison, from the left
    assert!(version_lt("4.0", "5"));
    assert!(version_lt("1.2", "1.10"));
    assert!(!version_lt("1.10", "1.9"));
    assert!(version_lt("9", "10"));
    // a strict prefix is below the longer version
    assert!(version_lt("1.2", "1.2.1"));
    assert!(version_lt("5", "5.0"));
    assert!(!version_lt("5.0", "5"));
    // irreflexive, and leading zeros carry no weight
    assert!(!version_lt("2", "2"));
    assert!(!version_lt("01", "1"));
    assert!(!version_lt("1", "01"));
    assert!(version_lt("08", "9"));
}

fn env_with(extra: Vec<(&str, &str)>) -> EnvVariables {
    let mut env = EnvVariables::new();
    for (k, v) in extra {
        env.set(k, v);
    }
    env
}

fn deps_of(text: &str) -> MetaData {
    MetaData::from_str(text, "Cargo.toml").unwrap()
}

#[test]
fn bare_string_is_effective_version() {
    // A bare-string entry resolves to exactly that string.
    let m = deps_of(
        r#"
[package.metadata.pkg-config]
testlib = "1.2"
"#,
    );
    let rd = resolve_dep(&m.deps[0], &env_with(vec![])).unwrap().unwrap();
    assert_eq!(rd.key, "testlib");
    assert_eq!(rd.lib_name, "testlib");
    assert_eq!(rd.version, "1.2");
    assert_eq!(rd.optional, false);
}

#[test]
fn highest_enabled_override_wins() {
    // With several overrides enabled, the highest version is effective.
    let m = deps_of(
        r#"
[package.metadata.pkg-config]
testdata = { version = "4", v5 = { version = "5" }, v6 = { version = "6" } }
"#,
    );
    let env = env_with(vec![("CARGO_FEATURE_V5", ""), ("CARGO_FEATURE_V6", "")]);
    let rd = resolve_dep(&m.deps[0], &env).unwrap().unwrap();
    assert_eq!(rd.version, "6");

    let env5 = env_with(vec![("CARGO_FEATURE_V5", "")]);
    let rd5 = resolve_dep(&m.deps[0], &env5).unwrap().unwrap();
    assert_eq!(rd5.version, "5");
}

#[test]
fn disabled_feature_is_inactive() {
    let m = deps_of(
        r#"
[package.metadata.pkg-config]
testdata = { version = "4.5", feature = "x" }
"#,
    );
    assert!(resolve_dep(&m.deps[0], &env_with(vec![])).unwrap().is_none());
}

#[test]
fn override_supersedes_name_and_optional() {
    let m = deps_of(
        r#"
[package.metadata.pkg-config]
testlib = { version = "1.0", optional = true, v5 = { version = "5.0", name = "testlib-5.0", optional = false } }
"#,
    );
    let env = env_with(vec![("CARGO_FEATURE_V5", "")]);
    let rd = resolve_dep(&m.deps[0], &env).unwrap().unwrap();
    assert_eq!(rd.lib_name, "testlib-5.0");
    assert_eq!(rd.version, "5.0");
    assert_eq!(rd.optional, false);

    let rd_base = resolve_dep(&m.deps[0], &env_with(vec![])).unwrap().unwrap();
    assert_eq!(rd_base.lib_name, "testlib");
    assert_eq!(rd_base.version, "1.0");
    assert_eq!(rd_base.optional, true);
}

#[test]
fn missing_version_is_refused() {
    let m = deps_of(
        r#"
[package.metadata.pkg-config]
testlib = { feature = "test-feature" }
"#,
    );
    let env = env_with(vec![("CARGO_FEATURE_TEST_FEATURE", "")]);
    let err = resolve_dep(&m.deps[0], &env).unwrap_err();
    assert_eq!(
        err.render(),
        "No version in package.metadata.pkg-config.testlib"
    );
}

#[test]
fn override_var_names() {
    assert_eq!(flag_override_var("testlib", "LIB"), "METADEPS_TESTLIB_LIB");
    assert_eq!(
        flag_override_var("test-lib", "BUILD_INTERNAL"),
        "METADEPS_TEST_LIB_BUILD_INTERNAL"
    );
}

#[test]
fn closure_error_messages() {
    let e = BuildInternalClosureError::failed("Something went wrong");
    assert_eq!(e.render(), "Something went wrong");
    let wrapped = Error::BuildInternalClosureError("testlib".to_string(), e);
    assert_eq!(wrapped.render(), "Failed to build testlib: Something went wrong");
}

#[test]
fn fail_to_read_message() {
    let e = Error::FailToRead(
        "Error opening ./Cargo.toml".to_string(),
        "No such file or directory".to_string(),
    );
    assert_eq!(e.render(), "Error opening ./Cargo.toml");
}

#[test]
fn manual_library_is_empty() {
    let lib = Library::from_env_variables();
    assert!(matches!(lib.source, Source::EnvVariables));
    assert!(lib.libs.is_empty());
    assert!(lib.link_paths.is_empty());
    assert!(lib.frameworks.is_empty());
    assert!(lib.framework_paths.is_empty());
    assert!(lib.include_paths.is_empty());
    assert!(lib.defines.is_empty());
    assert_eq!(lib.version, "");
}
