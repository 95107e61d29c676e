//! End-to-end tests of the resolution pass, with a mock discovery
//! collaborator standing in for pkg-config.

use std::cell::Cell;
use std::rc::Rc;

use metadeps::{
    probe_full, version_lt, BuildFlags, BuildInternalClosureError, EnvVariables, Error, Library,
    Source,
};

fn manifest(fixture: &str) -> &'static str {
    match fixture {
        "toml-good" => {
            r#"
[package]
name = "toml-good"
version = "1.0.0"

[package.metadata.pkg-config]
testdata = "4"
testlib = { version = "1", feature = "test-feature" }
testmore = { version = "2", feature = "another-test-feature" }
"#
        },
        "toml-missing-key" => {
            r#"
[package]
name = "toml-missing-key"
version = "1.0.0"
"#
        },
        "toml-not-table" => {
            r#"
[package]
name = "toml-not-table"
version = "1.0.0"

[package.metadata]
pkg-config = "not-a-table"
"#
        },
        "toml-version-missing" => {
            r#"
[package.metadata.pkg-config]
testlib = {}
"#
        },
        "toml-version-not-string" => {
            r#"
[package.metadata.pkg-config]
testlib = 42
"#
        },
        "toml-version-in-table-not-string" => {
            r#"
[package.metadata.pkg-config]
testlib = { version = 42 }
"#
        },
        "toml-feature-not-string" => {
            r#"
[package.metadata.pkg-config]
testlib = { feature = 42 }
"#
        },
        "toml-unexpected-key" => {
            r#"
[package.metadata.pkg-config]
testlib = { color = "blue" }
"#
        },
        "toml-override-name" => {
            r#"
[package.metadata.pkg-config]
testlib = { version = "2", name = "testlib-2.0" }
"#
        },
        "toml-feature-versions" => {
            r#"
[package.metadata.pkg-config]
testdata = { version = "4", v5 = { version = "5" }, v6 = { version = "6" } }
"#
        },
        "toml-empty-table" => {
            r#"
[package.metadata.pkg-config]
"#
        },
        "toml-scenario-gated" => {
            r#"
[package.metadata.pkg-config]
testdata = { version = "4.5", feature = "x" }
testlib = "1.2"
"#
        },
        _ => panic!("unknown fixture {}", fixture),
    }
}

fn plain_library(version: &str) -> Library {
    Library {
        source: Source::PkgConfig,
        libs: Vec::new(),
        link_paths: Vec::new(),
        frameworks: Vec::new(),
        framework_paths: Vec::new(),
        include_paths: Vec::new(),
        defines: Vec::new(),
        version: version.to_string(),
    }
}

fn testlib_library() -> Library {
    Library {
        source: Source::PkgConfig,
        libs: vec!["test".to_string()],
        link_paths: vec!["/usr/lib/x86_64-linux-gnu".to_string()],
        frameworks: vec!["someframework".to_string()],
        framework_paths: vec!["/usr/lib/x86_64-linux-gnu".to_string()],
        include_paths: vec!["/usr/include/testlib".to_string()],
        defines: Vec::new(),
        version: "1.2.3".to_string(),
    }
}

/// The mock discovery collaborator: a fixed database of libraries, honouring
/// the requested minimum version.
fn mock_discover(name: String, version: String) -> Result<Library, String> {
    let found = match name.as_str() {
        "testlib" => testlib_library(),
        "testdata" => plain_library("4.5.6"),
        "testlib-2.0" => plain_library("2.0.0"),
        _ => return Err(format!("pkg-config failure: package {} was not found", name)),
    };
    if version_lt(&found.version, &version) {
        return Err(format!(
            "pkg-config failure: requires at least version {} of {}",
            version, name
        ));
    }
    Ok(found)
}

fn no_build(_name: String, _version: String) -> Option<Result<Library, BuildInternalClosureError>> {
    None
}

fn create_env(extra: Vec<(&str, &str)>) -> EnvVariables {
    let mut env = EnvVariables::new();
    env.set("CARGO_FEATURE_TEST_FEATURE", "");
    for (k, v) in extra {
        env.set(k, v);
    }
    env
}

type ProbeResult = Result<(Vec<(String, Library)>, BuildFlags), Error>;

fn toml(path: &str, env: Vec<(&str, &str)>) -> ProbeResult {
    let environment = create_env(env);
    let origin = format!("src/tests/{}/Cargo.toml", path);
    probe_full(manifest(path), &origin, &environment, mock_discover, no_build)
}

fn get<'a>(libraries: &'a [(String, Library)], key: &str) -> Option<&'a Library> {
    libraries.iter().find(|p| p.0 == key).map(|p| &p.1)
}

fn toml_err(path: &str, err_starts_with: &str) {
    let err = toml(path, vec![]).unwrap_err();
    if !err.render().starts_with(err_starts_with) {
        panic!(
            "Expected error to start with: {:?}\nGot error: {:?}",
            err_starts_with,
            err.render()
        );
    }
}

#[test]
fn good() {
    let (libraries, flags) = toml("toml-good", vec![]).unwrap();
    let testlib = get(&libraries, "testlib").unwrap();
    assert_eq!(testlib.version, "1.2.3");
    let testdata = get(&libraries, "testdata").unwrap();
    assert_eq!(testdata.version, "4.5.6");
    assert!(get(&libraries, "testmore").is_none());

    assert_eq!(
        flags.render(),
        r#"cargo:rustc-link-search=native=/usr/lib/x86_64-linux-gnu
cargo:rustc-link-search=framework=/usr/lib/x86_64-linux-gnu
cargo:rustc-link-lib=test
cargo:rustc-link-lib=framework=someframework
cargo:include=/usr/include/testlib
"#
    );
}

#[test]
fn test_good() {
    let (libraries, _) = toml("toml-good", vec![]).unwrap();
    let testlib = get(&libraries, "testlib").unwrap();
    assert_eq!(testlib.version, "1.2.3");
    let testdata = get(&libraries, "testdata").unwrap();
    assert_eq!(testdata.version, "4.5.6");
}

#[test]
fn missing_key() {
    toml_err("toml-missing-key", "No package.metadata.pkg-config in");
}

#[test]
fn test_missing_key() {
    toml_err("toml-missing-key", "No package.metadata.pkg-config in");
}

#[test]
fn not_table() {
    toml_err("toml-not-table", "package.metadata.pkg-config not a table in");
}

#[test]
fn test_not_table() {
    toml_err("toml-not-table", "package.metadata.pkg-config not a table in");
}

#[test]
fn version_missing() {
    toml_err(
        "toml-version-missing",
        "No version in package.metadata.pkg-config.testlib",
    );
}

#[test]
fn version_not_string() {
    toml_err(
        "toml-version-not-string",
        "package.metadata.pkg-config.testlib not a string or table",
    );
}

#[test]
fn version_in_table_not_string() {
    toml_err(
        "toml-version-in-table-not-string",
        "Unexpected key package.metadata.pkg-config.testlib.version type integer",
    );
}

#[test]
fn feature_not_string() {
    toml_err(
        "toml-feature-not-string",
        "Unexpected key package.metadata.pkg-config.testlib.feature type integer",
    );
}

#[test]
fn unexpected_key() {
    toml_err(
        "toml-unexpected-key",
        "Unexpected key package.metadata.pkg-config.testlib.color type string",
    );
}

#[test]
fn override_name() {
    let (libraries, _) = toml("toml-override-name", vec![]).unwrap();
    let testlib = get(&libraries, "testlib").unwrap();
    assert_eq!(testlib.version, "2.0.0");
}

#[test]
fn feature_versions() {
    let (libraries, _) = toml("toml-feature-versions", vec![]).unwrap();
    let testdata = get(&libraries, "testdata").unwrap();
    assert_eq!(testdata.version, "4.5.6");

    // version 5 is not available
    let err = toml("toml-feature-versions", vec![("CARGO_FEATURE_V5", "")]).unwrap_err();
    assert!(matches!(err, Error::PkgConfig(_)));
    assert!(err.render().contains("version 5"));

    // the highest feature-enabled version wins
    let err = toml(
        "toml-feature-versions",
        vec![("CARGO_FEATURE_V5", ""), ("CARGO_FEATURE_V6", "")],
    )
    .unwrap_err();
    assert!(matches!(err, Error::PkgConfig(_)));
    assert!(err.render().contains("version 6"));
}

#[test]
fn override_search_native() {
    let (libraries, flags) = toml(
        "toml-good",
        vec![("METADEPS_TESTLIB_SEARCH_NATIVE", "/custom/path:/other/path")],
    )
    .unwrap();
    let testlib = get(&libraries, "testlib").unwrap();
    assert_eq!(testlib.link_paths, vec!["/custom/path", "/other/path"]);

    assert_eq!(
        flags.render(),
        r#"cargo:rustc-link-search=native=/custom/path
cargo:rustc-link-search=native=/other/path
cargo:rustc-link-search=framework=/usr/lib/x86_64-linux-gnu
cargo:rustc-link-lib=test
cargo:rustc-link-lib=framework=someframework
cargo:include=/usr/include/testlib
"#
    );
}

#[test]
fn override_search_framework() {
    let (libraries, flags) = toml(
        "toml-good",
        vec![("METADEPS_TESTLIB_SEARCH_FRAMEWORK", "/custom/path")],
    )
    .unwrap();
    let testlib = get(&libraries, "testlib").unwrap();
    assert_eq!(testlib.framework_paths, vec!["/custom/path"]);

    assert_eq!(
        flags.render(),
        r#"cargo:rustc-link-search=native=/usr/lib/x86_64-linux-gnu
cargo:rustc-link-search=framework=/custom/path
cargo:rustc-link-lib=test
cargo:rustc-link-lib=framework=someframework
cargo:include=/usr/include/testlib
"#
    );
}

#[test]
fn override_lib() {
    let (libraries, flags) = toml(
        "toml-good",
        vec![("METADEPS_TESTLIB_LIB", "overrided-test other-test")],
    )
    .unwrap();
    let testlib = get(&libraries, "testlib").unwrap();
    assert_eq!(testlib.libs, vec!["overrided-test", "other-test"]);

    assert_eq!(
        flags.render(),
        r#"cargo:rustc-link-search=native=/usr/lib/x86_64-linux-gnu
cargo:rustc-link-search=framework=/usr/lib/x86_64-linux-gnu
cargo:rustc-link-lib=overrided-test
cargo:rustc-link-lib=other-test
cargo:rustc-link-lib=framework=someframework
cargo:include=/usr/include/testlib
"#
    );
}

#[test]
fn override_framework() {
    let (libraries, flags) = toml(
        "toml-good",
        vec![("METADEPS_TESTLIB_LIB_FRAMEWORK", "overrided-framework")],
    )
    .unwrap();
    let testlib = get(&libraries, "testlib").unwrap();
    assert_eq!(testlib.frameworks, vec!["overrided-framework"]);

    assert_eq!(
        flags.render(),
        r#"cargo:rustc-link-search=native=/usr/lib/x86_64-linux-gnu
cargo:rustc-link-search=framework=/usr/lib/x86_64-linux-gnu
cargo:rustc-link-lib=test
cargo:rustc-link-lib=framework=overrided-framework
cargo:include=/usr/include/testlib
"#
    );
}

#[test]
fn override_include() {
    let (libraries, flags) = toml(
        "toml-good",
        vec![("METADEPS_TESTLIB_INCLUDE", "/other/include")],
    )
    .unwrap();
    let testlib = get(&libraries, "testlib").unwrap();
    assert_eq!(testlib.include_paths, vec!["/other/include"]);

    assert_eq!(
        flags.render(),
        r#"cargo:rustc-link-search=native=/usr/lib/x86_64-linux-gnu
cargo:rustc-link-search=framework=/usr/lib/x86_64-linux-gnu
cargo:rustc-link-lib=test
cargo:rustc-link-lib=framework=someframework
cargo:include=/other/include
"#
    );
}

#[test]
fn override_unset() {
    let (libraries, flags) = toml(
        "toml-good",
        vec![
            ("METADEPS_TESTLIB_SEARCH_NATIVE", ""),
            ("METADEPS_TESTLIB_SEARCH_FRAMEWORK", ""),
            ("METADEPS_TESTLIB_LIB", ""),
            ("METADEPS_TESTLIB_LIB_FRAMEWORK", ""),
            ("METADEPS_TESTLIB_INCLUDE", ""),
        ],
    )
    .unwrap();
    let testlib = get(&libraries, "testlib").unwrap();
    assert_eq!(testlib.link_paths, Vec::<String>::new());
    assert_eq!(testlib.framework_paths, Vec::<String>::new());
    assert_eq!(testlib.libs, Vec::<String>::new());
    assert_eq!(testlib.frameworks, Vec::<String>::new());
    assert_eq!(testlib.include_paths, Vec::<String>::new());

    assert_eq!(flags.render(), "");
}

#[test]
fn override_no_pkg_config() {
    let (libraries, flags) = toml(
        "toml-good",
        vec![
            ("METADEPS_TESTLIB_NO_PKG_CONFIG", "1"),
            ("METADEPS_TESTLIB_LIB", "custom-lib"),
        ],
    )
    .unwrap();
    let testlib = get(&libraries, "testlib").unwrap();
    assert_eq!(testlib.link_paths, Vec::<String>::new());
    assert_eq!(testlib.framework_paths, Vec::<String>::new());
    assert_eq!(testlib.libs, vec!["custom-lib"]);
    assert_eq!(testlib.frameworks, Vec::<String>::new());
    assert_eq!(testlib.include_paths, Vec::<String>::new());

    assert_eq!(flags.render(), "cargo:rustc-link-lib=custom-lib\n");
}

#[test]
fn override_no_pkg_config_error() {
    let err = toml("toml-good", vec![("METADEPS_TESTLIB_NO_PKG_CONFIG", "1")]).unwrap_err();
    assert_eq!(
        err.render(),
        "You should define at least one lib using METADEPS_TESTLIB_LIB or METADEPS_TESTLIB_LIB_FRAMEWORK"
    );
}

fn toml_with_build(
    path: &str,
    env: Vec<(&str, &str)>,
    build: impl Fn(String, String) -> Option<Result<Library, BuildInternalClosureError>>,
) -> ProbeResult {
    let environment = create_env(env);
    let origin = format!("src/tests/{}/Cargo.toml", path);
    probe_full(manifest(path), &origin, &environment, mock_discover, build)
}

#[test]
fn build_internal_always() {
    let called = Rc::new(Cell::new(false));
    let called_clone = called.clone();
    let result = toml_with_build(
        "toml-good",
        vec![("METADEPS_TESTLIB_BUILD_INTERNAL", "always")],
        move |name, version| {
            if name == "testlib" {
                called_clone.replace(true);
                assert_eq!(version, "1");
                Some(Ok(testlib_library()))
            } else {
                None
            }
        },
    );

    let (libraries, _flags) = result.unwrap();
    assert_eq!(called.get(), true);
    assert!(get(&libraries, "testlib").is_some());
}

#[test]
fn build_internal_auto_not_called() {
    // No need to build the lib as the existing version is new enough.
    let called = Rc::new(Cell::new(false));
    let called_clone = called.clone();
    let result = toml_with_build(
        "toml-good",
        vec![("METADEPS_TESTLIB_BUILD_INTERNAL", "auto")],
        move |_name, _version| {
            called_clone.replace(true);
            Some(Ok(testlib_library()))
        },
    );

    let (libraries, _flags) = result.unwrap();
    assert_eq!(called.get(), false);
    assert!(get(&libraries, "testlib").is_some());
}

#[test]
fn build_internal_auto_called() {
    // Version 5 is not available so the fallback build runs.
    let called = Rc::new(Cell::new(false));
    let called_clone = called.clone();
    let result = toml_with_build(
        "toml-feature-versions",
        vec![
            ("METADEPS_TESTDATA_BUILD_INTERNAL", "auto"),
            ("CARGO_FEATURE_V5", ""),
        ],
        move |name, version| {
            if name == "testdata" {
                called_clone.replace(true);
                assert_eq!(version, "5");
                Some(Ok(plain_library("5.0")))
            } else {
                None
            }
        },
    );

    let (libraries, _flags) = result.unwrap();
    assert_eq!(called.get(), true);
    let testdata = get(&libraries, "testdata").unwrap();
    assert_eq!(testdata.version, "5.0");
}

#[test]
fn build_internal_auto_never() {
    // Version 5 is not available but building internally is forbidden.
    let called = Rc::new(Cell::new(false));
    let called_clone = called.clone();
    let result = toml_with_build(
        "toml-feature-versions",
        vec![
            ("METADEPS_TESTDATA_BUILD_INTERNAL", "never"),
            ("CARGO_FEATURE_V5", ""),
        ],
        move |_name, _version| {
            called_clone.replace(true);
            Some(Ok(plain_library("5.0")))
        },
    );

    let err = result.unwrap_err();
    assert!(matches!(err, Error::PkgConfig(..)));
    assert_eq!(called.get(), false);
}

#[test]
fn build_internal_always_no_closure() {
    let err = toml(
        "toml-good",
        vec![("METADEPS_TESTLIB_BUILD_INTERNAL", "always")],
    )
    .unwrap_err();
    assert!(matches!(err, Error::BuildInternalNoClosure(..)));
    assert_eq!(
        err.render(),
        "Missing build internal closure for testlib (version 1)"
    );
}

#[test]
fn build_internal_invalid() {
    let err = toml(
        "toml-good",
        vec![("METADEPS_TESTLIB_BUILD_INTERNAL", "badger")],
    )
    .unwrap_err();
    assert!(matches!(err, Error::BuildInternalInvalid(..)));
    assert_eq!(
        err.render(),
        "Invalid value in METADEPS_TESTLIB_BUILD_INTERNAL: badger (allowed: 'auto', 'always', 'never')"
    );
}

#[test]
fn build_internal_wrong_version() {
    // Version 5 is required but the fallback build only yields 4.0.
    let called = Rc::new(Cell::new(false));
    let called_clone = called.clone();
    let result = toml_with_build(
        "toml-feature-versions",
        vec![
            ("METADEPS_TESTDATA_BUILD_INTERNAL", "auto"),
            ("CARGO_FEATURE_V5", ""),
        ],
        move |_name, _version| {
            called_clone.replace(true);
            Some(Ok(plain_library("4.0")))
        },
    );

    let err = result.unwrap_err();
    assert!(matches!(err, Error::BuildInternalWrongVersion(..)));
    assert_eq!(
        err.render(),
        "Internally built testdata 4.0 but minimum required version is 5"
    );
    assert_eq!(called.get(), true);
}

#[test]
fn build_internal_fail() {
    let called = Rc::new(Cell::new(false));
    let called_clone = called.clone();
    let result = toml_with_build(
        "toml-good",
        vec![("METADEPS_TESTLIB_BUILD_INTERNAL", "always")],
        move |_name, _version| {
            called_clone.replace(true);
            Some(Err(BuildInternalClosureError::failed("Something went wrong")))
        },
    );

    let err = result.unwrap_err();
    assert!(matches!(err, Error::BuildInternalClosureError(..)));
    assert_eq!(
        err.render(),
        "Failed to build testlib: Something went wrong"
    );
    assert_eq!(called.get(), true);
}

#[test]
fn gated_dependency_excluded() {
    // Feature `x` is disabled, so only the unconditional entry survives.
    let (libraries, _) = toml("toml-scenario-gated", vec![]).unwrap();
    assert_eq!(libraries.len(), 1);
    let testlib = get(&libraries, "testlib").unwrap();
    assert_eq!(testlib.version, "1.2.3");
    assert!(get(&libraries, "testdata").is_none());
}

#[test]
fn empty_table() {
    let (libraries, flags) = toml("toml-empty-table", vec![]).unwrap();
    assert_eq!(libraries.len(), 0);
    assert_eq!(flags.render(), "");
}

#[test]
fn pass_is_repeatable() {
    // Same manifest, same environment, same collaborator: equal maps and
    // equal directives on every run.
    let (libs1, flags1) = toml("toml-good", vec![]).unwrap();
    let (libs2, flags2) = toml("toml-good", vec![]).unwrap();
    assert_eq!(libs1.len(), libs2.len());
    for (a, b) in libs1.iter().zip(libs2.iter()) {
        assert_eq!(a.0, b.0);
        assert_eq!(a.1.version, b.1.version);
        assert_eq!(a.1.libs, b.1.libs);
    }
    assert_eq!(flags1.render(), flags2.render());
}
