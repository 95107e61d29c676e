//! Declarative system-dependency resolution for build scripts.
//!
//! A project lists the native libraries it needs in the
//! `package.metadata.pkg-config` table of its manifest.  This crate parses
//! those declarations, decides per dependency whether it is active and which
//! minimum version applies, drives the discovery of each library, applies
//! user-supplied environment overrides, and generates the final set of build
//! directives.

use vstd::prelude::*;

pub mod env;
pub mod error;
pub mod flags;
pub mod laws;
pub mod library;
pub mod metadata;
pub mod probe;
pub mod resolve;
pub mod strutil;
pub mod toml_data;
pub mod version;

pub use env::EnvVariables;
pub use error::{BuildInternalClosureError, Error};
pub use flags::{gen_flags, override_from_flags, BuildFlag, BuildFlags};
pub use library::{Library, Source};
pub use metadata::{Dependency, MetaData, VersionOverride, VersionOverrideBuilder};
pub use probe::{
    after_discovery, check_build_internal, get_build_internal_status, probe_full, probe_plan,
    BuildInternal, ProbeAction, ProbePlan,
};
pub use resolve::{resolve_dep, ResolvedDep};
pub use strutil::{flag_override_var, split_paths, split_string};
pub use version::version_lt;

verus! {

} // verus!
