//! Feature-gated version resolution.
//!
//! Given a parsed dependency and the environment, decide whether the
//! dependency is active at all, and if so which minimum version, library
//! name and optionality apply: the version overrides whose keys name enabled
//! features compete, the highest version winning; with none enabled the base
//! fields stand.

use vstd::prelude::*;

use crate::env::{spec_env_has, EnvVariables};
use crate::error::{Error, ErrorView};
use crate::metadata::{spec_lib_name, spec_table_key, table_key, DepView, Dependency, OverrideView};
use crate::strutil::{feature_var, spec_feature_var};
use crate::version::{spec_version_lt, version_lt};

verus! {

use vstd::string::StringExecFns;

/// What one active dependency asks the prober for.
#[derive(Debug)]
pub struct ResolvedDep {
    /// The manifest key of the dependency.
    pub key: String,
    /// The library name handed to the discovery collaborator.
    pub lib_name: String,
    /// The effective minimum version.
    pub version: String,
    /// Whether discovery failure is tolerated.
    pub optional: bool,
}

/// The mathematical value of a `ResolvedDep`.
#[verifier::ext_equal]
pub ghost struct ResolvedView {
    pub key: Seq<char>,
    pub lib_name: Seq<char>,
    pub version: Seq<char>,
    pub optional: bool,
}

impl View for ResolvedDep {
    type V = ResolvedView;

    open spec fn view(&self) -> ResolvedView {
        ResolvedView {
            key: self.key@,
            lib_name: self.lib_name@,
            version: self.version@,
            optional: self.optional,
        }
    }
}

/// The overrides among the first `n` whose key names an enabled feature.
pub open spec fn spec_enabled_prefix(
    d: DepView,
    env: Seq<(Seq<char>, Seq<char>)>,
    n: int,
) -> Seq<OverrideView>
    decreases n,
{
    if n <= 0 || n > d.version_overrides.len() {
        Seq::<OverrideView>::empty()
    } else {
        let rest = spec_enabled_prefix(d, env, n - 1);
        if spec_env_has(env, spec_feature_var(d.version_overrides[n - 1].key)) {
            rest.push(d.version_overrides[n - 1])
        } else {
            rest
        }
    }
}

/// The overrides whose key names an enabled feature.
pub open spec fn spec_enabled_overrides(d: DepView, env: Seq<(Seq<char>, Seq<char>)>) -> Seq<
    OverrideView,
> {
    spec_enabled_prefix(d, env, d.version_overrides.len() as int)
}

/// The override with the highest version, the earliest of equals winning.
pub open spec fn spec_pick_best(s: Seq<OverrideView>) -> OverrideView
    recommends
        s.len() > 0,
    decreases s.len(),
{
    if s.len() <= 1 {
        s[0]
    } else {
        let b = spec_pick_best(s.drop_last());
        if spec_version_lt(b.version, s.last().version) {
            s.last()
        } else {
            b
        }
    }
}

/// What resolution yields for one dependency: `None` while its gating
/// feature is disabled; otherwise the resolved fields, the enabled override
/// with the highest version superseding the base ones; a dependency without
/// any usable version is refused.
pub open spec fn spec_resolve(d: DepView, env: Seq<(Seq<char>, Seq<char>)>) -> Result<
    Option<ResolvedView>,
    ErrorView,
> {
    if d.feature is Some && !spec_env_has(env, spec_feature_var(d.feature->0)) {
        Ok(None)
    } else {
        let enabled = spec_enabled_overrides(d, env);
        if enabled.len() > 0 {
            let best = spec_pick_best(enabled);
            Ok(
                Some(
                    ResolvedView {
                        key: d.key,
                        lib_name: match best.name {
                            Some(n) => n,
                            None => spec_lib_name(d),
                        },
                        version: best.version,
                        optional: match best.optional {
                            Some(o) => o,
                            None => d.optional,
                        },
                    },
                ),
            )
        } else {
            match d.version {
                Some(v) => Ok(
                    Some(
                        ResolvedView {
                            key: d.key,
                            lib_name: spec_lib_name(d),
                            version: v,
                            optional: d.optional,
                        },
                    ),
                ),
                None => Err(
                    ErrorView::InvalidMetadata(
                        "No version in "@ + spec_table_key() + "."@ + d.key,
                    ),
                ),
            }
        }
    }
}

/// Decide whether `dep` is active and with which effective fields.
#[verifier::loop_isolation(false)]
pub fn resolve_dep(dep: &Dependency, env: &EnvVariables) -> (r: Result<Option<ResolvedDep>, Error>)
    ensures
        match r {
            Ok(Some(rd)) => spec_resolve(dep@, env@) == Ok::<Option<ResolvedView>, ErrorView>(
                Some(rd@),
            ),
            Ok(None) => spec_resolve(dep@, env@) == Ok::<Option<ResolvedView>, ErrorView>(None),
            Err(e) => spec_resolve(dep@, env@) == Err::<Option<ResolvedView>, ErrorView>(e@),
        },
{
    if let Some(f) = &dep.feature {
        let var = feature_var(f.as_str());
        if !env.contains(var.as_str()) {
            return Ok(None);
        }
    }
    let n = dep.version_overrides.len();
    let mut best: Option<usize> = None;
    let mut i: usize = 0;
    while i < n
        invariant
            i <= n,
            match best {
                None => spec_enabled_prefix(dep@, env@, i as int).len() == 0,
                Some(j) => {
                    &&& j < i
                    &&& spec_enabled_prefix(dep@, env@, i as int).len() > 0
                    &&& spec_pick_best(spec_enabled_prefix(dep@, env@, i as int))
                        == dep@.version_overrides[j as int]
                },
            },
        decreases n - i,
    {
        let ghost ep = spec_enabled_prefix(dep@, env@, i as int);
        let o = &dep.version_overrides[i];
        let var = feature_var(o.key.as_str());
        if env.contains(var.as_str()) {
            proof {
                let x = dep@.version_overrides[i as int];
                assert(spec_enabled_prefix(dep@, env@, i as int + 1) == ep.push(x));
                assert(ep.push(x).drop_last() =~= ep);
                assert(ep.push(x).last() == x);
            }
            match best {
                None => {
                    best = Some(i);
                },
                Some(j) => {
                    if version_lt(
                        dep.version_overrides[j].version.as_str(),
                        o.version.as_str(),
                    ) {
                        best = Some(i);
                    }
                },
            }
        } else {
            proof {
                assert(spec_enabled_prefix(dep@, env@, i as int + 1) == ep);
            }
        }
        i += 1;
    }
    match best {
        Some(j) => {
            let o = &dep.version_overrides[j];
            let lib_name = match &o.name {
                Some(nm) => nm.clone(),
                None => dep.lib_name(),
            };
            let optional = match o.optional {
                Some(b) => b,
                None => dep.optional,
            };
            Ok(
                Some(
                    ResolvedDep {
                        key: dep.key.clone(),
                        lib_name,
                        version: o.version.clone(),
                        optional,
                    },
                ),
            )
        },
        None => {
            match &dep.version {
                Some(v) => Ok(
                    Some(
                        ResolvedDep {
                            key: dep.key.clone(),
                            lib_name: dep.lib_name(),
                            version: v.clone(),
                            optional: dep.optional,
                        },
                    ),
                ),
                None => Err(
                    Error::InvalidMetadata(
                        String::from_str("No version in ").concat(table_key()).concat(".").concat(
                            dep.key.as_str(),
                        ),
                    ),
                ),
            }
        },
    }
}

} // verus!
