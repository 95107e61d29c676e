//! The prober: per dependency, decide between skipping discovery, building
//! internally and asking the discovery collaborator, and drive one whole
//! resolution pass.
//!
//! The collaborator and the fallback build strategies are handed in as
//! callables; every decision about their answers is made by the verified
//! functions below, which take those answers as arguments.

use vstd::prelude::*;

use crate::env::{spec_env_get, spec_env_has, EnvVariables};
use crate::error::{BiceView, BuildInternalClosureError, Error, ErrorView};
use crate::flags::{
    gen_flags, override_from_flags, spec_apply_overrides, spec_gen_flags, spec_override_lib,
    BuildFlags, FlagView,
};
use crate::library::{libs_view, spec_manual_library, Library, LibraryView};
use crate::metadata::{DepView, MetaData};
use crate::resolve::{resolve_dep, spec_resolve, ResolvedDep, ResolvedView};
use crate::strutil::{flag_override_var, spec_override_var, str_eq};
use crate::toml_data::{toml_tree_of, TomlView};
use crate::version::{spec_version_lt, version_lt};

verus! {

use vstd::string::StringExecFns;

/// When the library may be built internally instead of being discovered.
#[derive(Debug, Clone, Copy, PartialEq, Eq, Structural)]
pub enum BuildInternal {
    /// Build internally only after discovery has failed.
    Auto,
    /// Always build internally, without consulting discovery.
    Always,
    /// Never build internally.
    Never,
}

impl Default for BuildInternal {
    /// Without instruction, nothing is built internally.
    fn default() -> (r: BuildInternal)
        ensures
            r == BuildInternal::Never,
    {
        BuildInternal::Never
    }
}

/// The value a `BUILD_INTERNAL` variable denotes, if any.
pub open spec fn spec_build_internal_of(s: Seq<char>) -> Option<BuildInternal> {
    if s == "auto"@ {
        Some(BuildInternal::Auto)
    } else if s == "always"@ {
        Some(BuildInternal::Always)
    } else if s == "never"@ {
        Some(BuildInternal::Never)
    } else {
        None
    }
}

/// The build-internal policy of one dependency: its `BUILD_INTERNAL`
/// variable, `never` being the default; an unknown value is refused.
pub open spec fn spec_build_internal_status(
    env: Seq<(Seq<char>, Seq<char>)>,
    key: Seq<char>,
) -> Result<BuildInternal, ErrorView> {
    let var = spec_override_var(key, "BUILD_INTERNAL"@);
    match spec_env_get(env, var) {
        None => Ok(BuildInternal::Never),
        Some(s) => match spec_build_internal_of(s) {
            Some(b) => Ok(b),
            None => Err(
                ErrorView::BuildInternalInvalid(
                    "Invalid value in "@ + var + ": "@ + s + " (allowed: 'auto', 'always', 'never')"@,
                ),
            ),
        },
    }
}

/// Read the dependency's build-internal policy from the environment.
pub fn get_build_internal_status(env: &EnvVariables, name: &str) -> (r: Result<BuildInternal, Error>)
    ensures
        match r {
            Ok(b) => spec_build_internal_status(env@, name@) == Ok::<BuildInternal, ErrorView>(b),
            Err(e) => spec_build_internal_status(env@, name@) == Err::<BuildInternal, ErrorView>(
                e@,
            ),
        },
{
    let var = flag_override_var(name, "BUILD_INTERNAL");
    match env.get(var.as_str()) {
        None => Ok(BuildInternal::default()),
        Some(s) => {
            if str_eq(s.as_str(), "auto") {
                Ok(BuildInternal::Auto)
            } else if str_eq(s.as_str(), "always") {
                Ok(BuildInternal::Always)
            } else if str_eq(s.as_str(), "never") {
                Ok(BuildInternal::Never)
            } else {
                Err(
                    Error::BuildInternalInvalid(
                        String::from_str("Invalid value in ").concat(var.as_str()).concat(
                            ": ",
                        ).concat(s.as_str()).concat(" (allowed: 'auto', 'always', 'never')"),
                    ),
                )
            }
        },
    }
}

/// How one dependency is to be probed.
#[derive(Debug, Clone, Copy, PartialEq, Eq, Structural)]
pub enum ProbePlan {
    /// An override variable asks to skip discovery: start from an empty
    /// manually specified library.
    SkipDiscovery,
    /// Policy `always`: invoke the fallback build without discovery.
    BuildAlways,
    /// Ask the discovery collaborator, with the given policy deciding what a
    /// failure means.
    Discover(BuildInternal),
}

/// The plan for one dependency: `NO_PKG_CONFIG` skips discovery, policy
/// `always` builds directly, anything else discovers.  An invalid policy
/// value is refused even when discovery would be skipped.
pub open spec fn spec_probe_plan(env: Seq<(Seq<char>, Seq<char>)>, key: Seq<char>) -> Result<
    ProbePlan,
    ErrorView,
> {
    match spec_build_internal_status(env, key) {
        Err(e) => Err(e),
        Ok(st) => {
            if spec_env_has(env, spec_override_var(key, "NO_PKG_CONFIG"@)) {
                Ok(ProbePlan::SkipDiscovery)
            } else if st == BuildInternal::Always {
                Ok(ProbePlan::BuildAlways)
            } else {
                Ok(ProbePlan::Discover(st))
            }
        },
    }
}

/// Decide how the dependency named `key` is to be probed.
pub fn probe_plan(env: &EnvVariables, key: &str) -> (r: Result<ProbePlan, Error>)
    ensures
        match r {
            Ok(p) => spec_probe_plan(env@, key@) == Ok::<ProbePlan, ErrorView>(p),
            Err(e) => spec_probe_plan(env@, key@) == Err::<ProbePlan, ErrorView>(e@),
        },
{
    let status = match get_build_internal_status(env, key) {
        Ok(s) => s,
        Err(e) => {
            return Err(e);
        },
    };
    if env.contains(flag_override_var(key, "NO_PKG_CONFIG").as_str()) {
        Ok(ProbePlan::SkipDiscovery)
    } else if status == BuildInternal::Always {
        Ok(ProbePlan::BuildAlways)
    } else {
        Ok(ProbePlan::Discover(status))
    }
}

/// What the state machine does with a discovery answer.
#[derive(Debug)]
pub enum ProbeAction {
    /// Discovery succeeded: use what it reported.
    UseDiscovered(Library),
    /// Discovery failed and the policy is `auto`: invoke the fallback build.
    InvokeFallback,
    /// Discovery failed and stands: propagate its error.
    PropagateError(String),
}

/// The mathematical value of a `ProbeAction`.
pub ghost enum ActionView {
    UseDiscovered(LibraryView),
    InvokeFallback,
    PropagateError(Seq<char>),
}

impl View for ProbeAction {
    type V = ActionView;

    open spec fn view(&self) -> ActionView {
        match self {
            ProbeAction::UseDiscovered(l) => ActionView::UseDiscovered(l@),
            ProbeAction::InvokeFallback => ActionView::InvokeFallback,
            ProbeAction::PropagateError(e) => ActionView::PropagateError(e@),
        }
    }
}

/// The state machine's row for a discovery answer: success is used, failure
/// invokes the fallback under policy `auto` and is propagated otherwise.
pub open spec fn spec_after_discovery(
    policy: BuildInternal,
    outcome: Result<LibraryView, Seq<char>>,
) -> ActionView {
    match outcome {
        Ok(l) => ActionView::UseDiscovered(l),
        Err(e) => if policy is Auto {
            ActionView::InvokeFallback
        } else {
            ActionView::PropagateError(e)
        },
    }
}

/// The view of a discovery answer.
pub open spec fn spec_outcome_view(outcome: Result<Library, String>) -> Result<
    LibraryView,
    Seq<char>,
> {
    match outcome {
        Ok(l) => Ok(l@),
        Err(e) => Err(e@),
    }
}

/// Decide what a discovery answer means under the given policy.
pub fn after_discovery(policy: BuildInternal, outcome: Result<Library, String>) -> (r: ProbeAction)
    ensures
        r@ == spec_after_discovery(policy, spec_outcome_view(outcome)),
{
    match outcome {
        Ok(l) => ProbeAction::UseDiscovered(l),
        Err(e) => {
            if policy == BuildInternal::Auto {
                ProbeAction::InvokeFallback
            } else {
                ProbeAction::PropagateError(e)
            }
        },
    }
}

/// The view of a fallback build answer; `None` stands for "no strategy is
/// registered for this dependency".
pub open spec fn spec_built_view(b: Option<Result<Library, BuildInternalClosureError>>) -> Option<
    Result<LibraryView, BiceView>,
> {
    match b {
        None => None,
        Some(Ok(l)) => Some(Ok(l@)),
        Some(Err(e)) => Some(Err(e@)),
    }
}

/// What a fallback build answer yields for the dependency `name` at minimum
/// `version`: no registered strategy and strategy failure are errors, and a
/// library built below the required minimum is refused.
pub open spec fn spec_check_build(
    name: Seq<char>,
    version: Seq<char>,
    built: Option<Result<LibraryView, BiceView>>,
) -> Result<LibraryView, ErrorView> {
    match built {
        None => Err(ErrorView::BuildInternalNoClosure(name, version)),
        Some(Err(e)) => Err(ErrorView::BuildInternalClosureError(name, e)),
        Some(Ok(l)) => if spec_version_lt(l.version, version) {
            Err(ErrorView::BuildInternalWrongVersion(name, l.version, version))
        } else {
            Ok(l)
        },
    }
}

/// Judge what a fallback build handed back for dependency `name`, required
/// at least at `version`.
pub fn check_build_internal(
    name: &str,
    version: &str,
    built: Option<Result<Library, BuildInternalClosureError>>,
) -> (r: Result<Library, Error>)
    ensures
        match r {
            Ok(l) => spec_check_build(name@, version@, spec_built_view(built)) == Ok::<
                LibraryView,
                ErrorView,
            >(l@),
            Err(e) => spec_check_build(name@, version@, spec_built_view(built)) == Err::<
                LibraryView,
                ErrorView,
            >(e@),
        },
{
    match built {
        None => Err(Error::BuildInternalNoClosure(name.to_owned(), version.to_owned())),
        Some(Err(e)) => Err(Error::BuildInternalClosureError(name.to_owned(), e)),
        Some(Ok(l)) => {
            if version_lt(l.version.as_str(), version) {
                Err(
                    Error::BuildInternalWrongVersion(
                        name.to_owned(),
                        l.version.clone(),
                        version.to_owned(),
                    ),
                )
            } else {
                Ok(l)
            }
        },
    }
}

/// What the outside world answered for one dependency during a pass.
pub ghost enum DepOutcome {
    /// No collaborator and no strategy was consulted.
    NoCalls,
    /// Discovery answered, and nothing further was asked.
    Discovered(Result<LibraryView, Seq<char>>),
    /// The fallback build was invoked directly; `None` means no strategy was
    /// registered.
    BuiltDirect(Option<Result<LibraryView, BiceView>>),
    /// Discovery failed with the message, then the fallback build answered.
    DiscoveredThenBuilt(Seq<char>, Option<Result<LibraryView, BiceView>>),
}

/// One dependency settled against the environment and the outside answers:
/// the whole per-dependency state machine.  An answer whose shape does not
/// belong to the dependency's plan contributes nothing.
pub open spec fn spec_settle_dep(
    d: DepView,
    env: Seq<(Seq<char>, Seq<char>)>,
    oc: DepOutcome,
) -> Result<Option<(Seq<char>, LibraryView)>, ErrorView> {
    match spec_resolve(d, env) {
        Err(e) => Err(e),
        Ok(None) => Ok(None),
        Ok(Some(rd)) => match spec_probe_plan(env, rd.key) {
            Err(e) => Err(e),
            Ok(plan) => match plan {
                ProbePlan::SkipDiscovery => Ok(Some((rd.key, spec_manual_library()))),
                ProbePlan::BuildAlways => match oc {
                    DepOutcome::BuiltDirect(b) => match spec_check_build(rd.key, rd.version, b) {
                        Ok(l) => Ok(Some((rd.key, l))),
                        Err(e) => Err(e),
                    },
                    _ => Ok(None),
                },
                ProbePlan::Discover(policy) => match oc {
                    DepOutcome::Discovered(outcome) => match spec_after_discovery(
                        policy,
                        outcome,
                    ) {
                        ActionView::UseDiscovered(l) => Ok(Some((rd.key, l))),
                        ActionView::PropagateError(e) => Err(ErrorView::PkgConfig(e)),
                        ActionView::InvokeFallback => Ok(None),
                    },
                    DepOutcome::DiscoveredThenBuilt(emsg, b) => match spec_after_discovery(
                        policy,
                        Err(emsg),
                    ) {
                        ActionView::InvokeFallback => match spec_check_build(
                            rd.key,
                            rd.version,
                            b,
                        ) {
                            Ok(l) => Ok(Some((rd.key, l))),
                            Err(e) => Err(e),
                        },
                        _ => Ok(None),
                    },
                    _ => Ok(None),
                },
            },
        },
    }
}

/// All dependencies settled in order, `ocs[k]` answering for the `k`-th one;
/// the first error aborts the pass.
pub open spec fn spec_settle_all(
    deps: Seq<DepView>,
    env: Seq<(Seq<char>, Seq<char>)>,
    ocs: Seq<DepOutcome>,
) -> Result<Seq<(Seq<char>, LibraryView)>, ErrorView>
    decreases deps.len(),
{
    if deps.len() == 0 {
        Ok(Seq::<(Seq<char>, LibraryView)>::empty())
    } else {
        match spec_settle_all(deps.drop_last(), env, ocs) {
            Err(e) => Err(e),
            Ok(libs) => match spec_settle_dep(deps.last(), env, ocs[deps.len() - 1]) {
                Err(e) => Err(e),
                Ok(None) => Ok(libs),
                Ok(Some(p)) => Ok(libs.push(p)),
            },
        }
    }
}

/// A whole pass as a function of the manifest text, the environment and the
/// outside answers: parse, settle every dependency, apply the overrides,
/// generate the directives.
pub open spec fn spec_probe_full(
    tree: Result<TomlView, Seq<char>>,
    path: Seq<char>,
    env: Seq<(Seq<char>, Seq<char>)>,
    ocs: Seq<DepOutcome>,
) -> Result<(Seq<(Seq<char>, LibraryView)>, Seq<FlagView>), ErrorView> {
    match crate::metadata::spec_parse_manifest(tree, path) {
        Err(e) => Err(e),
        Ok(deps) => match spec_settle_all(deps, env, ocs) {
            Err(e) => Err(e),
            Ok(libs) => {
                let over = spec_apply_overrides(libs, env);
                match spec_gen_flags(over) {
                    Err(e) => Err(e),
                    Ok(fs) => Ok((over, fs)),
                }
            },
        },
    }
}

/// An error in a settled prefix is the error of the whole pass, whatever the
/// later answers are.
proof fn lemma_settle_prefix_err(
    deps: Seq<DepView>,
    env: Seq<(Seq<char>, Seq<char>)>,
    ocs: Seq<DepOutcome>,
    i: int,
)
    requires
        0 <= i <= deps.len(),
        spec_settle_all(deps.take(i), env, ocs) is Err,
    ensures
        spec_settle_all(deps, env, ocs) == spec_settle_all(deps.take(i), env, ocs),
    decreases deps.len() - i,
{
    if i == deps.len() {
        assert(deps.take(i) =~= deps);
    } else {
        assert(deps.take(i + 1).drop_last() =~= deps.take(i));
        assert(deps.take(i + 1).last() == deps[i]);
        lemma_settle_prefix_err(deps, env, ocs, i + 1);
    }
}

/// Settling ignores answers beyond the dependencies.
proof fn lemma_settle_all_extend(
    deps: Seq<DepView>,
    env: Seq<(Seq<char>, Seq<char>)>,
    ocs: Seq<DepOutcome>,
    x: DepOutcome,
)
    requires
        deps.len() <= ocs.len(),
    ensures
        spec_settle_all(deps, env, ocs.push(x)) == spec_settle_all(deps, env, ocs),
    decreases deps.len(),
{
    if deps.len() > 0 {
        lemma_settle_all_extend(deps.drop_last(), env, ocs, x);
        assert(ocs.push(x)[deps.len() - 1] == ocs[deps.len() - 1]);
    }
}
/// `ov` is an answer the discovery collaborator can give for `rd`: some
/// possible return of `discover` at the resolved library name and version
/// has exactly this value.
pub open spec fn spec_discover_answer<D: Fn(String, String) -> Result<Library, String>>(
    discover: D,
    rd: ResolvedView,
    ov: Result<LibraryView, Seq<char>>,
) -> bool {
    exists|n: String, v: String, ret: Result<Library, String>|
        n@ == rd.lib_name && v@ == rd.version && #[trigger] call_ensures(discover, (n, v), ret)
            && spec_outcome_view(ret) == ov
}

/// `b` is an answer the fallback strategy map can give for `rd`: some
/// possible return of `build_internal` at the dependency key and resolved
/// version has exactly this value.
pub open spec fn spec_build_answer<
    B: Fn(String, String) -> Option<Result<Library, BuildInternalClosureError>>,
>(build_internal: B, rd: ResolvedView, b: Option<Result<LibraryView, BiceView>>) -> bool {
    exists|n: String, v: String, ret: Option<Result<Library, BuildInternalClosureError>>|
        n@ == rd.key && v@ == rd.version && #[trigger] call_ensures(build_internal, (n, v), ret)
            && spec_built_view(ret) == b
}

/// Every answer embedded in `oc` is one the callables can actually give for
/// `d`.
pub open spec fn spec_outcome_sound<
    D: Fn(String, String) -> Result<Library, String>,
    B: Fn(String, String) -> Option<Result<Library, BuildInternalClosureError>>,
>(
    discover: D,
    build_internal: B,
    d: DepView,
    env: Seq<(Seq<char>, Seq<char>)>,
    oc: DepOutcome,
) -> bool {
    match spec_resolve(d, env) {
        Ok(Some(rd)) => match oc {
            DepOutcome::NoCalls => true,
            DepOutcome::Discovered(ov) => spec_discover_answer(discover, rd, ov),
            DepOutcome::BuiltDirect(b) => spec_build_answer(build_internal, rd, b),
            DepOutcome::DiscoveredThenBuilt(e, b) => spec_discover_answer(discover, rd, Err(e))
                && spec_build_answer(build_internal, rd, b),
        },
        _ => true,
    }
}

/// The discovery collaborator answers as a function of the texts it is
/// given: any two possible returns at view-equal arguments agree in value.
pub open spec fn spec_discover_deterministic<D: Fn(String, String) -> Result<Library, String>>(
    discover: D,
) -> bool {
    forall|
        a1: (String, String),
        a2: (String, String),
        r1: Result<Library, String>,
        r2: Result<Library, String>,
    |
        (a1.0@ == a2.0@ && a1.1@ == a2.1@ && #[trigger] call_ensures(discover, a1, r1)
            && #[trigger] call_ensures(discover, a2, r2)) ==> spec_outcome_view(r1)
            == spec_outcome_view(r2)
}

/// The fallback strategy map answers as a function of the texts it is given.
pub open spec fn spec_build_deterministic<
    B: Fn(String, String) -> Option<Result<Library, BuildInternalClosureError>>,
>(build_internal: B) -> bool {
    forall|
        a1: (String, String),
        a2: (String, String),
        r1: Option<Result<Library, BuildInternalClosureError>>,
        r2: Option<Result<Library, BuildInternalClosureError>>,
    |
        (a1.0@ == a2.0@ && a1.1@ == a2.1@ && #[trigger] call_ensures(build_internal, a1, r1)
            && #[trigger] call_ensures(build_internal, a2, r2)) ==> spec_built_view(r1)
            == spec_built_view(r2)
}


/// The shapes an answer may take for one dependency: exactly those its plan
/// can produce.  An inactive, erroring or skip-discovery dependency consults
/// nobody; plan `always` invokes only the fallback build; a discovering plan
/// yields the discovery answer alone, a failed discovery continuing into the
/// fallback build exactly under policy `auto`.
pub open spec fn spec_outcome_shape(
    d: DepView,
    env: Seq<(Seq<char>, Seq<char>)>,
    oc: DepOutcome,
) -> bool {
    match spec_resolve(d, env) {
        Err(_) => oc is NoCalls,
        Ok(None) => oc is NoCalls,
        Ok(Some(rd)) => match spec_probe_plan(env, rd.key) {
            Err(_) => oc is NoCalls,
            Ok(plan) => match plan {
                ProbePlan::SkipDiscovery => oc is NoCalls,
                ProbePlan::BuildAlways => oc is BuiltDirect,
                ProbePlan::Discover(policy) => match oc {
                    DepOutcome::Discovered(outcome) => outcome is Ok || !(policy is Auto),
                    DepOutcome::DiscoveredThenBuilt(_, _) => policy is Auto,
                    _ => false,
                },
            },
        },
    }
}

/// A shape-respecting placeholder answer for a dependency an aborted pass
/// never reached.
pub open spec fn spec_shape_witness(d: DepView, env: Seq<(Seq<char>, Seq<char>)>) -> DepOutcome {
    match spec_resolve(d, env) {
        Ok(Some(rd)) => match spec_probe_plan(env, rd.key) {
            Ok(ProbePlan::BuildAlways) => DepOutcome::BuiltDirect(None),
            Ok(ProbePlan::Discover(policy)) => if policy is Auto {
                DepOutcome::DiscoveredThenBuilt(Seq::<char>::empty(), None)
            } else {
                DepOutcome::Discovered(Err(Seq::<char>::empty()))
            },
            _ => DepOutcome::NoCalls,
        },
        _ => DepOutcome::NoCalls,
    }
}

proof fn lemma_shape_witness_ok(d: DepView, env: Seq<(Seq<char>, Seq<char>)>)
    ensures
        spec_outcome_shape(d, env, spec_shape_witness(d, env)),
{
}

/// Settling reads answers by position only.
pub proof fn lemma_settle_all_agree(
    deps: Seq<DepView>,
    env: Seq<(Seq<char>, Seq<char>)>,
    ocs1: Seq<DepOutcome>,
    ocs2: Seq<DepOutcome>,
)
    requires
        forall|k: int| 0 <= k < deps.len() ==> #[trigger] ocs1[k] == ocs2[k],
    ensures
        spec_settle_all(deps, env, ocs1) == spec_settle_all(deps, env, ocs2),
    decreases deps.len(),
{
    if deps.len() > 0 {
        lemma_settle_all_agree(deps.drop_last(), env, ocs1, ocs2);
    }
}

/// Extends an aborted pass's answers with shape-respecting placeholders for
/// the dependencies it never reached, keeping the error.
proof fn lemma_pad_outcomes(
    deps: Seq<DepView>,
    env: Seq<(Seq<char>, Seq<char>)>,
    ocs: Seq<DepOutcome>,
    e: ErrorView,
) -> (r: Seq<DepOutcome>)
    requires
        ocs.len() <= deps.len(),
        forall|k: int| 0 <= k < ocs.len() ==> spec_outcome_shape(deps[k], env, #[trigger] ocs[k]),
        spec_settle_all(deps.take(ocs.len() as int), env, ocs) == Err::<
            Seq<(Seq<char>, LibraryView)>,
            ErrorView,
        >(e),
    ensures
        r.len() == deps.len(),
        forall|k: int| 0 <= k < deps.len() ==> spec_outcome_shape(deps[k], env, #[trigger] r[k]),
        spec_settle_all(deps, env, r) == Err::<Seq<(Seq<char>, LibraryView)>, ErrorView>(e),
{
    let pad = Seq::new(
        (deps.len() - ocs.len()) as nat,
        |j: int| spec_shape_witness(deps[ocs.len() + j], env),
    );
    let ocs2 = ocs + pad;
    lemma_settle_all_agree(deps.take(ocs.len() as int), env, ocs, ocs2);
    lemma_settle_prefix_err(deps, env, ocs2, ocs.len() as int);
    assert forall|k: int| 0 <= k < deps.len() implies spec_outcome_shape(
        deps[k],
        env,
        #[trigger] ocs2[k],
    ) by {
        if k < ocs.len() {
            assert(ocs2[k] == ocs[k]);
        } else {
            assert(ocs2[k] == spec_shape_witness(deps[k], env));
            lemma_shape_witness_ok(deps[k], env);
        }
    }
    ocs2
}

/// The manifest keys of the dependencies that are active -- not gated off --
/// under the environment, in manifest order.
pub open spec fn spec_active_keys(deps: Seq<DepView>, env: Seq<(Seq<char>, Seq<char>)>) -> Seq<
    Seq<char>,
>
    decreases deps.len(),
{
    if deps.len() == 0 {
        Seq::<Seq<char>>::empty()
    } else {
        let rest = spec_active_keys(deps.drop_last(), env);
        if spec_resolve(deps.last(), env) matches Ok(Some(_)) {
            rest.push(deps.last().key)
        } else {
            rest
        }
    }
}

/// Law: under answers whose shapes belong to the dependencies' plans, a
/// successful settling holds exactly one entry per active dependency, in
/// manifest order, keyed by the dependency's manifest key.
pub proof fn lemma_settled_keys(
    deps: Seq<DepView>,
    env: Seq<(Seq<char>, Seq<char>)>,
    ocs: Seq<DepOutcome>,
)
    requires
        forall|k: int| 0 <= k < deps.len() ==> spec_outcome_shape(deps[k], env, #[trigger] ocs[k]),
    ensures
        spec_settle_all(deps, env, ocs) matches Ok(libs) ==> {
            &&& libs.len() == spec_active_keys(deps, env).len()
            &&& forall|j: int|
                0 <= j < libs.len() ==> (#[trigger] libs[j]).0 == spec_active_keys(deps, env)[j]
        },
    decreases deps.len(),
{
    if deps.len() > 0 {
        assert forall|k: int| 0 <= k < deps.drop_last().len() implies spec_outcome_shape(
            deps.drop_last()[k],
            env,
            #[trigger] ocs[k],
        ) by {
            assert(deps.drop_last()[k] == deps[k]);
        }
        lemma_settled_keys(deps.drop_last(), env, ocs);
    }
}


/// One whole resolution pass: parse the manifest text, settle every active
/// dependency through `discover` (the discovery collaborator) and
/// `build_internal` (the fallback strategy map; `None` when no strategy is
/// registered for a key), apply the override variables, and generate the
/// directives.  Whatever the two callables answer, the result is one run of
/// the settling machine on answers whose shapes belong to each dependency's
/// plan -- so no active dependency is ever dropped silently.  On success the
/// answers are moreover genuine, each a possible return of the callables at
/// the resolved name and version, and the map holds exactly the active
/// dependencies, keyed in manifest order.
#[verifier::loop_isolation(false)]
pub fn probe_full<D: Fn(String, String) -> Result<Library, String>, B: Fn(String, String) -> Option<
    Result<Library, BuildInternalClosureError>,
>>(manifest: &str, path: &str, env: &EnvVariables, discover: D, build_internal: B) -> (r: Result<
    (Vec<(String, Library)>, BuildFlags),
    Error,
>)
    requires
        forall|a: (String, String)| #[trigger] call_requires(discover, a),
        forall|a: (String, String)| #[trigger] call_requires(build_internal, a),
    ensures
        exists|ocs: Seq<DepOutcome>|
            {
                &&& (crate::metadata::spec_parse_manifest(toml_tree_of(manifest@), path@)
                    matches Ok(deps) ==> ocs.len() == deps.len() && (forall|k: int|
                    0 <= k < deps.len() ==> spec_outcome_shape(deps[k], env@, #[trigger] ocs[k])))
                &&& spec_probe_full(toml_tree_of(manifest@), path@, env@, ocs) == (match r {
                    Ok(ref p) => Ok::<(Seq<(Seq<char>, LibraryView)>, Seq<FlagView>), ErrorView>(
                        (libs_view(p.0@), p.1@),
                    ),
                    Err(ref e) => Err::<
                        (Seq<(Seq<char>, LibraryView)>, Seq<FlagView>),
                        ErrorView,
                    >(e@),
                })
            },
        crate::metadata::spec_parse_manifest(toml_tree_of(manifest@), path@) is Err ==> (r is Err
            && r->Err_0@ == crate::metadata::spec_parse_manifest(
            toml_tree_of(manifest@),
            path@,
        )->Err_0),
        r matches Ok(ref p) ==> {
            let parsed = crate::metadata::spec_parse_manifest(toml_tree_of(manifest@), path@);
            &&& parsed is Ok
            &&& libs_view(p.0@).len() == spec_active_keys(parsed->Ok_0, env@).len()
            &&& forall|j: int|
                0 <= j < libs_view(p.0@).len() ==> (#[trigger] libs_view(p.0@)[j]).0
                    == spec_active_keys(parsed->Ok_0, env@)[j]
        },
        r matches Ok(ref p) ==> exists|ocs: Seq<DepOutcome>|
            {
                &&& ocs.len() == crate::metadata::spec_parse_manifest(
                    toml_tree_of(manifest@),
                    path@,
                )->Ok_0.len()
                &&& forall|k: int|
                    0 <= k < ocs.len() ==> spec_outcome_shape(
                        crate::metadata::spec_parse_manifest(
                            toml_tree_of(manifest@),
                            path@,
                        )->Ok_0[k],
                        env@,
                        #[trigger] ocs[k],
                    )
                &&& forall|k: int|
                    0 <= k < ocs.len() ==> spec_outcome_sound(
                        discover,
                        build_internal,
                        crate::metadata::spec_parse_manifest(
                            toml_tree_of(manifest@),
                            path@,
                        )->Ok_0[k],
                        env@,
                        #[trigger] ocs[k],
                    )
                &&& #[trigger] spec_probe_full(toml_tree_of(manifest@), path@, env@, ocs) == Ok::<
                    (Seq<(Seq<char>, LibraryView)>, Seq<FlagView>),
                    ErrorView,
                >((libs_view(p.0@), p.1@))
            },
{
    let ghost tree = toml_tree_of(manifest@);
    let metadata = match MetaData::from_str(manifest, path) {
        Ok(m) => m,
        Err(e) => {
            proof {
                let ocs0 = Seq::<DepOutcome>::empty();
                assert(spec_probe_full(tree, path@, env@, ocs0) == Err::<
                    (Seq<(Seq<char>, LibraryView)>, Seq<FlagView>),
                    ErrorView,
                >(e@));
            }
            return Err(e);
        },
    };
    let mut libraries: Vec<(String, Library)> = Vec::new();
    let ghost mut ocs: Seq<DepOutcome> = Seq::<DepOutcome>::empty();
    let mut i: usize = 0;
    proof {
        assert(metadata@.take(0) =~= Seq::<DepView>::empty());
        assert(libs_view(libraries@) =~= Seq::<(Seq<char>, LibraryView)>::empty());
    }
    while i < metadata.deps.len()
        invariant
            i <= metadata.deps.len(),
            ocs.len() == i,
            spec_settle_all(metadata@.take(i as int), env@, ocs) == Ok::<
                Seq<(Seq<char>, LibraryView)>,
                ErrorView,
            >(libs_view(libraries@)),
            forall|k: int|
                0 <= k < i ==> spec_outcome_shape(metadata@[k], env@, #[trigger] ocs[k]),
            forall|k: int|
                0 <= k < i ==> spec_outcome_sound(
                    discover,
                    build_internal,
                    metadata@[k],
                    env@,
                    #[trigger] ocs[k],
                ),
        decreases metadata.deps.len() - i,
    {
        let ghost ocs0 = ocs;
        let ghost prev_libs = libs_view(libraries@);
        let dep = &metadata.deps[i];
        proof {
            assert(metadata@[i as int] == dep@);
            assert(metadata@.take(i as int + 1).drop_last() =~= metadata@.take(i as int));
            assert(metadata@.take(i as int + 1).last() == metadata@[i as int]);
        }
        let rd_opt = match resolve_dep(dep, env) {
            Ok(o) => o,
            Err(e) => {
                proof {
                    ocs = ocs0.push(DepOutcome::NoCalls);
                    lemma_settle_all_extend(metadata@.take(i as int), env@, ocs0, DepOutcome::NoCalls);
                    assert(spec_outcome_shape(metadata@[i as int], env@, ocs[i as int]));
                    assert(spec_outcome_sound(
                        discover,
                        build_internal,
                        metadata@[i as int],
                        env@,
                        ocs[i as int],
                    ));
                    assert(spec_settle_all(metadata@.take(i as int + 1), env@, ocs) == Err::<
                        Seq<(Seq<char>, LibraryView)>,
                        ErrorView,
                    >(e@));
                    ocs = lemma_pad_outcomes(metadata@, env@, ocs, e@);
                    assert(spec_probe_full(tree, path@, env@, ocs) == Err::<
                        (Seq<(Seq<char>, LibraryView)>, Seq<FlagView>),
                        ErrorView,
                    >(e@));
                }
                return Err(e);
            },
        };
        match rd_opt {
            None => {
                proof {
                    ocs = ocs0.push(DepOutcome::NoCalls);
                    lemma_settle_all_extend(metadata@.take(i as int), env@, ocs0, DepOutcome::NoCalls);
                    assert(spec_outcome_shape(metadata@[i as int], env@, ocs[i as int]));
                    assert(spec_outcome_sound(
                        discover,
                        build_internal,
                        metadata@[i as int],
                        env@,
                        ocs[i as int],
                    ));
                    assert(spec_settle_all(metadata@.take(i as int + 1), env@, ocs) == Ok::<
                        Seq<(Seq<char>, LibraryView)>,
                        ErrorView,
                    >(libs_view(libraries@)));
                }
            },
            Some(rd) => {
                let plan = match probe_plan(env, rd.key.as_str()) {
                    Ok(p) => p,
                    Err(e) => {
                        proof {
                            ocs = ocs0.push(DepOutcome::NoCalls);
                            lemma_settle_all_extend(
                                metadata@.take(i as int),
                                env@,
                                ocs0,
                                DepOutcome::NoCalls,
                            );
                    assert(spec_outcome_shape(metadata@[i as int], env@, ocs[i as int]));
                    assert(spec_outcome_sound(
                        discover,
                        build_internal,
                        metadata@[i as int],
                        env@,
                        ocs[i as int],
                    ));
                            assert(spec_settle_all(metadata@.take(i as int + 1), env@, ocs)
                                == Err::<Seq<(Seq<char>, LibraryView)>, ErrorView>(e@));
                            ocs = lemma_pad_outcomes(metadata@, env@, ocs, e@);
                            assert(spec_probe_full(tree, path@, env@, ocs) == Err::<
                                (Seq<(Seq<char>, LibraryView)>, Seq<FlagView>),
                                ErrorView,
                            >(e@));
                        }
                        return Err(e);
                    },
                };
                match plan {
                    ProbePlan::SkipDiscovery => {
                        let lib = Library::from_env_variables();
                        libraries.push((rd.key.clone(), lib));
                        proof {
                            ocs = ocs0.push(DepOutcome::NoCalls);
                            lemma_settle_all_extend(
                                metadata@.take(i as int),
                                env@,
                                ocs0,
                                DepOutcome::NoCalls,
                            );
                    assert(spec_outcome_shape(metadata@[i as int], env@, ocs[i as int]));
                    assert(spec_outcome_sound(
                        discover,
                        build_internal,
                        metadata@[i as int],
                        env@,
                        ocs[i as int],
                    ));
                            assert(libs_view(libraries@) =~= prev_libs.push(
                                (rd@.key, spec_manual_library()),
                            ));
                        }
                    },
                    ProbePlan::BuildAlways => {
                        let bi_name = rd.key.clone();
                        let bi_version = rd.version.clone();
                        let ghost g_bn = bi_name;
                        let ghost g_bv = bi_version;
                        let built = build_internal(bi_name, bi_version);
                        let ghost g_built = built;
                        let ghost bv = spec_built_view(built);
                        let ghost x = DepOutcome::BuiltDirect(bv);
                        proof {
                            assert(call_ensures(build_internal, (g_bn, g_bv), g_built));
                            assert(spec_build_answer(build_internal, rd@, bv));
                        }
                        match check_build_internal(rd.key.as_str(), rd.version.as_str(), built) {
                            Ok(lib) => {
                                let ghost lv = lib@;
                                libraries.push((rd.key.clone(), lib));
                                proof {
                                    ocs = ocs0.push(x);
                                    lemma_settle_all_extend(metadata@.take(i as int), env@, ocs0, x);
                    assert(spec_outcome_shape(metadata@[i as int], env@, ocs[i as int]));
                    assert(spec_outcome_sound(
                        discover,
                        build_internal,
                        metadata@[i as int],
                        env@,
                        ocs[i as int],
                    ));
                                    assert(libs_view(libraries@) =~= prev_libs.push((rd@.key, lv)));
                                }
                            },
                            Err(e) => {
                                proof {
                                    ocs = ocs0.push(x);
                                    lemma_settle_all_extend(metadata@.take(i as int), env@, ocs0, x);
                    assert(spec_outcome_shape(metadata@[i as int], env@, ocs[i as int]));
                    assert(spec_outcome_sound(
                        discover,
                        build_internal,
                        metadata@[i as int],
                        env@,
                        ocs[i as int],
                    ));
                                    assert(spec_settle_all(metadata@.take(i as int + 1), env@, ocs)
                                        == Err::<Seq<(Seq<char>, LibraryView)>, ErrorView>(e@));
                                    ocs = lemma_pad_outcomes(metadata@, env@, ocs, e@);
                                    assert(spec_probe_full(tree, path@, env@, ocs) == Err::<
                                        (Seq<(Seq<char>, LibraryView)>, Seq<FlagView>),
                                        ErrorView,
                                    >(e@));
                                }
                                return Err(e);
                            },
                        }
                    },
                    ProbePlan::Discover(policy) => {
                        let d_name = rd.lib_name.clone();
                        let d_version = rd.version.clone();
                        let ghost g_dn = d_name;
                        let ghost g_dv = d_version;
                        let outcome = discover(d_name, d_version);
                        let ghost g_outcome = outcome;
                        let ghost ov = spec_outcome_view(outcome);
                        proof {
                            assert(call_ensures(discover, (g_dn, g_dv), g_outcome));
                            assert(spec_discover_answer(discover, rd@, ov));
                        }
                        match after_discovery(policy, outcome) {
                            ProbeAction::UseDiscovered(lib) => {
                                let ghost lv = lib@;
                                let ghost x = DepOutcome::Discovered(ov);
                                libraries.push((rd.key.clone(), lib));
                                proof {
                                    ocs = ocs0.push(x);
                                    lemma_settle_all_extend(metadata@.take(i as int), env@, ocs0, x);
                    assert(spec_outcome_shape(metadata@[i as int], env@, ocs[i as int]));
                    assert(spec_outcome_sound(
                        discover,
                        build_internal,
                        metadata@[i as int],
                        env@,
                        ocs[i as int],
                    ));
                                    assert(libs_view(libraries@) =~= prev_libs.push((rd@.key, lv)));
                                }
                            },
                            ProbeAction::PropagateError(msg) => {
                                let ghost x = DepOutcome::Discovered(ov);
                                let e = Error::PkgConfig(msg);
                                proof {
                                    ocs = ocs0.push(x);
                                    lemma_settle_all_extend(metadata@.take(i as int), env@, ocs0, x);
                    assert(spec_outcome_shape(metadata@[i as int], env@, ocs[i as int]));
                    assert(spec_outcome_sound(
                        discover,
                        build_internal,
                        metadata@[i as int],
                        env@,
                        ocs[i as int],
                    ));
                                    assert(spec_settle_all(metadata@.take(i as int + 1), env@, ocs)
                                        == Err::<Seq<(Seq<char>, LibraryView)>, ErrorView>(e@));
                                    ocs = lemma_pad_outcomes(metadata@, env@, ocs, e@);
                                    assert(spec_probe_full(tree, path@, env@, ocs) == Err::<
                                        (Seq<(Seq<char>, LibraryView)>, Seq<FlagView>),
                                        ErrorView,
                                    >(e@));
                                }
                                return Err(e);
                            },
                            ProbeAction::InvokeFallback => {
                                let fb_name = rd.key.clone();
                                let fb_version = rd.version.clone();
                                let ghost g_fn = fb_name;
                                let ghost g_fv = fb_version;
                                let built = build_internal(fb_name, fb_version);
                                let ghost g_fbuilt = built;
                                let ghost bv = spec_built_view(built);
                                let ghost x = DepOutcome::DiscoveredThenBuilt(ov->Err_0, bv);
                                proof {
                                    assert(call_ensures(build_internal, (g_fn, g_fv), g_fbuilt));
                                    assert(spec_build_answer(build_internal, rd@, bv));
                                    assert(ov is Err);
                                    assert(Err::<LibraryView, Seq<char>>(ov->Err_0) == ov);
                                }
                                match check_build_internal(
                                    rd.key.as_str(),
                                    rd.version.as_str(),
                                    built,
                                ) {
                                    Ok(lib) => {
                                        let ghost lv = lib@;
                                        libraries.push((rd.key.clone(), lib));
                                        proof {
                                            ocs = ocs0.push(x);
                                            lemma_settle_all_extend(
                                                metadata@.take(i as int),
                                                env@,
                                                ocs0,
                                                x,
                                            );
                    assert(spec_outcome_shape(metadata@[i as int], env@, ocs[i as int]));
                    assert(spec_outcome_sound(
                        discover,
                        build_internal,
                        metadata@[i as int],
                        env@,
                        ocs[i as int],
                    ));
                                            assert(libs_view(libraries@) =~= prev_libs.push(
                                                (rd@.key, lv),
                                            ));
                                        }
                                    },
                                    Err(e) => {
                                        proof {
                                            ocs = ocs0.push(x);
                                            lemma_settle_all_extend(
                                                metadata@.take(i as int),
                                                env@,
                                                ocs0,
                                                x,
                                            );
                    assert(spec_outcome_shape(metadata@[i as int], env@, ocs[i as int]));
                    assert(spec_outcome_sound(
                        discover,
                        build_internal,
                        metadata@[i as int],
                        env@,
                        ocs[i as int],
                    ));
                                            assert(spec_settle_all(
                                                metadata@.take(i as int + 1),
                                                env@,
                                                ocs,
                                            ) == Err::<Seq<(Seq<char>, LibraryView)>, ErrorView>(
                                                e@,
                                            ));
                                            ocs = lemma_pad_outcomes(metadata@, env@, ocs, e@);
                                            assert(spec_probe_full(tree, path@, env@, ocs)
                                                == Err::<
                                                (Seq<(Seq<char>, LibraryView)>, Seq<FlagView>),
                                                ErrorView,
                                            >(e@));
                                        }
                                        return Err(e);
                                    },
                                }
                            },
                        }
                    },
                }
            },
        }
        i += 1;
    }
    proof {
        assert(metadata@.take(metadata.deps@.len() as int) =~= metadata@);
    }
    let ghost settled = libs_view(libraries@);
    override_from_flags(&mut libraries, env);
    let flags = match gen_flags(&libraries) {
        Ok(f) => f,
        Err(e) => {
            proof {
                assert(spec_probe_full(tree, path@, env@, ocs) == Err::<
                    (Seq<(Seq<char>, LibraryView)>, Seq<FlagView>),
                    ErrorView,
                >(e@));
            }
            return Err(e);
        },
    };
    proof {
        assert(spec_probe_full(tree, path@, env@, ocs) == Ok::<
            (Seq<(Seq<char>, LibraryView)>, Seq<FlagView>),
            ErrorView,
        >((libs_view(libraries@), flags@)));
        lemma_settled_keys(metadata@, env@, ocs);
        assert forall|j: int| 0 <= j < libs_view(libraries@).len() implies (#[trigger] libs_view(
            libraries@,
        )[j]).0 == spec_active_keys(metadata@, env@)[j] by {
            assert(libs_view(libraries@)[j] == (
                settled[j].0,
                spec_override_lib(settled[j].1, env@, settled[j].0),
            ));
        }
    }
    Ok((libraries, flags))
}


} // verus!
