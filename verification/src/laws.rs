//! The laws the engine obeys, each proved against the specification
//! functions that the executable functions' contracts are stated over.

use vstd::prelude::*;

use crate::env::spec_env_has;
use crate::error::ErrorView;
use crate::library::LibraryView;
use crate::metadata::{spec_new_dep, spec_parse_dep, DepView, OverrideView};
use crate::error::{BiceView, BuildInternalClosureError};
use crate::library::Library;
use crate::metadata::spec_parse_manifest;
use crate::probe::{
    lemma_settle_all_agree, spec_build_answer, spec_build_deterministic, spec_built_view,
    spec_discover_answer, spec_discover_deterministic, spec_outcome_shape, spec_outcome_sound,
    spec_outcome_view, spec_probe_full, spec_probe_plan, spec_settle_dep, DepOutcome,
    ProbePlan,
};
use crate::resolve::{
    spec_enabled_overrides, spec_pick_best, spec_resolve, ResolvedView,
};
use crate::strutil::spec_feature_var;
use crate::toml_data::{toml_tree_of, TomlView};
use crate::version::{lemma_version_lt_irrefl, lemma_version_lt_trans, spec_version_lt};

verus! {

/// Law: a dependency declared as a bare version string parses into a
/// dependency with exactly that base version and nothing else, and resolves,
/// whatever the environment, to exactly that string as its effective
/// minimum version, under its own name.
pub proof fn lemma_bare_string_version(
    name: Seq<char>,
    s: Seq<char>,
    env: Seq<(Seq<char>, Seq<char>)>,
)
    ensures
        spec_parse_dep(name, TomlView::Str(s)) == Ok::<DepView, ErrorView>(
            DepView { version: Some(s), ..spec_new_dep(name) },
        ),
        spec_resolve(DepView { version: Some(s), ..spec_new_dep(name) }, env) == Ok::<
            Option<ResolvedView>,
            ErrorView,
        >(Some(ResolvedView { key: name, lib_name: name, version: s, optional: false })),
{
}

/// Law: a dependency whose gating feature is disabled is inactive: it
/// resolves to nothing, and whatever the collaborator or a fallback builder
/// might have answered, settling it yields neither a library nor an error --
/// in particular no answer of theirs is ever consulted for it.
pub proof fn lemma_gated_dep_inactive(d: DepView, env: Seq<(Seq<char>, Seq<char>)>)
    requires
        d.feature is Some,
        !spec_env_has(env, spec_feature_var(d.feature->0)),
    ensures
        spec_resolve(d, env) == Ok::<Option<ResolvedView>, ErrorView>(None),
        forall|oc: DepOutcome|
            #[trigger] spec_settle_dep(d, env, oc) == Ok::<
                Option<(Seq<char>, LibraryView)>,
                ErrorView,
            >(None),
{
}

/// The picked override is one of the candidates, and none of them beats it.
proof fn lemma_pick_best_is_max(s: Seq<OverrideView>)
    requires
        s.len() > 0,
    ensures
        exists|k: int| 0 <= k < s.len() && spec_pick_best(s) == s[k],
        forall|k: int|
            0 <= k < s.len() ==> !spec_version_lt(
                spec_pick_best(s).version,
                #[trigger] s[k].version,
            ),
    decreases s.len(),
{
    if s.len() == 1 {
        assert(spec_pick_best(s) == s[0]);
        lemma_version_lt_irrefl(s[0].version);
    } else {
        lemma_pick_best_is_max(s.drop_last());
        let prev = spec_pick_best(s.drop_last());
        assert forall|k: int| 0 <= k < s.len() implies !spec_version_lt(
            spec_pick_best(s).version,
            #[trigger] s[k].version,
        ) by {
            if k < s.len() - 1 {
                assert(s.drop_last()[k] == s[k]);
                if spec_version_lt(prev.version, s.last().version) {
                    if spec_version_lt(s.last().version, s[k].version) {
                        lemma_version_lt_trans(prev.version, s.last().version, s[k].version);
                    }
                }
            } else {
                lemma_version_lt_irrefl(spec_pick_best(s).version);
            }
        }
        assert(exists|k: int| 0 <= k < s.len() && spec_pick_best(s) == s[k]) by {
            if spec_version_lt(prev.version, s.last().version) {
                assert(spec_pick_best(s) == s[s.len() - 1]);
            } else {
                let k0 = choose|k0: int|
                    0 <= k0 < s.drop_last().len() && spec_pick_best(s.drop_last())
                        == s.drop_last()[k0];
                assert(s.drop_last()[k0] == s[k0]);
                assert(spec_pick_best(s) == s[k0]);
            }
        }
    }
}

/// Law: while several version overrides are enabled, the effective minimum
/// version is the version of one of the enabled overrides, and no enabled
/// override's version lies above it under dotted-numeric comparison.
pub proof fn lemma_highest_enabled_override(d: DepView, env: Seq<(Seq<char>, Seq<char>)>)
    requires
        d.feature is Some ==> spec_env_has(env, spec_feature_var(d.feature->0)),
        spec_enabled_overrides(d, env).len() > 0,
    ensures
        spec_resolve(d, env) is Ok,
        spec_resolve(d, env)->Ok_0 is Some,
        exists|k: int|
            0 <= k < spec_enabled_overrides(d, env).len() && (spec_resolve(
                d,
                env,
            )->Ok_0->Some_0).version == #[trigger] spec_enabled_overrides(d, env)[k].version,
        forall|k: int|
            0 <= k < spec_enabled_overrides(d, env).len() ==> !spec_version_lt(
                (spec_resolve(d, env)->Ok_0->Some_0).version,
                #[trigger] spec_enabled_overrides(d, env)[k].version,
            ),
{
    lemma_pick_best_is_max(spec_enabled_overrides(d, env));
}

/// Two possible collaborator answers for one resolved dependency agree when
/// the collaborator is deterministic.
proof fn lemma_discover_answers_agree<D: Fn(String, String) -> Result<Library, String>>(
    discover: D,
    rd: ResolvedView,
    ov1: Result<LibraryView, Seq<char>>,
    ov2: Result<LibraryView, Seq<char>>,
)
    requires
        spec_discover_deterministic(discover),
        spec_discover_answer(discover, rd, ov1),
        spec_discover_answer(discover, rd, ov2),
    ensures
        ov1 == ov2,
{
    let (n1, v1, r1) = choose|n: String, v: String, ret: Result<Library, String>|
        n@ == rd.lib_name && v@ == rd.version && #[trigger] call_ensures(discover, (n, v), ret)
            && spec_outcome_view(ret) == ov1;
    let (n2, v2, r2) = choose|n: String, v: String, ret: Result<Library, String>|
        n@ == rd.lib_name && v@ == rd.version && #[trigger] call_ensures(discover, (n, v), ret)
            && spec_outcome_view(ret) == ov2;
    assert(call_ensures(discover, (n1, v1), r1));
    assert(call_ensures(discover, (n2, v2), r2));
}

/// Two possible strategy-map answers for one resolved dependency agree when
/// the strategy map is deterministic.
proof fn lemma_build_answers_agree<
    B: Fn(String, String) -> Option<Result<Library, BuildInternalClosureError>>,
>(
    build_internal: B,
    rd: ResolvedView,
    b1: Option<Result<LibraryView, BiceView>>,
    b2: Option<Result<LibraryView, BiceView>>,
)
    requires
        spec_build_deterministic(build_internal),
        spec_build_answer(build_internal, rd, b1),
        spec_build_answer(build_internal, rd, b2),
    ensures
        b1 == b2,
{
    let (n1, v1, r1) = choose|
        n: String,
        v: String,
        ret: Option<Result<Library, BuildInternalClosureError>>,
    |
        n@ == rd.key && v@ == rd.version && #[trigger] call_ensures(build_internal, (n, v), ret)
            && spec_built_view(ret) == b1;
    let (n2, v2, r2) = choose|
        n: String,
        v: String,
        ret: Option<Result<Library, BuildInternalClosureError>>,
    |
        n@ == rd.key && v@ == rd.version && #[trigger] call_ensures(build_internal, (n, v), ret)
            && spec_built_view(ret) == b2;
    assert(call_ensures(build_internal, (n1, v1), r1));
    assert(call_ensures(build_internal, (n2, v2), r2));
}

/// Deterministic callables leave only one shape-respecting sequence of
/// possible answers: any two agree at every position.
proof fn lemma_outcomes_unique<
    D: Fn(String, String) -> Result<Library, String>,
    B: Fn(String, String) -> Option<Result<Library, BuildInternalClosureError>>,
>(
    discover: D,
    build_internal: B,
    deps: Seq<DepView>,
    env: Seq<(Seq<char>, Seq<char>)>,
    ocs1: Seq<DepOutcome>,
    ocs2: Seq<DepOutcome>,
)
    requires
        spec_discover_deterministic(discover),
        spec_build_deterministic(build_internal),
        forall|k: int|
            0 <= k < deps.len() ==> spec_outcome_shape(deps[k], env, #[trigger] ocs1[k])
                && spec_outcome_sound(discover, build_internal, deps[k], env, ocs1[k]),
        forall|k: int|
            0 <= k < deps.len() ==> spec_outcome_shape(deps[k], env, #[trigger] ocs2[k])
                && spec_outcome_sound(discover, build_internal, deps[k], env, ocs2[k]),
    ensures
        forall|k: int| 0 <= k < deps.len() ==> #[trigger] ocs1[k] == ocs2[k],
{
    assert forall|k: int| 0 <= k < deps.len() implies #[trigger] ocs1[k] == ocs2[k] by {
        let d = deps[k];
        match spec_resolve(d, env) {
            Ok(Some(rd)) => {
                match spec_probe_plan(env, rd.key) {
                    Ok(plan) => {
                        match plan {
                            ProbePlan::SkipDiscovery => {},
                            ProbePlan::BuildAlways => {
                                lemma_build_answers_agree(
                                    build_internal,
                                    rd,
                                    ocs1[k]->BuiltDirect_0,
                                    ocs2[k]->BuiltDirect_0,
                                );
                            },
                            ProbePlan::Discover(policy) => {
                                let ov1 = match ocs1[k] {
                                    DepOutcome::Discovered(o) => o,
                                    DepOutcome::DiscoveredThenBuilt(e, _) => Err(e),
                                    _ => Err(Seq::<char>::empty()),
                                };
                                let ov2 = match ocs2[k] {
                                    DepOutcome::Discovered(o) => o,
                                    DepOutcome::DiscoveredThenBuilt(e, _) => Err(e),
                                    _ => Err(Seq::<char>::empty()),
                                };
                                lemma_discover_answers_agree(discover, rd, ov1, ov2);
                                if ocs1[k] is DiscoveredThenBuilt || ocs2[k] is DiscoveredThenBuilt {
                                    // a failure that continues into the fallback
                                    // happens under `auto` alone, where a bare
                                    // failed discovery cannot stand; so both
                                    // answers continue
                                    assert(ocs1[k] is DiscoveredThenBuilt && ocs2[k]
                                        is DiscoveredThenBuilt);
                                    lemma_build_answers_agree(
                                        build_internal,
                                        rd,
                                        ocs1[k]->DiscoveredThenBuilt_1,
                                        ocs2[k]->DiscoveredThenBuilt_1,
                                    );
                                }
                            },
                        }
                    },
                    Err(_) => {},
                }
            },
            _ => {},
        }
    }
}

/// Law: a resolution pass is pure.  With a discovery collaborator and a
/// fallback strategy map that are deterministic in the texts they are given,
/// the manifest text and the environment admit only one outcome: any two
/// shape-respecting sequences of possible answers -- such as the ones two
/// successful runs of `probe_full` report -- yield the same resolved library
/// map and the same directive sequence.
pub proof fn lemma_pass_deterministic<
    D: Fn(String, String) -> Result<Library, String>,
    B: Fn(String, String) -> Option<Result<Library, BuildInternalClosureError>>,
>(
    discover: D,
    build_internal: B,
    text: Seq<char>,
    path: Seq<char>,
    env: Seq<(Seq<char>, Seq<char>)>,
    ocs1: Seq<DepOutcome>,
    ocs2: Seq<DepOutcome>,
)
    requires
        spec_discover_deterministic(discover),
        spec_build_deterministic(build_internal),
        spec_parse_manifest(toml_tree_of(text), path) matches Ok(deps) ==> {
            &&& forall|k: int|
                0 <= k < deps.len() ==> spec_outcome_shape(deps[k], env, #[trigger] ocs1[k])
                    && spec_outcome_sound(discover, build_internal, deps[k], env, ocs1[k])
            &&& forall|k: int|
                0 <= k < deps.len() ==> spec_outcome_shape(deps[k], env, #[trigger] ocs2[k])
                    && spec_outcome_sound(discover, build_internal, deps[k], env, ocs2[k])
        },
    ensures
        spec_probe_full(toml_tree_of(text), path, env, ocs1) == spec_probe_full(
            toml_tree_of(text),
            path,
            env,
            ocs2,
        ),
{
    match spec_parse_manifest(toml_tree_of(text), path) {
        Ok(deps) => {
            lemma_outcomes_unique(discover, build_internal, deps, env, ocs1, ocs2);
            lemma_settle_all_agree(deps, env, ocs1, ocs2);
        },
        Err(_) => {},
    }
}

} // verus!
