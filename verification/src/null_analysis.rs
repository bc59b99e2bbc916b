//! Null pointers, by a null-pointer analysis.
use vstd::prelude::*;

use crate::forward::{AnalysisSteps, PathForwardAnalysisConfig};
use crate::mir::{Local, Location};

verus! {

/// What is known of a pointer.
#[derive(Clone, Copy, Debug, PartialEq, Eq, Structural)]
pub enum NullPtr {
    /// Nothing reaches it.
    Bot,
    /// It is null.
    Null,
    /// It is not null.
    NonNull,
    /// It may be null or not.
    MaybeNull,
}

/// The configuration of the null-pointer analysis.
pub open spec fn null_config() -> PathForwardAnalysisConfig {
    PathForwardAnalysisConfig { max_paths: 128, widen_after_iterations: None }
}

/// Whether the steps of the null-pointer analysis can be taken on a body.
pub open spec fn can_analyze_null<
    B,
    G,
    P,
    R,
    BuildCfg: FnOnce(&B) -> G,
    CollectPlaces: FnOnce(&B) -> P,
    Analyze: FnOnce(&B, &G, &P, bool, PathForwardAnalysisConfig) -> R,
>(
    body: &B,
    build_cfg: BuildCfg,
    collect_body_places: CollectPlaces,
    analyze_nullptr: Analyze,
) -> bool {
    &&& build_cfg.requires((body,))
    &&& collect_body_places.requires((body,))
    &&& forall|cfg: G, places: P|
        build_cfg.ensures((body,), cfg) && collect_body_places.ensures((body,), places)
            ==> #[trigger] analyze_nullptr.requires((body, &cfg, &places, false, null_config()))
}

/// Whether the null-pointer analysis of a body can have a result: the analysis gets the control
/// flow graph and the places of the body, no debug output, and its configuration.
pub open spec fn analyzes_null<
    B,
    G,
    P,
    R,
    BuildCfg: FnOnce(&B) -> G,
    CollectPlaces: FnOnce(&B) -> P,
    Analyze: FnOnce(&B, &G, &P, bool, PathForwardAnalysisConfig) -> R,
>(
    body: &B,
    build_cfg: BuildCfg,
    collect_body_places: CollectPlaces,
    analyze_nullptr: Analyze,
    result: R,
) -> bool {
    exists|cfg: G, places: P|
        build_cfg.ensures((body,), cfg) && collect_body_places.ensures((body,), places)
            && #[trigger] analyze_nullptr.ensures(
            (body, &cfg, &places, false, null_config()),
            result,
        )
}

/// Runs the null-pointer analysis on a body, given the three steps of it: to build the control flow
/// graph, to collect the places, and to analyze the body with these two, without debug output, and
/// with a configuration.
pub fn analyze_null_mirsa<
    B,
    G,
    P,
    R,
    BuildCfg: FnOnce(&B) -> G,
    CollectPlaces: FnOnce(&B) -> P,
    Analyze: FnOnce(&B, &G, &P, bool, PathForwardAnalysisConfig) -> R,
>(
    body: &B,
    build_cfg: BuildCfg,
    collect_body_places: CollectPlaces,
    analyze_nullptr: Analyze,
) -> (result: R)
    requires
        can_analyze_null(body, build_cfg, collect_body_places, analyze_nullptr),
    ensures
        analyzes_null(body, build_cfg, collect_body_places, analyze_nullptr, result),
{
    let graph = build_cfg(body);
    let places = collect_body_places(body);
    analyze_nullptr(
        body,
        &graph,
        &places,
        false,
        PathForwardAnalysisConfig { max_paths: 128, widen_after_iterations: None },
    )
}

/// Whether the null-pointer analysis of a body can run.
pub open spec fn null_can_run<
    B,
    G,
    P,
    R,
    OptimizedMir: FnOnce() -> B,
    BuildCfg: FnOnce(&B) -> G,
    CollectPlaces: FnOnce(&B) -> P,
    Analyze: FnOnce(&B, &G, &P, bool, PathForwardAnalysisConfig) -> R,
>(
    steps: AnalysisSteps<OptimizedMir, BuildCfg, CollectPlaces, Analyze>,
) -> bool {
    &&& steps.optimized_mir.requires(())
    &&& forall|body: B| #[trigger]
        steps.optimized_mir.ensures((), body) ==> can_analyze_null(
            &body,
            steps.build_cfg,
            steps.collect_body_places,
            steps.analyze,
        )
}

/// Whether the null-pointer analysis of a body can have a result: it is one of the optimized form
/// of the body.
pub open spec fn null_can_yield<
    B,
    G,
    P,
    R,
    OptimizedMir: FnOnce() -> B,
    BuildCfg: FnOnce(&B) -> G,
    CollectPlaces: FnOnce(&B) -> P,
    Analyze: FnOnce(&B, &G, &P, bool, PathForwardAnalysisConfig) -> R,
>(
    steps: AnalysisSteps<OptimizedMir, BuildCfg, CollectPlaces, Analyze>,
    result: R,
) -> bool {
    exists|body: B| #[trigger]
        steps.optimized_mir.ensures((), body) && analyzes_null(
            &body,
            steps.build_cfg,
            steps.collect_body_places,
            steps.analyze,
            result,
        )
}

/// Runs the null-pointer analysis on the optimized form of a body.
pub fn run_null<
    B,
    G,
    P,
    R,
    OptimizedMir: FnOnce() -> B,
    BuildCfg: FnOnce(&B) -> G,
    CollectPlaces: FnOnce(&B) -> P,
    Analyze: FnOnce(&B, &G, &P, bool, PathForwardAnalysisConfig) -> R,
>(
    steps: AnalysisSteps<OptimizedMir, BuildCfg, CollectPlaces, Analyze>,
) -> (result: R)
    requires
        null_can_run(steps),
    ensures
        null_can_yield(steps, result),
{
    let AnalysisSteps { optimized_mir, build_cfg, collect_body_places, analyze } = steps;
    let body = optimized_mir();
    analyze_null_mirsa(&body, build_cfg, collect_body_places, analyze)
}

/// Returns whether what a state knows of a pointer is that it is null. A pointer that the state
/// cannot name is one that nothing reaches.
pub fn is_null_value(known: Option<NullPtr>) -> (result: bool)
    ensures
        result == (known == Some(NullPtr::Null)),
{
    let value = match known {
        Some(value) => value,
        None => NullPtr::Bot,
    };
    matches!(value, NullPtr::Null)
}

/// Returns whether the state that an analysis has before a location knows a local to be null.
/// `query` finds that state, and `value` what the state knows of the local, if it can name it.
pub fn is_null_mirsa<
    R,
    S,
    Q: FnOnce(&R, Location) -> Option<S>,
    V: FnOnce(&S, Local) -> Option<NullPtr>,
>(analysis: &R, location: Location, local: Local, query: Q, value: V) -> (result: bool)
    requires
        query.requires((analysis, location)),
        forall|state: S| #[trigger]
            query.ensures((analysis, location), Some(state)) ==> value.requires((&state, local)),
    ensures
        result ==> exists|state: S| #[trigger]
            query.ensures((analysis, location), Some(state)) && value.ensures(
                (&state, local),
                Some(NullPtr::Null),
            ),
        !result ==> query.ensures((analysis, location), None) || exists|
            state: S,
            known: Option<NullPtr>,
        |
            query.ensures((analysis, location), Some(state)) && #[trigger] value.ensures(
                (&state, local),
                known,
            ) && known != Some(NullPtr::Null),
{
    match query(analysis, location) {
        Some(state) => is_null_value(value(&state, local)),
        None => false,
    }
}

} // verus!
