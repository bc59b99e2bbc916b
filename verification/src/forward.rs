//! The configuration and the steps of a forward analysis.
use vstd::prelude::*;

verus! {

/// How far a path-sensitive forward analysis goes.
#[derive(Clone, Copy, Debug, PartialEq, Eq, Structural)]
pub struct PathForwardAnalysisConfig {
    /// The number of paths from which on the paths are merged.
    pub max_paths: usize,
    /// The number of visits of a block after which its state is widened, if it ever is.
    pub widen_after_iterations: Option<u32>,
}

/// The steps of an analysis of a body.
pub struct AnalysisSteps<OptimizedMir, BuildCfg, CollectPlaces, Analyze> {
    /// Finds the optimized form of the body, which is the one that is analyzed.
    pub optimized_mir: OptimizedMir,
    /// Builds the control flow graph of it.
    pub build_cfg: BuildCfg,
    /// Collects the places of it.
    pub collect_body_places: CollectPlaces,
    /// Analyzes it, given these two and a configuration.
    pub analyze: Analyze,
}

} // verus!
