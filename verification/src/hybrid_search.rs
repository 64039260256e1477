//! Hybrid search: the strategies it offers and the session a search runs in.

use vstd::prelude::*;

verus! {

/// Strategies of hybrid search.
#[derive(Debug, Clone, Copy, PartialEq, Eq, Structural)]
pub enum HybridSearchStrategy {
    MultiStageRefinement,
    AdaptiveWeighting,
    SemanticFusion,
    QueryExpansion,
    AdvancedFusion,
    ContextualSearch,
    CrossModalSearch,
    TemporalSpatialSearch,
    PersonalizedRanking,
    EnsembleStrategy,
}

/// The session a search belongs to.
#[derive(Debug, Clone, Default)]
pub struct SessionContext {
    pub session_id: String,
    /// Start of the session, in seconds.
    pub session_start: u64,
    /// Queries made in the session so far.
    pub session_queries: Vec<String>,
    pub working_directory: Option<String>,
    pub project_context: Option<String>,
}

} // verus!
