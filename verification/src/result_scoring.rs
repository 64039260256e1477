//! Scored search results.

use vstd::prelude::*;
use crate::knn_search::KnnResult;

verus! {

/// A search result with its score, confidence and rank; the scores are the
/// bit patterns of IEEE 754 singles.
#[derive(Debug, Clone, Copy)]
pub struct ScoredResult {
    pub result: KnnResult,
    pub score_bits: u32,
    pub confidence_bits: u32,
    pub rank: usize,
    pub normalized_score_bits: u32,
    pub quality_flags: u32,
}

} // verus!
