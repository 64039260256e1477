//! Distance measures between vectors and the errors of computing them.

use vstd::prelude::*;

verus! {

/// How the distance between two vectors is measured.
#[derive(Debug, Clone, Copy, PartialEq, Eq, Structural)]
pub enum DistanceMetric {
    Euclidean,
    Cosine,
    Dot,
    Manhattan,
}

/// Errors of a distance computation.
#[derive(Debug, Clone, Copy, PartialEq, Eq, Structural)]
pub enum MetricsError {
    DimensionMismatch,
    InvalidDimensions,
    InvalidInput,
}

} // verus!
