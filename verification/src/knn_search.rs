//! k-nearest-neighbour search: its results, the metadata filter applied to
//! them, the pruning of candidates by a subset of dimensions, its
//! parameters, errors and statistics. Distances and other floating-point
//! values are carried as the bit patterns of IEEE 754 singles.

use vstd::prelude::*;
use crate::shared::{ErrorView, IndexErrorKind, IoErrorKind, VectorErrorKind, VexfsError};
use crate::shared::message;
use crate::vector_metrics::{DistanceMetric, MetricsError};
use crate::vector_storage::VectorDataType;

verus! {

/// Errors of a k-NN search.
#[derive(Debug, Clone, Copy, PartialEq, Eq, Structural)]
pub enum KnnError {
    /// k is not usable.
    InvalidK,
    /// The query vector is not usable.
    InvalidQuery,
    /// The vectors could not be read.
    StorageError,
    /// A distance could not be computed.
    MetricsError(MetricsError),
    /// The index is unusable.
    IndexError,
    /// Memory ran out.
    AllocationError,
    /// A filter could not be applied.
    FilterError,
}

impl From<MetricsError> for KnnError {
    fn from(error: MetricsError) -> (r: Self) {
        KnnError::MetricsError(error)
    }
}

impl vstd::std_specs::convert::FromSpecImpl<MetricsError> for KnnError {
    open spec fn obeys_from_spec() -> bool {
        true
    }

    open spec fn from_spec(error: MetricsError) -> KnnError {
        KnnError::MetricsError(error)
    }
}

/// The filesystem error a search error stands for: invalid arguments for a
/// bad k, query or filter, a read error for storage, a vector search error
/// for distances, a corrupted index, and running out of memory.
pub open spec fn knn_error_view(e: KnnError) -> ErrorView {
    match e {
        KnnError::InvalidK => ErrorView::InvalidArgument("Invalid k value"@),
        KnnError::InvalidQuery => ErrorView::InvalidArgument("Invalid query vector"@),
        KnnError::StorageError => ErrorView::IoError(IoErrorKind::ReadError),
        KnnError::MetricsError(_) => ErrorView::VectorError(VectorErrorKind::SearchError),
        KnnError::IndexError => ErrorView::IndexError(IndexErrorKind::IndexCorrupted),
        KnnError::AllocationError => ErrorView::OutOfMemory,
        KnnError::FilterError => ErrorView::InvalidArgument("Filter error"@),
    }
}

impl KnnError {
    /// The filesystem error this search error stands for.
    pub fn to_vexfs_error(self) -> (r: VexfsError)
        ensures
            r@ == knn_error_view(self),
    {
        match self {
            KnnError::InvalidK => VexfsError::InvalidArgument(message("Invalid k value")),
            KnnError::InvalidQuery => VexfsError::InvalidArgument(message("Invalid query vector")),
            KnnError::StorageError => VexfsError::IoError(IoErrorKind::ReadError),
            KnnError::MetricsError(_) => VexfsError::VectorError(VectorErrorKind::SearchError),
            KnnError::IndexError => VexfsError::IndexError(IndexErrorKind::IndexCorrupted),
            KnnError::AllocationError => VexfsError::OutOfMemory,
            KnnError::FilterError => VexfsError::InvalidArgument(message("Filter error")),
        }
    }
}

/// Statistics of the search engine.
#[derive(Debug, Clone)]
pub struct SearchStats {
    /// Vectors in storage.
    pub total_vectors: u64,
    /// Whether an HNSW index is available.
    pub index_available: bool,
    /// Candidates considered by the last search.
    pub last_search_candidates: usize,
    /// Results of the last search.
    pub last_search_results: usize,
}

/// Most results a search returns.
pub const MAX_KNN_RESULTS: usize = 10000;

/// Most candidates a search considers.
pub const MAX_CANDIDATES: usize = 100000;

/// Below this many vectors a search is exact.
pub const EXACT_SEARCH_THRESHOLD: usize = 1000;

/// Whether an `f32`, by its bit pattern, is a NaN.
pub open spec fn f32_nan(b: u32) -> bool {
    (b & 0x7f80_0000u32) == 0x7f80_0000u32 && (b & 0x007f_ffffu32) != 0
}

/// The place of a non-NaN `f32` in the order of the reals: its magnitude
/// bits, negated for a negative value, so that both zeros sit at 0.
pub open spec fn f32_rank(b: u32) -> int {
    if b >= 0x8000_0000u32 {
        -((b - 0x8000_0000u32) as int)
    } else {
        b as int
    }
}

/// Whether the `f32` with bit pattern `a` is greater than the one with
/// pattern `b`, as IEEE 754 compares them: never when either is a NaN.
pub open spec fn f32_greater(a: u32, b: u32) -> bool {
    !f32_nan(a) && !f32_nan(b) && f32_rank(a) > f32_rank(b)
}

/// Whether the `f32` with bit pattern `a` is greater than the one with
/// pattern `b`.
pub fn f32_gt(a: u32, b: u32) -> (r: bool)
    ensures
        r == f32_greater(a, b),
{
    let a_nan = (a & 0x7f80_0000) == 0x7f80_0000 && (a & 0x007f_ffff) != 0;
    let b_nan = (b & 0x7f80_0000) == 0x7f80_0000 && (b & 0x007f_ffff) != 0;
    if a_nan || b_nan {
        return false;
    }
    let ra: i64 = if a >= 0x8000_0000 { -((a - 0x8000_0000) as i64) } else { a as i64 };
    let rb: i64 = if b >= 0x8000_0000 { -((b - 0x8000_0000) as i64) } else { b as i64 };
    ra > rb
}

/// Whether the `f32` with bit pattern `a` is at least the one with pattern
/// `b`, as IEEE 754 compares them: never when either is a NaN.
pub open spec fn f32_at_least(a: u32, b: u32) -> bool {
    !f32_nan(a) && !f32_nan(b) && f32_rank(a) >= f32_rank(b)
}

/// Whether the `f32` with bit pattern `a` is at least the one with pattern
/// `b`.
pub fn f32_ge(a: u32, b: u32) -> (r: bool)
    ensures
        r == f32_at_least(a, b),
{
    let a_nan = (a & 0x7f80_0000) == 0x7f80_0000 && (a & 0x007f_ffff) != 0;
    let b_nan = (b & 0x7f80_0000) == 0x7f80_0000 && (b & 0x007f_ffff) != 0;
    if a_nan || b_nan {
        return false;
    }
    let ra: i64 = if a >= 0x8000_0000 { -((a - 0x8000_0000) as i64) } else { a as i64 };
    let rb: i64 = if b >= 0x8000_0000 { -((b - 0x8000_0000) as i64) } else { b as i64 };
    ra >= rb
}

/// The larger of two `f32`s by their bit patterns, as `f32::max` picks it:
/// a NaN gives way to the other value, and of two values that compare
/// equal the first is kept.
pub open spec fn f32_max_bits(a: u32, b: u32) -> u32 {
    if f32_nan(a) {
        b
    } else if f32_nan(b) {
        a
    } else if f32_greater(b, a) {
        b
    } else {
        a
    }
}

/// The larger of two `f32`s given by their bit patterns.
pub fn f32_max(a: u32, b: u32) -> (r: u32)
    ensures
        r == f32_max_bits(a, b),
{
    let a_nan = (a & 0x7f80_0000) == 0x7f80_0000 && (a & 0x007f_ffff) != 0;
    let b_nan = (b & 0x7f80_0000) == 0x7f80_0000 && (b & 0x007f_ffff) != 0;
    if a_nan {
        b
    } else if b_nan {
        a
    } else if f32_gt(b, a) {
        b
    } else {
        a
    }
}

/// A vector found by a search, with its distance as the bit pattern of an `f32`.
#[derive(Debug, Clone, Copy)]
pub struct KnnResult {
    pub vector_id: u64,
    pub file_inode: u64,
    pub distance_bits: u32,
    pub dimensions: u32,
    pub data_type: VectorDataType,
    pub file_size: u64,
    pub created_timestamp: u64,
    pub modified_timestamp: u64,
}

/// Conditions on the results of a search; each is checked only when set.
/// The distance bound is the bit pattern of an `f32`.
#[derive(Debug, Clone, Copy)]
pub struct MetadataFilter {
    pub min_file_size: Option<u64>,
    pub max_file_size: Option<u64>,
    pub min_created_timestamp: Option<u64>,
    pub max_created_timestamp: Option<u64>,
    pub min_modified_timestamp: Option<u64>,
    pub max_modified_timestamp: Option<u64>,
    pub required_dimensions: Option<u32>,
    pub required_data_type: Option<VectorDataType>,
    pub max_distance_bits: Option<u32>,
}

/// Whether a result meets every condition of a filter that is set.
pub open spec fn passes_filter(f: MetadataFilter, r: KnnResult) -> bool {
    &&& (f.min_file_size matches Some(m) ==> r.file_size >= m)
    &&& (f.max_file_size matches Some(m) ==> r.file_size <= m)
    &&& (f.min_created_timestamp matches Some(m) ==> r.created_timestamp >= m)
    &&& (f.max_created_timestamp matches Some(m) ==> r.created_timestamp <= m)
    &&& (f.min_modified_timestamp matches Some(m) ==> r.modified_timestamp >= m)
    &&& (f.max_modified_timestamp matches Some(m) ==> r.modified_timestamp <= m)
    &&& (f.required_dimensions matches Some(d) ==> r.dimensions == d)
    &&& (f.required_data_type matches Some(t) ==> r.data_type == t)
    &&& (f.max_distance_bits matches Some(m) ==> !f32_greater(r.distance_bits, m))
}

/// A result passes a filter exactly when it meets every condition the
/// filter sets: sizes and times within the set bounds, the set dimension
/// and data type, and a distance not above the set bound (as IEEE 754
/// compares; a NaN distance is never above it).
pub proof fn lemma_filter_conditions(f: MetadataFilter, r: KnnResult)
    ensures
        passes_filter(f, r) <==> {
            &&& forall|m: u64| f.min_file_size == Some(m) ==> r.file_size >= m
            &&& forall|m: u64| f.max_file_size == Some(m) ==> r.file_size <= m
            &&& forall|m: u64| f.min_created_timestamp == Some(m) ==> r.created_timestamp >= m
            &&& forall|m: u64| f.max_created_timestamp == Some(m) ==> r.created_timestamp <= m
            &&& forall|m: u64| f.min_modified_timestamp == Some(m) ==> r.modified_timestamp >= m
            &&& forall|m: u64| f.max_modified_timestamp == Some(m) ==> r.modified_timestamp <= m
            &&& forall|d: u32| f.required_dimensions == Some(d) ==> r.dimensions == d
            &&& forall|t: VectorDataType| f.required_data_type == Some(t) ==> r.data_type == t
            &&& forall|m: u32| f.max_distance_bits == Some(m) ==> !(!f32_nan(r.distance_bits) && !f32_nan(m)
                && f32_rank(r.distance_bits) > f32_rank(m))
        },
{
}

impl MetadataFilter {
    /// A filter without conditions.
    pub fn new() -> (f: Self)
        ensures
            f.min_file_size is None,
            f.max_file_size is None,
            f.min_created_timestamp is None,
            f.max_created_timestamp is None,
            f.min_modified_timestamp is None,
            f.max_modified_timestamp is None,
            f.required_dimensions is None,
            f.required_data_type is None,
            f.max_distance_bits is None,
    {
        MetadataFilter {
            min_file_size: None,
            max_file_size: None,
            min_created_timestamp: None,
            max_created_timestamp: None,
            min_modified_timestamp: None,
            max_modified_timestamp: None,
            required_dimensions: None,
            required_data_type: None,
            max_distance_bits: None,
        }
    }

    /// Whether a result passes the filter.
    pub fn matches(&self, result: &KnnResult) -> (b: bool)
        ensures
            b == passes_filter(*self, *result),
    {
        if let Some(min_size) = self.min_file_size {
            if result.file_size < min_size {
                return false;
            }
        }
        if let Some(max_size) = self.max_file_size {
            if result.file_size > max_size {
                return false;
            }
        }
        if let Some(min_created) = self.min_created_timestamp {
            if result.created_timestamp < min_created {
                return false;
            }
        }
        if let Some(max_created) = self.max_created_timestamp {
            if result.created_timestamp > max_created {
                return false;
            }
        }
        if let Some(min_modified) = self.min_modified_timestamp {
            if result.modified_timestamp < min_modified {
                return false;
            }
        }
        if let Some(max_modified) = self.max_modified_timestamp {
            if result.modified_timestamp > max_modified {
                return false;
            }
        }
        if let Some(req_dims) = self.required_dimensions {
            if result.dimensions != req_dims {
                return false;
            }
        }
        if let Some(req_type) = self.required_data_type {
            if result.data_type != req_type {
                return false;
            }
        }
        if let Some(max_dist) = self.max_distance_bits {
            if f32_gt(result.distance_bits, max_dist) {
                return false;
            }
        }
        true
    }
}

/// Bit pattern of the `f32` value 2.0.
pub const F32_TWO_BITS: u32 = 0x4000_0000;

/// Parameters of a k-NN query; the expansion factor is the bit pattern of an `f32`.
#[derive(Debug, Clone, Copy)]
pub struct SearchParams {
    /// Neighbours wanted.
    pub k: usize,
    pub metric: DistanceMetric,
    pub expansion_factor_bits: u32,
    pub approximate: bool,
    pub use_simd: bool,
    pub filter: Option<MetadataFilter>,
    pub exact_distances: bool,
}

impl Default for SearchParams {
    /// Ten Euclidean neighbours, expansion 2.0, approximate, with SIMD, no
    /// filter, exact distances.
    fn default() -> (p: Self)
        ensures
            p.k == 10,
            p.metric == DistanceMetric::Euclidean,
            p.expansion_factor_bits == F32_TWO_BITS,
            p.approximate,
            p.use_simd,
            p.filter is None,
            p.exact_distances,
    {
        SearchParams {
            k: 10,
            metric: DistanceMetric::Euclidean,
            expansion_factor_bits: F32_TWO_BITS,
            approximate: true,
            use_simd: true,
            filter: None,
            exact_distances: true,
        }
    }
}

/// The spacing of the dimensions a pruner looks at: the dimension count
/// divided by the subset size, at least 1.
pub open spec fn subset_step(subset_size: usize, total_dims: usize) -> int {
    let step = total_dims / (if subset_size > 1 { subset_size } else { 1 });
    if step > 1 { step as int } else { 1 }
}

/// The dimensions a pruner looks at: every `step`-th dimension from 0, at
/// most `subset_size` of them.
pub open spec fn dimension_subset(subset_size: usize, total_dims: usize) -> Seq<usize> {
    let s = subset_step(subset_size, total_dims);
    let available = (total_dims + s - 1) / s;
    let n = if available < subset_size { available } else { subset_size as int };
    Seq::new(n as nat, |i: int| (i * s) as usize)
}

/// Skips candidates whose distance, estimated from a subset of the
/// dimensions, exceeds a threshold (the bit pattern of an `f32`).
pub struct QueryPruner {
    distance_threshold_bits: u32,
    dimension_subset: Vec<usize>,
}

impl QueryPruner {
    /// The threshold, as the bit pattern of an `f32`.
    pub closed spec fn threshold(&self) -> u32 {
        self.distance_threshold_bits
    }

    /// The dimensions looked at.
    pub closed spec fn subset(&self) -> Seq<usize> {
        self.dimension_subset@
    }

    /// A pruner looking at `subset_size` evenly spaced dimensions out of
    /// `total_dims`.
    pub fn new(distance_threshold_bits: u32, subset_size: usize, total_dims: usize) -> (p: Self)
        ensures
            p.threshold() == distance_threshold_bits,
            p.subset() == dimension_subset(subset_size, total_dims),
    {
        let divisor = if subset_size > 1 { subset_size } else { 1 };
        let quotient = total_dims / divisor;
        let step = if quotient > 1 { quotient } else { 1 };
        let ghost s = subset_step(subset_size, total_dims);
        let ghost want = dimension_subset(subset_size, total_dims);
        let mut subset: Vec<usize> = Vec::new();
        let mut d: usize = 0;
        while d < total_dims && subset.len() < subset_size
            invariant
                step == s,
                s == subset_step(subset_size, total_dims),
                s >= 1,
                subset@.len() <= subset_size,
                d == (if subset@.len() * s < total_dims { subset@.len() * s } else { total_dims as int }),
                subset@.len() <= want.len(),
                forall|i: int| 0 <= i < subset@.len() ==> subset@[i] == want[i],
                want == dimension_subset(subset_size, total_dims),
            decreases total_dims - d,
        {
            proof {
                let t = subset@.len() as int;
                assert(t * s < total_dims);
                assert(t < (total_dims + s - 1) / s) by (nonlinear_arith)
                    requires
                        t * s < total_dims,
                        s >= 1,
                {
                }
                let available = (total_dims + s - 1) / s;
                let n = if available < subset_size { available } else { subset_size as int };
                assert(want == Seq::new(n as nat, |i: int| (i * s) as usize));
                assert(t < n);
                assert(want[t] == (t * s) as usize);
                assert(d == t * s);
            }
            subset.push(d);
            proof {
                let t = subset@.len() as int;
                assert((t - 1) * s + s == t * s) by (nonlinear_arith);
            }
            if total_dims - d <= step {
                d = total_dims;
            } else {
                d = d + step;
            }
        }
        proof {
            let t = subset@.len() as int;
            if subset@.len() < subset_size {
                assert(t * s >= total_dims);
                assert((total_dims + s - 1) / s <= t) by (nonlinear_arith)
                    requires
                        total_dims <= t * s,
                        s >= 1,
                {
                }
            }
            assert(subset@ =~= want);
        }
        QueryPruner { distance_threshold_bits, dimension_subset: subset }
    }

    /// The threshold, as the bit pattern of an `f32`.
    pub fn distance_threshold_bits(&self) -> (r: u32)
        ensures
            r == self.threshold(),
    {
        self.distance_threshold_bits
    }

    /// The dimensions looked at.
    pub fn dimension_subset(&self) -> (r: &Vec<usize>)
        ensures
            r@ == self.subset(),
    {
        &self.dimension_subset
    }
}

} // verus!
