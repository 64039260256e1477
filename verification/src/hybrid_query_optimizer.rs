//! Planning of hybrid queries, which combine vector similarity with file
//! metadata: the hints and constraints a query carries, the statistics drawn
//! from it, and the execution plans of each strategy with their stages,
//! resource needs and decisions.
//!
//! Costs, speed-ups and rates are single-precision floating-point values;
//! they are carried as their IEEE 754 bit patterns.

use vstd::prelude::*;
use crate::anns::advanced_indexing::IndexStrategy;
use crate::shared::{ErrorView, VexfsError, VexfsResult};
use crate::knn_search::KnnResult;
use crate::vector_storage::VectorDataType;
use crate::shared::message;
use crate::vector_metrics::DistanceMetric;
use crate::knn_search::f32_greater;
use crate::knn_search::{f32_at_least, f32_nan, f32_rank};

verus! {

/// A stand-in vector store (its storage interface, three vectors of 128
/// dimensions, belongs to the storage layer); the value itself holds
/// nothing.
pub struct MockVectorStorage;

impl MockVectorStorage {
    /// The stand-in store.
    pub fn new() -> (r: Self)
        ensures
            r == MockVectorStorage,
    {
        MockVectorStorage
    }
}

/// A time window of a query.
#[derive(Debug, Clone)]
pub struct TemporalBounds {
    pub start_time_us: u64,
    pub end_time_us: u64,
    pub resolution: TemporalResolution,
}

/// Precision of a time window.
#[derive(Debug, Clone, Copy, PartialEq, Eq, Structural)]
pub enum TemporalResolution {
    Microsecond,
    Millisecond,
    Second,
    Minute,
    Hour,
    Day,
}

/// How results are ranked.
#[derive(Debug, Clone, Copy, PartialEq, Eq, Structural)]
pub enum RankingStrategy {
    Relevance,
    Recency,
    Popularity,
    Hybrid,
    Custom,
}

/// Hints a query gives the planner.
#[derive(Debug, Clone)]
pub struct OptimizationHints {
    pub preferred_strategy: Option<HybridExecutionStrategy>,
    pub index_preferences: Vec<IndexStrategy>,
    pub cache_hints: CacheHints,
    pub parallelization_hints: ParallelizationHints,
    pub memory_hints: MemoryHints,
}

/// How a hybrid query is executed.
#[derive(Debug, Clone, Copy, PartialEq, Eq, PartialOrd, Ord, Hash, Structural)]
pub enum HybridExecutionStrategy {
    /// Vector search first, then the metadata filters.
    VectorFirst,
    /// Metadata filters first, then vector search among what passed.
    MetadataFirst,
    /// Both at once, then merged.
    Parallel,
    /// Chosen by the selectivity of the query.
    Adaptive,
    /// Progressive refinement.
    MultiStage,
}

/// Use of the result cache.
#[derive(Debug, Clone)]
pub struct CacheHints {
    pub prefer_cache: bool,
    pub cache_results: bool,
    pub invalidation_strategy: CacheInvalidationStrategy,
}

/// When cached results expire.
#[derive(Debug, Clone, Copy, PartialEq, Eq, Structural)]
pub enum CacheInvalidationStrategy {
    TimeBased,
    ContentBased,
    Manual,
    Never,
}

/// Parallel execution of a query.
#[derive(Debug, Clone)]
pub struct ParallelizationHints {
    pub max_threads: usize,
    pub parallel_threshold: usize,
    pub load_balancing: LoadBalancingStrategy,
}

/// How work is spread over threads.
#[derive(Debug, Clone, Copy, PartialEq, Eq, Structural)]
pub enum LoadBalancingStrategy {
    RoundRobin,
    WorkStealing,
    StaticPartitioning,
    DynamicPartitioning,
}

/// Memory use of a query.
#[derive(Debug, Clone)]
pub struct MemoryHints {
    pub max_memory_bytes: usize,
    pub allocation_strategy: MemoryAllocationStrategy,
    pub pressure_handling: MemoryPressureHandling,
}

/// How memory is allocated.
#[derive(Debug, Clone, Copy, PartialEq, Eq, Structural)]
pub enum MemoryAllocationStrategy {
    Conservative,
    Aggressive,
    Adaptive,
    PoolBased,
}

/// What is done when memory runs short.
#[derive(Debug, Clone, Copy, PartialEq, Eq, Structural)]
pub enum MemoryPressureHandling {
    Fail,
    Degrade,
    SpillToDisk,
    Adaptive,
}

/// Limits on the execution of a query.
#[derive(Debug, Clone)]
pub struct ResourceConstraints {
    pub max_execution_time_us: u64,
    pub max_memory_bytes: usize,
    pub max_io_operations: u64,
    pub priority: QueryPriority,
    pub allocation_strategy: ResourceAllocationStrategy,
}

/// Priority of a query, from background to critical.
#[derive(Debug, Clone, Copy, PartialEq, Eq, PartialOrd, Structural)]
pub enum QueryPriority {
    Low,
    Normal,
    High,
    Critical,
}

/// How resources are shared among queries.
#[derive(Debug, Clone, Copy, PartialEq, Eq, Structural)]
pub enum ResourceAllocationStrategy {
    Fair,
    PriorityBased,
    DeadlineBased,
    Adaptive,
}

/// The kinds of execution stages.
#[derive(Debug, Clone, Copy, PartialEq, Eq, Structural)]
pub enum HybridStageType {
    QueryParsing,
    StatisticsCollection,
    FilterPushdown,
    IndexSelection,
    VectorSearch,
    MetadataFiltering,
    ResultMerging,
    ResultRanking,
    PostProcessing,
}

/// The kinds of operations within a stage.
#[derive(Debug, Clone, Copy, PartialEq, Eq, Structural)]
pub enum HybridOperationType {
    VectorSimilaritySearch,
    MetadataFilter,
    SpatialFilter,
    TemporalFilter,
    ResultIntersection,
    ResultUnion,
    ResultRanking,
    ResultDeduplication,
    ResultAggregation,
}

/// A parameter of an operation; a float is its IEEE 754 bit pattern.
#[derive(Debug)]
pub enum OperationParameter {
    Integer(i64),
    Float(u64),
    Text(String),
    Boolean(bool),
    Vector(Vec<u32>),
    List(Vec<OperationParameter>),
}

/// What one operation needs.
#[derive(Debug, Clone, Copy, PartialEq, Eq, Structural)]
pub struct OperationResourceRequirements {
    pub cpu_time_us: u64,
    pub memory_bytes: usize,
    pub io_operations: u64,
    pub network_operations: u64,
}

/// One operation of a stage, with its parameters as name and value pairs.
#[derive(Debug)]
pub struct HybridOperation {
    pub name: String,
    pub operation_type: HybridOperationType,
    pub parameters: Vec<(String, OperationParameter)>,
    /// Estimated cost, as the bit pattern of an `f32`.
    pub estimated_cost_bits: u32,
    pub resource_requirements: OperationResourceRequirements,
}

/// An operation by its name, kind, number of parameters, cost and needs.
pub struct OperationView {
    pub name: Seq<char>,
    pub operation_type: HybridOperationType,
    pub parameter_count: nat,
    pub estimated_cost_bits: u32,
    pub resource_requirements: OperationResourceRequirements,
}

impl View for HybridOperation {
    type V = OperationView;

    open spec fn view(&self) -> OperationView {
        OperationView {
            name: self.name@,
            operation_type: self.operation_type,
            parameter_count: self.parameters@.len(),
            estimated_cost_bits: self.estimated_cost_bits,
            resource_requirements: self.resource_requirements,
        }
    }
}

/// One stage of an execution plan.
#[derive(Debug)]
pub struct HybridExecutionStage {
    pub name: String,
    pub stage_type: HybridStageType,
    pub operations: Vec<HybridOperation>,
    /// Indexes of the stages this one waits for.
    pub dependencies: Vec<usize>,
    pub estimated_time_us: u64,
    pub estimated_memory_bytes: usize,
    pub parallelizable: bool,
    pub critical_path: bool,
}

/// A stage with its texts and lists as sequences.
pub struct StageView {
    pub name: Seq<char>,
    pub stage_type: HybridStageType,
    pub operations: Seq<OperationView>,
    pub dependencies: Seq<usize>,
    pub estimated_time_us: u64,
    pub estimated_memory_bytes: usize,
    pub parallelizable: bool,
    pub critical_path: bool,
}

impl View for HybridExecutionStage {
    type V = StageView;

    open spec fn view(&self) -> StageView {
        StageView {
            name: self.name@,
            stage_type: self.stage_type,
            operations: self.operations@.map_values(|o: HybridOperation| o@),
            dependencies: self.dependencies@,
            estimated_time_us: self.estimated_time_us,
            estimated_memory_bytes: self.estimated_memory_bytes,
            parallelizable: self.parallelizable,
            critical_path: self.critical_path,
        }
    }
}

/// Estimated costs of a plan, each the bit pattern of an `f32` but the time.
#[derive(Debug, Clone, Copy, PartialEq, Eq, Structural)]
pub struct HybridCostEstimate {
    pub total_cost_bits: u32,
    pub vector_search_cost_bits: u32,
    pub metadata_filtering_cost_bits: u32,
    pub result_merging_cost_bits: u32,
    pub io_cost_bits: u32,
    pub memory_cost_bits: u32,
    pub network_cost_bits: u32,
    pub estimated_time_us: u64,
    pub confidence_bits: u32,
}

/// What a whole plan needs.
#[derive(Debug, Clone, Copy, PartialEq, Eq, Structural)]
pub struct ResourceRequirements {
    pub peak_memory_bytes: usize,
    pub total_cpu_time_us: u64,
    pub total_io_operations: u64,
    pub network_bandwidth_bps: u64,
    pub temp_storage_bytes: usize,
}

/// Where a filter is applied.
#[derive(Debug, Clone, Copy, PartialEq, Eq, Structural)]
pub enum FilterPushdownLocation {
    VectorIndex,
    MetadataIndex,
    StorageLayer,
    QueryLayer,
}

/// A filter moved towards the data, with its selectivity and saving as the
/// bit patterns of `f32` values.
#[derive(Debug, Clone)]
pub struct FilterPushdownDecision {
    pub filter_description: String,
    pub pushdown_location: FilterPushdownLocation,
    pub expected_selectivity_bits: u32,
    pub cost_reduction_bits: u32,
}

/// The index chosen for a component of the query.
#[derive(Debug, Clone)]
pub struct IndexSelectionDecision {
    pub component_type: String,
    pub selected_strategy: IndexStrategy,
    pub alternatives: Vec<IndexStrategy>,
    pub reasoning: String,
    pub expected_improvement_bits: u32,
}

/// Whether and how a plan runs in parallel.
#[derive(Debug, Clone)]
pub struct ParallelizationDecision {
    pub enabled: bool,
    pub thread_count: usize,
    pub parallel_stages: Vec<usize>,
    pub load_balancing: LoadBalancingStrategy,
    /// Expected speed-up, as the bit pattern of an `f32`.
    pub expected_speedup_bits: u32,
}

/// Caching of a plan's results.
#[derive(Debug, Clone, Copy, PartialEq, Eq, Structural)]
pub struct CachingDecision {
    pub cache_results: bool,
    pub cache_intermediate: bool,
    pub invalidation_strategy: CacheInvalidationStrategy,
    /// Expected hit rate, as the bit pattern of an `f32`.
    pub expected_hit_rate_bits: u32,
}

/// Memory management of a plan.
#[derive(Debug, Clone, Copy, PartialEq, Eq, Structural)]
pub struct MemoryManagementDecision {
    pub allocation_strategy: MemoryAllocationStrategy,
    pub pool_size_bytes: usize,
    pub spill_threshold_bytes: usize,
    pub pressure_handling: MemoryPressureHandling,
}

/// The decisions taken while planning.
#[derive(Debug, Clone)]
pub struct OptimizationDecisions {
    pub selected_strategy: HybridExecutionStrategy,
    pub filter_pushdown: Vec<FilterPushdownDecision>,
    pub index_selection: Vec<IndexSelectionDecision>,
    pub parallelization: ParallelizationDecision,
    pub caching: CachingDecision,
    pub memory_management: MemoryManagementDecision,
}

/// An execution plan of a hybrid query.
#[derive(Debug)]
pub struct HybridExecutionPlan {
    pub strategy: HybridExecutionStrategy,
    pub stages: Vec<HybridExecutionStage>,
    pub cost_estimates: HybridCostEstimate,
    pub resource_requirements: ResourceRequirements,
    pub optimization_decisions: OptimizationDecisions,
    pub fallback_plans: Vec<HybridExecutionPlan>,
}

/// The decisions of a plan, with the pushed-down filters and index choices
/// counted and the parallel stages as a sequence.
pub struct DecisionsView {
    pub selected_strategy: HybridExecutionStrategy,
    pub filter_pushdown_count: nat,
    pub index_selection_count: nat,
    pub parallel_enabled: bool,
    pub thread_count: usize,
    pub parallel_stages: Seq<usize>,
    pub load_balancing: LoadBalancingStrategy,
    pub expected_speedup_bits: u32,
    pub caching: CachingDecision,
    pub memory_management: MemoryManagementDecision,
}

/// A plan with its stages by their views and its fallbacks counted.
pub struct PlanView {
    pub strategy: HybridExecutionStrategy,
    pub stages: Seq<StageView>,
    pub cost_estimates: HybridCostEstimate,
    pub resource_requirements: ResourceRequirements,
    pub decisions: DecisionsView,
    pub fallback_count: nat,
}

impl View for HybridExecutionPlan {
    type V = PlanView;

    open spec fn view(&self) -> PlanView {
        let d = self.optimization_decisions;
        PlanView {
            strategy: self.strategy,
            stages: self.stages@.map_values(|s: HybridExecutionStage| s@),
            cost_estimates: self.cost_estimates,
            resource_requirements: self.resource_requirements,
            decisions: DecisionsView {
                selected_strategy: d.selected_strategy,
                filter_pushdown_count: d.filter_pushdown@.len(),
                index_selection_count: d.index_selection@.len(),
                parallel_enabled: d.parallelization.enabled,
                thread_count: d.parallelization.thread_count,
                parallel_stages: d.parallelization.parallel_stages@,
                load_balancing: d.parallelization.load_balancing,
                expected_speedup_bits: d.parallelization.expected_speedup_bits,
                caching: d.caching,
                memory_management: d.memory_management,
            },
            fallback_count: self.fallback_plans@.len(),
        }
    }
}

/// What the planner knows of a query; the sparsity, magnitude and
/// selectivity are the bit patterns of `f32` values.
#[derive(Debug, Clone, Copy, Default)]
pub struct QueryStatistics {
    pub vector_dimensions: usize,
    pub vector_sparsity_bits: u32,
    pub vector_magnitude_bits: u32,
    pub has_vector_component: bool,
    pub metadata_selectivity_bits: u32,
    pub metadata_filter_count: usize,
    pub has_metadata_component: bool,
    pub has_spatial_component: bool,
    pub has_temporal_component: bool,
    pub estimated_result_count: usize,
    pub estimated_memory_usage: usize,
    pub estimated_execution_time_us: u64,
}

/// The metadata part of a hybrid query; the weight and selectivity are the
/// bit patterns of `f32` values.
#[derive(Debug, Clone)]
pub struct MetadataQueryComponent {
    pub file_size_range: Option<(u64, u64)>,
    pub timestamp_range: Option<(u64, u64)>,
    pub file_types: Vec<String>,
    pub path_patterns: Vec<String>,
    pub content_types: Vec<String>,
    pub weight_bits: u32,
    pub estimated_selectivity_bits: u32,
}

/// The vector part of a hybrid query; the components, threshold and
/// weight are the bit patterns of `f32` values.
#[derive(Debug, Clone)]
pub struct VectorQueryComponent {
    pub vector: Vec<u32>,
    pub metric: DistanceMetric,
    pub similarity_threshold_bits: Option<u32>,
    pub weight_bits: u32,
    pub approximate: bool,
    pub use_simd: bool,
}

/// A box in space; the coordinates are the bit patterns of `f32` values.
#[derive(Debug)]
pub struct SpatialBounds {
    pub min_coords: (u32, u32, u32),
    pub max_coords: (u32, u32, u32),
    pub coordinate_system: String,
}

impl Clone for SpatialBounds {
    fn clone(&self) -> (r: Self)
        ensures
            r.min_coords == self.min_coords,
            r.max_coords == self.max_coords,
            r.coordinate_system == self.coordinate_system,
    {
        SpatialBounds {
            min_coords: self.min_coords,
            max_coords: self.max_coords,
            coordinate_system: self.coordinate_system.clone(),
        }
    }
}

/// Where and when results must lie; the weight is the bit pattern of an `f32`.
#[derive(Debug, Clone)]
pub struct SpatialTemporalComponent {
    pub spatial_bounds: Option<SpatialBounds>,
    pub temporal_bounds: Option<TemporalBounds>,
    pub weight_bits: u32,
}

/// How diverse results must be; distances and weights are the bit
/// patterns of `f32` values.
#[derive(Debug, Clone)]
pub struct DiversityRequirements {
    pub min_distance_bits: u32,
    pub diversity_weight_bits: u32,
    pub max_per_cluster: usize,
}

/// What results a query wants; the minimum relevance is the bit pattern of
/// an `f32`.
#[derive(Debug, Clone)]
pub struct ResultRequirements {
    pub max_results: usize,
    pub min_relevance_score_bits: u32,
    pub diversity_requirements: Option<DiversityRequirements>,
    pub ranking_strategy: RankingStrategy,
    pub include_explanations: bool,
}

/// A query combining vector similarity with file metadata.
#[derive(Debug, Clone)]
pub struct HybridQuery {
    pub vector_component: Option<VectorQueryComponent>,
    pub metadata_component: Option<MetadataQueryComponent>,
    pub spatial_temporal_component: Option<SpatialTemporalComponent>,
    pub result_requirements: ResultRequirements,
    pub optimization_hints: OptimizationHints,
    pub resource_constraints: ResourceConstraints,
}

/// Why a hybrid query is refused.
#[derive(Debug, Clone, Copy, PartialEq, Eq, Structural)]
pub enum QueryValidationError {
    /// Neither a vector nor a metadata part.
    NoComponent,
    /// The vector part has no components.
    EmptyVector,
    /// The vector weight does not lie in [0, 1] (a NaN does not).
    VectorWeightOutOfRange,
    /// A vector component is infinite or NaN: its index and bit pattern.
    InvalidVectorValue { index: usize, value_bits: u32 },
    /// The metadata weight does not lie in [0, 1] (a NaN does not).
    MetadataWeightOutOfRange,
    /// The metadata selectivity does not lie in [0, 1] (a NaN does not).
    SelectivityOutOfRange,
    /// No execution time is allowed.
    ZeroExecutionTime,
    /// No memory is allowed.
    ZeroMemory,
    /// No results are wanted.
    ZeroMaxResults,
    /// The minimum relevance does not lie in [0, 1] (a NaN does not).
    RelevanceOutOfRange,
}

/// Whether an `f32`, by its bit pattern, fails to lie in [0, 1], that is
/// `0.0 <= x && x <= 1.0` does not hold as IEEE 754 compares: a NaN fails.
pub open spec fn outside_unit(b: u32) -> bool {
    !(f32_at_least(b, F32_ZERO) && f32_at_least(F32_1, b))
}

/// Whether an `f32`, by its bit pattern, is finite.
pub open spec fn f32_finite(b: u32) -> bool {
    b & 0x7f80_0000u32 != 0x7f80_0000u32
}

/// The first index of a non-finite component, if any.
pub open spec fn first_non_finite(v: Seq<u32>) -> Option<int> {
    if exists|i: int| 0 <= i < v.len() && !f32_finite(v[i]) {
        Some(choose|i: int| 0 <= i < v.len() && !f32_finite(v[i]) && forall|j: int| 0 <= j < i ==> f32_finite(v[j]))
    } else {
        None
    }
}

/// The checks of the vector part, in order.
pub open spec fn vector_part_check(v: VectorQueryComponent) -> Result<(), QueryValidationError> {
    if v.vector@.len() == 0 {
        Err(QueryValidationError::EmptyVector)
    } else if outside_unit(v.weight_bits) {
        Err(QueryValidationError::VectorWeightOutOfRange)
    } else {
        match first_non_finite(v.vector@) {
            Some(i) => Err(QueryValidationError::InvalidVectorValue { index: i as usize, value_bits: v.vector@[i] }),
            None => Ok(()),
        }
    }
}

/// The checks of the metadata part, in order.
pub open spec fn metadata_part_check(m: MetadataQueryComponent) -> Result<(), QueryValidationError> {
    if outside_unit(m.weight_bits) {
        Err(QueryValidationError::MetadataWeightOutOfRange)
    } else if outside_unit(m.estimated_selectivity_bits) {
        Err(QueryValidationError::SelectivityOutOfRange)
    } else {
        Ok(())
    }
}

/// The outcome of validating a query: the checks in order, the first that
/// fails decides.
pub open spec fn validation(q: HybridQuery) -> Result<(), QueryValidationError> {
    let v = match q.vector_component {
        Some(v) => vector_part_check(v),
        None => Ok(()),
    };
    let m = match q.metadata_component {
        Some(m) => metadata_part_check(m),
        None => Ok(()),
    };
    if q.vector_component is None && q.metadata_component is None {
        Err(QueryValidationError::NoComponent)
    } else if v is Err {
        v
    } else if m is Err {
        m
    } else if q.resource_constraints.max_execution_time_us == 0 {
        Err(QueryValidationError::ZeroExecutionTime)
    } else if q.resource_constraints.max_memory_bytes == 0 {
        Err(QueryValidationError::ZeroMemory)
    } else if q.result_requirements.max_results == 0 {
        Err(QueryValidationError::ZeroMaxResults)
    } else if outside_unit(q.result_requirements.min_relevance_score_bits) {
        Err(QueryValidationError::RelevanceOutOfRange)
    } else {
        Ok(())
    }
}

/// A query is accepted exactly when it has a vector or a metadata part;
/// a vector part has components, all finite, and a weight in [0, 1]; a
/// metadata part has weight and selectivity in [0, 1]; time, memory and
/// result count are positive; and the minimum relevance is in [0, 1]. A
/// value lies in [0, 1] when it is no NaN and, in the order of the reals,
/// between 0.0 and 1.0 (bit pattern 0x3f80_0000).
pub proof fn lemma_validation_accepts(q: HybridQuery)
    ensures
        validation(q) is Ok <==> {
            &&& q.vector_component is Some || q.metadata_component is Some
            &&& q.vector_component is Some ==> {
                let v = q.vector_component->0;
                &&& v.vector@.len() > 0
                &&& !f32_nan(v.weight_bits) && 0 <= f32_rank(v.weight_bits) <= f32_rank(0x3f80_0000u32)
                &&& forall|i: int| 0 <= i < v.vector@.len() ==> #[trigger] v.vector@[i] & 0x7f80_0000u32
                    != 0x7f80_0000u32
            }
            &&& q.metadata_component is Some ==> {
                let m = q.metadata_component->0;
                &&& !f32_nan(m.weight_bits) && 0 <= f32_rank(m.weight_bits) <= f32_rank(0x3f80_0000u32)
                &&& !f32_nan(m.estimated_selectivity_bits) && 0 <= f32_rank(m.estimated_selectivity_bits) <= f32_rank(
                    0x3f80_0000u32,
                )
            }
            &&& q.resource_constraints.max_execution_time_us > 0
            &&& q.resource_constraints.max_memory_bytes > 0
            &&& q.result_requirements.max_results > 0
            &&& !f32_nan(q.result_requirements.min_relevance_score_bits) && 0 <= f32_rank(
                q.result_requirements.min_relevance_score_bits,
            ) <= f32_rank(0x3f80_0000u32)
        },
{
    assert(f32_rank(0u32) == 0);
    assert(!f32_nan(0u32)) by (bit_vector);
    assert(!f32_nan(0x3f80_0000u32)) by (bit_vector);
    if let Some(v) = q.vector_component {
        if v.vector@.len() > 0 && !outside_unit(v.weight_bits) {
            if exists|i: int| 0 <= i < v.vector@.len() && !f32_finite(v.vector@[i]) {
                let w = choose|i: int| 0 <= i < v.vector@.len() && !f32_finite(v.vector@[i]);
                lemma_first_non_finite_exists(v.vector@, w);
            }
        }
    }
}

/// When some element is not finite, there is a first one.
proof fn lemma_first_non_finite_exists(v: Seq<u32>, w: int)
    requires
        0 <= w < v.len(),
        !f32_finite(v[w]),
    ensures
        exists|c: int| 0 <= c < v.len() && !f32_finite(v[c]) && forall|j: int| 0 <= j < c ==> f32_finite(v[j]),
    decreases w,
{
    if exists|j: int| 0 <= j < w && !f32_finite(v[j]) {
        let j = choose|j: int| 0 <= j < w && !f32_finite(v[j]);
        lemma_first_non_finite_exists(v, j);
    } else {
        assert(0 <= w < v.len() && !f32_finite(v[w]) && forall|j: int| 0 <= j < w ==> f32_finite(v[j]));
    }
}

/// Whether an `f32`, by its bit pattern, fails to lie in [0, 1]; a NaN
/// does not lie there.
fn out_of_unit_range(b: u32) -> (r: bool)
    ensures
        r == outside_unit(b),
{
    !(crate::knn_search::f32_ge(b, F32_ZERO) && crate::knn_search::f32_ge(F32_1, b))
}

/// Check the structure and limits of a hybrid query.
pub fn validate_hybrid_query(query: &HybridQuery) -> (r: Result<(), QueryValidationError>)
    ensures
        r == validation(*query),
{
    if query.vector_component.is_none() && query.metadata_component.is_none() {
        return Err(QueryValidationError::NoComponent);
    }
    if let Some(vector_comp) = &query.vector_component {
        if vector_comp.vector.len() == 0 {
            return Err(QueryValidationError::EmptyVector);
        }
        if out_of_unit_range(vector_comp.weight_bits) {
            return Err(QueryValidationError::VectorWeightOutOfRange);
        }
        let n = vector_comp.vector.len();
        let mut i: usize = 0;
        while i < n
            invariant
                query.vector_component == Some(*vector_comp),
                n == vector_comp.vector@.len(),
                n > 0,
                !outside_unit(vector_comp.weight_bits),
                i <= n,
                forall|j: int| 0 <= j < i ==> f32_finite(vector_comp.vector@[j]),
            decreases n - i,
        {
            let value = vector_comp.vector[i];
            if value & 0x7f80_0000 == 0x7f80_0000 {
                proof {
                    let v = vector_comp.vector@;
                    assert(!f32_finite(v[i as int]));
                    let c = choose|c: int| 0 <= c < v.len() && !f32_finite(v[c]) && forall|j: int| 0 <= j < c ==> f32_finite(v[j]);
                    assert(0 <= c < v.len() && !f32_finite(v[c]) && forall|j: int| 0 <= j < c ==> f32_finite(v[j]));
                    if c < i {
                    } else if c > i {
                        assert(f32_finite(v[i as int]));
                    }
                    assert(c == i);
                    assert(first_non_finite(v) == Some(i as int));
                    assert(vector_part_check(*vector_comp) == Err::<(), QueryValidationError>(
                        QueryValidationError::InvalidVectorValue { index: i, value_bits: value },
                    ));
                }
                return Err(QueryValidationError::InvalidVectorValue { index: i, value_bits: value });
            }
            i += 1;
        }
        proof {
            assert(!(exists|j: int| 0 <= j < vector_comp.vector@.len() && !f32_finite(vector_comp.vector@[j])));
        }
    }
    if let Some(metadata_comp) = &query.metadata_component {
        if out_of_unit_range(metadata_comp.weight_bits) {
            return Err(QueryValidationError::MetadataWeightOutOfRange);
        }
        if out_of_unit_range(metadata_comp.estimated_selectivity_bits) {
            return Err(QueryValidationError::SelectivityOutOfRange);
        }
    }
    if query.resource_constraints.max_execution_time_us == 0 {
        return Err(QueryValidationError::ZeroExecutionTime);
    }
    if query.resource_constraints.max_memory_bytes == 0 {
        return Err(QueryValidationError::ZeroMemory);
    }
    if query.result_requirements.max_results == 0 {
        return Err(QueryValidationError::ZeroMaxResults);
    }
    if out_of_unit_range(query.result_requirements.min_relevance_score_bits) {
        return Err(QueryValidationError::RelevanceOutOfRange);
    }
    Ok(())
}

/// Settings of the planner.
#[derive(Debug, Clone)]
pub struct HybridOptimizerConfig {
    pub enable_cost_optimization: bool,
    pub enable_filter_pushdown: bool,
    pub enable_parallel_execution: bool,
    pub enable_result_caching: bool,
    pub max_optimization_time_us: u64,
    pub optimization_memory_budget: usize,
    pub stats_collection_interval_us: u64,
}

impl Default for HybridOptimizerConfig {
    /// Everything enabled, 10 ms to plan, 64 MiB of memory, statistics each minute.
    fn default() -> (r: Self)
        ensures
            r.enable_cost_optimization,
            r.enable_filter_pushdown,
            r.enable_parallel_execution,
            r.enable_result_caching,
            r.max_optimization_time_us == 10_000,
            r.optimization_memory_budget == 64 * 1024 * 1024,
            r.stats_collection_interval_us == 60 * 1_000_000,
    {
        HybridOptimizerConfig {
            enable_cost_optimization: true,
            enable_filter_pushdown: true,
            enable_parallel_execution: true,
            enable_result_caching: true,
            max_optimization_time_us: 10_000,
            optimization_memory_budget: 64 * 1024 * 1024,
            stats_collection_interval_us: 60 * 1_000_000,
        }
    }
}


/// Bit pattern of the `f32` value 0.0.
pub const F32_ZERO: u32 = 0;
/// Bit pattern of the `f32` value 0.1.
pub const F32_0_1: u32 = 0x3dcc_cccd;
/// Bit pattern of the `f32` value 0.2.
pub const F32_0_2: u32 = 0x3e4c_cccd;
/// Bit pattern of the `f32` value 0.3.
pub const F32_0_3: u32 = 0x3e99_999a;
/// Bit pattern of the `f32` value 0.4.
pub const F32_0_4: u32 = 0x3ecc_cccd;
/// Bit pattern of the `f32` value 0.5.
pub const F32_0_5: u32 = 0x3f00_0000;
/// Bit pattern of the `f32` value 0.7.
pub const F32_0_7: u32 = 0x3f33_3333;
/// Bit pattern of the `f32` value 0.8.
pub const F32_0_8: u32 = 0x3f4c_cccd;
/// Bit pattern of the `f32` value 0.9.
pub const F32_0_9: u32 = 0x3f66_6666;
/// Bit pattern of the `f32` value 1.0.
pub const F32_1: u32 = 0x3f80_0000;
/// Bit pattern of the `f32` value 1.2.
pub const F32_1_2: u32 = 0x3f99_999a;
/// Bit pattern of the `f32` value 1.5.
pub const F32_1_5: u32 = 0x3fc0_0000;
/// Bit pattern of the `f32` value 16.0.
pub const F32_16: u32 = 0x4180_0000;
/// Bit pattern of the `f32` value 25.0.
pub const F32_25: u32 = 0x41c8_0000;
/// Bit pattern of the `f32` value 26.0.
pub const F32_26: u32 = 0x41d0_0000;
/// Bit pattern of the `f32` value 31.0.
pub const F32_31: u32 = 0x41f8_0000;
/// Bit pattern of the `f32` value 36.0.
pub const F32_36: u32 = 0x4210_0000;
/// Bit pattern of the `f32` value 50.0.
pub const F32_50: u32 = 0x4248_0000;
/// Bit pattern of the `f32` value 75.0.
pub const F32_75: u32 = 0x4296_0000;
/// Bit pattern of the `f32` value 100.0.
pub const F32_100: u32 = 0x42c8_0000;
/// Bit pattern of the `f32` value 175.0.
pub const F32_175: u32 = 0x432f_0000;
/// Bit pattern of the `f32` value 200.0.
pub const F32_200: u32 = 0x4348_0000;
/// Bit pattern of the `f32` value 250.0.
pub const F32_250: u32 = 0x437a_0000;

/// Whether an `f32`, by its bit pattern, is a NaN.
pub open spec fn f32_bits_nan(b: u32) -> bool {
    (b & 0x7f80_0000u32) == 0x7f80_0000u32 && (b & 0x007f_ffffu32) != 0
}

/// Whether the `f32` with bit pattern `b` lies below the positive finite
/// `f32` with bit pattern `c`, as IEEE 754 compares them: every negative
/// value and both zeros lie below, a NaN lies below nothing, and positive
/// values order as their patterns do.
pub open spec fn f32_bits_below_positive(b: u32, c: u32) -> bool {
    (b >= 0x8000_0000u32 && !f32_bits_nan(b)) || b < c
}

/// Whether the `f32` with bit pattern `b` is below the positive finite
/// `f32` with bit pattern `c`.
pub fn f32_below_positive(b: u32, c: u32) -> (r: bool)
    requires
        0 < c < 0x7f80_0000,
    ensures
        r == f32_bits_below_positive(b, c),
{
    (b >= 0x8000_0000 && !((b & 0x7f80_0000) == 0x7f80_0000 && (b & 0x007f_ffff) != 0)) || b < c
}

/// Filters in the metadata part of a query: one for each range given and
/// one for each nonempty list of file types, paths and content types.
pub open spec fn metadata_filter_count(m: MetadataQueryComponent) -> nat {
    (if m.file_size_range is Some { 1nat } else { 0nat })
        + (if m.timestamp_range is Some { 1nat } else { 0nat })
        + (if m.file_types@.len() > 0 { 1nat } else { 0nat })
        + (if m.path_patterns@.len() > 0 { 1nat } else { 0nat })
        + (if m.content_types@.len() > 0 { 1nat } else { 0nat })
}

/// The number of filters in the metadata part of a query.
pub fn count_metadata_filters(metadata_comp: &MetadataQueryComponent) -> (r: usize)
    ensures
        r == metadata_filter_count(*metadata_comp),
{
    let mut count: usize = 0;
    if metadata_comp.file_size_range.is_some() {
        count += 1;
    }
    if metadata_comp.timestamp_range.is_some() {
        count += 1;
    }
    if !metadata_comp.file_types.is_empty() {
        count += 1;
    }
    if !metadata_comp.path_patterns.is_empty() {
        count += 1;
    }
    if !metadata_comp.content_types.is_empty() {
        count += 1;
    }
    count
}

/// Estimated time of a query in microseconds: 1 ms of overhead, a
/// hundredth of a microsecond per dimension and result for the vector part,
/// and 100 µs per metadata filter.
pub open spec fn execution_time_estimate(s: QueryStatistics) -> int {
    1000 + (if s.has_vector_component {
        (s.vector_dimensions * s.estimated_result_count) / 100
    } else {
        0
    }) + (if s.has_metadata_component {
        s.metadata_filter_count * 100
    } else {
        0
    })
}

/// The estimated execution time of a query.
pub fn estimate_execution_time(stats: &QueryStatistics) -> (r: u64)
    requires
        stats.has_vector_component ==> stats.vector_dimensions * stats.estimated_result_count <= u64::MAX,
        stats.has_metadata_component ==> stats.metadata_filter_count * 100 <= u64::MAX,
        execution_time_estimate(*stats) <= u64::MAX,
    ensures
        r == execution_time_estimate(*stats),
{
    let mut time_us: u64 = 1000;
    if stats.has_vector_component {
        let d = stats.vector_dimensions as u64;
        let n = stats.estimated_result_count as u64;
        time_us = time_us + (d * n) / 100;
    }
    if stats.has_metadata_component {
        time_us = time_us + stats.metadata_filter_count as u64 * 100;
    }
    time_us
}

/// Estimated memory of a query in bytes: the query vector and a vector per
/// result for the vector part, 1 KiB per result for the metadata part, and
/// a scored result per result.
pub open spec fn memory_estimate(s: QueryStatistics) -> int {
    (if s.has_vector_component {
        s.vector_dimensions * 4 + s.estimated_result_count * s.vector_dimensions * 4
    } else {
        0
    }) + (if s.has_metadata_component {
        s.estimated_result_count * 1024
    } else {
        0
    }) + s.estimated_result_count * vstd::layout::size_of::<crate::result_scoring::ScoredResult>()
}

/// The estimated memory of a query.
pub fn estimate_memory_usage(stats: &QueryStatistics) -> (r: usize)
    requires
        stats.estimated_result_count * stats.vector_dimensions * 4 <= usize::MAX,
        stats.estimated_result_count * 1024 <= usize::MAX,
        stats.estimated_result_count * vstd::layout::size_of::<crate::result_scoring::ScoredResult>() <= usize::MAX,
        memory_estimate(*stats) <= usize::MAX,
    ensures
        r == memory_estimate(*stats),
{
    let mut memory: usize = 0;
    let n = stats.estimated_result_count;
    let d = stats.vector_dimensions;
    if stats.has_vector_component {
        assert(d * 4 <= n * d * 4 || n == 0) by (nonlinear_arith)
            requires
                n >= 0,
                d >= 0,
        {
        }
        proof {
            if n == 0 {
                assert(memory_estimate(*stats) >= d * 4);
            }
        }
        memory = memory + d * 4;
        assert(n * d * 4 == (n * d) * 4) by (nonlinear_arith);
        memory = memory + n * d * 4;
    }
    if stats.has_metadata_component {
        memory = memory + n * 1024;
    }
    memory = memory + n * core::mem::size_of::<crate::result_scoring::ScoredResult>();
    memory
}

/// The statistics of a query. The sparsity and magnitude of its vector are
/// worked out in floating point by the caller and given as `f32` bit
/// patterns; the memory and time estimates follow from the rest.
pub open spec fn statistics_of(q: HybridQuery, sparsity_bits: u32, magnitude_bits: u32) -> QueryStatistics {
    let base = QueryStatistics {
        vector_dimensions: match q.vector_component { Some(v) => v.vector@.len() as usize, None => 0 },
        vector_sparsity_bits: if q.vector_component is Some { sparsity_bits } else { 0 },
        vector_magnitude_bits: if q.vector_component is Some { magnitude_bits } else { 0 },
        has_vector_component: q.vector_component is Some,
        metadata_selectivity_bits: match q.metadata_component { Some(m) => m.estimated_selectivity_bits, None => 0 },
        metadata_filter_count: match q.metadata_component { Some(m) => metadata_filter_count(m) as usize, None => 0 },
        has_metadata_component: q.metadata_component is Some,
        has_spatial_component: match q.spatial_temporal_component { Some(st) => st.spatial_bounds is Some, None => false },
        has_temporal_component: match q.spatial_temporal_component { Some(st) => st.temporal_bounds is Some, None => false },
        estimated_result_count: q.result_requirements.max_results,
        estimated_memory_usage: 0,
        estimated_execution_time_us: 0,
    };
    let with_memory = QueryStatistics { estimated_memory_usage: memory_estimate(base) as usize, ..base };
    QueryStatistics { estimated_execution_time_us: execution_time_estimate(with_memory) as u64, ..with_memory }
}

/// The bounds under which the estimates of a query fit their integers.
pub open spec fn estimates_fit(q: HybridQuery) -> bool {
    let s = statistics_of(q, 0, 0);
    &&& s.estimated_result_count * s.vector_dimensions * 4 <= usize::MAX
    &&& s.estimated_result_count * 1024 <= usize::MAX
    &&& s.estimated_result_count * vstd::layout::size_of::<crate::result_scoring::ScoredResult>() <= usize::MAX
    &&& memory_estimate(s) <= usize::MAX
    &&& s.vector_dimensions * s.estimated_result_count <= u64::MAX
    &&& execution_time_estimate(s) <= u64::MAX
}

/// Gather the statistics of a query.
pub fn collect_query_statistics(query: &HybridQuery, sparsity_bits: u32, magnitude_bits: u32) -> (r: VexfsResult<
    QueryStatistics,
>)
    requires
        estimates_fit(*query),
    ensures
        r matches Ok(s) && s == statistics_of(*query, sparsity_bits, magnitude_bits),
{
    let mut stats = QueryStatistics {
        vector_dimensions: 0,
        vector_sparsity_bits: 0,
        vector_magnitude_bits: 0,
        has_vector_component: false,
        metadata_selectivity_bits: 0,
        metadata_filter_count: 0,
        has_metadata_component: false,
        has_spatial_component: false,
        has_temporal_component: false,
        estimated_result_count: 0,
        estimated_memory_usage: 0,
        estimated_execution_time_us: 0,
    };
    if let Some(vector_comp) = &query.vector_component {
        stats.vector_dimensions = vector_comp.vector.len();
        stats.vector_sparsity_bits = sparsity_bits;
        stats.vector_magnitude_bits = magnitude_bits;
        stats.has_vector_component = true;
    }
    if let Some(metadata_comp) = &query.metadata_component {
        stats.metadata_selectivity_bits = metadata_comp.estimated_selectivity_bits;
        stats.metadata_filter_count = count_metadata_filters(metadata_comp);
        stats.has_metadata_component = true;
    }
    if let Some(spatial_temporal) = &query.spatial_temporal_component {
        stats.has_spatial_component = spatial_temporal.spatial_bounds.is_some();
        stats.has_temporal_component = spatial_temporal.temporal_bounds.is_some();
    }
    stats.estimated_result_count = query.result_requirements.max_results;
    stats.estimated_memory_usage = estimate_memory_usage(&stats);
    stats.estimated_execution_time_us = estimate_execution_time(&stats);
    Ok(stats)
}

/// The needs of an operation that uses no network.
pub open spec fn needs(cpu: u64, mem: usize, io: u64) -> OperationResourceRequirements {
    OperationResourceRequirements { cpu_time_us: cpu, memory_bytes: mem, io_operations: io, network_operations: 0 }
}

/// An operation without parameters.
pub open spec fn op_view(
    name: Seq<char>,
    t: HybridOperationType,
    cost_bits: u32,
    req: OperationResourceRequirements,
) -> OperationView {
    OperationView { name, operation_type: t, parameter_count: 0, estimated_cost_bits: cost_bits, resource_requirements: req }
}

/// A stage that lies on the critical path.
pub open spec fn stage_view(
    name: Seq<char>,
    t: HybridStageType,
    ops: Seq<OperationView>,
    deps: Seq<usize>,
    time: u64,
    mem: usize,
    parallelizable: bool,
) -> StageView {
    StageView {
        name,
        stage_type: t,
        operations: ops,
        dependencies: deps,
        estimated_time_us: time,
        estimated_memory_bytes: mem,
        parallelizable,
        critical_path: true,
    }
}

/// An operation without parameters.
fn operation(name: &str, t: HybridOperationType, cost_bits: u32, req: OperationResourceRequirements) -> (r:
    HybridOperation)
    ensures
        r@ == op_view(name@, t, cost_bits, req),
{
    HybridOperation {
        name: message(name),
        operation_type: t,
        parameters: Vec::new(),
        estimated_cost_bits: cost_bits,
        resource_requirements: req,
    }
}

/// A stage on the critical path.
fn stage(
    name: &str,
    t: HybridStageType,
    operations: Vec<HybridOperation>,
    dependencies: Vec<usize>,
    time: u64,
    mem: usize,
    parallelizable: bool,
) -> (r: HybridExecutionStage)
    ensures
        r@ == stage_view(
            name@,
            t,
            operations@.map_values(|o: HybridOperation| o@),
            dependencies@,
            time,
            mem,
            parallelizable,
        ),
{
    HybridExecutionStage {
        name: message(name),
        stage_type: t,
        operations,
        dependencies,
        estimated_time_us: time,
        estimated_memory_bytes: mem,
        parallelizable,
        critical_path: true,
    }
}

/// A stage of one operation.
fn single_stage(
    name: &str,
    t: HybridStageType,
    op: HybridOperation,
    dependencies: Vec<usize>,
    time: u64,
    mem: usize,
    parallelizable: bool,
) -> (r: HybridExecutionStage)
    ensures
        r@ == stage_view(name@, t, seq![op@], dependencies@, time, mem, parallelizable),
{
    let ghost ov = op@;
    let mut ops: Vec<HybridOperation> = Vec::new();
    ops.push(op);
    assert(ops@.map_values(|o: HybridOperation| o@) =~= seq![ov]);
    stage(name, t, ops, dependencies, time, mem, parallelizable)
}

/// A list of one stage index.
fn one_index(i: usize) -> (r: Vec<usize>)
    ensures
        r@ == seq![i],
{
    let mut v: Vec<usize> = Vec::new();
    v.push(i);
    assert(v@ =~= seq![i]);
    v
}

/// The view of a plan without fallbacks, pushed-down filters or index
/// choices, run in parallel as stated.
pub open spec fn plan_view(
    strategy: HybridExecutionStrategy,
    stages: Seq<StageView>,
    cost: HybridCostEstimate,
    res: ResourceRequirements,
    thread_count: usize,
    parallel_stages: Seq<usize>,
    load_balancing: LoadBalancingStrategy,
    speedup_bits: u32,
    caching: CachingDecision,
    memory: MemoryManagementDecision,
) -> PlanView {
    PlanView {
        strategy,
        stages,
        cost_estimates: cost,
        resource_requirements: res,
        decisions: DecisionsView {
            selected_strategy: strategy,
            filter_pushdown_count: 0,
            index_selection_count: 0,
            parallel_enabled: true,
            thread_count,
            parallel_stages,
            load_balancing,
            expected_speedup_bits: speedup_bits,
            caching,
            memory_management: memory,
        },
        fallback_count: 0,
    }
}

/// A plan without fallbacks, pushed-down filters or index choices.
fn plan(
    strategy: HybridExecutionStrategy,
    stages: Vec<HybridExecutionStage>,
    cost: HybridCostEstimate,
    res: ResourceRequirements,
    thread_count: usize,
    parallel_stages: Vec<usize>,
    load_balancing: LoadBalancingStrategy,
    speedup_bits: u32,
    caching: CachingDecision,
    memory: MemoryManagementDecision,
) -> (r: HybridExecutionPlan)
    ensures
        r@ == plan_view(
            strategy,
            stages@.map_values(|s: HybridExecutionStage| s@),
            cost,
            res,
            thread_count,
            parallel_stages@,
            load_balancing,
            speedup_bits,
            caching,
            memory,
        ),
{
    HybridExecutionPlan {
        strategy,
        stages,
        cost_estimates: cost,
        resource_requirements: res,
        optimization_decisions: OptimizationDecisions {
            selected_strategy: strategy,
            filter_pushdown: Vec::new(),
            index_selection: Vec::new(),
            parallelization: ParallelizationDecision {
                enabled: true,
                thread_count,
                parallel_stages,
                load_balancing,
                expected_speedup_bits: speedup_bits,
            },
            caching,
            memory_management: memory,
        },
        fallback_plans: Vec::new(),
    }
}

/// The closing stage of the vector-first and metadata-first plans.
pub open spec fn ranking_stage(s: QueryStatistics, after: usize) -> StageView {
    let t = s.estimated_execution_time_us;
    let m = s.estimated_memory_usage;
    stage_view(
        "Result Ranking"@,
        HybridStageType::ResultRanking,
        seq![op_view("Rank and Sort Results"@, HybridOperationType::ResultRanking, F32_25, needs(t / 8, m / 8, 1))],
        seq![after],
        t / 8,
        m / 8,
        false,
    )
}

/// The vector-first plan: vector search, then the metadata filters when the
/// query has some, then ranking; the memory cost is given.
pub open spec fn vector_first_view(s: QueryStatistics, memory_cost_bits: u32) -> PlanView {
    let t = s.estimated_execution_time_us;
    let m = s.estimated_memory_usage;
    let search = stage_view(
        "Vector Search"@,
        HybridStageType::VectorSearch,
        seq![op_view("Vector Similarity Search"@, HybridOperationType::VectorSimilaritySearch, F32_100, needs(t / 2, m / 2, 10))],
        seq![],
        t / 2,
        m / 2,
        true,
    );
    let filter = stage_view(
        "Metadata Filtering"@,
        HybridStageType::MetadataFiltering,
        seq![op_view("Apply Metadata Filters"@, HybridOperationType::MetadataFilter, F32_50, needs(t / 4, m / 4, 5))],
        seq![0usize],
        t / 4,
        m / 4,
        false,
    );
    let stages = if s.has_metadata_component {
        seq![search, filter, ranking_stage(s, 1)]
    } else {
        seq![search, ranking_stage(s, 0)]
    };
    plan_view(
        HybridExecutionStrategy::VectorFirst,
        stages,
        HybridCostEstimate {
            total_cost_bits: F32_175,
            vector_search_cost_bits: F32_100,
            metadata_filtering_cost_bits: if s.has_metadata_component { F32_50 } else { F32_ZERO },
            result_merging_cost_bits: F32_25,
            io_cost_bits: F32_16,
            memory_cost_bits,
            network_cost_bits: F32_ZERO,
            estimated_time_us: t,
            confidence_bits: F32_0_8,
        },
        ResourceRequirements {
            peak_memory_bytes: m,
            total_cpu_time_us: t,
            total_io_operations: 16,
            network_bandwidth_bps: 0,
            temp_storage_bytes: 0,
        },
        1,
        seq![0usize],
        LoadBalancingStrategy::RoundRobin,
        F32_1,
        CachingDecision {
            cache_results: true,
            cache_intermediate: false,
            invalidation_strategy: CacheInvalidationStrategy::TimeBased,
            expected_hit_rate_bits: F32_0_3,
        },
        MemoryManagementDecision {
            allocation_strategy: MemoryAllocationStrategy::Conservative,
            pool_size_bytes: (m * 2) as usize,
            spill_threshold_bytes: (m * 4) as usize,
            pressure_handling: MemoryPressureHandling::Degrade,
        },
    )
}

/// The ranking stage after the stage at index `after`.
fn ranking(stats: &QueryStatistics, after: usize) -> (r: HybridExecutionStage)
    ensures
        r@ == ranking_stage(*stats, after),
{
    let t = stats.estimated_execution_time_us;
    let m = stats.estimated_memory_usage;
    let op = operation(
        "Rank and Sort Results",
        HybridOperationType::ResultRanking,
        F32_25,
        OperationResourceRequirements { cpu_time_us: t / 8, memory_bytes: m / 8, io_operations: 1, network_operations: 0 },
    );
    single_stage("Result Ranking", HybridStageType::ResultRanking, op, one_index(after), t / 8, m / 8, false)
}

/// The vector-first plan of a query. `memory_cost_bits` is the bit pattern
/// of the memory cost, a thousandth of a unit per estimated byte, which the
/// caller works out in floating point.
pub fn generate_vector_first_plan(stats: &QueryStatistics, memory_cost_bits: u32) -> (r: VexfsResult<
    HybridExecutionPlan,
>)
    requires
        stats.estimated_memory_usage * 4 <= usize::MAX,
    ensures
        r matches Ok(p) && p@ == vector_first_view(*stats, memory_cost_bits),
{
    let t = stats.estimated_execution_time_us;
    let m = stats.estimated_memory_usage;
    let mut stages: Vec<HybridExecutionStage> = Vec::new();
    let op = operation(
        "Vector Similarity Search",
        HybridOperationType::VectorSimilaritySearch,
        F32_100,
        OperationResourceRequirements { cpu_time_us: t / 2, memory_bytes: m / 2, io_operations: 10, network_operations: 0 },
    );
    stages.push(single_stage("Vector Search", HybridStageType::VectorSearch, op, Vec::new(), t / 2, m / 2, true));
    if stats.has_metadata_component {
        let op = operation(
            "Apply Metadata Filters",
            HybridOperationType::MetadataFilter,
            F32_50,
            OperationResourceRequirements { cpu_time_us: t / 4, memory_bytes: m / 4, io_operations: 5, network_operations: 0 },
        );
        stages.push(single_stage("Metadata Filtering", HybridStageType::MetadataFiltering, op, one_index(0), t / 4, m / 4, false));
        stages.push(ranking(stats, 1));
    } else {
        stages.push(ranking(stats, 0));
    }
    let ghost sv = stages@.map_values(|s: HybridExecutionStage| s@);
    assert(sv =~= vector_first_view(*stats, memory_cost_bits).stages);
    let p = plan(
        HybridExecutionStrategy::VectorFirst,
        stages,
        HybridCostEstimate {
            total_cost_bits: F32_175,
            vector_search_cost_bits: F32_100,
            metadata_filtering_cost_bits: if stats.has_metadata_component { F32_50 } else { F32_ZERO },
            result_merging_cost_bits: F32_25,
            io_cost_bits: F32_16,
            memory_cost_bits,
            network_cost_bits: F32_ZERO,
            estimated_time_us: t,
            confidence_bits: F32_0_8,
        },
        ResourceRequirements {
            peak_memory_bytes: m,
            total_cpu_time_us: t,
            total_io_operations: 16,
            network_bandwidth_bps: 0,
            temp_storage_bytes: 0,
        },
        1,
        one_index(0),
        LoadBalancingStrategy::RoundRobin,
        F32_1,
        CachingDecision {
            cache_results: true,
            cache_intermediate: false,
            invalidation_strategy: CacheInvalidationStrategy::TimeBased,
            expected_hit_rate_bits: F32_0_3,
        },
        MemoryManagementDecision {
            allocation_strategy: MemoryAllocationStrategy::Conservative,
            pool_size_bytes: m * 2,
            spill_threshold_bytes: m * 4,
            pressure_handling: MemoryPressureHandling::Degrade,
        },
    );
    Ok(p)
}

/// The metadata-first plan: the metadata filters, then vector search when
/// the query has a vector, then ranking; the memory cost is given.
pub open spec fn metadata_first_view(s: QueryStatistics, memory_cost_bits: u32) -> PlanView {
    let t = s.estimated_execution_time_us;
    let m = s.estimated_memory_usage;
    let filter = stage_view(
        "Metadata Filtering"@,
        HybridStageType::MetadataFiltering,
        seq![op_view("Apply Metadata Filters"@, HybridOperationType::MetadataFilter, F32_75, needs(t / 3, m / 3, 15))],
        seq![],
        t / 3,
        m / 3,
        true,
    );
    let search = stage_view(
        "Vector Search"@,
        HybridStageType::VectorSearch,
        seq![op_view("Vector Similarity Search"@, HybridOperationType::VectorSimilaritySearch, F32_100, needs(t / 2, m / 2, 10))],
        seq![0usize],
        t / 2,
        m / 2,
        true,
    );
    let stages = if s.has_vector_component {
        seq![filter, search, ranking_stage(s, 1)]
    } else {
        seq![filter, ranking_stage(s, 0)]
    };
    plan_view(
        HybridExecutionStrategy::MetadataFirst,
        stages,
        HybridCostEstimate {
            total_cost_bits: F32_200,
            vector_search_cost_bits: if s.has_vector_component { F32_100 } else { F32_ZERO },
            metadata_filtering_cost_bits: F32_75,
            result_merging_cost_bits: F32_25,
            io_cost_bits: F32_26,
            memory_cost_bits,
            network_cost_bits: F32_ZERO,
            estimated_time_us: t,
            confidence_bits: F32_0_8,
        },
        ResourceRequirements {
            peak_memory_bytes: m,
            total_cpu_time_us: t,
            total_io_operations: 26,
            network_bandwidth_bps: 0,
            temp_storage_bytes: 0,
        },
        1,
        seq![0usize],
        LoadBalancingStrategy::RoundRobin,
        F32_1,
        CachingDecision {
            cache_results: true,
            cache_intermediate: false,
            invalidation_strategy: CacheInvalidationStrategy::TimeBased,
            expected_hit_rate_bits: F32_0_3,
        },
        MemoryManagementDecision {
            allocation_strategy: MemoryAllocationStrategy::Conservative,
            pool_size_bytes: (m * 2) as usize,
            spill_threshold_bytes: (m * 4) as usize,
            pressure_handling: MemoryPressureHandling::Degrade,
        },
    )
}

/// The metadata-first plan of a query; `memory_cost_bits` as for the
/// vector-first plan.
pub fn generate_metadata_first_plan(stats: &QueryStatistics, memory_cost_bits: u32) -> (r: VexfsResult<
    HybridExecutionPlan,
>)
    requires
        stats.estimated_memory_usage * 4 <= usize::MAX,
    ensures
        r matches Ok(p) && p@ == metadata_first_view(*stats, memory_cost_bits),
{
    let t = stats.estimated_execution_time_us;
    let m = stats.estimated_memory_usage;
    let mut stages: Vec<HybridExecutionStage> = Vec::new();
    let op = operation(
        "Apply Metadata Filters",
        HybridOperationType::MetadataFilter,
        F32_75,
        OperationResourceRequirements { cpu_time_us: t / 3, memory_bytes: m / 3, io_operations: 15, network_operations: 0 },
    );
    stages.push(single_stage("Metadata Filtering", HybridStageType::MetadataFiltering, op, Vec::new(), t / 3, m / 3, true));
    if stats.has_vector_component {
        let op = operation(
            "Vector Similarity Search",
            HybridOperationType::VectorSimilaritySearch,
            F32_100,
            OperationResourceRequirements { cpu_time_us: t / 2, memory_bytes: m / 2, io_operations: 10, network_operations: 0 },
        );
        stages.push(single_stage("Vector Search", HybridStageType::VectorSearch, op, one_index(0), t / 2, m / 2, true));
        stages.push(ranking(stats, 1));
    } else {
        stages.push(ranking(stats, 0));
    }
    let ghost sv = stages@.map_values(|s: HybridExecutionStage| s@);
    assert(sv =~= metadata_first_view(*stats, memory_cost_bits).stages);
    let p = plan(
        HybridExecutionStrategy::MetadataFirst,
        stages,
        HybridCostEstimate {
            total_cost_bits: F32_200,
            vector_search_cost_bits: if stats.has_vector_component { F32_100 } else { F32_ZERO },
            metadata_filtering_cost_bits: F32_75,
            result_merging_cost_bits: F32_25,
            io_cost_bits: F32_26,
            memory_cost_bits,
            network_cost_bits: F32_ZERO,
            estimated_time_us: t,
            confidence_bits: F32_0_8,
        },
        ResourceRequirements {
            peak_memory_bytes: m,
            total_cpu_time_us: t,
            total_io_operations: 26,
            network_bandwidth_bps: 0,
            temp_storage_bytes: 0,
        },
        1,
        one_index(0),
        LoadBalancingStrategy::RoundRobin,
        F32_1,
        CachingDecision {
            cache_results: true,
            cache_intermediate: false,
            invalidation_strategy: CacheInvalidationStrategy::TimeBased,
            expected_hit_rate_bits: F32_0_3,
        },
        MemoryManagementDecision {
            allocation_strategy: MemoryAllocationStrategy::Conservative,
            pool_size_bytes: m * 2,
            spill_threshold_bytes: m * 4,
            pressure_handling: MemoryPressureHandling::Degrade,
        },
    );
    Ok(p)
}

/// The parallel plan: vector search and metadata filters side by side in one
/// stage, then merging, then ranking; two thirds of the time is expected.
pub open spec fn parallel_view(s: QueryStatistics, memory_cost_bits: u32) -> PlanView {
    let t = s.estimated_execution_time_us;
    let m = s.estimated_memory_usage;
    let both = stage_view(
        "Parallel Vector and Metadata"@,
        HybridStageType::VectorSearch,
        seq![
            op_view("Vector Similarity Search"@, HybridOperationType::VectorSimilaritySearch, F32_100, needs(t / 3, m / 2, 10)),
            op_view("Apply Metadata Filters"@, HybridOperationType::MetadataFilter, F32_75, needs(t / 3, m / 2, 15)),
        ],
        seq![],
        t / 3,
        m,
        true,
    );
    let merge = stage_view(
        "Result Merging"@,
        HybridStageType::ResultMerging,
        seq![op_view("Merge Vector and Metadata Results"@, HybridOperationType::ResultIntersection, F32_50, needs(t / 4, m / 4, 5))],
        seq![0usize],
        t / 4,
        m / 4,
        false,
    );
    plan_view(
        HybridExecutionStrategy::Parallel,
        seq![both, merge, ranking_stage(s, 1)],
        HybridCostEstimate {
            total_cost_bits: F32_250,
            vector_search_cost_bits: F32_100,
            metadata_filtering_cost_bits: F32_75,
            result_merging_cost_bits: F32_50,
            io_cost_bits: F32_31,
            memory_cost_bits,
            network_cost_bits: F32_ZERO,
            estimated_time_us: ((t * 2) / 3) as u64,
            confidence_bits: F32_0_7,
        },
        ResourceRequirements {
            peak_memory_bytes: m,
            total_cpu_time_us: t,
            total_io_operations: 31,
            network_bandwidth_bps: 0,
            temp_storage_bytes: m / 4,
        },
        2,
        seq![0usize],
        LoadBalancingStrategy::WorkStealing,
        F32_1_5,
        CachingDecision {
            cache_results: true,
            cache_intermediate: true,
            invalidation_strategy: CacheInvalidationStrategy::TimeBased,
            expected_hit_rate_bits: F32_0_4,
        },
        MemoryManagementDecision {
            allocation_strategy: MemoryAllocationStrategy::Adaptive,
            pool_size_bytes: (m * 3) as usize,
            spill_threshold_bytes: (m * 6) as usize,
            pressure_handling: MemoryPressureHandling::Adaptive,
        },
    )
}

/// The parallel plan of a query; `memory_cost_bits` as for the vector-first
/// plan.
pub fn generate_parallel_plan(stats: &QueryStatistics, memory_cost_bits: u32) -> (r: VexfsResult<
    HybridExecutionPlan,
>)
    requires
        stats.estimated_memory_usage * 6 <= usize::MAX,
        stats.estimated_execution_time_us * 2 <= u64::MAX,
    ensures
        r matches Ok(p) && p@ == parallel_view(*stats, memory_cost_bits),
{
    let t = stats.estimated_execution_time_us;
    let m = stats.estimated_memory_usage;
    let search = operation(
        "Vector Similarity Search",
        HybridOperationType::VectorSimilaritySearch,
        F32_100,
        OperationResourceRequirements { cpu_time_us: t / 3, memory_bytes: m / 2, io_operations: 10, network_operations: 0 },
    );
    let filter = operation(
        "Apply Metadata Filters",
        HybridOperationType::MetadataFilter,
        F32_75,
        OperationResourceRequirements { cpu_time_us: t / 3, memory_bytes: m / 2, io_operations: 15, network_operations: 0 },
    );
    let ghost (sv, fv) = (search@, filter@);
    let mut ops: Vec<HybridOperation> = Vec::new();
    ops.push(search);
    ops.push(filter);
    assert(ops@.map_values(|o: HybridOperation| o@) =~= seq![sv, fv]);
    let mut stages: Vec<HybridExecutionStage> = Vec::new();
    stages.push(stage("Parallel Vector and Metadata", HybridStageType::VectorSearch, ops, Vec::new(), t / 3, m, true));
    let merge = operation(
        "Merge Vector and Metadata Results",
        HybridOperationType::ResultIntersection,
        F32_50,
        OperationResourceRequirements { cpu_time_us: t / 4, memory_bytes: m / 4, io_operations: 5, network_operations: 0 },
    );
    stages.push(single_stage("Result Merging", HybridStageType::ResultMerging, merge, one_index(0), t / 4, m / 4, false));
    stages.push(ranking(stats, 1));
    let ghost stv = stages@.map_values(|s: HybridExecutionStage| s@);
    assert(stv =~= parallel_view(*stats, memory_cost_bits).stages);
    let p = plan(
        HybridExecutionStrategy::Parallel,
        stages,
        HybridCostEstimate {
            total_cost_bits: F32_250,
            vector_search_cost_bits: F32_100,
            metadata_filtering_cost_bits: F32_75,
            result_merging_cost_bits: F32_50,
            io_cost_bits: F32_31,
            memory_cost_bits,
            network_cost_bits: F32_ZERO,
            estimated_time_us: (t * 2) / 3,
            confidence_bits: F32_0_7,
        },
        ResourceRequirements {
            peak_memory_bytes: m,
            total_cpu_time_us: t,
            total_io_operations: 31,
            network_bandwidth_bps: 0,
            temp_storage_bytes: m / 4,
        },
        2,
        one_index(0),
        LoadBalancingStrategy::WorkStealing,
        F32_1_5,
        CachingDecision {
            cache_results: true,
            cache_intermediate: true,
            invalidation_strategy: CacheInvalidationStrategy::TimeBased,
            expected_hit_rate_bits: F32_0_4,
        },
        MemoryManagementDecision {
            allocation_strategy: MemoryAllocationStrategy::Adaptive,
            pool_size_bytes: m * 3,
            spill_threshold_bytes: m * 6,
            pressure_handling: MemoryPressureHandling::Adaptive,
        },
    );
    Ok(p)
}

/// The multi-stage plan: coarse filters, an approximate vector search when
/// the query has a vector, an exact refinement, and a final ranking that
/// waits for the stage at index 2.
pub open spec fn multi_stage_view(s: QueryStatistics, memory_cost_bits: u32) -> PlanView {
    let t = s.estimated_execution_time_us;
    let m = s.estimated_memory_usage;
    let coarse = stage_view(
        "Coarse Filtering"@,
        HybridStageType::MetadataFiltering,
        seq![op_view("Apply Coarse Filters"@, HybridOperationType::MetadataFilter, F32_50, needs(t / 4, m / 4, 20))],
        seq![],
        t / 4,
        m / 4,
        true,
    );
    let approximate = stage_view(
        "Approximate Vector Search"@,
        HybridStageType::VectorSearch,
        seq![op_view("Approximate Vector Search"@, HybridOperationType::VectorSimilaritySearch, F32_75, needs(t / 3, m / 2, 10))],
        seq![0usize],
        t / 3,
        m / 2,
        true,
    );
    let refine = stage_view(
        "Result Refinement"@,
        HybridStageType::VectorSearch,
        seq![op_view("Exact Vector Search"@, HybridOperationType::VectorSimilaritySearch, F32_100, needs(t / 3, m / 3, 5))],
        if s.has_vector_component { seq![1usize] } else { seq![0usize] },
        t / 3,
        m / 3,
        false,
    );
    let last = stage_view(
        "Final Ranking"@,
        HybridStageType::ResultRanking,
        seq![op_view("Final Rank and Sort"@, HybridOperationType::ResultRanking, F32_25, needs(t / 8, m / 8, 1))],
        seq![2usize],
        t / 8,
        m / 8,
        false,
    );
    plan_view(
        HybridExecutionStrategy::MultiStage,
        if s.has_vector_component { seq![coarse, approximate, refine, last] } else { seq![coarse, refine, last] },
        HybridCostEstimate {
            total_cost_bits: F32_250,
            vector_search_cost_bits: if s.has_vector_component { F32_175 } else { F32_100 },
            metadata_filtering_cost_bits: F32_50,
            result_merging_cost_bits: F32_25,
            io_cost_bits: F32_36,
            memory_cost_bits,
            network_cost_bits: F32_ZERO,
            estimated_time_us: t,
            confidence_bits: F32_0_9,
        },
        ResourceRequirements {
            peak_memory_bytes: m,
            total_cpu_time_us: t,
            total_io_operations: 36,
            network_bandwidth_bps: 0,
            temp_storage_bytes: m / 2,
        },
        1,
        seq![0usize, 1usize],
        LoadBalancingStrategy::StaticPartitioning,
        F32_1_2,
        CachingDecision {
            cache_results: true,
            cache_intermediate: true,
            invalidation_strategy: CacheInvalidationStrategy::ContentBased,
            expected_hit_rate_bits: F32_0_5,
        },
        MemoryManagementDecision {
            allocation_strategy: MemoryAllocationStrategy::PoolBased,
            pool_size_bytes: (m * 4) as usize,
            spill_threshold_bytes: (m * 8) as usize,
            pressure_handling: MemoryPressureHandling::SpillToDisk,
        },
    )
}

/// The multi-stage plan of a query; `memory_cost_bits` as for the
/// vector-first plan.
pub fn generate_multi_stage_plan(stats: &QueryStatistics, memory_cost_bits: u32) -> (r: VexfsResult<
    HybridExecutionPlan,
>)
    requires
        stats.estimated_memory_usage * 8 <= usize::MAX,
    ensures
        r matches Ok(p) && p@ == multi_stage_view(*stats, memory_cost_bits),
{
    let t = stats.estimated_execution_time_us;
    let m = stats.estimated_memory_usage;
    let mut stages: Vec<HybridExecutionStage> = Vec::new();
    let op = operation(
        "Apply Coarse Filters",
        HybridOperationType::MetadataFilter,
        F32_50,
        OperationResourceRequirements { cpu_time_us: t / 4, memory_bytes: m / 4, io_operations: 20, network_operations: 0 },
    );
    stages.push(single_stage("Coarse Filtering", HybridStageType::MetadataFiltering, op, Vec::new(), t / 4, m / 4, true));
    if stats.has_vector_component {
        let op = operation(
            "Approximate Vector Search",
            HybridOperationType::VectorSimilaritySearch,
            F32_75,
            OperationResourceRequirements { cpu_time_us: t / 3, memory_bytes: m / 2, io_operations: 10, network_operations: 0 },
        );
        stages.push(single_stage("Approximate Vector Search", HybridStageType::VectorSearch, op, one_index(0), t / 3, m / 2, true));
    }
    let op = operation(
        "Exact Vector Search",
        HybridOperationType::VectorSimilaritySearch,
        F32_100,
        OperationResourceRequirements { cpu_time_us: t / 3, memory_bytes: m / 3, io_operations: 5, network_operations: 0 },
    );
    let after = if stats.has_vector_component { 1 } else { 0 };
    stages.push(single_stage("Result Refinement", HybridStageType::VectorSearch, op, one_index(after), t / 3, m / 3, false));
    let op = operation(
        "Final Rank and Sort",
        HybridOperationType::ResultRanking,
        F32_25,
        OperationResourceRequirements { cpu_time_us: t / 8, memory_bytes: m / 8, io_operations: 1, network_operations: 0 },
    );
    stages.push(single_stage("Final Ranking", HybridStageType::ResultRanking, op, one_index(2), t / 8, m / 8, false));
    let ghost sv = stages@.map_values(|s: HybridExecutionStage| s@);
    assert(sv =~= multi_stage_view(*stats, memory_cost_bits).stages);
    let mut parallel_stages: Vec<usize> = Vec::new();
    parallel_stages.push(0);
    parallel_stages.push(1);
    assert(parallel_stages@ =~= seq![0usize, 1usize]);
    let p = plan(
        HybridExecutionStrategy::MultiStage,
        stages,
        HybridCostEstimate {
            total_cost_bits: F32_250,
            vector_search_cost_bits: if stats.has_vector_component { F32_175 } else { F32_100 },
            metadata_filtering_cost_bits: F32_50,
            result_merging_cost_bits: F32_25,
            io_cost_bits: F32_36,
            memory_cost_bits,
            network_cost_bits: F32_ZERO,
            estimated_time_us: t,
            confidence_bits: F32_0_9,
        },
        ResourceRequirements {
            peak_memory_bytes: m,
            total_cpu_time_us: t,
            total_io_operations: 36,
            network_bandwidth_bps: 0,
            temp_storage_bytes: m / 2,
        },
        1,
        parallel_stages,
        LoadBalancingStrategy::StaticPartitioning,
        F32_1_2,
        CachingDecision {
            cache_results: true,
            cache_intermediate: true,
            invalidation_strategy: CacheInvalidationStrategy::ContentBased,
            expected_hit_rate_bits: F32_0_5,
        },
        MemoryManagementDecision {
            allocation_strategy: MemoryAllocationStrategy::PoolBased,
            pool_size_bytes: m * 4,
            spill_threshold_bytes: m * 8,
            pressure_handling: MemoryPressureHandling::SpillToDisk,
        },
    );
    Ok(p)
}

/// Whether the metadata part is selective enough to run first: present,
/// with a selectivity below 0.2.
pub open spec fn metadata_selective(s: QueryStatistics) -> bool {
    s.has_metadata_component && f32_bits_below_positive(s.metadata_selectivity_bits, F32_0_2)
}

/// The plan the adaptive strategy picks: metadata first for a selective
/// metadata part, parallel when the query has both parts, else vector first.
pub open spec fn adaptive_view(s: QueryStatistics, memory_cost_bits: u32) -> PlanView {
    if metadata_selective(s) {
        metadata_first_view(s, memory_cost_bits)
    } else if s.has_vector_component && s.has_metadata_component {
        parallel_view(s, memory_cost_bits)
    } else {
        vector_first_view(s, memory_cost_bits)
    }
}

/// The bounds under which the plans of a query can be sized without
/// overflow.
pub open spec fn plan_sizes_fit(s: QueryStatistics) -> bool {
    &&& s.estimated_memory_usage * 4 <= usize::MAX
    &&& s.has_vector_component && s.has_metadata_component ==> s.estimated_memory_usage * 6 <= usize::MAX
        && s.estimated_execution_time_us * 2 <= u64::MAX
}

/// The plan the adaptive strategy picks for a query.
pub fn generate_adaptive_plan(stats: &QueryStatistics, memory_cost_bits: u32) -> (r: VexfsResult<
    HybridExecutionPlan,
>)
    requires
        plan_sizes_fit(*stats),
    ensures
        r matches Ok(p) && p@ == adaptive_view(*stats, memory_cost_bits),
{
    if stats.has_metadata_component && f32_below_positive(stats.metadata_selectivity_bits, F32_0_2) {
        generate_metadata_first_plan(stats, memory_cost_bits)
    } else if stats.has_vector_component && stats.has_metadata_component {
        generate_parallel_plan(stats, memory_cost_bits)
    } else {
        generate_vector_first_plan(stats, memory_cost_bits)
    }
}

/// Whether a query is complex enough for a multi-stage plan: more than two
/// metadata filters, or more than 1024 dimensions.
pub open spec fn is_complex(s: QueryStatistics) -> bool {
    s.metadata_filter_count > 2 || s.vector_dimensions > 1024
}

/// The candidate plans of a query, in order: vector first when it has a
/// vector, metadata first when it has metadata, parallel when it has both,
/// the adaptive pick always, and multi-stage when it is complex.
pub open spec fn candidate_views(s: QueryStatistics, memory_cost_bits: u32) -> Seq<PlanView> {
    let a = if s.has_vector_component { seq![vector_first_view(s, memory_cost_bits)] } else { seq![] };
    let b = if s.has_metadata_component { seq![metadata_first_view(s, memory_cost_bits)] } else { seq![] };
    let c = if s.has_vector_component && s.has_metadata_component {
        seq![parallel_view(s, memory_cost_bits)]
    } else {
        seq![]
    };
    let d = seq![adaptive_view(s, memory_cost_bits)];
    let e = if is_complex(s) { seq![multi_stage_view(s, memory_cost_bits)] } else { seq![] };
    a + b + c + d + e
}

/// The candidate plans of a query; `memory_cost_bits` as for the
/// vector-first plan.
pub fn generate_candidate_plans(stats: &QueryStatistics, memory_cost_bits: u32) -> (r: VexfsResult<
    Vec<HybridExecutionPlan>,
>)
    requires
        plan_sizes_fit(*stats),
        is_complex(*stats) ==> stats.estimated_memory_usage * 8 <= usize::MAX,
    ensures
        r matches Ok(plans) && plans@.map_values(|p: HybridExecutionPlan| p@) == candidate_views(*stats, memory_cost_bits),
{
    let ghost s = *stats;
    let ghost mc = memory_cost_bits;
    let mut plans: Vec<HybridExecutionPlan> = Vec::new();
    let ghost mut expect: Seq<PlanView> = seq![];
    if stats.has_vector_component {
        let p = generate_vector_first_plan(stats, memory_cost_bits);
        if let Ok(p) = p {
            plans.push(p);
        }
        proof { expect = expect.push(vector_first_view(s, mc)); }
    }
    if stats.has_metadata_component {
        let p = generate_metadata_first_plan(stats, memory_cost_bits);
        if let Ok(p) = p {
            plans.push(p);
        }
        proof { expect = expect.push(metadata_first_view(s, mc)); }
    }
    if stats.has_vector_component && stats.has_metadata_component {
        let p = generate_parallel_plan(stats, memory_cost_bits);
        if let Ok(p) = p {
            plans.push(p);
        }
        proof { expect = expect.push(parallel_view(s, mc)); }
    }
    let p = generate_adaptive_plan(stats, memory_cost_bits);
    if let Ok(p) = p {
        plans.push(p);
    }
    proof { expect = expect.push(adaptive_view(s, mc)); }
    if stats.metadata_filter_count > 2 || stats.vector_dimensions > 1024 {
        let p = generate_multi_stage_plan(stats, memory_cost_bits);
        if let Ok(p) = p {
            plans.push(p);
        }
        proof { expect = expect.push(multi_stage_view(s, mc)); }
    }
    assert(expect =~= candidate_views(s, mc));
    assert(plans@.map_values(|p: HybridExecutionPlan| p@) =~= expect);
    Ok(plans)
}

/// Whether every stage of a plan waits only for stages before it, so that
/// running the stages in order respects every dependency.
pub open spec fn dependencies_point_back(p: PlanView) -> bool {
    forall|i: int, j: int|
        0 <= i < p.stages.len() && 0 <= j < p.stages[i].dependencies.len() ==> #[trigger] p.stages[i].dependencies[j]
            < i
}

/// The stages of every plan wait only for earlier stages, but for the
/// multi-stage plan of a query without a vector, whose last stage waits
/// for itself.
pub proof fn lemma_dependencies_point_back(s: QueryStatistics, memory_cost_bits: u32)
    ensures
        dependencies_point_back(vector_first_view(s, memory_cost_bits)),
        dependencies_point_back(metadata_first_view(s, memory_cost_bits)),
        dependencies_point_back(parallel_view(s, memory_cost_bits)),
        dependencies_point_back(adaptive_view(s, memory_cost_bits)),
        s.has_vector_component ==> dependencies_point_back(multi_stage_view(s, memory_cost_bits)),
{
}

/// Whether a search result passes the size and creation-time ranges of the
/// metadata part of a query, each checked only when set.
pub open spec fn metadata_accepts(result: KnnResult, metadata_comp: MetadataQueryComponent) -> bool {
    &&& (metadata_comp.file_size_range matches Some((lo, hi)) ==> lo <= result.file_size <= hi)
    &&& (metadata_comp.timestamp_range matches Some((lo, hi)) ==> lo <= result.created_timestamp <= hi)
}

/// Whether a search result passes the metadata part of a query.
pub fn matches_metadata_filters(result: &KnnResult, metadata_comp: &MetadataQueryComponent) -> (r: VexfsResult<bool>)
    ensures
        r == Ok::<bool, VexfsError>(metadata_accepts(*result, *metadata_comp)),
{
    if let Some((min_size, max_size)) = metadata_comp.file_size_range {
        if result.file_size < min_size || result.file_size > max_size {
            return Ok(false);
        }
    }
    if let Some((min_time, max_time)) = metadata_comp.timestamp_range {
        if result.created_timestamp < min_time || result.created_timestamp > max_time {
            return Ok(false);
        }
    }
    Ok(true)
}

/// The search results that pass the metadata part of a query, in order.
pub fn apply_metadata_filters(vector_results: &[KnnResult], metadata_comp: &MetadataQueryComponent) -> (r: VexfsResult<
    Vec<KnnResult>,
>)
    ensures
        r matches Ok(v) && v@ == vector_results@.filter(|x: KnnResult| metadata_accepts(x, *metadata_comp)),
{
    let ghost pred = |x: KnnResult| metadata_accepts(x, *metadata_comp);
    let mut filtered_results: Vec<KnnResult> = Vec::new();
    let mut i: usize = 0;
    while i < vector_results.len()
        invariant
            i <= vector_results@.len(),
            pred == (|x: KnnResult| metadata_accepts(x, *metadata_comp)),
            filtered_results@ == vector_results@.subrange(0, i as int).filter(pred),
        decreases vector_results@.len() - i,
    {
        proof {
            reveal_with_fuel(Seq::<_>::filter, 1);
            assert(vector_results@.subrange(0, i + 1).drop_last() =~= vector_results@.subrange(0, i as int));
        }
        let keep = matches_metadata_filters(&vector_results[i], metadata_comp);
        if let Ok(true) = keep {
            filtered_results.push(vector_results[i]);
        }
        i += 1;
    }
    assert(vector_results@.subrange(0, vector_results@.len() as int) =~= vector_results@);
    Ok(filtered_results)
}

/// The stand-in result for an inode found by metadata alone: distance 0.5,
/// 128 single-precision dimensions, 1024 bytes, stamped at the start of
/// 2022 in microseconds.
pub open spec fn inode_result(inode: u64) -> KnnResult {
    KnnResult {
        vector_id: inode,
        file_inode: inode,
        distance_bits: F32_0_5,
        dimensions: 128,
        data_type: VectorDataType::Float32,
        file_size: 1024,
        created_timestamp: 1640995200_000_000,
        modified_timestamp: 1640995200_000_000,
    }
}

/// The stand-in results of inodes found by metadata alone, in order.
pub fn convert_inodes_to_knn_results(inodes: &[u64]) -> (r: VexfsResult<Vec<KnnResult>>)
    ensures
        r matches Ok(v) && v@ == inodes@.map_values(|i: u64| inode_result(i)),
{
    let mut results: Vec<KnnResult> = Vec::new();
    let mut i: usize = 0;
    while i < inodes.len()
        invariant
            i <= inodes@.len(),
            results@ == inodes@.subrange(0, i as int).map_values(|i: u64| inode_result(i)),
        decreases inodes@.len() - i,
    {
        let inode = inodes[i];
        results.push(KnnResult {
            vector_id: inode,
            file_inode: inode,
            distance_bits: F32_0_5,
            dimensions: 128,
            data_type: VectorDataType::Float32,
            file_size: 1024,
            created_timestamp: 1640995200_000_000,
            modified_timestamp: 1640995200_000_000,
        });
        assert(results@ =~= inodes@.subrange(0, i + 1).map_values(|i: u64| inode_result(i)));
        i += 1;
    }
    assert(inodes@.subrange(0, inodes@.len() as int) =~= inodes@);
    Ok(results)
}

/// Combine the two halves of a parallel search: with both, the vector
/// results whose inode the metadata found, in order; with one, that one
/// (the metadata inodes as stand-in results); with none, nothing.
pub fn merge_parallel_results(vector_results: Option<Vec<KnnResult>>, metadata_candidates: Option<Vec<u64>>) -> (r:
    VexfsResult<Vec<KnnResult>>)
    ensures
        r matches Ok(v) && v@ == match (vector_results, metadata_candidates) {
            (Some(vr), Some(mc)) => vr@.filter(|x: KnnResult| mc@.contains(x.file_inode)),
            (Some(vr), None) => vr@,
            (None, Some(mc)) => mc@.map_values(|i: u64| inode_result(i)),
            (None, None) => Seq::<KnnResult>::empty(),
        },
{
    match (vector_results, metadata_candidates) {
        (Some(vector_res), Some(metadata_cands)) => {
            let ghost pred = |x: KnnResult| metadata_cands@.contains(x.file_inode);
            let mut filtered: Vec<KnnResult> = Vec::new();
            let mut i: usize = 0;
            while i < vector_res.len()
                invariant
                    i <= vector_res@.len(),
                    pred == (|x: KnnResult| metadata_cands@.contains(x.file_inode)),
                    filtered@ == vector_res@.subrange(0, i as int).filter(pred),
                decreases vector_res@.len() - i,
            {
                proof {
                    reveal_with_fuel(Seq::<_>::filter, 1);
                    assert(vector_res@.subrange(0, i + 1).drop_last() =~= vector_res@.subrange(0, i as int));
                }
                let inode = vector_res[i].file_inode;
                let mut found = false;
                let mut j: usize = 0;
                while j < metadata_cands.len()
                    invariant
                        j <= metadata_cands@.len(),
                        found == exists|q: int| 0 <= q < j && metadata_cands@[q] == inode,
                    decreases metadata_cands@.len() - j,
                {
                    if metadata_cands[j] == inode {
                        found = true;
                    }
                    j += 1;
                }
                if found {
                    filtered.push(vector_res[i]);
                }
                i += 1;
            }
            assert(vector_res@.subrange(0, vector_res@.len() as int) =~= vector_res@);
            Ok(filtered)
        },
        (Some(vector_res), None) => Ok(vector_res),
        (None, Some(metadata_cands)) => convert_inodes_to_knn_results(metadata_cands.as_slice()),
        (None, None) => Ok(Vec::new()),
    }
}

/// The plan that comes first among the evaluated ones, which are kept by
/// ascending cost (the bit pattern of an `f32`); refused when there is none.
pub fn select_optimal_plan(evaluated_plans: Vec<(HybridExecutionPlan, u32)>) -> (r: VexfsResult<HybridExecutionPlan>)
    ensures
        evaluated_plans@.len() == 0 ==> (r matches Err(e) && e@ == ErrorView::InvalidOperation(
            "No execution plans generated"@,
        )),
        evaluated_plans@.len() > 0 ==> (r matches Ok(p) && p == evaluated_plans@[0].0),
{
    if evaluated_plans.len() == 0 {
        return Err(VexfsError::InvalidOperation(message("No execution plans generated")));
    }
    let mut plans = evaluated_plans;
    let (optimal_plan, _cost) = plans.remove(0);
    Ok(optimal_plan)
}

/// The strategy the adaptive strategy runs a query with: metadata first
/// when the metadata is very selective (below 0.1), vector first for
/// vectors of over 512 dimensions, parallel when the query has both parts,
/// else by the part it has.
pub open spec fn adaptive_choice(stats: QueryStatistics) -> HybridExecutionStrategy {
    if stats.has_metadata_component && f32_greater(F32_0_1, stats.metadata_selectivity_bits) {
        HybridExecutionStrategy::MetadataFirst
    } else if stats.has_vector_component && stats.vector_dimensions > 512 {
        HybridExecutionStrategy::VectorFirst
    } else if stats.has_vector_component && stats.has_metadata_component {
        HybridExecutionStrategy::Parallel
    } else if stats.has_vector_component {
        HybridExecutionStrategy::VectorFirst
    } else {
        HybridExecutionStrategy::MetadataFirst
    }
}

/// The strategy the adaptive strategy picks for a query with the given
/// statistics.
pub fn choose_adaptive_strategy(stats: &QueryStatistics) -> (r: HybridExecutionStrategy)
    ensures
        r == adaptive_choice(*stats),
{
    if stats.has_metadata_component && crate::knn_search::f32_gt(F32_0_1, stats.metadata_selectivity_bits) {
        HybridExecutionStrategy::MetadataFirst
    } else if stats.has_vector_component && stats.vector_dimensions > 512 {
        HybridExecutionStrategy::VectorFirst
    } else if stats.has_vector_component && stats.has_metadata_component {
        HybridExecutionStrategy::Parallel
    } else if stats.has_vector_component {
        HybridExecutionStrategy::VectorFirst
    } else {
        HybridExecutionStrategy::MetadataFirst
    }
}

} // verus!
