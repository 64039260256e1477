use lib::hybrid_query_optimizer::{
    apply_metadata_filters, convert_inodes_to_knn_results, matches_metadata_filters, merge_parallel_results,
    choose_adaptive_strategy, select_optimal_plan,
    count_metadata_filters, estimate_execution_time, f32_below_positive, generate_adaptive_plan,
    generate_candidate_plans, generate_metadata_first_plan, generate_multi_stage_plan, generate_parallel_plan,
    generate_vector_first_plan, HybridExecutionStrategy, HybridOperationType, HybridOptimizerConfig,
    HybridStageType, LoadBalancingStrategy, MemoryAllocationStrategy, MetadataQueryComponent, QueryStatistics,
    F32_0_2,
};
use lib::shared::VexfsError;

fn stats(vector: bool, metadata: bool) -> QueryStatistics {
    QueryStatistics {
        vector_dimensions: 128,
        has_vector_component: vector,
        has_metadata_component: metadata,
        metadata_filter_count: 1,
        metadata_selectivity_bits: 0.5f32.to_bits(),
        estimated_result_count: 10,
        estimated_memory_usage: 8000,
        estimated_execution_time_us: 2400,
        ..QueryStatistics::default()
    }
}

#[test]
fn optimizer_config_defaults() {
    let c = HybridOptimizerConfig::default();
    assert!(c.enable_cost_optimization && c.enable_filter_pushdown);
    assert_eq!(c.max_optimization_time_us, 10_000);
    assert_eq!(c.optimization_memory_budget, 64 * 1024 * 1024);
    assert_eq!(c.stats_collection_interval_us, 60_000_000);
}

#[test]
fn vector_first_plan_stages() {
    let s = stats(true, true);
    let p = generate_vector_first_plan(&s, 8.0f32.to_bits()).unwrap();
    assert_eq!(p.strategy, HybridExecutionStrategy::VectorFirst);
    assert_eq!(p.stages.len(), 3);
    assert_eq!(p.stages[0].name, "Vector Search");
    assert_eq!(p.stages[0].estimated_time_us, 1200);
    assert_eq!(p.stages[1].stage_type, HybridStageType::MetadataFiltering);
    assert_eq!(p.stages[1].dependencies, vec![0]);
    assert_eq!(p.stages[2].dependencies, vec![1]);
    assert_eq!(p.stages[2].estimated_memory_bytes, 1000);
    assert_eq!(f32::from_bits(p.cost_estimates.total_cost_bits), 175.0);
    assert_eq!(f32::from_bits(p.cost_estimates.metadata_filtering_cost_bits), 50.0);
    assert_eq!(f32::from_bits(p.cost_estimates.memory_cost_bits), 8.0);
    assert_eq!(p.optimization_decisions.memory_management.pool_size_bytes, 16000);
    assert_eq!(p.optimization_decisions.memory_management.spill_threshold_bytes, 32000);

    let p = generate_vector_first_plan(&stats(true, false), 0).unwrap();
    assert_eq!(p.stages.len(), 2);
    assert_eq!(p.stages[1].dependencies, vec![0]);
    assert_eq!(f32::from_bits(p.cost_estimates.metadata_filtering_cost_bits), 0.0);
}

#[test]
fn metadata_first_and_parallel_plans() {
    let p = generate_metadata_first_plan(&stats(false, true), 0).unwrap();
    assert_eq!(p.stages.len(), 2);
    assert_eq!(p.stages[0].estimated_time_us, 800);
    assert_eq!(f32::from_bits(p.cost_estimates.vector_search_cost_bits), 0.0);
    let p = generate_parallel_plan(&stats(true, true), 0).unwrap();
    assert_eq!(p.stages.len(), 3);
    assert_eq!(p.stages[0].operations.len(), 2);
    assert_eq!(p.stages[0].operations[1].operation_type, HybridOperationType::MetadataFilter);
    assert_eq!(p.stages[1].stage_type, HybridStageType::ResultMerging);
    assert_eq!(p.cost_estimates.estimated_time_us, 1600);
    assert_eq!(p.optimization_decisions.parallelization.thread_count, 2);
    assert_eq!(p.optimization_decisions.parallelization.load_balancing, LoadBalancingStrategy::WorkStealing);
    assert_eq!(p.optimization_decisions.memory_management.allocation_strategy, MemoryAllocationStrategy::Adaptive);
}

#[test]
fn multi_stage_plan_without_vector() {
    let p = generate_multi_stage_plan(&stats(false, true), 0).unwrap();
    assert_eq!(p.stages.len(), 3);
    assert_eq!(p.stages[1].name, "Result Refinement");
    assert_eq!(p.stages[1].dependencies, vec![0]);
    assert_eq!(p.stages[2].dependencies, vec![2]);
    assert_eq!(f32::from_bits(p.cost_estimates.vector_search_cost_bits), 100.0);
    assert_eq!(p.optimization_decisions.parallelization.parallel_stages, vec![0, 1]);
}

#[test]
fn adaptive_picks_by_selectivity() {
    let mut s = stats(true, true);
    s.metadata_selectivity_bits = 0.1f32.to_bits();
    assert_eq!(generate_adaptive_plan(&s, 0).unwrap().strategy, HybridExecutionStrategy::MetadataFirst);
    s.metadata_selectivity_bits = 0.2f32.to_bits();
    assert_eq!(generate_adaptive_plan(&s, 0).unwrap().strategy, HybridExecutionStrategy::Parallel);
    s.metadata_selectivity_bits = f32::NAN.to_bits();
    assert_eq!(generate_adaptive_plan(&s, 0).unwrap().strategy, HybridExecutionStrategy::Parallel);
    let s = stats(true, false);
    assert_eq!(generate_adaptive_plan(&s, 0).unwrap().strategy, HybridExecutionStrategy::VectorFirst);
}

#[test]
fn candidate_plans_in_order() {
    let mut s = stats(true, true);
    s.vector_dimensions = 2048;
    let plans = generate_candidate_plans(&s, 0).unwrap();
    let kinds: Vec<_> = plans.iter().map(|p| p.strategy).collect();
    assert_eq!(
        kinds,
        vec![
            HybridExecutionStrategy::VectorFirst,
            HybridExecutionStrategy::MetadataFirst,
            HybridExecutionStrategy::Parallel,
            HybridExecutionStrategy::Parallel,
            HybridExecutionStrategy::MultiStage,
        ]
    );
    let plans = generate_candidate_plans(&QueryStatistics::default(), 0).unwrap();
    assert_eq!(plans.len(), 1);
}

#[test]
fn float_pattern_comparison() {
    for v in [-1.0f32, -0.0, 0.0, 0.1, 0.19999, 0.2, 0.3, f32::INFINITY, f32::NEG_INFINITY, f32::NAN] {
        assert_eq!(f32_below_positive(v.to_bits(), F32_0_2), v < 0.2, "{}", v);
    }
}

#[test]
fn execution_time_and_filters() {
    let s = stats(true, true);
    assert_eq!(estimate_execution_time(&s), 1000 + 12 + 100);
    let m = MetadataQueryComponent {
        file_size_range: Some((1, 2)),
        timestamp_range: None,
        file_types: vec!["txt".to_string()],
        path_patterns: vec![],
        content_types: vec!["text".to_string()],
        weight_bits: 0,
        estimated_selectivity_bits: 0,
    };
    assert_eq!(count_metadata_filters(&m), 3);
}

use lib::hybrid_query_optimizer::{
    validate_hybrid_query, CacheHints, CacheInvalidationStrategy, HybridQuery, MemoryHints, MemoryPressureHandling,
    OptimizationHints, ParallelizationHints, QueryPriority, QueryValidationError, RankingStrategy,
    ResourceAllocationStrategy, ResourceConstraints, ResultRequirements, VectorQueryComponent,
};
use lib::vector_metrics::DistanceMetric;

fn query(vector: Option<Vec<f32>>, weight: f32) -> HybridQuery {
    HybridQuery {
        vector_component: vector.map(|v| VectorQueryComponent {
            vector: v.iter().map(|x| x.to_bits()).collect(),
            metric: DistanceMetric::Cosine,
            similarity_threshold_bits: None,
            weight_bits: weight.to_bits(),
            approximate: true,
            use_simd: false,
        }),
        metadata_component: None,
        spatial_temporal_component: None,
        result_requirements: ResultRequirements {
            max_results: 10,
            min_relevance_score_bits: 0.5f32.to_bits(),
            diversity_requirements: None,
            ranking_strategy: RankingStrategy::Relevance,
            include_explanations: false,
        },
        optimization_hints: OptimizationHints {
            preferred_strategy: None,
            index_preferences: vec![],
            cache_hints: CacheHints {
                prefer_cache: false,
                cache_results: true,
                invalidation_strategy: CacheInvalidationStrategy::TimeBased,
            },
            parallelization_hints: ParallelizationHints {
                max_threads: 2,
                parallel_threshold: 100,
                load_balancing: LoadBalancingStrategy::RoundRobin,
            },
            memory_hints: MemoryHints {
                max_memory_bytes: 1 << 20,
                allocation_strategy: MemoryAllocationStrategy::Conservative,
                pressure_handling: MemoryPressureHandling::Degrade,
            },
        },
        resource_constraints: ResourceConstraints {
            max_execution_time_us: 1000,
            max_memory_bytes: 1 << 20,
            max_io_operations: 10,
            priority: QueryPriority::Normal,
            allocation_strategy: ResourceAllocationStrategy::Fair,
        },
    }
}

#[test]
fn query_validation_in_order() {
    assert_eq!(validate_hybrid_query(&query(None, 0.5)), Err(QueryValidationError::NoComponent));
    assert_eq!(validate_hybrid_query(&query(Some(vec![]), 0.5)), Err(QueryValidationError::EmptyVector));
    assert_eq!(validate_hybrid_query(&query(Some(vec![1.0]), 1.5)), Err(QueryValidationError::VectorWeightOutOfRange));
    assert_eq!(validate_hybrid_query(&query(Some(vec![1.0]), -0.1)), Err(QueryValidationError::VectorWeightOutOfRange));
    // a NaN weight does not lie in [0, 1]
    assert_eq!(validate_hybrid_query(&query(Some(vec![1.0]), f32::NAN)), Err(QueryValidationError::VectorWeightOutOfRange));
    assert_eq!(validate_hybrid_query(&query(Some(vec![1.0]), 1.0)), Ok(()));
    assert_eq!(validate_hybrid_query(&query(Some(vec![1.0]), -0.0)), Ok(()));
    assert_eq!(
        validate_hybrid_query(&query(Some(vec![1.0, f32::INFINITY, f32::NAN]), 1.0)),
        Err(QueryValidationError::InvalidVectorValue { index: 1, value_bits: f32::INFINITY.to_bits() })
    );
    assert_eq!(validate_hybrid_query(&query(Some(vec![1.0, 2.0]), 0.0)), Ok(()));
    let mut q = query(Some(vec![1.0]), 0.5);
    q.result_requirements.max_results = 0;
    assert_eq!(validate_hybrid_query(&q), Err(QueryValidationError::ZeroMaxResults));
    let mut q = query(Some(vec![1.0]), 0.5);
    q.resource_constraints.max_memory_bytes = 0;
    assert_eq!(validate_hybrid_query(&q), Err(QueryValidationError::ZeroMemory));
    let mut q = query(Some(vec![1.0]), 0.5);
    q.result_requirements.min_relevance_score_bits = 2.0f32.to_bits();
    assert_eq!(validate_hybrid_query(&q), Err(QueryValidationError::RelevanceOutOfRange));
    let mut q = query(None, 0.5);
    q.metadata_component = Some(MetadataQueryComponent {
        file_size_range: None,
        timestamp_range: None,
        file_types: vec![],
        path_patterns: vec![],
        content_types: vec![],
        weight_bits: 0.5f32.to_bits(),
        estimated_selectivity_bits: 1.1f32.to_bits(),
    });
    assert_eq!(validate_hybrid_query(&q), Err(QueryValidationError::SelectivityOutOfRange));
    if let Some(m) = q.metadata_component.as_mut() {
        m.estimated_selectivity_bits = f32::NAN.to_bits();
    }
    assert_eq!(validate_hybrid_query(&q), Err(QueryValidationError::SelectivityOutOfRange));
    if let Some(m) = q.metadata_component.as_mut() {
        m.estimated_selectivity_bits = 0.3f32.to_bits();
        m.weight_bits = f32::NAN.to_bits();
    }
    assert_eq!(validate_hybrid_query(&q), Err(QueryValidationError::MetadataWeightOutOfRange));
    let mut q = query(Some(vec![1.0]), 0.5);
    q.result_requirements.min_relevance_score_bits = f32::NAN.to_bits();
    assert_eq!(validate_hybrid_query(&q), Err(QueryValidationError::RelevanceOutOfRange));
}

use lib::hybrid_query_optimizer::{collect_query_statistics, estimate_memory_usage};
use lib::result_scoring::ScoredResult;

#[test]
fn statistics_of_a_query() {
    let q = query(Some(vec![1.0, 0.0, 2.0, 0.0]), 0.5);
    let s = collect_query_statistics(&q, 0.5f32.to_bits(), 5.0f32.sqrt().to_bits()).unwrap();
    assert_eq!(s.vector_dimensions, 4);
    assert!(s.has_vector_component && !s.has_metadata_component);
    assert_eq!(f32::from_bits(s.vector_sparsity_bits), 0.5);
    assert_eq!(s.estimated_result_count, 10);
    let scored = std::mem::size_of::<ScoredResult>();
    assert_eq!(s.estimated_memory_usage, 4 * 4 + 10 * 4 * 4 + 10 * scored);
    assert_eq!(s.estimated_execution_time_us, 1000 + 40 / 100);
    assert_eq!(estimate_memory_usage(&s), s.estimated_memory_usage);
}

#[test]
fn query_validation_remaining_errors() {
    let mut q = query(Some(vec![1.0]), 0.5);
    q.resource_constraints.max_execution_time_us = 0;
    assert_eq!(validate_hybrid_query(&q), Err(QueryValidationError::ZeroExecutionTime));
    let mut q = query(None, 0.5);
    q.metadata_component = Some(MetadataQueryComponent {
        file_size_range: None,
        timestamp_range: None,
        file_types: vec![],
        path_patterns: vec![],
        content_types: vec![],
        weight_bits: (-1.0f32).to_bits(),
        estimated_selectivity_bits: 0.5f32.to_bits(),
    });
    assert_eq!(validate_hybrid_query(&q), Err(QueryValidationError::MetadataWeightOutOfRange));
}

fn knn(inode: u64, size: u64, created: u64) -> lib::knn_search::KnnResult {
    lib::knn_search::KnnResult {
        vector_id: inode,
        file_inode: inode,
        distance_bits: 0.25f32.to_bits(),
        dimensions: 4,
        data_type: lib::vector_storage::VectorDataType::Float32,
        file_size: size,
        created_timestamp: created,
        modified_timestamp: created,
    }
}

#[test]
fn metadata_filters_keep_results_in_range() {
    let m = MetadataQueryComponent {
        file_size_range: Some((100, 200)),
        timestamp_range: Some((10, 20)),
        file_types: vec![],
        path_patterns: vec![],
        content_types: vec![],
        weight_bits: 0,
        estimated_selectivity_bits: 0,
    };
    assert_eq!(matches_metadata_filters(&knn(1, 150, 15), &m), Ok(true));
    assert_eq!(matches_metadata_filters(&knn(2, 250, 15), &m), Ok(false));
    assert_eq!(matches_metadata_filters(&knn(3, 150, 25), &m), Ok(false));
    let kept = apply_metadata_filters(&[knn(1, 150, 15), knn(2, 99, 15), knn(3, 200, 10)], &m).unwrap();
    assert_eq!(kept.iter().map(|r| r.file_inode).collect::<Vec<u64>>(), vec![1, 3]);
}

#[test]
fn parallel_results_are_intersected() {
    let merged = merge_parallel_results(Some(vec![knn(5, 1, 1), knn(6, 1, 1), knn(7, 1, 1)]), Some(vec![7, 5])).unwrap();
    assert_eq!(merged.iter().map(|r| r.file_inode).collect::<Vec<u64>>(), vec![5, 7]);
    let only_metadata = merge_parallel_results(None, Some(vec![9])).unwrap();
    assert_eq!(only_metadata.len(), 1);
    assert_eq!(f32::from_bits(only_metadata[0].distance_bits), 0.5);
    assert_eq!(only_metadata[0].file_size, 1024);
    assert!(merge_parallel_results(None, None).unwrap().is_empty());
    assert_eq!(convert_inodes_to_knn_results(&[3, 4]).unwrap()[1].vector_id, 4);
}

#[test]
fn optimal_plan_is_the_first() {
    assert_eq!(
        select_optimal_plan(vec![]).err(),
        Some(VexfsError::InvalidOperation("No execution plans generated".to_string()))
    );
    let s = stats(true, true);
    let a = generate_metadata_first_plan(&s, 0).unwrap();
    let b = generate_vector_first_plan(&s, 0).unwrap();
    let chosen = select_optimal_plan(vec![(a, 1.0f32.to_bits()), (b, 2.0f32.to_bits())]).unwrap();
    assert_eq!(chosen.strategy, HybridExecutionStrategy::MetadataFirst);
}

#[test]
fn adaptive_strategy_follows_the_query() {
    let mut s = stats(true, true);
    s.metadata_selectivity_bits = 0.05f32.to_bits();
    assert_eq!(choose_adaptive_strategy(&s), HybridExecutionStrategy::MetadataFirst);
    s.metadata_selectivity_bits = 0.5f32.to_bits();
    assert_eq!(choose_adaptive_strategy(&s), HybridExecutionStrategy::Parallel);
    s.vector_dimensions = 1024;
    assert_eq!(choose_adaptive_strategy(&s), HybridExecutionStrategy::VectorFirst);
    assert_eq!(choose_adaptive_strategy(&stats(false, true)), HybridExecutionStrategy::MetadataFirst);
    assert_eq!(choose_adaptive_strategy(&stats(true, false)), HybridExecutionStrategy::VectorFirst);
}
