use lib::knn_search::{f32_gt, KnnError, KnnResult, MetadataFilter, QueryPruner, SearchParams, SearchStats};
use lib::shared::{IndexErrorKind, IoErrorKind, VectorErrorKind, VexfsError};
use lib::vector_metrics::{DistanceMetric, MetricsError};
use lib::vector_storage::VectorDataType;

#[test]
fn test_metadata_filter() {
    let mut filter = MetadataFilter::new();
    filter.min_file_size = Some(1000);
    filter.max_distance_bits = Some(0.5f32.to_bits());

    let result = KnnResult {
        vector_id: 1,
        file_inode: 100,
        distance_bits: 0.3f32.to_bits(),
        dimensions: 128,
        data_type: VectorDataType::Float32,
        file_size: 2000,
        created_timestamp: 1000000,
        modified_timestamp: 1000000,
    };

    assert!(filter.matches(&result));

    let result2 = KnnResult {
        vector_id: 2,
        file_inode: 101,
        distance_bits: 0.8f32.to_bits(), // Exceeds max_distance
        dimensions: 128,
        data_type: VectorDataType::Float32,
        file_size: 2000,
        created_timestamp: 1000000,
        modified_timestamp: 1000000,
    };

    assert!(!filter.matches(&result2));
}

#[test]
fn filter_conditions_each_apply() {
    let r = KnnResult {
        vector_id: 1,
        file_inode: 1,
        distance_bits: 1.0f32.to_bits(),
        dimensions: 64,
        data_type: VectorDataType::Int8,
        file_size: 10,
        created_timestamp: 50,
        modified_timestamp: 60,
    };
    assert!(MetadataFilter::new().matches(&r));
    let mut f = MetadataFilter::new();
    f.max_file_size = Some(9);
    assert!(!f.matches(&r));
    let mut f = MetadataFilter::new();
    f.min_created_timestamp = Some(51);
    assert!(!f.matches(&r));
    let mut f = MetadataFilter::new();
    f.max_modified_timestamp = Some(60);
    f.required_dimensions = Some(64);
    assert!(f.matches(&r));
    f.required_data_type = Some(VectorDataType::Float32);
    assert!(!f.matches(&r));
    let mut f = MetadataFilter::new();
    f.max_distance_bits = Some(1.0f32.to_bits());
    assert!(f.matches(&r));
    f.max_distance_bits = Some(f32::NAN.to_bits());
    assert!(f.matches(&r));
}

#[test]
fn float_pattern_greater_than() {
    let vals = [-f32::INFINITY, -2.5, -0.0, 0.0, 1e-30, 0.5, 3.0, f32::INFINITY, f32::NAN];
    for a in vals {
        for b in vals {
            assert_eq!(f32_gt(a.to_bits(), b.to_bits()), a > b, "{} {}", a, b);
        }
    }
}

#[test]
fn pruner_dimension_subset() {
    let p = QueryPruner::new(1.0f32.to_bits(), 4, 8);
    assert_eq!(p.dimension_subset(), &vec![0, 2, 4, 6]);
    assert_eq!(f32::from_bits(p.distance_threshold_bits()), 1.0);
    assert_eq!(QueryPruner::new(0, 3, 10).dimension_subset(), &vec![0, 3, 6]);
    assert_eq!(QueryPruner::new(0, 10, 4).dimension_subset(), &vec![0, 1, 2, 3]);
    assert_eq!(QueryPruner::new(0, 0, 5).dimension_subset(), &Vec::<usize>::new());
    assert_eq!(QueryPruner::new(0, 2, 0).dimension_subset(), &Vec::<usize>::new());
}

#[test]
fn search_params_default() {
    let p = SearchParams::default();
    assert_eq!(p.k, 10);
    assert_eq!(p.metric, DistanceMetric::Euclidean);
    assert_eq!(f32::from_bits(p.expansion_factor_bits), 2.0);
    assert!(p.approximate && p.use_simd && p.exact_distances);
    assert!(p.filter.is_none());
}

#[test]
fn knn_errors_as_filesystem_errors() {
    assert_eq!(KnnError::InvalidK.to_vexfs_error(), VexfsError::InvalidArgument("Invalid k value".to_string()));
    assert_eq!(KnnError::StorageError.to_vexfs_error(), VexfsError::IoError(IoErrorKind::ReadError));
    assert_eq!(
        KnnError::MetricsError(MetricsError::InvalidInput).to_vexfs_error(),
        VexfsError::VectorError(VectorErrorKind::SearchError)
    );
    assert_eq!(KnnError::IndexError.to_vexfs_error(), VexfsError::IndexError(IndexErrorKind::IndexCorrupted));
    assert_eq!(KnnError::AllocationError.to_vexfs_error(), VexfsError::OutOfMemory);
    assert_eq!(KnnError::from(MetricsError::DimensionMismatch), KnnError::MetricsError(MetricsError::DimensionMismatch));
    let s = SearchStats { total_vectors: 3, index_available: false, last_search_candidates: 3, last_search_results: 1 };
    assert_eq!(s.total_vectors, 3);
}
