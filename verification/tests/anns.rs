use lib::anns::hnsw::{HnswGraph, HnswLayer, HnswNode};
use lib::anns::{AnnsError, HnswParams};

#[test]
fn test_hnsw_node_creation() {
    let node = HnswNode::new(1, 0);
    assert_eq!(node.vector_id, 1);
    assert_eq!(node.layer, 0);
    assert_eq!(node.connection_count(), 0);
}

#[test]
fn test_hnsw_graph_creation() {
    let params = HnswParams::default();
    let graph = HnswGraph::new(128, params).unwrap();
    assert_eq!(graph.dimensions(), 128);
    assert_eq!(graph.node_count(), 0);
    assert!(graph.is_empty());
}

#[test]
fn test_add_node() {
    let params = HnswParams::default();
    let mut graph = HnswGraph::new(128, params).unwrap();

    let node = HnswNode::new(1, 0);
    graph.add_node(node).unwrap();

    assert_eq!(graph.node_count(), 1);
    assert!(!graph.is_empty());
    assert_eq!(graph.entry_point(), Some(1));
}

#[test]
fn graph_refuses_zero_dimensions() {
    assert_eq!(HnswGraph::new(0, HnswParams::default()).unwrap_err(), AnnsError::InvalidDimensions);
}

#[test]
fn connections_are_kept_once_and_removed() {
    let mut node = HnswNode::new(7, 2);
    node.add_connection(3);
    node.add_connection(3);
    node.add_connection(4);
    assert_eq!(node.connection_count(), 2);
    node.remove_connection(3);
    assert_eq!(node.connection_count(), 1);
}

#[test]
fn entry_point_follows_highest_layer() {
    let mut graph = HnswGraph::new(4, HnswParams::default()).unwrap();
    graph.add_node(HnswNode::new(1, 0)).unwrap();
    graph.add_node(HnswNode::new(2, 3)).unwrap();
    graph.add_node(HnswNode::new(3, 1)).unwrap();
    assert_eq!(graph.entry_point(), Some(2));
    assert_eq!(graph.max_layer(), 3);
    graph.remove_node(2).unwrap();
    assert_eq!(graph.node_count(), 2);
    assert!(graph.get_node(2).is_none());
    assert_eq!(graph.entry_point(), Some(3));
}

#[test]
fn layer_count_add_then_remove() {
    let mut layer = HnswLayer::new(1);
    layer.add_node();
    assert_eq!(layer.node_count, 1);
    layer.remove_node();
    layer.remove_node();
    assert_eq!(layer.node_count, 0);
}

use lib::anns::{AnnsConfig, AnnsIndex, DistanceMetric, IntegratedAnnsSystem, SearchResult};
use lib::vector_storage::VectorStorageError;

#[test]
fn config_presets() {
    let d = AnnsConfig::default();
    assert_eq!(d.dimensions, 128);
    assert_eq!(d.distance_metric, DistanceMetric::Euclidean);
    assert_eq!(d.hnsw_params.m, 16);
    assert_eq!(d.max_vectors, 1_000_000);
    let s = AnnsConfig::small_dataset(64);
    assert_eq!((s.dimensions, s.hnsw_params.m, s.hnsw_params.max_layers, s.max_vectors), (64, 8, 8, 10_000));
    let l = AnnsConfig::large_dataset(256);
    assert_eq!((l.hnsw_params.m, l.hnsw_params.ef_construction, l.max_vectors), (32, 400, 10_000_000));
    let c = AnnsConfig::memory_constrained(32);
    assert_eq!((c.hnsw_params.m, c.hnsw_params.ef_search, c.max_vectors), (4, 25, 1_000));
    assert_eq!(f64::from_bits(c.hnsw_params.ml_bits), 1.0 / 2.0_f64.ln());
}

#[test]
fn search_result_default_is_infinitely_far() {
    let r = SearchResult::default();
    assert_eq!(r.vector_id, 0);
    assert_eq!(f32::from_bits(r.distance_bits), f32::INFINITY);
}

#[test]
fn index_checks_dimensions() {
    assert_eq!(AnnsIndex::new(AnnsConfig::small_dataset(0)).err(), Some(AnnsError::InvalidDimensions));
    let mut idx = AnnsIndex::new(AnnsConfig::small_dataset(3)).unwrap();
    assert!(idx.is_initialized());
    let v: Vec<u32> = [1.0f32, 2.0, 3.0].iter().map(|x| x.to_bits()).collect();
    assert_eq!(idx.insert_vector(5, &v[..2]), Err(AnnsError::InvalidDimensions));
    assert_eq!(idx.insert_vector(5, &v), Ok(()));
    assert_eq!(idx.vector_count(), 1);
    assert_eq!(idx.search(&v, 10, None).unwrap().len(), 0);
    assert_eq!(idx.search(&v[..1], 10, Some(5)).err(), Some(AnnsError::InvalidDimensions));
}

#[test]
fn integrated_system_needs_initialization() {
    let mut sys = IntegratedAnnsSystem::new(AnnsConfig::small_dataset(2)).unwrap();
    assert_eq!(sys.vector_count(), 0);
    assert_eq!(sys.insert_vector(1, &[0, 0]), Err(AnnsError::IndexNotInitialized));
    assert_eq!(sys.search_vectors(&[0, 0], 1).err(), Some(AnnsError::IndexNotInitialized));
    sys.initialize().unwrap();
    assert_eq!(sys.insert_vector(1, &[0, 0]), Ok(()));
    assert_eq!(sys.vector_count(), 1);
    let mut bad = IntegratedAnnsSystem::new(AnnsConfig::small_dataset(0)).unwrap();
    assert_eq!(bad.initialize(), Err(AnnsError::InvalidDimensions));
}

#[test]
fn storage_errors_map_to_index_errors() {
    assert_eq!(AnnsError::from(VectorStorageError::DimensionMismatch { expected: 3, actual: 4 }), AnnsError::InvalidDimensions);
    assert_eq!(AnnsError::from(VectorStorageError::InvalidVectorId), AnnsError::VectorNotFound);
    assert_eq!(AnnsError::from(VectorStorageError::NoSpace), AnnsError::StorageFull);
    assert_eq!(AnnsError::from(VectorStorageError::CompressionError), AnnsError::SerializationError);
    assert_eq!(AnnsError::from(VectorStorageError::IoError), AnnsError::IOError);
    assert_eq!(AnnsError::from(VectorStorageError::AlignmentError), AnnsError::InvalidOperation);
}

use lib::anns::advanced_indexing::{IvfConfig, PqConfig};

#[test]
fn ivf_and_pq_defaults() {
    let i = IvfConfig::default();
    assert_eq!((i.num_clusters, i.num_probes, i.max_iterations), (256, 8, 100));
    assert_eq!(f32::from_bits(i.convergence_threshold_bits), 1e-4);
    let p = PqConfig::default();
    assert_eq!((p.num_subspaces, p.num_centroids_per_subspace, p.max_iterations), (8, 256, 50));
    assert!(p.asymmetric_distance);
}

use lib::anns::advanced_indexing::lsh_candidates;

#[test]
fn lsh_candidates_smallest_first() {
    let tables = vec![vec![9, 3, 7], vec![3, 1], vec![]];
    assert_eq!(lsh_candidates(&tables, 2), vec![1, 3]);
    assert_eq!(lsh_candidates(&tables, 10), vec![1, 3, 7, 9]);
    assert_eq!(lsh_candidates(&tables, 0), Vec::<u64>::new());
}

#[test]
fn lsh_candidates_stop_reading_a_table_past_the_limit() {
    // with k = 1 at most 1000 candidates are gathered from a table before it is cut
    let big: Vec<u64> = (1000..3000).collect();
    let tables = vec![big, vec![5]];
    assert_eq!(lsh_candidates(&tables, 1), vec![5]);
    let tables = vec![(100..2000).rev().collect::<Vec<u64>>()];
    // reading from the top, the 1001 largest ids are held when the table is cut
    assert_eq!(lsh_candidates(&tables, 1), vec![999]);
}
