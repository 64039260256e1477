//! Approximate nearest neighbour search: the errors and parameters of the
//! index, the HNSW graph and the bookkeeping of the other index kinds.

use vstd::prelude::*;
use crate::vector_storage::VectorStorageError;
use crate::anns::hnsw::{HnswGraph, HnswNode, NodeView};
pub use crate::vector_metrics::DistanceMetric;

pub mod hnsw;
pub mod advanced_indexing;

verus! {

/// Errors of index operations.
#[derive(Debug, Clone, Copy, PartialEq, Eq, Structural)]
pub enum AnnsError {
    InvalidDimensions,
    InvalidParameter,
    IndexNotInitialized,
    StorageFull,
    VectorNotFound,
    InvalidVectorData,
    SerializationError,
    MemoryAllocationFailed,
    InvalidOperation,
    IOError,
    OutOfMemory,
    InvalidMemoryBlock,
    WalCorrupted,
    WalFull,
}

/// Bit pattern of the IEEE 754 double 1 / ln 2, the default level factor.
pub const DEFAULT_ML_BITS: u64 = 0x3ff7_1547_652b_82fe;

/// HNSW parameters.
#[derive(Debug, Clone, Copy, PartialEq, Eq, Structural)]
pub struct HnswParams {
    /// Most connections per node and layer.
    pub m: u16,
    /// Candidate list size while building.
    pub ef_construction: u16,
    /// Candidate list size while searching.
    pub ef_search: u16,
    /// Most layers.
    pub max_layers: u8,
    /// Level generation factor, as the bit pattern of an IEEE 754 double.
    pub ml_bits: u64,
}

impl Default for HnswParams {
    /// 16 connections, 200 candidates while building, 50 while searching,
    /// 16 layers, level factor 1 / ln 2.
    fn default() -> (p: Self)
        ensures
            p == (HnswParams { m: 16, ef_construction: 200, ef_search: 50, max_layers: 16, ml_bits: DEFAULT_ML_BITS }),
    {
        HnswParams { m: 16, ef_construction: 200, ef_search: 50, max_layers: 16, ml_bits: DEFAULT_ML_BITS }
    }
}

/// The index error a store error stands for: dimension errors are
/// dimension errors, bad or oversized data is invalid vector data, an
/// unknown id is a missing vector, encoding errors are serialization
/// errors, a full store is full, I/O stays I/O, and the rest are invalid
/// operations.
pub open spec fn storage_error_kind(e: VectorStorageError) -> AnnsError {
    match e {
        VectorStorageError::InvalidDimensions(_) => AnnsError::InvalidDimensions,
        VectorStorageError::InvalidDimension(_) => AnnsError::InvalidDimensions,
        VectorStorageError::DimensionMismatch { .. } => AnnsError::InvalidDimensions,
        VectorStorageError::InvalidComponent(_) => AnnsError::InvalidVectorData,
        VectorStorageError::VectorTooLarge => AnnsError::InvalidVectorData,
        VectorStorageError::VectorNotFound => AnnsError::VectorNotFound,
        VectorStorageError::MetadataTooLarge => AnnsError::InvalidVectorData,
        VectorStorageError::SerializationError => AnnsError::SerializationError,
        VectorStorageError::DeserializationError => AnnsError::SerializationError,
        VectorStorageError::NormalizationError => AnnsError::InvalidVectorData,
        VectorStorageError::SearchError => AnnsError::InvalidOperation,
        VectorStorageError::IndexError => AnnsError::InvalidOperation,
        VectorStorageError::InvalidVectorId => AnnsError::VectorNotFound,
        VectorStorageError::CorruptedData => AnnsError::InvalidVectorData,
        VectorStorageError::NoSpace => AnnsError::StorageFull,
        VectorStorageError::IoError => AnnsError::IOError,
        VectorStorageError::InvalidVersion => AnnsError::InvalidOperation,
        VectorStorageError::ChecksumMismatch => AnnsError::InvalidVectorData,
        VectorStorageError::FileNotFound => AnnsError::InvalidOperation,
        VectorStorageError::CompressionError => AnnsError::SerializationError,
        VectorStorageError::MetadataError => AnnsError::InvalidVectorData,
        VectorStorageError::AlignmentError => AnnsError::InvalidOperation,
    }
}

impl From<VectorStorageError> for AnnsError {
    fn from(err: VectorStorageError) -> (r: Self) {
        match err {
            VectorStorageError::InvalidDimensions(_) => AnnsError::InvalidDimensions,
            VectorStorageError::InvalidDimension(_) => AnnsError::InvalidDimensions,
            VectorStorageError::DimensionMismatch { .. } => AnnsError::InvalidDimensions,
            VectorStorageError::InvalidComponent(_) => AnnsError::InvalidVectorData,
            VectorStorageError::VectorTooLarge => AnnsError::InvalidVectorData,
            VectorStorageError::VectorNotFound => AnnsError::VectorNotFound,
            VectorStorageError::MetadataTooLarge => AnnsError::InvalidVectorData,
            VectorStorageError::SerializationError => AnnsError::SerializationError,
            VectorStorageError::DeserializationError => AnnsError::SerializationError,
            VectorStorageError::NormalizationError => AnnsError::InvalidVectorData,
            VectorStorageError::SearchError => AnnsError::InvalidOperation,
            VectorStorageError::IndexError => AnnsError::InvalidOperation,
            VectorStorageError::InvalidVectorId => AnnsError::VectorNotFound,
            VectorStorageError::CorruptedData => AnnsError::InvalidVectorData,
            VectorStorageError::NoSpace => AnnsError::StorageFull,
            VectorStorageError::IoError => AnnsError::IOError,
            VectorStorageError::InvalidVersion => AnnsError::InvalidOperation,
            VectorStorageError::ChecksumMismatch => AnnsError::InvalidVectorData,
            VectorStorageError::FileNotFound => AnnsError::InvalidOperation,
            VectorStorageError::CompressionError => AnnsError::SerializationError,
            VectorStorageError::MetadataError => AnnsError::InvalidVectorData,
            VectorStorageError::AlignmentError => AnnsError::InvalidOperation,
        }
    }
}

impl vstd::std_specs::convert::FromSpecImpl<VectorStorageError> for AnnsError {
    open spec fn obeys_from_spec() -> bool {
        true
    }

    open spec fn from_spec(err: VectorStorageError) -> AnnsError {
        storage_error_kind(err)
    }
}

/// Bit pattern of the IEEE 754 single positive infinity.
pub const F32_INFINITY_BITS: u32 = 0x7f80_0000;

/// A vector found by a search, with its distance as the bit pattern of an
/// IEEE 754 single.
#[derive(Debug, Clone, Copy, PartialEq, Eq, Structural)]
pub struct SearchResult {
    pub vector_id: u64,
    pub distance_bits: u32,
}

impl Default for SearchResult {
    /// Vector 0 at an infinite distance.
    fn default() -> (r: Self)
        ensures
            r == (SearchResult { vector_id: 0, distance_bits: F32_INFINITY_BITS }),
    {
        SearchResult { vector_id: 0, distance_bits: F32_INFINITY_BITS }
    }
}

/// Settings of an index.
#[derive(Debug, Clone, Copy, PartialEq, Eq, Structural)]
pub struct AnnsConfig {
    pub dimensions: u32,
    pub distance_metric: DistanceMetric,
    pub hnsw_params: HnswParams,
    pub max_vectors: u64,
}

/// A Euclidean configuration with the given graph shape.
pub open spec fn euclidean_config(
    dimensions: u32,
    m: u16,
    ef_construction: u16,
    ef_search: u16,
    max_layers: u8,
    max_vectors: u64,
) -> AnnsConfig {
    AnnsConfig {
        dimensions,
        distance_metric: DistanceMetric::Euclidean,
        hnsw_params: HnswParams { m, ef_construction, ef_search, max_layers, ml_bits: DEFAULT_ML_BITS },
        max_vectors,
    }
}

impl Default for AnnsConfig {
    /// 128 Euclidean dimensions, the default graph, a million vectors.
    fn default() -> (r: Self)
        ensures
            r == euclidean_config(128, 16, 200, 50, 16, 1_000_000),
    {
        AnnsConfig {
            dimensions: 128,
            distance_metric: DistanceMetric::Euclidean,
            hnsw_params: HnswParams::default(),
            max_vectors: 1_000_000,
        }
    }
}

impl AnnsConfig {
    /// For up to ten thousand vectors: 8 connections, 8 layers.
    pub fn small_dataset(dimensions: u32) -> (r: Self)
        ensures
            r == euclidean_config(dimensions, 8, 100, 50, 8, 10_000),
    {
        AnnsConfig {
            dimensions,
            distance_metric: DistanceMetric::Euclidean,
            hnsw_params: HnswParams { m: 8, ef_construction: 100, ef_search: 50, max_layers: 8, ml_bits: DEFAULT_ML_BITS },
            max_vectors: 10_000,
        }
    }

    /// For up to ten million vectors: 32 connections, 16 layers.
    pub fn large_dataset(dimensions: u32) -> (r: Self)
        ensures
            r == euclidean_config(dimensions, 32, 400, 100, 16, 10_000_000),
    {
        AnnsConfig {
            dimensions,
            distance_metric: DistanceMetric::Euclidean,
            hnsw_params: HnswParams { m: 32, ef_construction: 400, ef_search: 100, max_layers: 16, ml_bits: DEFAULT_ML_BITS },
            max_vectors: 10_000_000,
        }
    }

    /// For little memory: 4 connections, 6 layers, a thousand vectors.
    pub fn memory_constrained(dimensions: u32) -> (r: Self)
        ensures
            r == euclidean_config(dimensions, 4, 50, 25, 6, 1_000),
    {
        AnnsConfig {
            dimensions,
            distance_metric: DistanceMetric::Euclidean,
            hnsw_params: HnswParams { m: 4, ef_construction: 50, ef_search: 25, max_layers: 6, ml_bits: DEFAULT_ML_BITS },
            max_vectors: 1_000,
        }
    }
}

/// An index over vectors; vector components are carried as the bit
/// patterns of IEEE 754 singles.
pub struct AnnsIndex {
    config: AnnsConfig,
    graph: HnswGraph,
    vector_count: u64,
    is_initialized: bool,
}

impl AnnsIndex {
    /// The settings.
    pub closed spec fn settings(&self) -> AnnsConfig {
        self.config
    }

    /// The nodes of the graph, in insertion order.
    pub closed spec fn nodes(&self) -> Seq<NodeView> {
        self.graph.nodes_view()
    }

    /// The number of vectors inserted.
    pub closed spec fn count(&self) -> u64 {
        self.vector_count
    }

    /// Whether the index is ready.
    pub closed spec fn ready(&self) -> bool {
        self.is_initialized
    }

    /// A ready, empty index; zero dimensions are refused.
    pub fn new(config: AnnsConfig) -> (r: Result<Self, AnnsError>)
        ensures
            config.dimensions == 0 ==> r == Err::<Self, AnnsError>(AnnsError::InvalidDimensions),
            config.dimensions != 0 ==> (r matches Ok(idx) && idx.settings() == config && idx.nodes()
                == Seq::<NodeView>::empty() && idx.count() == 0 && idx.ready()),
    {
        let graph = match HnswGraph::new(config.dimensions, config.hnsw_params) {
            Ok(g) => g,
            Err(e) => {
                return Err(e);
            },
        };
        Ok(AnnsIndex { config, graph, vector_count: 0, is_initialized: true })
    }

    /// Insert a vector of the index's dimension as a node on the bottom layer.
    pub fn insert_vector(&mut self, vector_id: u64, vector_data: &[u32]) -> (r: Result<(), AnnsError>)
        requires
            old(self).count() < u64::MAX,
        ensures
            !old(self).ready() ==> r == Err::<(), AnnsError>(AnnsError::IndexNotInitialized) && *final(self)
                == *old(self),
            old(self).ready() && vector_data@.len() != old(self).settings().dimensions ==> r == Err::<
                (),
                AnnsError,
            >(AnnsError::InvalidDimensions) && *final(self) == *old(self),
            old(self).ready() && vector_data@.len() == old(self).settings().dimensions ==> r is Ok
                && final(self).nodes() == old(self).nodes().push(
                NodeView { vector_id, layer: 0, connections: Seq::empty() },
            ) && final(self).count() == old(self).count() + 1,
            final(self).settings() == old(self).settings(),
            final(self).ready() == old(self).ready(),
    {
        if !self.is_initialized {
            return Err(AnnsError::IndexNotInitialized);
        }
        if vector_data.len() != self.config.dimensions as usize {
            return Err(AnnsError::InvalidDimensions);
        }
        let node = HnswNode::new(vector_id, 0);
        match self.graph.add_node(node) {
            Ok(()) => {},
            Err(e) => {
                return Err(e);
            },
        }
        self.vector_count = self.vector_count + 1;
        Ok(())
    }

    /// Search for the nearest neighbours of a query of the index's
    /// dimension; the graph is not yet traversed, so nothing is found.
    pub fn search(&self, query: &[u32], k: usize, ef: Option<u16>) -> (r: Result<Vec<SearchResult>, AnnsError>)
        ensures
            !self.ready() ==> r == Err::<Vec<SearchResult>, AnnsError>(AnnsError::IndexNotInitialized),
            self.ready() && query@.len() != self.settings().dimensions ==> r == Err::<
                Vec<SearchResult>,
                AnnsError,
            >(AnnsError::InvalidDimensions),
            self.ready() && query@.len() == self.settings().dimensions ==> (r matches Ok(v) && v@.len() == 0),
    {
        if !self.is_initialized {
            return Err(AnnsError::IndexNotInitialized);
        }
        if query.len() != self.config.dimensions as usize {
            return Err(AnnsError::InvalidDimensions);
        }
        let _ef_search = match ef {
            Some(e) => e,
            None => self.config.hnsw_params.ef_search,
        };
        let results: Vec<SearchResult> = Vec::new();
        Ok(results)
    }

    /// The number of vectors inserted.
    pub fn vector_count(&self) -> (r: u64)
        ensures
            r == self.count(),
    {
        self.vector_count
    }

    /// Whether the index is ready.
    pub fn is_initialized(&self) -> (r: bool)
        ensures
            r == self.ready(),
    {
        self.is_initialized
    }
}

/// An index that comes into being when the system is initialized.
pub struct IntegratedAnnsSystem {
    config: AnnsConfig,
    index: Option<AnnsIndex>,
}

impl IntegratedAnnsSystem {
    /// The settings.
    pub closed spec fn settings(&self) -> AnnsConfig {
        self.config
    }

    /// The index, once initialized.
    pub closed spec fn current_index(&self) -> Option<AnnsIndex> {
        self.index
    }

    /// A system without an index yet.
    pub fn new(config: AnnsConfig) -> (r: Result<Self, AnnsError>)
        ensures
            r matches Ok(s) && s.settings() == config && s.current_index() is None,
    {
        Ok(IntegratedAnnsSystem { config, index: None })
    }

    /// Build the index from the settings.
    pub fn initialize(&mut self) -> (r: Result<(), AnnsError>)
        ensures
            final(self).settings() == old(self).settings(),
            old(self).settings().dimensions == 0 ==> r == Err::<(), AnnsError>(AnnsError::InvalidDimensions)
                && final(self).current_index() == old(self).current_index(),
            old(self).settings().dimensions != 0 ==> r is Ok && (final(self).current_index() matches Some(idx)
                && idx.settings() == old(self).settings() && idx.nodes() == Seq::<NodeView>::empty()
                && idx.count() == 0 && idx.ready()),
    {
        let index = match AnnsIndex::new(self.config) {
            Ok(i) => i,
            Err(e) => {
                return Err(e);
            },
        };
        self.index = Some(index);
        Ok(())
    }

    /// Insert a vector into the index.
    pub fn insert_vector(&mut self, vector_id: u64, vector_data: &[u32]) -> (r: Result<(), AnnsError>)
        requires
            old(self).current_index() matches Some(idx) ==> idx.count() < u64::MAX,
        ensures
            final(self).settings() == old(self).settings(),
            old(self).current_index() is None ==> r == Err::<(), AnnsError>(AnnsError::IndexNotInitialized)
                && final(self).current_index() is None,
            old(self).current_index() matches Some(idx) ==> (final(self).current_index() matches Some(n) && ({
                &&& !idx.ready() ==> r == Err::<(), AnnsError>(AnnsError::IndexNotInitialized) && n == idx
                &&& idx.ready() && vector_data@.len() != idx.settings().dimensions ==> r == Err::<(), AnnsError>(
                    AnnsError::InvalidDimensions,
                ) && n == idx
                &&& idx.ready() && vector_data@.len() == idx.settings().dimensions ==> r is Ok && n.nodes()
                    == idx.nodes().push(NodeView { vector_id, layer: 0, connections: Seq::empty() })
                    && n.count() == idx.count() + 1 && n.settings() == idx.settings() && n.ready()
            })),
    {
        match &mut self.index {
            Some(index) => index.insert_vector(vector_id, vector_data),
            None => Err(AnnsError::IndexNotInitialized),
        }
    }

    /// Search the index.
    pub fn search_vectors(&self, query: &[u32], k: usize) -> (r: Result<Vec<SearchResult>, AnnsError>)
        ensures
            self.current_index() is None ==> r == Err::<Vec<SearchResult>, AnnsError>(
                AnnsError::IndexNotInitialized,
            ),
            self.current_index() matches Some(idx) ==> ({
                &&& !idx.ready() ==> r == Err::<Vec<SearchResult>, AnnsError>(AnnsError::IndexNotInitialized)
                &&& idx.ready() && query@.len() != idx.settings().dimensions ==> r == Err::<
                    Vec<SearchResult>,
                    AnnsError,
                >(AnnsError::InvalidDimensions)
                &&& idx.ready() && query@.len() == idx.settings().dimensions ==> (r matches Ok(v) && v@.len() == 0)
            }),
    {
        match &self.index {
            Some(index) => index.search(query, k, None),
            None => Err(AnnsError::IndexNotInitialized),
        }
    }

    /// The number of vectors in the index, zero before initialization.
    pub fn vector_count(&self) -> (r: u64)
        ensures
            r == match self.current_index() {
                Some(idx) => idx.count(),
                None => 0,
            },
    {
        match &self.index {
            Some(index) => index.vector_count(),
            None => 0,
        }
    }
}

} // verus!
