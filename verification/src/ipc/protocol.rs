//! The messages exchanged with embedding services and the descriptions of
//! the services themselves.

use vstd::prelude::*;
pub use crate::vector_storage::VectorDataType;

verus! {

/// Largest embedding dimension a request may ask for.
pub const MAX_EMBEDDING_DIMENSIONS: u32 = 4096;

/// Most requests in one batch.
pub const MAX_BATCH_SIZE: usize = 100;

/// Longest service id or name, in bytes.
pub const MAX_SERVICE_NAME_LEN: usize = 64;

/// Outcome reported by a service.
#[derive(Debug, Clone, Copy, PartialEq, Eq, Structural)]
pub enum ResponseStatus {
    Success,
    Error,
    Timeout,
    Overloaded,
    InvalidRequest,
    ModelNotFound,
    InternalError,
}

/// A request for an embedding.
#[derive(Debug, Clone)]
pub struct EmbeddingRequest {
    pub request_id: u64,
    pub dimensions: u32,
    /// Raw vector data.
    pub data: Vec<u8>,
    pub data_type: VectorDataType,
    pub model: Option<String>,
    /// Extra parameters, as name and value.
    pub parameters: Vec<(String, String)>,
    pub priority: u8,
    pub timeout_ms: u64,
}

/// A service's answer to a request.
#[derive(Debug)]
pub struct EmbeddingResponse {
    pub request_id: u64,
    pub status: ResponseStatus,
    /// The embedding, each value as the bit pattern of an IEEE 754 single.
    pub embedding: Option<Vec<u32>>,
    pub error: Option<String>,
    pub processing_time_us: u64,
    pub model_used: Option<String>,
    /// Extra information, as name and value.
    pub metadata: Vec<(String, String)>,
}

/// Health of a service.
#[derive(Debug, Clone, Copy, PartialEq, Eq, Structural)]
pub enum HealthStatus {
    Healthy,
    Degraded,
    Unhealthy,
    Unknown,
}

/// Life-cycle state of a service.
#[derive(Debug, Clone, Copy, PartialEq, Eq, Structural)]
pub enum ServiceState {
    Starting,
    Ready,
    Busy,
    Overloaded,
    Stopping,
    Stopped,
    Error,
}

/// What a service can compute.
#[derive(Debug, Clone)]
pub struct ServiceCapabilities {
    pub supported_dimensions: Vec<u32>,
    pub supported_models: Vec<String>,
    pub supported_data_types: Vec<VectorDataType>,
    pub max_batch_size: u32,
}

/// Where a service is reached.
#[derive(Debug, Clone)]
pub struct ServiceEndpoint {
    pub address: String,
}

/// Description of a service.
#[derive(Debug, Clone)]
pub struct ServiceInfo {
    pub id: String,
    pub name: String,
    pub version: String,
    pub capabilities: ServiceCapabilities,
    pub endpoint: ServiceEndpoint,
}

/// Health report of a service.
#[derive(Debug, Clone)]
pub struct ServiceHealth {
    pub status: HealthStatus,
    /// Health score, 0 to 100.
    pub score: u8,
    pub last_check: u64,
    pub details: Vec<(String, String)>,
}

/// Load report of a service.
#[derive(Debug, Clone, Copy)]
pub struct ServiceLoadInfo {
    /// Processor use, as the bit pattern of an IEEE 754 single in 0.0 to 1.0.
    pub cpu_usage_bits: u32,
    /// Memory use, as the bit pattern of an IEEE 754 single in 0.0 to 1.0.
    pub memory_usage_bits: u32,
    pub active_requests: u32,
    pub queue_depth: u32,
    pub avg_response_time_ms: u64,
}

/// A response with its texts and vectors as sequences.
pub struct ResponseView {
    pub request_id: u64,
    pub status: ResponseStatus,
    pub embedding: Option<Seq<u32>>,
    pub error: Option<Seq<char>>,
    pub processing_time_us: u64,
    pub model_used: Option<Seq<char>>,
    pub metadata: Seq<(Seq<char>, Seq<char>)>,
}

/// The text of an optional text.
pub open spec fn opt_string_view(o: Option<String>) -> Option<Seq<char>> {
    match o {
        Some(s) => Some(s@),
        None => None,
    }
}

/// The texts of a list of name and value pairs.
pub open spec fn pairs_view(v: Seq<(String, String)>) -> Seq<(Seq<char>, Seq<char>)> {
    v.map_values(|p: (String, String)| (p.0@, p.1@))
}

impl View for EmbeddingResponse {
    type V = ResponseView;

    open spec fn view(&self) -> ResponseView {
        ResponseView {
            request_id: self.request_id,
            status: self.status,
            embedding: match self.embedding {
                Some(v) => Some(v@),
                None => None,
            },
            error: opt_string_view(self.error),
            processing_time_us: self.processing_time_us,
            model_used: opt_string_view(self.model_used),
            metadata: pairs_view(self.metadata@),
        }
    }
}

/// A copy of an optional text.
pub fn clone_opt_string(o: &Option<String>) -> (r: Option<String>)
    ensures
        opt_string_view(r) == opt_string_view(*o),
{
    match o {
        Some(s) => Some(s.clone()),
        None => None,
    }
}

/// A copy of a list of name and value pairs.
pub fn clone_pairs(v: &Vec<(String, String)>) -> (r: Vec<(String, String)>)
    ensures
        pairs_view(r@) == pairs_view(v@),
{
    let mut r: Vec<(String, String)> = Vec::new();
    let mut i: usize = 0;
    while i < v.len()
        invariant
            i <= v@.len(),
            pairs_view(r@) == pairs_view(v@.subrange(0, i as int)),
        decreases v@.len() - i,
    {
        let ghost prev = r@;
        let a = v[i].0.clone();
        let b = v[i].1.clone();
        r.push((a, b));
        assert(r@ == prev.push((a, b)));
        assert(pairs_view(prev.push((a, b))) =~= pairs_view(prev).push((a@, b@)));
        assert(v@.subrange(0, i + 1) =~= v@.subrange(0, i as int).push(v@[i as int]));
        assert(pairs_view(v@.subrange(0, i as int).push(v@[i as int])) =~= pairs_view(v@.subrange(0, i as int)).push(
            (v@[i as int].0@, v@[i as int].1@),
        ));
        i += 1;
    }
    assert(v@.subrange(0, v@.len() as int) =~= v@);
    r
}

impl Clone for EmbeddingResponse {
    fn clone(&self) -> (r: Self)
        ensures
            r@ == self@,
    {
        let embedding = match &self.embedding {
            Some(v) => Some(vstd::slice::slice_to_vec(v.as_slice())),
            None => None,
        };
        EmbeddingResponse {
            request_id: self.request_id,
            status: self.status,
            embedding,
            error: clone_opt_string(&self.error),
            processing_time_us: self.processing_time_us,
            model_used: clone_opt_string(&self.model_used),
            metadata: clone_pairs(&self.metadata),
        }
    }
}

} // verus!
