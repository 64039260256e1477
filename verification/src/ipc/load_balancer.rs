//! Load balancing records and the filters that pick a balancing strategy
//! for a request.

use vstd::prelude::*;
use crate::hybrid_query_optimizer::{F32_0_3, F32_0_4, F32_ZERO};
use crate::ipc::protocol::{EmbeddingRequest, ServiceInfo, VectorDataType};
use crate::ipc::service_registry::RegisteredService;
use crate::ipc::service_manager::service_now;
use crate::ipc::{IpcError, IpcErrorView, IpcResult};
use crate::knn_search::{f32_greater, f32_gt};
use crate::shared::message;
use crate::text::{decimal_string, spec_decimal, str_eq};
use crate::text_map::TextMap;
use vstd::string::*;

verus! {

/// Ways of picking a service.
#[derive(Debug, Clone, Copy, PartialEq, Eq, Structural)]
pub enum LoadBalancingAlgorithm {
    RoundRobin,
    LeastConnections,
    LeastResponseTime,
    WeightedRoundRobin,
    LoadBased,
    Random,
    Priority,
    CapabilityAware,
}

/// A session tied to one service.
#[derive(Debug, Clone)]
pub struct StickySession {
    pub service_id: String,
    pub created_at: u64,
    pub last_access: u64,
    pub request_count: u64,
}

/// States of a circuit breaker.
#[derive(Debug, Clone, Copy, PartialEq, Eq, Structural)]
pub enum CircuitState {
    /// Requests pass.
    Closed,
    /// The service fails; requests are refused.
    Open,
    /// A trial request tests whether the service recovered.
    HalfOpen,
}

/// The circuit breaker of a service.
#[derive(Debug, Clone, Copy, PartialEq, Eq, Structural)]
pub struct CircuitBreakerState {
    pub state: CircuitState,
    pub failure_count: u32,
    pub last_failure: u64,
    /// When a half-open breaker tries again.
    pub next_retry: u64,
}

/// Load balancer statistics.
#[derive(Debug, Clone, Default)]
pub struct LoadBalancerStats {
    pub total_requests: u64,
    pub successful_selections: u64,
    pub failed_selections: u64,
    pub circuit_breaker_trips: u64,
    pub sticky_session_hits: u64,
    /// Uses of each algorithm, by name.
    pub algorithm_usage: Vec<(String, u64)>,
}

/// What a maintenance run did.
#[derive(Debug, Clone, Copy, Default)]
pub struct MaintenanceResult {
    pub expired_sessions: usize,
    pub circuit_breakers_reset: usize,
}

/// Which requests a strategy is for.
#[derive(Debug, Clone)]
pub struct RequestFilter {
    /// Inclusive ranges of dimensions.
    pub dimension_ranges: Option<Vec<(u32, u32)>>,
    pub data_types: Option<Vec<VectorDataType>>,
    pub models: Option<Vec<String>>,
    /// Inclusive ranges of batch sizes.
    pub batch_size_ranges: Option<Vec<(usize, usize)>>,
}

/// A balancing algorithm for the requests a filter picks.
#[derive(Debug, Clone)]
pub struct LoadBalancingStrategy {
    pub algorithm: LoadBalancingAlgorithm,
    pub request_filter: RequestFilter,
    /// Higher wins.
    pub priority: u8,
}

/// Whether a request passes a filter: its dimension lies in one of the
/// ranges, its data type is listed, and it names a listed model, for each
/// of these the filter sets; batch sizes are not checked.
pub open spec fn filter_matches(f: RequestFilter, r: EmbeddingRequest) -> bool {
    &&& match f.dimension_ranges {
        Some(ranges) => exists|i: int|
            0 <= i < ranges@.len() && (#[trigger] ranges@[i]).0 <= r.dimensions <= ranges@[i].1,
        None => true,
    }
    &&& match f.data_types {
        Some(types) => types@.contains(r.data_type),
        None => true,
    }
    &&& match f.models {
        Some(models) => match r.model {
            Some(m) => exists|i: int| 0 <= i < models@.len() && (#[trigger] models@[i])@ == m@,
            None => false,
        },
        None => true,
    }
}

impl RequestFilter {
    /// Whether a request passes the filter.
    pub fn matches(&self, request: &EmbeddingRequest) -> (b: bool)
        ensures
            b == filter_matches(*self, *request),
    {
        if let Some(ranges) = &self.dimension_ranges {
            let mut found = false;
            let mut i: usize = 0;
            while i < ranges.len()
                invariant
                    i <= ranges@.len(),
                    found == exists|j: int|
                        0 <= j < i && (#[trigger] ranges@[j]).0 <= request.dimensions <= ranges@[j].1,
                decreases ranges@.len() - i,
            {
                if ranges[i].0 <= request.dimensions && request.dimensions <= ranges[i].1 {
                    found = true;
                }
                i += 1;
            }
            if !found {
                return false;
            }
        }
        if let Some(types) = &self.data_types {
            let mut found = false;
            let mut i: usize = 0;
            while i < types.len()
                invariant
                    i <= types@.len(),
                    found == exists|j: int| 0 <= j < i && types@[j] == request.data_type,
                decreases types@.len() - i,
            {
                if types[i] == request.data_type {
                    found = true;
                }
                i += 1;
            }
            if !found {
                return false;
            }
        }
        if let Some(models) = &self.models {
            match &request.model {
                Some(request_model) => {
                    let mut found = false;
                    let mut i: usize = 0;
                    while i < models.len()
                        invariant
                            i <= models@.len(),
                            found == exists|j: int| 0 <= j < i && (#[trigger] models@[j])@ == request_model@,
                        decreases models@.len() - i,
                    {
                        if str_eq(models[i].as_str(), request_model.as_str()) {
                            found = true;
                        }
                        i += 1;
                    }
                    if !found {
                        return false;
                    }
                },
                None => {
                    return false;
                },
            }
        }
        true
    }
}

/// The bit pattern of the `f32` 10.0.
pub const F32_10: u32 = 0x4120_0000;

/// Settings of the load balancer; the weights are bit patterns of IEEE 754
/// singles.
#[derive(Debug, Clone, Copy)]
pub struct LoadBalancerConfig {
    pub default_algorithm: LoadBalancingAlgorithm,
    pub enable_sticky_sessions: bool,
    /// Seconds an unused sticky session lives.
    pub session_timeout_sec: u64,
    pub health_weight_bits: u32,
    pub load_weight_bits: u32,
    pub response_time_weight_bits: u32,
    pub max_retries: u32,
    pub enable_circuit_breaker: bool,
    /// Consecutive failures that open a circuit breaker.
    pub circuit_breaker_threshold: u32,
}

impl Default for LoadBalancerConfig {
    /// Load-based selection, no sticky sessions, 5 minute sessions, weights
    /// 0.3, 0.4 and 0.3, three retries, circuit breakers opening after five
    /// failures.
    fn default() -> (c: Self)
        ensures
            c.default_algorithm == LoadBalancingAlgorithm::LoadBased,
            !c.enable_sticky_sessions,
            c.session_timeout_sec == 300,
            c.health_weight_bits == F32_0_3,
            c.load_weight_bits == F32_0_4,
            c.response_time_weight_bits == F32_0_3,
            c.max_retries == 3,
            c.enable_circuit_breaker,
            c.circuit_breaker_threshold == 5,
    {
        LoadBalancerConfig {
            default_algorithm: LoadBalancingAlgorithm::LoadBased,
            enable_sticky_sessions: false,
            session_timeout_sec: 300,
            health_weight_bits: F32_0_3,
            load_weight_bits: F32_0_4,
            response_time_weight_bits: F32_0_3,
            max_retries: 3,
            enable_circuit_breaker: true,
            circuit_breaker_threshold: 5,
        }
    }
}

/// Seconds an opened circuit breaker waits before a trial request.
pub const CIRCUIT_RETRY_DELAY_SEC: u64 = 60;

/// A circuit breaker with no failure, letting requests pass.
pub open spec fn closed_breaker() -> CircuitBreakerState {
    CircuitBreakerState { state: CircuitState::Closed, failure_count: 0, last_failure: 0, next_retry: 0 }
}

/// Whether a failure opens the breaker: the failures reach the threshold.
pub open spec fn failure_trips(cb: CircuitBreakerState, success: bool, threshold: u32) -> bool {
    !success && cb.failure_count + 1 >= threshold
}

/// The breaker after one response: a success clears the failures and
/// closes a half-open breaker; a failure is counted and stamped, and opens
/// the breaker once the failures reach the threshold, with a trial request
/// allowed a minute later.
pub open spec fn breaker_after(cb: CircuitBreakerState, success: bool, now: u64, threshold: u32) -> CircuitBreakerState {
    if success {
        CircuitBreakerState {
            failure_count: 0,
            state: if cb.state == CircuitState::HalfOpen { CircuitState::Closed } else { cb.state },
            ..cb
        }
    } else if failure_trips(cb, success, threshold) {
        CircuitBreakerState {
            state: CircuitState::Open,
            failure_count: (cb.failure_count + 1) as u32,
            last_failure: now,
            next_retry: (now + CIRCUIT_RETRY_DELAY_SEC) as u64,
        }
    } else {
        CircuitBreakerState { failure_count: (cb.failure_count + 1) as u32, last_failure: now, ..cb }
    }
}

/// Whether an open breaker may let a trial request through now.
pub open spec fn retry_due(cb: CircuitBreakerState, now: u64) -> bool {
    cb.state == CircuitState::Open && now >= cb.next_retry
}

/// The breaker after maintenance: an open breaker whose retry time came is
/// half-open.
pub open spec fn breaker_after_maintenance(cb: CircuitBreakerState, now: u64) -> CircuitBreakerState {
    if retry_due(cb, now) {
        CircuitBreakerState { state: CircuitState::HalfOpen, ..cb }
    } else {
        cb
    }
}

/// The key of the sticky session of a request.
pub open spec fn session_key(request_id: u64) -> Seq<char> {
    "session_"@ + spec_decimal(request_id as nat)
}

/// The sessions not used for longer than the timeout.
pub open spec fn expired_sessions(sessions: Map<Seq<char>, StickySession>, timeout: u64) -> spec_fn(Seq<char>) -> bool {
    |k: Seq<char>| service_now() - sessions[k].last_access > timeout
}

/// The sessions tied to a service.
pub open spec fn sessions_of(sessions: Map<Seq<char>, StickySession>, service_id: Seq<char>) -> spec_fn(
    Seq<char>,
) -> bool {
    |k: Seq<char>| sessions[k].service_id@ == service_id
}

/// Statistics with every count zero and no algorithm used.
pub open spec fn fresh_stats(s: LoadBalancerStats) -> bool {
    &&& s.total_requests == 0
    &&& s.successful_selections == 0
    &&& s.failed_selections == 0
    &&& s.circuit_breaker_trips == 0
    &&& s.sticky_session_hits == 0
    &&& s.algorithm_usage@.len() == 0
}

/// Whether position `i` holds the first service of least key.
pub open spec fn first_least(s: Seq<&RegisteredService>, i: int, key: spec_fn(RegisteredService) -> int) -> bool {
    &&& 0 <= i < s.len()
    &&& forall|j: int| 0 <= j < s.len() ==> key(*s[i]) <= key(*#[trigger] s[j])
    &&& forall|j: int| 0 <= j < i ==> key(*#[trigger] s[j]) > key(*s[i])
}

/// Whether position `i` holds the last service of greatest key.
pub open spec fn last_greatest(s: Seq<&RegisteredService>, i: int, key: spec_fn(RegisteredService) -> int) -> bool {
    &&& 0 <= i < s.len()
    &&& forall|j: int| 0 <= j < s.len() ==> key(*#[trigger] s[j]) <= key(*s[i])
    &&& forall|j: int| i < j < s.len() ==> key(*#[trigger] s[j]) < key(*s[i])
}

/// The result of a selection among `s`: the service at position `i`, or,
/// when there is none, the error that no service is available.
pub open spec fn selected<'a>(r: IpcResult<&'a RegisteredService>, s: Seq<&'a RegisteredService>, i: int) -> bool {
    if s.len() == 0 {
        r matches Err(e) && e@ == IpcErrorView::ServiceUnavailable("No services available"@)
    } else {
        r matches Ok(x) && 0 <= i < s.len() && *x == *s[i]
    }
}

/// The number of active requests of a service.
pub open spec fn connections_key() -> spec_fn(RegisteredService) -> int {
    |s: RegisteredService| s.load_info.active_requests as int
}

/// The average response time of a service.
pub open spec fn response_time_key() -> spec_fn(RegisteredService) -> int {
    |s: RegisteredService| s.load_info.avg_response_time_ms as int
}

/// The priority of a service.
pub open spec fn priority_key() -> spec_fn(RegisteredService) -> int {
    |s: RegisteredService| s.priority as int
}

/// The position of the first service of least key.
fn first_min_position(services: &[&RegisteredService], by_response_time: bool) -> (i: usize)
    requires
        services@.len() > 0,
    ensures
        first_least(services@, i as int, if by_response_time { response_time_key() } else { connections_key() }),
{
    let ghost key = if by_response_time { response_time_key() } else { connections_key() };
    let mut best: usize = 0;
    let mut i: usize = 1;
    while i < services.len()
        invariant
            services@.len() > 0,
            key == (if by_response_time { response_time_key() } else { connections_key() }),
            1 <= i <= services@.len(),
            best < i,
            forall|j: int| 0 <= j < i ==> key(*services@[best as int]) <= key(*#[trigger] services@[j]),
            forall|j: int| 0 <= j < best ==> key(*#[trigger] services@[j]) > key(*services@[best as int]),
        decreases services@.len() - i,
    {
        let smaller = if by_response_time {
            services[i].load_info.avg_response_time_ms < services[best].load_info.avg_response_time_ms
        } else {
            services[i].load_info.active_requests < services[best].load_info.active_requests
        };
        if smaller {
            best = i;
        }
        i += 1;
    }
    best
}

/// Distributes requests over services.
pub struct LoadBalancer {
    config: LoadBalancerConfig,
    round_robin_counters: TextMap<usize>,
    sticky_sessions: TextMap<StickySession>,
    circuit_breakers: TextMap<CircuitBreakerState>,
    service_weights: TextMap<u32>,
    stats: LoadBalancerStats,
}

impl LoadBalancer {
    /// The settings.
    pub closed spec fn settings(&self) -> LoadBalancerConfig {
        self.config
    }

    /// The round-robin counters, by name.
    pub closed spec fn counters(&self) -> Map<Seq<char>, usize> {
        self.round_robin_counters@
    }

    /// The sticky sessions, by key.
    pub closed spec fn sessions(&self) -> Map<Seq<char>, StickySession> {
        self.sticky_sessions@
    }

    /// The session keys, in increasing order.
    pub closed spec fn session_ids(&self) -> Seq<Seq<char>> {
        self.sticky_sessions.keys_seq()
    }

    /// The circuit breakers, by service id.
    pub closed spec fn breakers(&self) -> Map<Seq<char>, CircuitBreakerState> {
        self.circuit_breakers@
    }

    /// The ids with a circuit breaker, in increasing order.
    pub closed spec fn breaker_ids(&self) -> Seq<Seq<char>> {
        self.circuit_breakers.keys_seq()
    }

    /// The weights of the services, bit patterns of IEEE 754 singles.
    pub closed spec fn weights(&self) -> Map<Seq<char>, u32> {
        self.service_weights@
    }

    /// The statistics.
    pub closed spec fn stats(&self) -> LoadBalancerStats {
        self.stats
    }

    /// The circuit breakers in increasing order of id.
    pub open spec fn listed_breakers(&self) -> Seq<CircuitBreakerState> {
        self.breaker_ids().map_values(|k: Seq<char>| self.breakers()[k])
    }

    /// Internal consistency: the maps are ordered and no session was used
    /// later than now.
    pub closed spec fn wf(&self) -> bool {
        &&& self.round_robin_counters.wf()
        &&& self.sticky_sessions.wf()
        &&& self.circuit_breakers.wf()
        &&& self.service_weights.wf()
        &&& forall|k: Seq<char>| #[trigger]
            self.sticky_sessions@.contains_key(k) ==> self.sticky_sessions@[k].last_access <= service_now()
    }

    /// A balancer with the default settings and no service.
    pub fn new() -> (b: Self)
        ensures
            b.wf(),
            b.settings().default_algorithm == LoadBalancingAlgorithm::LoadBased,
            b.counters() == Map::<Seq<char>, usize>::empty(),
            b.sessions() == Map::<Seq<char>, StickySession>::empty(),
            b.breakers() == Map::<Seq<char>, CircuitBreakerState>::empty(),
            b.weights() == Map::<Seq<char>, u32>::empty(),
            fresh_stats(b.stats()),
    {
        Self::with_config(LoadBalancerConfig::default())
    }

    /// A balancer with the given settings and no service.
    pub fn with_config(config: LoadBalancerConfig) -> (b: Self)
        ensures
            b.wf(),
            b.settings() == config,
            b.counters() == Map::<Seq<char>, usize>::empty(),
            b.sessions() == Map::<Seq<char>, StickySession>::empty(),
            b.breakers() == Map::<Seq<char>, CircuitBreakerState>::empty(),
            b.weights() == Map::<Seq<char>, u32>::empty(),
            fresh_stats(b.stats()),
    {
        LoadBalancer {
            config,
            round_robin_counters: TextMap::new(),
            sticky_sessions: TextMap::new(),
            circuit_breakers: TextMap::new(),
            service_weights: TextMap::new(),
            stats: LoadBalancerStats {
                total_requests: 0,
                successful_selections: 0,
                failed_selections: 0,
                circuit_breaker_trips: 0,
                sticky_session_hits: 0,
                algorithm_usage: Vec::new(),
            },
        }
    }

    /// Whether picking a service for `request` keeps every count within 64
    /// bits.
    pub open spec fn selection_fits(&self, request: EmbeddingRequest) -> bool {
        &&& self.stats().total_requests < u64::MAX
        &&& self.stats().failed_selections < u64::MAX
        &&& (self.settings().enable_sticky_sessions && self.sessions().contains_key(session_key(request.request_id))
            ==> self.sessions()[session_key(request.request_id)].request_count < u64::MAX)
    }

    /// Pick a service for a request. No service is known to the balancer,
    /// so the selection fails; it is counted, and the request's sticky
    /// session, when sessions are on and it has one, is stamped and counted.
    pub fn select_service(&mut self, request: &EmbeddingRequest) -> (r: IpcResult<ServiceInfo>)
        requires
            old(self).wf(),
            old(self).selection_fits(*request),
        ensures
            final(self).wf(),
            r matches Err(e) && e@ == IpcErrorView::ServiceUnavailable("No services available"@),
            final(self).stats() == (LoadBalancerStats {
                total_requests: (old(self).stats().total_requests + 1) as u64,
                failed_selections: (old(self).stats().failed_selections + 1) as u64,
                ..old(self).stats()
            }),
            ({
                let key = session_key(request.request_id);
                if old(self).settings().enable_sticky_sessions && old(self).sessions().contains_key(key) {
                    final(self).sessions() == old(self).sessions().insert(
                        key,
                        StickySession {
                            last_access: service_now(),
                            request_count: (old(self).sessions()[key].request_count + 1) as u64,
                            ..old(self).sessions()[key]
                        },
                    )
                } else {
                    final(self).sessions() == old(self).sessions()
                }
            }),
            final(self).settings() == old(self).settings(),
            final(self).counters() == old(self).counters(),
            final(self).breakers() == old(self).breakers(),
            final(self).breaker_ids() == old(self).breaker_ids(),
            final(self).weights() == old(self).weights(),
    {
        self.stats.total_requests = self.stats.total_requests + 1;
        if self.config.enable_sticky_sessions {
            match self.check_sticky_session(request) {
                Ok(Some(session_service)) => {
                    self.stats.sticky_session_hits = self.stats.sticky_session_hits + 1;
                    return Ok(session_service);
                },
                Ok(None) => {},
                Err(e) => {
                    return Err(e);
                },
            }
        }
        self.stats.failed_selections = self.stats.failed_selections + 1;
        Err(IpcError::ServiceUnavailable(message("No services available")))
    }

    /// Look up the sticky session of a request; a session found is stamped
    /// and counted. No service is handed back: the balancer does not hold
    /// the services' descriptions.
    fn check_sticky_session(&mut self, request: &EmbeddingRequest) -> (r: IpcResult<Option<ServiceInfo>>)
        requires
            old(self).wf(),
            old(self).sessions().contains_key(session_key(request.request_id)) ==> old(self).sessions()[session_key(
                request.request_id,
            )].request_count < u64::MAX,
        ensures
            final(self).wf(),
            r == Ok::<Option<ServiceInfo>, IpcError>(None),
            ({
                let key = session_key(request.request_id);
                if old(self).sessions().contains_key(key) {
                    final(self).sessions() == old(self).sessions().insert(
                        key,
                        StickySession {
                            last_access: service_now(),
                            request_count: (old(self).sessions()[key].request_count + 1) as u64,
                            ..old(self).sessions()[key]
                        },
                    )
                } else {
                    final(self).sessions() == old(self).sessions()
                }
            }),
            final(self).stats() == old(self).stats(),
            final(self).settings() == old(self).settings(),
            final(self).counters() == old(self).counters(),
            final(self).breakers() == old(self).breakers(),
            final(self).breaker_ids() == old(self).breaker_ids(),
            final(self).weights() == old(self).weights(),
    {
        let session_key = Self::generate_session_key(request);
        let current_timestamp = self.get_current_timestamp();
        if let Some(i) = self.sticky_sessions.position(session_key.as_str()) {
            let ghost old_sessions = self.sticky_sessions;
            proof {
                self.sticky_sessions.lemma_entry(i as int);
            }
            {
                let session = self.sticky_sessions.value_mut_at(i);
                session.last_access = current_timestamp;
                session.request_count = session.request_count + 1;
            }
            proof {
                TextMap::lemma_value_changed(
                    &old_sessions,
                    &self.sticky_sessions,
                    i as int,
                    self.sticky_sessions.value_seq(i as int),
                );
            }
            return Ok(None);
        }
        Ok(None)
    }

    /// Start tracking a service: a round-robin counter at 0, a closed
    /// circuit breaker and weight 1.0, replacing what was tracked for it.
    pub fn add_service(&mut self, service_info: ServiceInfo) -> (r: IpcResult<()>)
        requires
            old(self).wf(),
        ensures
            final(self).wf(),
            r is Ok,
            final(self).counters() == old(self).counters().insert(service_info.id@, 0),
            final(self).breakers() == old(self).breakers().insert(service_info.id@, closed_breaker()),
            final(self).weights() == old(self).weights().insert(service_info.id@, crate::hybrid_query_optimizer::F32_1),
            final(self).sessions() == old(self).sessions(),
            final(self).session_ids() == old(self).session_ids(),
            final(self).stats() == old(self).stats(),
            final(self).settings() == old(self).settings(),
    {
        let service_id = service_info.id;
        self.round_robin_counters.insert(service_id.clone(), 0);
        let circuit_breaker = CircuitBreakerState {
            state: CircuitState::Closed,
            failure_count: 0,
            last_failure: 0,
            next_retry: 0,
        };
        self.circuit_breakers.insert(service_id.clone(), circuit_breaker);
        self.service_weights.insert(service_id, crate::hybrid_query_optimizer::F32_1);
        Ok(())
    }

    /// Stop tracking a service, with the sticky sessions tied to it.
    pub fn remove_service(&mut self, service_id: &str) -> (r: IpcResult<()>)
        requires
            old(self).wf(),
        ensures
            final(self).wf(),
            r is Ok,
            final(self).counters() == old(self).counters().remove(service_id@),
            final(self).breakers() == old(self).breakers().remove(service_id@),
            final(self).weights() == old(self).weights().remove(service_id@),
            final(self).sessions() == old(self).sessions().remove_keys(
                old(self).session_ids().filter(sessions_of(old(self).sessions(), service_id@)).to_set(),
            ),
            final(self).stats() == old(self).stats(),
            final(self).settings() == old(self).settings(),
    {
        self.round_robin_counters.remove(service_id);
        self.circuit_breakers.remove(service_id);
        self.service_weights.remove(service_id);
        let ghost keys = self.session_ids();
        let ghost sessions0 = self.sessions();
        let ghost pred = sessions_of(sessions0, service_id@);
        let mut doomed: Vec<String> = Vec::new();
        let n = self.sticky_sessions.len();
        let mut i: usize = 0;
        while i < n
            invariant
                self.wf(),
                keys == self.session_ids(),
                sessions0 == self.sessions(),
                pred == sessions_of(sessions0, service_id@),
                n == keys.len(),
                i <= n,
                doomed@.map_values(|s: String| s@) == keys.subrange(0, i as int).filter(pred),
            decreases n - i,
        {
            proof {
                reveal_with_fuel(Seq::<_>::filter, 1);
                assert(keys.subrange(0, i + 1).drop_last() =~= keys.subrange(0, i as int));
                self.sticky_sessions.lemma_entry(i as int);
            }
            let session = self.sticky_sessions.value_at(i);
            if str_eq(session.service_id.as_str(), service_id) {
                let ghost prev = doomed@;
                let k = self.sticky_sessions.key_at(i).clone();
                doomed.push(k);
                assert(doomed@.map_values(|s: String| s@) =~= prev.map_values(|s: String| s@).push(keys[i as int]));
            }
            i += 1;
        }
        assert(keys.subrange(0, n as int) =~= keys);
        let ghost doomed_keys = keys.filter(pred);
        self.remove_sessions(&doomed, Ghost(doomed_keys));
        Ok(())
    }

    /// Remove the sessions under the given keys.
    fn remove_sessions(&mut self, keys: &Vec<String>, Ghost(key_seq): Ghost<Seq<Seq<char>>>)
        requires
            old(self).wf(),
            keys@.map_values(|s: String| s@) == key_seq,
        ensures
            final(self).wf(),
            final(self).sessions() == old(self).sessions().remove_keys(key_seq.to_set()),
            final(self).counters() == old(self).counters(),
            final(self).breakers() == old(self).breakers(),
            final(self).breaker_ids() == old(self).breaker_ids(),
            final(self).weights() == old(self).weights(),
            final(self).stats() == old(self).stats(),
            final(self).settings() == old(self).settings(),
    {
        let ghost sessions0 = self.sessions();
        let mut j: usize = 0;
        while j < keys.len()
            invariant
                self.wf(),
                keys@.map_values(|s: String| s@) == key_seq,
                j <= keys@.len(),
                self.sessions() == sessions0.remove_keys(key_seq.subrange(0, j as int).to_set()),
                self.counters() == old(self).counters(),
                self.breakers() == old(self).breakers(),
                self.breaker_ids() == old(self).breaker_ids(),
                self.weights() == old(self).weights(),
                self.stats() == old(self).stats(),
                self.settings() == old(self).settings(),
            decreases keys@.len() - j,
        {
            proof {
                crate::ordered_map::lemma_prefix_set_step(key_seq, j as int);
            }
            let ghost before = self.sessions();
            let ghost key = key_seq[j as int];
            assert(keys@[j as int]@ == key);
            self.sticky_sessions.remove(keys[j].as_str());
            proof {
                assert(self.sessions() =~= before.remove(key));
                assert(before.remove(key) =~= sessions0.remove_keys(key_seq.subrange(0, j + 1).to_set()));
            }
            j += 1;
        }
        assert(key_seq.subrange(0, keys@.len() as int) =~= key_seq);
    }

    /// Record how a service answered: its circuit breaker moves as
    /// `breaker_after` says, and an opening breaker is counted. A service
    /// without a breaker is left alone.
    pub fn record_response(&mut self, service_id: &str, success: bool, _response_time_us: u64) -> (r: IpcResult<()>)
        requires
            old(self).wf(),
            old(self).breakers().contains_key(service_id@) && !success ==> {
                &&& old(self).breakers()[service_id@].failure_count < u32::MAX
                &&& (failure_trips(
                    old(self).breakers()[service_id@],
                    success,
                    old(self).settings().circuit_breaker_threshold,
                ) ==> old(self).stats().circuit_breaker_trips < u64::MAX)
            },
        ensures
            final(self).wf(),
            r is Ok,
            if old(self).breakers().contains_key(service_id@) {
                let cb = old(self).breakers()[service_id@];
                let threshold = old(self).settings().circuit_breaker_threshold;
                &&& final(self).breakers() == old(self).breakers().insert(
                    service_id@,
                    breaker_after(cb, success, service_now(), threshold),
                )
                &&& final(self).stats() == (LoadBalancerStats {
                    circuit_breaker_trips: if failure_trips(cb, success, threshold) {
                        (old(self).stats().circuit_breaker_trips + 1) as u64
                    } else {
                        old(self).stats().circuit_breaker_trips
                    },
                    ..old(self).stats()
                })
            } else {
                &&& final(self).breakers() == old(self).breakers()
                &&& final(self).stats() == old(self).stats()
            },
            final(self).breaker_ids() == old(self).breaker_ids(),
            final(self).sessions() == old(self).sessions(),
            final(self).counters() == old(self).counters(),
            final(self).weights() == old(self).weights(),
            final(self).settings() == old(self).settings(),
    {
        let current_timestamp = self.get_current_timestamp();
        let threshold = self.config.circuit_breaker_threshold;
        if let Some(i) = self.circuit_breakers.position(service_id) {
            let mut cb = *self.circuit_breakers.value_at(i);
            if success {
                cb.failure_count = 0;
                if cb.state == CircuitState::HalfOpen {
                    cb.state = CircuitState::Closed;
                }
            } else {
                cb.failure_count = cb.failure_count + 1;
                cb.last_failure = current_timestamp;
                if cb.failure_count >= threshold {
                    cb.state = CircuitState::Open;
                    cb.next_retry = current_timestamp + CIRCUIT_RETRY_DELAY_SEC;
                    self.stats.circuit_breaker_trips = self.stats.circuit_breaker_trips + 1;
                }
            }
            self.circuit_breakers.set_value_at(i, cb);
        }
        Ok(())
    }

    /// Set the weight of a service, the bit pattern of an IEEE 754 single;
    /// refused below 0.0 or above 10.0.
    pub fn set_service_weight(&mut self, service_id: &str, weight_bits: u32) -> (r: IpcResult<()>)
        requires
            old(self).wf(),
        ensures
            final(self).wf(),
            if f32_greater(F32_ZERO, weight_bits) || f32_greater(weight_bits, F32_10) {
                &&& r matches Err(e) && e@ == IpcErrorView::InvalidMessage("Invalid weight"@)
                &&& final(self).weights() == old(self).weights()
            } else {
                &&& r is Ok
                &&& final(self).weights() == old(self).weights().insert(service_id@, weight_bits)
            },
            final(self).sessions() == old(self).sessions(),
            final(self).session_ids() == old(self).session_ids(),
            final(self).breakers() == old(self).breakers(),
            final(self).breaker_ids() == old(self).breaker_ids(),
            final(self).counters() == old(self).counters(),
            final(self).stats() == old(self).stats(),
            final(self).settings() == old(self).settings(),
    {
        if f32_gt(F32_ZERO, weight_bits) || f32_gt(weight_bits, F32_10) {
            return Err(IpcError::InvalidMessage(message("Invalid weight")));
        }
        self.service_weights.insert(message(service_id), weight_bits);
        Ok(())
    }

    /// Forget the sticky sessions unused for longer than the timeout, and
    /// make half-open the open circuit breakers whose retry time came;
    /// give how many of each.
    pub fn perform_maintenance(&mut self) -> (r: IpcResult<MaintenanceResult>)
        requires
            old(self).wf(),
        ensures
            final(self).wf(),
            ({
                let expired = old(self).session_ids().filter(
                    expired_sessions(old(self).sessions(), old(self).settings().session_timeout_sec),
                );
                let due = old(self).listed_breakers().filter(|cb: CircuitBreakerState| retry_due(cb, service_now()));
                &&& r matches Ok(m) && m.expired_sessions == expired.len() && m.circuit_breakers_reset == due.len()
                &&& final(self).sessions() == old(self).sessions().remove_keys(expired.to_set())
                &&& final(self).breakers() == old(self).breakers().map_values(
                    |cb: CircuitBreakerState| breaker_after_maintenance(cb, service_now()),
                )
            }),
            final(self).breaker_ids() == old(self).breaker_ids(),
            final(self).counters() == old(self).counters(),
            final(self).weights() == old(self).weights(),
            final(self).stats() == old(self).stats(),
            final(self).settings() == old(self).settings(),
    {
        let current_time = self.get_current_timestamp();
        let session_timeout = self.config.session_timeout_sec;
        let ghost keys = self.session_ids();
        let ghost sessions0 = self.sessions();
        let ghost pred = expired_sessions(sessions0, session_timeout);
        let mut expired: Vec<String> = Vec::new();
        let n = self.sticky_sessions.len();
        let mut i: usize = 0;
        while i < n
            invariant
                self.wf(),
                keys == self.session_ids(),
                sessions0 == self.sessions(),
                session_timeout == self.settings().session_timeout_sec,
                pred == expired_sessions(sessions0, session_timeout),
                current_time == service_now(),
                n == keys.len(),
                i <= n,
                expired@.map_values(|s: String| s@) == keys.subrange(0, i as int).filter(pred),
            decreases n - i,
        {
            proof {
                reveal_with_fuel(Seq::<_>::filter, 1);
                assert(keys.subrange(0, i + 1).drop_last() =~= keys.subrange(0, i as int));
                self.sticky_sessions.lemma_entry(i as int);
            }
            let session = self.sticky_sessions.value_at(i);
            if current_time - session.last_access > session_timeout {
                let ghost prev = expired@;
                let k = self.sticky_sessions.key_at(i).clone();
                expired.push(k);
                assert(expired@.map_values(|s: String| s@) =~= prev.map_values(|s: String| s@).push(keys[i as int]));
            }
            i += 1;
        }
        assert(keys.subrange(0, n as int) =~= keys);
        let ghost expired_keys = keys.filter(pred);
        self.remove_sessions(&expired, Ghost(expired_keys));
        let expired_count = expired.len();
        assert(expired_count == expired_keys.len()) by {
            assert(expired@.map_values(|s: String| s@).len() == expired@.len());
        }
        let ghost ids = self.breaker_ids();
        let ghost breakers0 = self.circuit_breakers;
        let ghost listed0 = self.listed_breakers();
        let ghost due = |cb: CircuitBreakerState| retry_due(cb, service_now());
        let m = self.circuit_breakers.len();
        let mut reset: usize = 0;
        let mut j: usize = 0;
        while j < m
            invariant
                self.wf(),
                breakers0.wf(),
                ids == self.breaker_ids(),
                ids == breakers0.keys_seq(),
                m == ids.len(),
                listed0 == ids.map_values(|k: Seq<char>| breakers0@[k]),
                due == (|cb: CircuitBreakerState| retry_due(cb, service_now())),
                current_time == service_now(),
                j <= m,
                reset == listed0.subrange(0, j as int).filter(due).len(),
                forall|q: int| 0 <= q < j ==> #[trigger] self.circuit_breakers.value_seq(q) == breaker_after_maintenance(
                    breakers0.value_seq(q),
                    service_now(),
                ),
                forall|q: int| j <= q < m ==> #[trigger] self.circuit_breakers.value_seq(q) == breakers0.value_seq(q),
                self.sessions() == old(self).sessions().remove_keys(expired_keys.to_set()),
                self.counters() == old(self).counters(),
                self.weights() == old(self).weights(),
                self.stats() == old(self).stats(),
                self.settings() == old(self).settings(),
            decreases m - j,
        {
            proof {
                reveal_with_fuel(Seq::<_>::filter, 1);
                assert(listed0.subrange(0, j + 1).drop_last() =~= listed0.subrange(0, j as int));
                breakers0.lemma_entry(j as int);
            }
            let cb = *self.circuit_breakers.value_at(j);
            assert(listed0[j as int] == cb);
            if cb.state == CircuitState::Open && current_time >= cb.next_retry {
                let updated = CircuitBreakerState { state: CircuitState::HalfOpen, ..cb };
                self.circuit_breakers.set_value_at(j, updated);
                reset = reset + 1;
            }
            j += 1;
        }
        proof {
            assert(listed0.subrange(0, m as int) =~= listed0);
            assert(self.breakers() =~= breakers0@.map_values(
                |cb: CircuitBreakerState| breaker_after_maintenance(cb, service_now()),
            )) by {
                assert forall|k: Seq<char>| #[trigger] self.breakers().contains_key(k) implies self.breakers()[k]
                    == breaker_after_maintenance(breakers0@[k], service_now()) by {
                    let q = self.circuit_breakers.lemma_key_position(k);
                    breakers0.lemma_entry(q);
                }
                assert forall|k: Seq<char>| #[trigger] breakers0@.contains_key(k) implies self.breakers().contains_key(
                    k,
                ) by {
                    let q = breakers0.lemma_key_position(k);
                    self.circuit_breakers.lemma_entry(q);
                }
            }
        }
        Ok(MaintenanceResult { expired_sessions: expired_count, circuit_breakers_reset: reset })
    }

    /// Pick services in turn with the shared counter, which moves on by one.
    fn select_round_robin<'a>(&mut self, services: &[&'a RegisteredService]) -> (r: IpcResult<&'a RegisteredService>)
        requires
            old(self).wf(),
            old(self).counters().contains_key("global"@) ==> old(self).counters()["global"@] < usize::MAX,
        ensures
            final(self).wf(),
            ({
                let counter: usize = if old(self).counters().contains_key("global"@) {
                    old(self).counters()["global"@]
                } else {
                    0
                };
                if services@.len() == 0 {
                    &&& selected(r, services@, 0)
                    &&& final(self).counters() == old(self).counters()
                } else {
                    &&& selected(r, services@, (counter as int) % (services@.len() as int))
                    &&& final(self).counters() == old(self).counters().insert("global"@, (counter + 1) as usize)
                }
            }),
            final(self).sessions() == old(self).sessions(),
            final(self).breakers() == old(self).breakers(),
            final(self).weights() == old(self).weights(),
            final(self).stats() == old(self).stats(),
            final(self).settings() == old(self).settings(),
    {
        if services.len() == 0 {
            return Err(IpcError::ServiceUnavailable(message("No services available")));
        }
        let counter: usize = match self.round_robin_counters.get("global") {
            Some(c) => *c,
            None => 0,
        };
        let index = counter % services.len();
        let next_counter = counter + 1;
        self.round_robin_counters.insert(message("global"), next_counter);
        Ok(services[index])
    }

    /// The first service with the fewest active requests.
    fn select_least_connections<'a>(&self, services: &[&'a RegisteredService]) -> (r: IpcResult<
        &'a RegisteredService,
    >)
        ensures
            services@.len() == 0 ==> selected(r, services@, 0),
            services@.len() > 0 ==> exists|i: int| first_least(services@, i, connections_key()) && selected(r, services@, i),
    {
        if services.len() == 0 {
            return Err(IpcError::ServiceUnavailable(message("No services available")));
        }
        let i = first_min_position(services, false);
        let r = Ok(services[i]);
        assert(first_least(services@, i as int, connections_key()) && selected(r, services@, i as int));
        r
    }

    /// The first service with the shortest average response time.
    fn select_least_response_time<'a>(&self, services: &[&'a RegisteredService]) -> (r: IpcResult<
        &'a RegisteredService,
    >)
        ensures
            services@.len() == 0 ==> selected(r, services@, 0),
            services@.len() > 0 ==> exists|i: int|
                first_least(services@, i, response_time_key()) && selected(r, services@, i),
    {
        if services.len() == 0 {
            return Err(IpcError::ServiceUnavailable(message("No services available")));
        }
        let i = first_min_position(services, true);
        let r = Ok(services[i]);
        assert(first_least(services@, i as int, response_time_key()) && selected(r, services@, i as int));
        r
    }

    /// A service picked by the clock, which reads 0: the first.
    fn select_random<'a>(&self, services: &[&'a RegisteredService]) -> (r: IpcResult<&'a RegisteredService>)
        ensures
            selected(r, services@, 0),
    {
        if services.len() == 0 {
            return Err(IpcError::ServiceUnavailable(message("No services available")));
        }
        let now = self.get_current_timestamp();
        let index = (now as usize) % services.len();
        proof {
            vstd::arithmetic::div_mod::lemma_small_mod(0, services@.len() as nat);
        }
        Ok(services[index])
    }

    /// The last service of highest priority.
    fn select_priority<'a>(&self, services: &[&'a RegisteredService]) -> (r: IpcResult<&'a RegisteredService>)
        ensures
            services@.len() == 0 ==> selected(r, services@, 0),
            services@.len() > 0 ==> exists|i: int| last_greatest(services@, i, priority_key()) && selected(r, services@, i),
    {
        if services.len() == 0 {
            return Err(IpcError::ServiceUnavailable(message("No services available")));
        }
        let mut best: usize = 0;
        let mut i: usize = 1;
        while i < services.len()
            invariant
                services@.len() > 0,
                1 <= i <= services@.len(),
                best < i,
                forall|j: int| 0 <= j < i ==> priority_key()(*#[trigger] services@[j]) <= priority_key()(
                    *services@[best as int],
                ),
                forall|j: int| best < j < i ==> priority_key()(*#[trigger] services@[j]) < priority_key()(
                    *services@[best as int],
                ),
            decreases services@.len() - i,
        {
            if services[i].priority >= services[best].priority {
                best = i;
            }
            i += 1;
        }
        let r = Ok(services[best]);
        assert(last_greatest(services@, best as int, priority_key()) && selected(r, services@, best as int));
        r
    }

    /// Tie the sticky session of a request to a service.
    fn create_sticky_session(&mut self, request: &EmbeddingRequest, service: &ServiceInfo) -> (r: IpcResult<()>)
        requires
            old(self).wf(),
        ensures
            final(self).wf(),
            r is Ok,
            final(self).sessions() == old(self).sessions().insert(
                session_key(request.request_id),
                StickySession {
                    service_id: service.id,
                    created_at: service_now(),
                    last_access: service_now(),
                    request_count: 1,
                },
            ),
            final(self).counters() == old(self).counters(),
            final(self).breakers() == old(self).breakers(),
            final(self).weights() == old(self).weights(),
            final(self).stats() == old(self).stats(),
            final(self).settings() == old(self).settings(),
    {
        let session_key = Self::generate_session_key(request);
        let current_time = self.get_current_timestamp();
        let session = StickySession {
            service_id: service.id.clone(),
            created_at: current_time,
            last_access: current_time,
            request_count: 1,
        };
        self.sticky_sessions.insert(session_key, session);
        Ok(())
    }

    /// The statistics.
    pub fn get_stats(&self) -> (s: &LoadBalancerStats)
        ensures
            *s == self.stats(),
    {
        &self.stats
    }

    fn generate_session_key(request: &EmbeddingRequest) -> (k: String)
        ensures
            k@ == session_key(request.request_id),
    {
        let mut k = message("session_");
        let digits = decimal_string(request.request_id);
        k.append(digits.as_str());
        k
    }

    fn get_current_timestamp(&self) -> (t: u64)
        ensures
            t == service_now(),
    {
        0
    }
}

/// The breaker after `n` failures in a row.
pub open spec fn after_failures(cb: CircuitBreakerState, n: nat, now: u64, threshold: u32) -> CircuitBreakerState
    decreases n,
{
    if n == 0 {
        cb
    } else {
        breaker_after(after_failures(cb, (n - 1) as nat, now, threshold), false, now, threshold)
    }
}

/// Failures in a row are all counted, and once they reach the threshold
/// the breaker is open, waiting a minute before a trial request.
pub proof fn lemma_breaker_opens_at_threshold(cb: CircuitBreakerState, n: nat, now: u64, threshold: u32)
    requires
        cb.failure_count + n <= u32::MAX,
        now + CIRCUIT_RETRY_DELAY_SEC <= u64::MAX,
    ensures
        after_failures(cb, n, now, threshold).failure_count == cb.failure_count + n,
        n > 0 ==> after_failures(cb, n, now, threshold).last_failure == now,
        n > 0 && cb.failure_count + n >= threshold ==> after_failures(cb, n, now, threshold).state == CircuitState::Open
            && after_failures(cb, n, now, threshold).next_retry == now + CIRCUIT_RETRY_DELAY_SEC,
        n > 0 && cb.failure_count + n < threshold ==> after_failures(cb, n, now, threshold).state == cb.state,
    decreases n,
{
    if n > 0 {
        lemma_breaker_opens_at_threshold(cb, (n - 1) as nat, now, threshold);
    }
}

/// The whole cycle of a breaker: a closed breaker that sees `threshold`
/// failures in a row opens; once its retry time has come, maintenance makes
/// it half-open; a success then closes it again with no failure counted.
pub proof fn lemma_breaker_cycle(now: u64, later: u64, threshold: u32)
    requires
        threshold >= 1,
        now + CIRCUIT_RETRY_DELAY_SEC <= later,
    ensures
        ({
            let opened = after_failures(closed_breaker(), threshold as nat, now, threshold);
            let trial = breaker_after_maintenance(opened, later);
            let recovered = breaker_after(trial, true, later, threshold);
            &&& opened.state == CircuitState::Open
            &&& trial.state == CircuitState::HalfOpen
            &&& recovered.state == CircuitState::Closed
            &&& recovered.failure_count == 0
        }),
{
    lemma_breaker_opens_at_threshold(closed_breaker(), threshold as nat, now, threshold);
}

/// Whether strategies come by descending priority.
pub open spec fn strategies_sorted(s: Seq<LoadBalancingStrategy>) -> bool {
    forall|i: int, j: int| 0 <= i < j < s.len() ==> (#[trigger] s[i]).priority >= (#[trigger] s[j]).priority
}

/// Whether `after` is `before` with `x` put at `pos`, after the strategies
/// of equal or higher priority and before the lower ones: where a stable
/// sort by descending priority puts it.
pub open spec fn inserted_by_priority(
    before: Seq<LoadBalancingStrategy>,
    after: Seq<LoadBalancingStrategy>,
    x: LoadBalancingStrategy,
    pos: int,
) -> bool {
    &&& 0 <= pos <= before.len()
    &&& after == before.insert(pos, x)
    &&& forall|j: int| 0 <= j < pos ==> (#[trigger] before[j]).priority >= x.priority
    &&& forall|j: int| pos <= j < before.len() ==> (#[trigger] before[j]).priority < x.priority
}

/// A load balancer that picks the algorithm by the first strategy, in
/// descending priority, whose filter a request passes.
pub struct AdvancedLoadBalancer {
    base_balancer: LoadBalancer,
    strategies: Vec<LoadBalancingStrategy>,
}

impl AdvancedLoadBalancer {
    /// The underlying balancer.
    pub closed spec fn base(&self) -> LoadBalancer {
        self.base_balancer
    }

    /// The strategies, by descending priority.
    pub closed spec fn strategies(&self) -> Seq<LoadBalancingStrategy> {
        self.strategies@
    }

    /// Internal consistency: the balancer is consistent and the strategies
    /// are sorted.
    pub closed spec fn wf(&self) -> bool {
        &&& self.base_balancer.wf()
        &&& strategies_sorted(self.strategies@)
    }

    /// A balancer with the given settings and no strategy.
    pub fn new(config: LoadBalancerConfig) -> (b: Self)
        ensures
            b.wf(),
            b.base().wf(),
            b.base().settings() == config,
            b.base().sessions() == Map::<Seq<char>, StickySession>::empty(),
            b.base().breakers() == Map::<Seq<char>, CircuitBreakerState>::empty(),
            fresh_stats(b.base().stats()),
            b.strategies() == Seq::<LoadBalancingStrategy>::empty(),
    {
        let b = AdvancedLoadBalancer { base_balancer: LoadBalancer::with_config(config), strategies: Vec::new() };
        assert(b.strategies@ =~= Seq::<LoadBalancingStrategy>::empty());
        b
    }

    /// Add a strategy; the strategies stay sorted by descending priority,
    /// the new one after those of equal or higher priority.
    pub fn add_strategy(&mut self, strategy: LoadBalancingStrategy)
        requires
            old(self).wf(),
        ensures
            final(self).wf(),
            final(self).base() == old(self).base(),
            exists|pos: int| inserted_by_priority(old(self).strategies(), final(self).strategies(), strategy, pos),
    {
        let ghost before = self.strategies@;
        let mut pos: usize = 0;
        while pos < self.strategies.len() && self.strategies[pos].priority >= strategy.priority
            invariant
                self.strategies@ == before,
                strategies_sorted(before),
                pos <= before.len(),
                forall|j: int| 0 <= j < pos ==> (#[trigger] before[j]).priority >= strategy.priority,
            decreases before.len() - pos,
        {
            pos += 1;
        }
        assert forall|j: int| pos <= j < before.len() implies (#[trigger] before[j]).priority < strategy.priority by {
            assert(before[pos as int].priority < strategy.priority);
        }
        self.strategies.insert(pos, strategy);
        assert(self.strategies@ == before.insert(pos as int, strategy));
        assert(strategies_sorted(self.strategies@)) by {
            assert forall|i: int, j: int| 0 <= i < j < self.strategies@.len() implies (
            #[trigger] self.strategies@[i]).priority >= (#[trigger] self.strategies@[j]).priority by {
                if j < pos {
                    assert(self.strategies@[i] == before[i] && self.strategies@[j] == before[j]);
                } else if j == pos {
                    assert(self.strategies@[i] == before[i]);
                } else if i < pos {
                    assert(self.strategies@[i] == before[i] && self.strategies@[j] == before[j - 1]);
                } else if i == pos {
                    assert(self.strategies@[j] == before[j - 1]);
                } else {
                    assert(self.strategies@[i] == before[i - 1] && self.strategies@[j] == before[j - 1]);
                }
            }
        }
        assert(inserted_by_priority(before, self.strategies(), strategy, pos as int));
        assert(before == old(self).strategies());
        assert(inserted_by_priority(old(self).strategies(), self.strategies(), strategy, pos as int));
    }

    /// Pick a service with the algorithm of the first strategy whose filter
    /// the request passes, or the default one. The algorithm does not
    /// matter while the balancer knows no service: the selection fails as
    /// `LoadBalancer::select_service` says.
    pub fn select_service_with_strategy(&mut self, request: &EmbeddingRequest) -> (r: IpcResult<ServiceInfo>)
        requires
            old(self).wf(),
            old(self).base().selection_fits(*request),
        ensures
            final(self).wf(),
            final(self).strategies() == old(self).strategies(),
            r matches Err(e) && e@ == IpcErrorView::ServiceUnavailable("No services available"@),
            final(self).base().stats() == (LoadBalancerStats {
                total_requests: (old(self).base().stats().total_requests + 1) as u64,
                failed_selections: (old(self).base().stats().failed_selections + 1) as u64,
                ..old(self).base().stats()
            }),
            final(self).base().settings() == old(self).base().settings(),
            final(self).base().breakers() == old(self).base().breakers(),
            final(self).base().counters() == old(self).base().counters(),
            final(self).base().weights() == old(self).base().weights(),
    {
        let mut i: usize = 0;
        while i < self.strategies.len()
            invariant
                i <= self.strategies@.len(),
                self.wf(),
                self.strategies@ == old(self).strategies@,
                self.base_balancer == old(self).base_balancer,
                self.base().selection_fits(*request),
            decreases self.strategies@.len() - i,
        {
            if self.strategies[i].request_filter.matches(request) {
                let algorithm = self.strategies[i].algorithm;
                return self.select_with_algorithm(request, algorithm);
            }
            i += 1;
        }
        self.base_balancer.select_service(request)
    }

    /// Select with an algorithm in place of the default one, which is
    /// restored afterwards.
    fn select_with_algorithm(&mut self, request: &EmbeddingRequest, algorithm: LoadBalancingAlgorithm) -> (r:
        IpcResult<ServiceInfo>)
        requires
            old(self).wf(),
            old(self).base().selection_fits(*request),
        ensures
            final(self).wf(),
            final(self).strategies() == old(self).strategies(),
            r matches Err(e) && e@ == IpcErrorView::ServiceUnavailable("No services available"@),
            final(self).base().stats() == (LoadBalancerStats {
                total_requests: (old(self).base().stats().total_requests + 1) as u64,
                failed_selections: (old(self).base().stats().failed_selections + 1) as u64,
                ..old(self).base().stats()
            }),
            final(self).base().settings() == old(self).base().settings(),
            final(self).base().breakers() == old(self).base().breakers(),
            final(self).base().counters() == old(self).base().counters(),
            final(self).base().weights() == old(self).base().weights(),
    {
        let saved_algorithm = self.base_balancer.config.default_algorithm;
        self.base_balancer.config.default_algorithm = algorithm;
        let result = self.base_balancer.select_service(request);
        self.base_balancer.config.default_algorithm = saved_algorithm;
        result
    }
}

} // verus!
