//! The registry of embedding services: registration, heartbeats, health,
//! statistics and the queries that pick services by what they can do.

use vstd::prelude::*;
use crate::fs_core::path::byte_len;
use crate::ipc::protocol::{
    HealthStatus, MAX_SERVICE_NAME_LEN, ServiceCapabilities, ServiceHealth, ServiceInfo, ServiceLoadInfo,
    ServiceState, VectorDataType,
};
use crate::ipc::service_manager::service_now;
use crate::ipc::{IpcError, IpcErrorView, IpcResult};
use crate::knn_search::{f32_greater, f32_gt, f32_max, f32_max_bits};
use crate::shared::message;
use crate::text::str_eq;
use crate::text_map::TextMap;
use vstd::string::*;

verus! {

/// Settings of the service registry.
#[derive(Debug, Clone, Copy)]
pub struct RegistryConfig {
    /// Most services registered.
    pub max_services: usize,
    /// Seconds without heartbeat after which a service expires.
    pub service_timeout_sec: u64,
    pub health_check_interval_sec: u64,
    /// Seconds statistics are kept.
    pub stats_retention_sec: u64,
    pub enable_versioning: bool,
    pub enable_capability_filtering: bool,
}

impl Default for RegistryConfig {
    /// Up to 100 services, a 5 minute timeout, checks every 30 seconds,
    /// statistics kept an hour, versioning and capability filtering on.
    fn default() -> (c: Self)
        ensures
            c.max_services == 100,
            c.service_timeout_sec == 300,
            c.health_check_interval_sec == 30,
            c.stats_retention_sec == 3600,
            c.enable_versioning,
            c.enable_capability_filtering,
    {
        RegistryConfig {
            max_services: 100,
            service_timeout_sec: 300,
            health_check_interval_sec: 30,
            stats_retention_sec: 3600,
            enable_versioning: true,
            enable_capability_filtering: true,
        }
    }
}

/// A registered service.
#[derive(Debug, Clone)]
pub struct RegisteredService {
    pub info: ServiceInfo,
    pub registered_at: u64,
    pub last_heartbeat: u64,
    pub status: ServiceState,
    pub health: ServiceHealth,
    pub load_info: ServiceLoadInfo,
    /// Tags for filtering.
    pub tags: Vec<String>,
    /// Priority, higher is better.
    pub priority: u8,
}

/// Statistics of one service. The loads and rates are bit patterns of
/// IEEE 754 numbers: loads singles, rates doubles.
#[derive(Debug, Clone, Copy, PartialEq, Eq, Structural)]
pub struct ServiceStats {
    pub total_requests: u64,
    pub successful_requests: u64,
    pub failed_requests: u64,
    /// Average response time in microseconds.
    pub avg_response_time_us: u64,
    /// Current load, 0.0 to 1.0.
    pub current_load_bits: u32,
    /// Highest load seen.
    pub peak_load_bits: u32,
    pub uptime_seconds: u64,
    pub last_updated: u64,
    /// Requests per second.
    pub request_rate_bits: u64,
    /// Share of failed requests, 0.0 to 1.0.
    pub error_rate_bits: u64,
}

/// Statistics with every count zero (the bit pattern of 0.0 is 0).
pub open spec fn zero_stats() -> ServiceStats {
    ServiceStats {
        total_requests: 0,
        successful_requests: 0,
        failed_requests: 0,
        avg_response_time_us: 0,
        current_load_bits: 0,
        peak_load_bits: 0,
        uptime_seconds: 0,
        last_updated: 0,
        request_rate_bits: 0,
        error_rate_bits: 0,
    }
}

impl Default for ServiceStats {
    fn default() -> (s: Self)
        ensures
            s == zero_stats(),
    {
        ServiceStats {
            total_requests: 0,
            successful_requests: 0,
            failed_requests: 0,
            avg_response_time_us: 0,
            current_load_bits: 0,
            peak_load_bits: 0,
            uptime_seconds: 0,
            last_updated: 0,
            request_rate_bits: 0,
            error_rate_bits: 0,
        }
    }
}

/// Statistics of the whole registry; the average load is the bit pattern of
/// an IEEE 754 single.
#[derive(Debug, Clone, Copy)]
pub struct RegistryStats {
    pub total_services: usize,
    pub active_services: usize,
    pub total_requests: u64,
    pub successful_requests: u64,
    pub failed_requests: u64,
    pub average_load_bits: u32,
    pub registry_uptime: u64,
}

/// The load of a service: the larger of its processor and memory use.
pub open spec fn load_of(l: ServiceLoadInfo) -> u32 {
    f32_max_bits(l.cpu_usage_bits, l.memory_usage_bits)
}

/// The state a load report puts a service in: overloaded above 0.9,
/// busy above 0.7, ready otherwise.
pub open spec fn status_for_load(l: ServiceLoadInfo) -> ServiceState {
    if f32_greater(load_of(l), crate::hybrid_query_optimizer::F32_0_9) {
        ServiceState::Overloaded
    } else if f32_greater(load_of(l), crate::hybrid_query_optimizer::F32_0_7) {
        ServiceState::Busy
    } else {
        ServiceState::Ready
    }
}

/// Whether a service takes requests: when ready or busy.
pub open spec fn is_available(s: RegisteredService) -> bool {
    s.status == ServiceState::Ready || s.status == ServiceState::Busy
}

/// Why a description cannot be registered, if it cannot: an empty or too
/// long id or name, no dimension, or a batch size of zero.
pub open spec fn service_info_error(info: ServiceInfo) -> Option<Seq<char>> {
    if byte_len(info.id@) == 0 || byte_len(info.id@) > MAX_SERVICE_NAME_LEN {
        Some("Invalid service ID"@)
    } else if byte_len(info.name@) == 0 || byte_len(info.name@) > MAX_SERVICE_NAME_LEN {
        Some("Invalid service name"@)
    } else if info.capabilities.supported_dimensions@.len() == 0 {
        Some("No supported dimensions"@)
    } else if info.capabilities.max_batch_size == 0 {
        Some("Invalid batch size"@)
    } else {
        None
    }
}

/// Whether `s` is what registering `info` records: stamped now, starting,
/// health unknown with score 0 and no details, no load, no tags and
/// priority 128.
pub open spec fn is_fresh_registration(s: RegisteredService, info: ServiceInfo) -> bool {
    &&& s.info == info
    &&& s.registered_at == service_now()
    &&& s.last_heartbeat == service_now()
    &&& s.status == ServiceState::Starting
    &&& s.health.status == HealthStatus::Unknown
    &&& s.health.score == 0
    &&& s.health.last_check == 0
    &&& s.health.details@.len() == 0
    &&& s.load_info == ServiceLoadInfo {
        cpu_usage_bits: 0,
        memory_usage_bits: 0,
        active_requests: 0,
        queue_depth: 0,
        avg_response_time_ms: 0,
    }
    &&& s.tags@.len() == 0
    &&& s.priority == 128
}

/// Whether a text is among a list of texts.
pub open spec fn texts_contain(v: Seq<String>, t: Seq<char>) -> bool {
    exists|j: int| 0 <= j < v.len() && (#[trigger] v[j])@ == t
}

/// Whether a service's capabilities cover the required ones: every
/// required dimension and data type, a batch at least as large, and, when
/// models are required, one of them.
pub open spec fn covers_capabilities(service: ServiceCapabilities, required: ServiceCapabilities) -> bool {
    &&& forall|i: int|
        0 <= i < required.supported_dimensions@.len() ==> service.supported_dimensions@.contains(
            #[trigger] required.supported_dimensions@[i],
        )
    &&& forall|i: int|
        0 <= i < required.supported_data_types@.len() ==> service.supported_data_types@.contains(
            #[trigger] required.supported_data_types@[i],
        )
    &&& service.max_batch_size >= required.max_batch_size
    &&& (required.supported_models@.len() > 0 ==> exists|i: int|
        0 <= i < required.supported_models@.len() && texts_contain(
            service.supported_models@,
            (#[trigger] required.supported_models@[i])@,
        ))
}

/// Conditions a service must meet; each is checked only when set. The
/// load bound is the bit pattern of an IEEE 754 single.
#[derive(Debug, Clone)]
pub struct ServiceFilter {
    /// Dimensions the service must all support.
    pub dimensions: Option<Vec<u32>>,
    /// Data types the service must all support.
    pub data_types: Option<Vec<VectorDataType>>,
    /// Models of which the service must support one.
    pub models: Option<Vec<String>>,
    pub min_batch_size: Option<usize>,
    pub max_load_bits: Option<u32>,
    pub min_health_score: Option<u8>,
    /// Tags the service must all carry.
    pub tags: Option<Vec<String>>,
    pub min_priority: Option<u8>,
}

/// Whether a service meets every condition a filter sets.
pub open spec fn filter_accepts(f: ServiceFilter, s: RegisteredService) -> bool {
    &&& (f.dimensions matches Some(d) ==> forall|i: int|
        0 <= i < d@.len() ==> s.info.capabilities.supported_dimensions@.contains(#[trigger] d@[i]))
    &&& (f.data_types matches Some(t) ==> forall|i: int|
        0 <= i < t@.len() ==> s.info.capabilities.supported_data_types@.contains(#[trigger] t@[i]))
    &&& (f.models matches Some(m) ==> exists|i: int|
        0 <= i < m@.len() && texts_contain(s.info.capabilities.supported_models@, (#[trigger] m@[i])@))
    &&& (f.min_batch_size matches Some(b) ==> s.info.capabilities.max_batch_size >= b)
    &&& (f.max_load_bits matches Some(l) ==> !f32_greater(load_of(s.load_info), l))
    &&& (f.min_health_score matches Some(h) ==> s.health.score >= h)
    &&& (f.tags matches Some(t) ==> forall|i: int| 0 <= i < t@.len() ==> texts_contain(s.tags@, (#[trigger] t@[i])@))
    &&& (f.min_priority matches Some(p) ==> s.priority >= p)
}

/// A service meets a filter exactly when it meets every condition the
/// filter sets: all listed dimensions, data types and tags, one of the
/// listed models, a batch size, health score and priority at least the
/// set ones, and a load not above the set bound.
pub proof fn lemma_filter_conditions(f: ServiceFilter, s: RegisteredService)
    ensures
        filter_accepts(f, s) <==> {
            &&& f.dimensions is Some ==> forall|i: int| 0 <= i < (f.dimensions->0)@.len()
                ==> s.info.capabilities.supported_dimensions@.contains(#[trigger] (f.dimensions->0)@[i])
            &&& f.data_types is Some ==> forall|i: int| 0 <= i < (f.data_types->0)@.len()
                ==> s.info.capabilities.supported_data_types@.contains(#[trigger] (f.data_types->0)@[i])
            &&& f.models is Some ==> exists|i: int| 0 <= i < (f.models->0)@.len() && texts_contain(
                s.info.capabilities.supported_models@,
                (#[trigger] (f.models->0)@[i])@,
            )
            &&& f.min_batch_size is Some ==> s.info.capabilities.max_batch_size >= f.min_batch_size->0
            &&& f.max_load_bits is Some ==> !f32_greater(load_of(s.load_info), f.max_load_bits->0)
            &&& f.min_health_score is Some ==> s.health.score >= f.min_health_score->0
            &&& f.tags is Some ==> forall|i: int| 0 <= i < (f.tags->0)@.len() ==> texts_contain(
                s.tags@,
                (#[trigger] (f.tags->0)@[i])@,
            )
            &&& f.min_priority is Some ==> s.priority >= f.min_priority->0
        },
{
}

/// A load report above 0.9 (bit pattern 0x3f66_6666) makes a service
/// overloaded, one above 0.7 (0x3f33_3333) busy, any other ready; the load
/// is the larger of processor and memory use.
pub proof fn lemma_status_thresholds(l: ServiceLoadInfo)
    ensures
        status_for_load(l) == (if f32_greater(f32_max_bits(l.cpu_usage_bits, l.memory_usage_bits), 0x3f66_6666u32) {
            ServiceState::Overloaded
        } else if f32_greater(f32_max_bits(l.cpu_usage_bits, l.memory_usage_bits), 0x3f33_3333u32) {
            ServiceState::Busy
        } else {
            ServiceState::Ready
        }),
{
}

/// Available services whose capabilities cover the required ones.
pub open spec fn capability_query(required: ServiceCapabilities) -> spec_fn(RegisteredService) -> bool {
    |s: RegisteredService| covers_capabilities(s.info.capabilities, required) && is_available(s)
}

/// What a capability search returns: services from the list searched that
/// are ready or busy, take batches at least as large as required, and
/// support every required dimension and data type and, when models are
/// required, one of them; and every such service of the list is returned.
pub proof fn lemma_capability_search(services: Seq<RegisteredService>, required: ServiceCapabilities)
    ensures
        forall|i: int| 0 <= i < services.filter(capability_query(required)).len() ==> {
            let s = #[trigger] services.filter(capability_query(required))[i];
            &&& services.contains(s)
            &&& s.status == ServiceState::Ready || s.status == ServiceState::Busy
            &&& s.info.capabilities.max_batch_size >= required.max_batch_size
            &&& forall|d: int| 0 <= d < required.supported_dimensions@.len()
                ==> s.info.capabilities.supported_dimensions@.contains(#[trigger] required.supported_dimensions@[d])
            &&& forall|t: int| 0 <= t < required.supported_data_types@.len()
                ==> s.info.capabilities.supported_data_types@.contains(#[trigger] required.supported_data_types@[t])
            &&& required.supported_models@.len() > 0 ==> exists|m: int|
                0 <= m < required.supported_models@.len() && texts_contain(
                    s.info.capabilities.supported_models@,
                    (#[trigger] required.supported_models@[m])@,
                )
        },
        forall|j: int| 0 <= j < services.len() && covers_capabilities(services[j].info.capabilities, required)
            && (services[j].status == ServiceState::Ready || services[j].status == ServiceState::Busy)
            ==> services.filter(capability_query(required)).contains(#[trigger] services[j]),
        forall|j: int| 0 <= j < services.len() && (#[trigger] services[j]).info.capabilities.max_batch_size
            < required.max_batch_size ==> !services.filter(capability_query(required)).contains(services[j]),
{
    broadcast use vstd::seq_lib::group_filter_ensures;
    let f = services.filter(capability_query(required));
    assert forall|i: int| 0 <= i < f.len() implies capability_query(required)(#[trigger] f[i]) && services.contains(f[i]) by {
        assert(f.contains(f[i]));
        services.lemma_filter_pred(capability_query(required), i);
        services.lemma_filter_contains_rev(capability_query(required), f[i]);
    }
    assert forall|j: int| 0 <= j < services.len() && covers_capabilities(services[j].info.capabilities, required)
        && (services[j].status == ServiceState::Ready || services[j].status == ServiceState::Busy)
        implies f.contains(#[trigger] services[j]) by {
        services.lemma_filter_contains(capability_query(required), j);
    }
    assert forall|j: int| 0 <= j < services.len() && (#[trigger] services[j]).info.capabilities.max_batch_size
        < required.max_batch_size implies !f.contains(services[j]) by {
        if f.contains(services[j]) {
            let w = choose|w: int| 0 <= w < f.len() && f[w] == services[j];
            services.lemma_filter_pred(capability_query(required), w);
            assert(capability_query(required)(f[w]));
        }
    }
}

/// Available services that support a dimension.
pub open spec fn dimension_query(dimensions: u32) -> spec_fn(RegisteredService) -> bool {
    |s: RegisteredService| s.info.capabilities.supported_dimensions@.contains(dimensions) && is_available(s)
}

/// Available services that support a model.
pub open spec fn model_query(model: Seq<char>) -> spec_fn(RegisteredService) -> bool {
    |s: RegisteredService| texts_contain(s.info.capabilities.supported_models@, model) && is_available(s)
}

/// Available services.
pub open spec fn active_query() -> spec_fn(RegisteredService) -> bool {
    |s: RegisteredService| is_available(s)
}

/// Available services that a filter accepts.
pub open spec fn filter_query(f: ServiceFilter) -> spec_fn(RegisteredService) -> bool {
    |s: RegisteredService| filter_accepts(f, s) && is_available(s)
}

/// Available services of one priority.
pub open spec fn priority_query(p: u8) -> spec_fn(RegisteredService) -> bool {
    |s: RegisteredService| is_available(s) && s.priority == p
}

/// The services of `s` ordered by priority from the highest down to `p`,
/// each priority's services in their order in `s`: what a stable sort by
/// descending priority gives, restricted to priorities of at least `p`.
pub open spec fn by_priority_from(s: Seq<RegisteredService>, p: nat) -> Seq<RegisteredService>
    decreases 256 - p,
{
    if p >= 256 {
        Seq::empty()
    } else {
        by_priority_from(s, p + 1) + s.filter(priority_query(p as u8))
    }
}

/// The sum of one count over a list of statistics.
pub open spec fn sum_of(s: Seq<ServiceStats>, f: spec_fn(ServiceStats) -> u64) -> int
    decreases s.len(),
{
    if s.len() == 0 {
        0
    } else {
        sum_of(s.drop_last(), f) + f(s.last())
    }
}

/// A count reduced to 64 bits, as a wrapping sum keeps it.
pub open spec fn wrap_u64(x: int) -> u64 {
    (x % 0x1_0000_0000_0000_0000) as u64
}

/// The services that sent no heartbeat for longer than the timeout.
pub open spec fn expired_services(services: Map<Seq<char>, RegisteredService>, timeout: u64) -> spec_fn(
    Seq<char>,
) -> bool {
    |k: Seq<char>| service_now() - services[k].last_heartbeat > timeout
}

/// The statistics after one more request: counted as a success or a
/// failure, the average response time moved a tenth of the way to the new
/// time (taken whole when there was none), stamped now.
pub open spec fn stats_after_request(st: ServiceStats, response_time_us: u64, success: bool) -> ServiceStats {
    ServiceStats {
        total_requests: (st.total_requests + 1) as u64,
        successful_requests: if success { (st.successful_requests + 1) as u64 } else { st.successful_requests },
        failed_requests: if success { st.failed_requests } else { (st.failed_requests + 1) as u64 },
        avg_response_time_us: if st.avg_response_time_us == 0 {
            response_time_us
        } else {
            ((st.avg_response_time_us * 9 + response_time_us) / 10) as u64
        },
        last_updated: service_now(),
        ..st
    }
}

/// Whether counting one more request for a service's statistics stays
/// within 64 bits.
pub open spec fn request_fits(st: ServiceStats, response_time_us: u64, success: bool) -> bool {
    &&& st.total_requests < u64::MAX
    &&& (success ==> st.successful_requests < u64::MAX)
    &&& (!success ==> st.failed_requests < u64::MAX)
    &&& (st.avg_response_time_us != 0 ==> st.avg_response_time_us * 9 + response_time_us <= u64::MAX)
}

/// Adding to a wrapped sum wraps the sum.
proof fn lemma_wrap_step(acc: u64, sum: int, x: u64)
    requires
        acc == wrap_u64(sum),
    ensures
        vstd::wrapping::u64_specs::wrapping_add(acc, x) == wrap_u64(sum + x),
{
    let m: int = 0x1_0000_0000_0000_0000;
    vstd::arithmetic::div_mod::lemma_add_mod_noop(sum, x as int, m);
    assert((x as int) % m == x as int) by {
        vstd::arithmetic::div_mod::lemma_small_mod(x as nat, m as nat);
    }
    assert(sum % m == acc as int);
    if acc + x >= m {
        assert((acc + x) % m == acc + x - m) by {
            vstd::arithmetic::div_mod::lemma_mod_add_multiples_vanish(acc + x - m, m);
            vstd::arithmetic::div_mod::lemma_small_mod((acc + x - m) as nat, m as nat);
        }
    } else {
        vstd::arithmetic::div_mod::lemma_small_mod((acc + x) as nat, m as nat);
    }
}

/// Filtering twice by the same condition filters once.
proof fn lemma_filter_twice<A>(x: Seq<A>, f: spec_fn(A) -> bool)
    ensures
        x.filter(f).filter(f) == x.filter(f),
    decreases x.len(),
{
    reveal_with_fuel(Seq::<_>::filter, 1);
    if x.len() > 0 {
        lemma_filter_twice(x.drop_last(), f);
        let y = x.drop_last().filter(f);
        if f(x.last()) {
            assert(y.push(x.last()).drop_last() =~= y);
        }
    }
}

/// Filtering a sequence none of whose elements passes leaves nothing.
proof fn lemma_filter_none<A>(x: Seq<A>, f: spec_fn(A) -> bool)
    requires
        forall|i: int| 0 <= i < x.len() ==> !f(#[trigger] x[i]),
    ensures
        x.filter(f) == Seq::<A>::empty(),
{
    assert(x.all(|a: A| !f(a)));
    x.lemma_all_neg_filter_empty(f);
    assert(x.filter(f) =~= Seq::<A>::empty());
}

/// Ordering by priority keeps only available services of priority at
/// least `p` and puts them highest priority first.
pub proof fn lemma_by_priority_sorted(s: Seq<RegisteredService>, p: nat)
    ensures
        forall|i: int|
            0 <= i < by_priority_from(s, p).len() ==> is_available(#[trigger] by_priority_from(s, p)[i])
                && by_priority_from(s, p)[i].priority >= p,
        forall|i: int, j: int|
            0 <= i < j < by_priority_from(s, p).len() ==> (#[trigger] by_priority_from(s, p)[i]).priority >= (
            #[trigger] by_priority_from(s, p)[j]).priority,
    decreases 256 - p,
{
    if p < 256 {
        lemma_by_priority_sorted(s, p + 1);
        let a = by_priority_from(s, p + 1);
        let b = s.filter(priority_query(p as u8));
        let r = by_priority_from(s, p);
        assert(r == a + b);
        assert forall|i: int| 0 <= i < b.len() implies is_available(#[trigger] b[i]) && b[i].priority == p by {
            s.lemma_filter_pred(priority_query(p as u8), i);
        }
        assert forall|i: int| 0 <= i < r.len() implies is_available(#[trigger] r[i]) && r[i].priority >= p by {
            if i >= a.len() {
                assert(r[i] == b[i - a.len()]);
            } else {
                assert(r[i] == a[i]);
            }
        }
        assert forall|i: int, j: int| 0 <= i < j < r.len() implies (#[trigger] r[i]).priority >= (
        #[trigger] r[j]).priority by {
            if j < a.len() {
                assert(r[i] == a[i] && r[j] == a[j]);
            } else if i >= a.len() {
                assert(r[i] == b[i - a.len()] && r[j] == b[j - a.len()]);
            } else {
                assert(r[i] == a[i] && r[j] == b[j - a.len()]);
            }
        }
    }
}

/// Ordering by priority keeps, for each priority of at least `p`, exactly
/// the available services of that priority in their order in `s`: it is a
/// stable sort.
pub proof fn lemma_by_priority_stable(s: Seq<RegisteredService>, p: nat, q: u8)
    requires
        q >= p,
    ensures
        by_priority_from(s, p).filter(priority_query(q)) == s.filter(priority_query(q)),
    decreases 256 - p,
{
    let a = by_priority_from(s, p + 1);
    let b = s.filter(priority_query(p as u8));
    lemma_by_priority_sorted(s, p + 1);
    assert(by_priority_from(s, p) == a + b);
    Seq::filter_distributes_over_add(a, b, priority_query(q));
    assert forall|i: int| 0 <= i < b.len() implies (#[trigger] b[i]).priority == p by {
        s.lemma_filter_pred(priority_query(p as u8), i);
    }
    if q == p {
        lemma_filter_none(a, priority_query(q));
        lemma_filter_twice(s, priority_query(q));
        assert(a.filter(priority_query(q)) + b.filter(priority_query(q)) =~= b);
    } else {
        lemma_by_priority_stable(s, p + 1, q);
        lemma_filter_none(b, priority_query(q));
        assert(a.filter(priority_query(q)) + b.filter(priority_query(q)) =~= s.filter(priority_query(q)));
    }
}

/// Unregistering a service just registered gives the registry back the
/// services and statistics it had.
pub proof fn lemma_unregister_undoes_register(
    before: &ServiceRegistry,
    registered: &ServiceRegistry,
    after: &ServiceRegistry,
    id: Seq<char>,
)
    requires
        before.wf(),
        !before.services().contains_key(id),
        registered.services().remove(id) == before.services(),
        registered.stats() == before.stats().insert(id, zero_stats()),
        after.services() == registered.services().remove(id),
        after.stats() == registered.stats().remove(id),
    ensures
        after.services() == before.services(),
        after.stats() == before.stats(),
{
    assert(!before.stats().contains_key(id));
    assert(after.stats() =~= before.stats());
}

/// What a query of the registry picks.
enum Query<'a> {
    Capabilities(&'a ServiceCapabilities),
    Dimensions(u32),
    Model(&'a str),
    Active,
    Filter(&'a ServiceFilter),
    Priority(u8),
}

spec fn query_pred(q: Query) -> spec_fn(RegisteredService) -> bool {
    match q {
        Query::Capabilities(c) => capability_query(*c),
        Query::Dimensions(d) => dimension_query(d),
        Query::Model(m) => model_query(m@),
        Query::Active => active_query(),
        Query::Filter(f) => filter_query(*f),
        Query::Priority(p) => priority_query(p),
    }
}

fn contains_u32(v: &Vec<u32>, x: u32) -> (b: bool)
    ensures
        b == v@.contains(x),
{
    let mut i: usize = 0;
    while i < v.len()
        invariant
            i <= v@.len(),
            forall|j: int| 0 <= j < i ==> v@[j] != x,
        decreases v@.len() - i,
    {
        if v[i] == x {
            return true;
        }
        i += 1;
    }
    false
}

fn contains_data_type(v: &Vec<VectorDataType>, x: VectorDataType) -> (b: bool)
    ensures
        b == v@.contains(x),
{
    let mut i: usize = 0;
    while i < v.len()
        invariant
            i <= v@.len(),
            forall|j: int| 0 <= j < i ==> v@[j] != x,
        decreases v@.len() - i,
    {
        if v[i] == x {
            return true;
        }
        i += 1;
    }
    false
}

fn contains_text(v: &Vec<String>, t: &str) -> (b: bool)
    ensures
        b == texts_contain(v@, t@),
{
    let mut i: usize = 0;
    while i < v.len()
        invariant
            i <= v@.len(),
            forall|j: int| 0 <= j < i ==> (#[trigger] v@[j])@ != t@,
        decreases v@.len() - i,
    {
        if str_eq(v[i].as_str(), t) {
            return true;
        }
        i += 1;
    }
    false
}

fn covers(service_caps: &ServiceCapabilities, required_caps: &ServiceCapabilities) -> (b: bool)
    ensures
        b == covers_capabilities(*service_caps, *required_caps),
{
    let dims = &required_caps.supported_dimensions;
    let mut i: usize = 0;
    while i < dims.len()
        invariant
            i <= dims@.len(),
            dims == required_caps.supported_dimensions,
            forall|j: int| 0 <= j < i ==> service_caps.supported_dimensions@.contains(#[trigger] dims@[j]),
        decreases dims@.len() - i,
    {
        if !contains_u32(&service_caps.supported_dimensions, dims[i]) {
            assert(!service_caps.supported_dimensions@.contains(dims@[i as int]));
            return false;
        }
        i += 1;
    }
    let types = &required_caps.supported_data_types;
    let mut i: usize = 0;
    while i < types.len()
        invariant
            i <= types@.len(),
            types == required_caps.supported_data_types,
            forall|j: int|
                0 <= j < required_caps.supported_dimensions@.len() ==> service_caps.supported_dimensions@.contains(
                    #[trigger] required_caps.supported_dimensions@[j],
                ),
            forall|j: int| 0 <= j < i ==> service_caps.supported_data_types@.contains(#[trigger] types@[j]),
        decreases types@.len() - i,
    {
        if !contains_data_type(&service_caps.supported_data_types, types[i]) {
            assert(!service_caps.supported_data_types@.contains(types@[i as int]));
            return false;
        }
        i += 1;
    }
    if service_caps.max_batch_size < required_caps.max_batch_size {
        return false;
    }
    let models = &required_caps.supported_models;
    if models.len() > 0 {
        let mut i: usize = 0;
        while i < models.len()
            invariant
                i <= models@.len(),
                models == required_caps.supported_models,
                service_caps.max_batch_size >= required_caps.max_batch_size,
                forall|j: int|
                    0 <= j < required_caps.supported_dimensions@.len() ==> service_caps.supported_dimensions@.contains(
                        #[trigger] required_caps.supported_dimensions@[j],
                    ),
                forall|j: int|
                    0 <= j < required_caps.supported_data_types@.len() ==> service_caps.supported_data_types@.contains(
                        #[trigger] required_caps.supported_data_types@[j],
                    ),
                forall|j: int|
                    0 <= j < i ==> !texts_contain(service_caps.supported_models@, (#[trigger] models@[j])@),
            decreases models@.len() - i,
        {
            if contains_text(&service_caps.supported_models, models[i].as_str()) {
                assert(texts_contain(service_caps.supported_models@, models@[i as int]@));
                return true;
            }
            i += 1;
        }
        return false;
    }
    true
}

impl ServiceFilter {
    /// A filter that sets no condition.
    pub fn new() -> (f: Self)
        ensures
            f.dimensions is None,
            f.data_types is None,
            f.models is None,
            f.min_batch_size is None,
            f.max_load_bits is None,
            f.min_health_score is None,
            f.tags is None,
            f.min_priority is None,
    {
        ServiceFilter {
            dimensions: None,
            data_types: None,
            models: None,
            min_batch_size: None,
            max_load_bits: None,
            min_health_score: None,
            tags: None,
            min_priority: None,
        }
    }

    /// Whether a service meets every condition the filter sets.
    #[verifier::loop_isolation(false)]
    pub fn matches(&self, service: &RegisteredService) -> (b: bool)
        ensures
            b == filter_accepts(*self, *service),
    {
        let caps = &service.info.capabilities;
        if let Some(required_dims) = &self.dimensions {
            let mut i: usize = 0;
            while i < required_dims.len()
                invariant
                    i <= required_dims@.len(),
                    forall|j: int| 0 <= j < i ==> caps.supported_dimensions@.contains(#[trigger] required_dims@[j]),
                decreases required_dims@.len() - i,
            {
                if !contains_u32(&caps.supported_dimensions, required_dims[i]) {
                    assert(!caps.supported_dimensions@.contains(required_dims@[i as int]));
                    return false;
                }
                i += 1;
            }
        }
        if let Some(required_types) = &self.data_types {
            let mut i: usize = 0;
            while i < required_types.len()
                invariant
                    i <= required_types@.len(),
                    forall|j: int| 0 <= j < i ==> caps.supported_data_types@.contains(#[trigger] required_types@[j]),
                decreases required_types@.len() - i,
            {
                if !contains_data_type(&caps.supported_data_types, required_types[i]) {
                    assert(!caps.supported_data_types@.contains(required_types@[i as int]));
                    return false;
                }
                i += 1;
            }
        }
        if let Some(required_models) = &self.models {
            let mut found = false;
            let mut i: usize = 0;
            while i < required_models.len()
                invariant
                    i <= required_models@.len(),
                    found == exists|j: int|
                        0 <= j < i && texts_contain(caps.supported_models@, (#[trigger] required_models@[j])@),
                decreases required_models@.len() - i,
            {
                if contains_text(&caps.supported_models, required_models[i].as_str()) {
                    found = true;
                }
                i += 1;
            }
            if !found {
                return false;
            }
        }
        if let Some(min_batch) = self.min_batch_size {
            if (caps.max_batch_size as usize) < min_batch {
                return false;
            }
        }
        if let Some(max_load) = self.max_load_bits {
            let current_load = f32_max(service.load_info.cpu_usage_bits, service.load_info.memory_usage_bits);
            if f32_gt(current_load, max_load) {
                return false;
            }
        }
        if let Some(min_health) = self.min_health_score {
            if service.health.score < min_health {
                return false;
            }
        }
        if let Some(required_tags) = &self.tags {
            let mut i: usize = 0;
            while i < required_tags.len()
                invariant
                    i <= required_tags@.len(),
                    forall|j: int| 0 <= j < i ==> texts_contain(service.tags@, (#[trigger] required_tags@[j])@),
                decreases required_tags@.len() - i,
            {
                if !contains_text(&service.tags, required_tags[i].as_str()) {
                    assert(!texts_contain(service.tags@, required_tags@[i as int]@));
                    return false;
                }
                i += 1;
            }
        }
        if let Some(min_priority) = self.min_priority {
            if service.priority < min_priority {
                return false;
            }
        }
        true
    }
}

/// The registry of embedding services.
pub struct ServiceRegistry {
    services: TextMap<RegisteredService>,
    stats: TextMap<ServiceStats>,
    config: RegistryConfig,
}

impl ServiceRegistry {
    /// The settings.
    pub closed spec fn settings(&self) -> RegistryConfig {
        self.config
    }

    /// The registered services, by id.
    pub closed spec fn services(&self) -> Map<Seq<char>, RegisteredService> {
        self.services@
    }

    /// The ids of the registered services, in increasing order.
    pub closed spec fn service_ids(&self) -> Seq<Seq<char>> {
        self.services.keys_seq()
    }

    /// The statistics of each registered service, by id.
    pub closed spec fn stats(&self) -> Map<Seq<char>, ServiceStats> {
        self.stats@
    }

    /// The ids that have statistics, in increasing order.
    pub closed spec fn stats_ids(&self) -> Seq<Seq<char>> {
        self.stats.keys_seq()
    }

    /// The registered services in increasing order of id.
    pub open spec fn listed(&self) -> Seq<RegisteredService> {
        self.service_ids().map_values(|k: Seq<char>| self.services()[k])
    }

    /// The statistics in increasing order of id.
    pub open spec fn listed_stats(&self) -> Seq<ServiceStats> {
        self.stats_ids().map_values(|k: Seq<char>| self.stats()[k])
    }

    /// Internal consistency: every service is stored under its own id, has
    /// statistics and no statistics are kept for others, and it registered
    /// and was heard from no later than now.
    pub closed spec fn wf(&self) -> bool {
        &&& self.services.wf()
        &&& self.stats.wf()
        &&& self.stats@.dom() == self.services@.dom()
        &&& forall|k: Seq<char>| #[trigger]
            self.services@.contains_key(k) ==> {
                &&& self.services@[k].info.id@ == k
                &&& self.services@[k].registered_at <= service_now()
                &&& self.services@[k].last_heartbeat <= service_now()
            }
    }

    /// The number of registered services.
    pub proof fn lemma_count(&self)
        requires
            self.wf(),
        ensures
            self.services().dom().finite(),
            self.services().dom().len() == self.service_ids().len(),
            self.services().dom() == self.service_ids().to_set(),
    {
        self.services.lemma_len();
    }

    /// An available service of the listing is registered under its own id.
    pub proof fn lemma_listed_available(&self, i: int)
        requires
            self.wf(),
            0 <= i < self.listed().filter(active_query()).len(),
        ensures
            ({
                let s = self.listed().filter(active_query())[i];
                &&& self.services().contains_key(s.info.id@)
                &&& self.services()[s.info.id@] == s
                &&& is_available(s)
            }),
    {
        let l = self.listed();
        let s = l.filter(active_query())[i];
        l.lemma_filter_pred(active_query(), i);
        assert(l.filter(active_query()).contains(s));
        l.lemma_filter_contains_rev(active_query(), s);
        let j = choose|j: int| 0 <= j < l.len() && l[j] == s;
        self.services.lemma_entry(j);
    }

    /// An empty registry with the default settings.
    pub fn new() -> (r: Self)
        ensures
            r.wf(),
            r.services() == Map::<Seq<char>, RegisteredService>::empty(),
            r.stats() == Map::<Seq<char>, ServiceStats>::empty(),
            r.settings().max_services == 100,
            r.settings().service_timeout_sec == 300,
    {
        Self::with_config(RegistryConfig::default())
    }

    /// An empty registry with the given settings.
    pub fn with_config(config: RegistryConfig) -> (r: Self)
        ensures
            r.wf(),
            r.services() == Map::<Seq<char>, RegisteredService>::empty(),
            r.stats() == Map::<Seq<char>, ServiceStats>::empty(),
            r.settings() == config,
    {
        ServiceRegistry { services: TextMap::new(), stats: TextMap::new(), config }
    }

    /// Register a service. Refused when the registry is full, when the
    /// description is invalid (see `service_info_error`) and when the id is
    /// taken, in that order of checking; otherwise the service is recorded
    /// as `is_fresh_registration` says, with zero statistics.
    pub fn register_service(&mut self, service_info: ServiceInfo) -> (r: IpcResult<()>)
        requires
            old(self).wf(),
        ensures
            final(self).wf(),
            final(self).settings() == old(self).settings(),
            ({
                let id = service_info.id@;
                if old(self).services().dom().len() >= old(self).settings().max_services {
                    &&& r matches Err(e) && e@ == IpcErrorView::RegistrationFailed("Registry full"@)
                    &&& final(self).services() == old(self).services()
                    &&& final(self).stats() == old(self).stats()
                } else if service_info_error(service_info) is Some {
                    &&& r matches Err(e) && e@ == IpcErrorView::RegistrationFailed(
                        service_info_error(service_info).unwrap(),
                    )
                    &&& final(self).services() == old(self).services()
                    &&& final(self).stats() == old(self).stats()
                } else if old(self).services().contains_key(id) {
                    &&& r matches Err(e) && e@ == IpcErrorView::RegistrationFailed("Service already registered"@)
                    &&& final(self).services() == old(self).services()
                    &&& final(self).stats() == old(self).stats()
                } else {
                    &&& r is Ok
                    &&& final(self).services().dom() == old(self).services().dom().insert(id)
                    &&& final(self).services().remove(id) == old(self).services()
                    &&& is_fresh_registration(final(self).services()[id], service_info)
                    &&& final(self).stats() == old(self).stats().insert(id, zero_stats())
                }
            }),
    {
        proof {
            self.services.lemma_len();
        }
        if self.services.len() >= self.config.max_services {
            return Err(IpcError::RegistrationFailed(message("Registry full")));
        }
        if let Err(e) = Self::validate_service_info(&service_info) {
            return Err(e);
        }
        if self.services.contains_key(service_info.id.as_str()) {
            return Err(IpcError::RegistrationFailed(message("Service already registered")));
        }
        let now = self.get_current_timestamp();
        let ghost id = service_info.id@;
        let ghost old_services = self.services@;
        let key = service_info.id.clone();
        let stats_key = service_info.id.clone();
        let registered_service = RegisteredService {
            info: service_info,
            registered_at: now,
            last_heartbeat: now,
            status: ServiceState::Starting,
            health: ServiceHealth { status: HealthStatus::Unknown, score: 0, last_check: 0, details: Vec::new() },
            load_info: ServiceLoadInfo {
                cpu_usage_bits: 0,
                memory_usage_bits: 0,
                active_requests: 0,
                queue_depth: 0,
                avg_response_time_ms: 0,
            },
            tags: Vec::new(),
            priority: 128,
        };
        self.services.insert(key, registered_service);
        self.stats.insert(stats_key, ServiceStats::default());
        proof {
            assert(self.services@.remove(id) =~= old_services);
            assert(self.services@.dom() =~= old_services.dom().insert(id));
            assert(self.stats@.dom() =~= self.services@.dom());
        }
        Ok(())
    }

    /// Remove a service and its statistics; refused when it is not
    /// registered.
    pub fn unregister_service(&mut self, service_id: &str) -> (r: IpcResult<()>)
        requires
            old(self).wf(),
        ensures
            final(self).wf(),
            final(self).settings() == old(self).settings(),
            if old(self).services().contains_key(service_id@) {
                &&& r is Ok
                &&& final(self).services() == old(self).services().remove(service_id@)
                &&& final(self).stats() == old(self).stats().remove(service_id@)
            } else {
                &&& r matches Err(e) && e@ == IpcErrorView::ServiceNotFound(service_id@)
                &&& final(self).services() == old(self).services()
                &&& final(self).stats() == old(self).stats()
            },
    {
        if !self.services.contains_key(service_id) {
            return Err(IpcError::ServiceNotFound(message(service_id)));
        }
        self.services.remove(service_id);
        self.stats.remove(service_id);
        proof {
            assert(self.stats@.dom() =~= self.services@.dom());
        }
        Ok(())
    }

    /// Take a heartbeat with a load report: the service is stamped now,
    /// keeps the report and takes the state the load calls for
    /// (`status_for_load`); its statistics take the load, the peak load
    /// grows to it, and the uptime is counted from registration. Refused
    /// when the service is not registered.
    pub fn update_heartbeat(&mut self, service_id: &str, load_info: ServiceLoadInfo) -> (r: IpcResult<()>)
        requires
            old(self).wf(),
        ensures
            final(self).wf(),
            final(self).settings() == old(self).settings(),
            final(self).service_ids() == old(self).service_ids(),
            if old(self).services().contains_key(service_id@) {
                let before = old(self).services()[service_id@];
                let st = old(self).stats()[service_id@];
                &&& r is Ok
                &&& final(self).services() == old(self).services().insert(
                    service_id@,
                    RegisteredService {
                        last_heartbeat: service_now(),
                        load_info: load_info,
                        status: status_for_load(load_info),
                        ..before
                    },
                )
                &&& final(self).stats() == old(self).stats().insert(
                    service_id@,
                    ServiceStats {
                        current_load_bits: load_of(load_info),
                        peak_load_bits: f32_max_bits(st.peak_load_bits, load_of(load_info)),
                        last_updated: service_now(),
                        uptime_seconds: (service_now() - before.registered_at) as u64,
                        ..st
                    },
                )
            } else {
                &&& r matches Err(e) && e@ == IpcErrorView::ServiceNotFound(service_id@)
                &&& final(self).services() == old(self).services()
                &&& final(self).stats() == old(self).stats()
            },
    {
        let i = match self.services.position(service_id) {
            Some(i) => i,
            None => {
                return Err(IpcError::ServiceNotFound(message(service_id)));
            },
        };
        let current_timestamp = self.get_current_timestamp();
        let registered_at = self.services.value_at(i).registered_at;
        let new_status = Self::determine_service_status(&load_info);
        let current_load = f32_max(load_info.cpu_usage_bits, load_info.memory_usage_bits);
        let ghost old_services = self.services;
        proof {
            self.services.lemma_entry(i as int);
        }
        {
            let service = self.services.value_mut_at(i);
            service.last_heartbeat = current_timestamp;
            service.load_info = load_info;
            service.status = new_status;
        }
        proof {
            TextMap::lemma_value_changed(&old_services, &self.services, i as int, self.services.value_seq(i as int));
            assert(self.services@.dom() =~= old_services@.dom());
        }
        let j = match self.stats.position(service_id) {
            Some(j) => j,
            None => {
                return Ok(());
            },
        };
        let mut stats = *self.stats.value_at(j);
        stats.current_load_bits = current_load;
        stats.peak_load_bits = f32_max(stats.peak_load_bits, stats.current_load_bits);
        stats.last_updated = current_timestamp;
        stats.uptime_seconds = current_timestamp - registered_at;
        self.stats.set_value_at(j, stats);
        proof {
            assert(self.stats@.dom() =~= self.services@.dom());
        }
        Ok(())
    }

    /// Replace the health report of a service; refused when it is not
    /// registered.
    pub fn update_health(&mut self, service_id: &str, health: ServiceHealth) -> (r: IpcResult<()>)
        requires
            old(self).wf(),
        ensures
            final(self).wf(),
            final(self).settings() == old(self).settings(),
            final(self).service_ids() == old(self).service_ids(),
            final(self).stats() == old(self).stats(),
            if old(self).services().contains_key(service_id@) {
                &&& r is Ok
                &&& final(self).services() == old(self).services().insert(
                    service_id@,
                    RegisteredService { health: health, ..old(self).services()[service_id@] },
                )
            } else {
                &&& r matches Err(e) && e@ == IpcErrorView::ServiceNotFound(service_id@)
                &&& final(self).services() == old(self).services()
            },
    {
        let i = match self.services.position(service_id) {
            Some(i) => i,
            None => {
                return Err(IpcError::ServiceNotFound(message(service_id)));
            },
        };
        let ghost old_services = self.services;
        proof {
            self.services.lemma_entry(i as int);
        }
        {
            let service = self.services.value_mut_at(i);
            service.health = health;
        }
        proof {
            TextMap::lemma_value_changed(&old_services, &self.services, i as int, self.services.value_seq(i as int));
            assert(self.services@.dom() =~= old_services@.dom());
        }
        Ok(())
    }

    /// The service registered under an id.
    pub fn get_service(&self, service_id: &str) -> (r: IpcResult<&RegisteredService>)
        requires
            self.wf(),
        ensures
            match r {
                Ok(s) => self.services().contains_key(service_id@) && *s == self.services()[service_id@],
                Err(e) => !self.services().contains_key(service_id@) && e@ == IpcErrorView::ServiceNotFound(
                    service_id@,
                ),
            },
    {
        match self.services.get(service_id) {
            Some(s) => Ok(s),
            None => Err(IpcError::ServiceNotFound(message(service_id))),
        }
    }

    /// The statistics of a service.
    pub fn get_service_stats(&self, service_id: &str) -> (r: IpcResult<ServiceStats>)
        requires
            self.wf(),
        ensures
            match r {
                Ok(s) => self.stats().contains_key(service_id@) && s == self.stats()[service_id@],
                Err(e) => !self.stats().contains_key(service_id@) && e@ == IpcErrorView::ServiceNotFound(
                    service_id@,
                ),
            },
    {
        match self.stats.get(service_id) {
            Some(s) => Ok(*s),
            None => Err(IpcError::ServiceNotFound(message(service_id))),
        }
    }

    fn determine_service_status(load_info: &ServiceLoadInfo) -> (s: ServiceState)
        ensures
            s == status_for_load(*load_info),
    {
        let max_load = f32_max(load_info.cpu_usage_bits, load_info.memory_usage_bits);
        if f32_gt(max_load, crate::hybrid_query_optimizer::F32_0_9) {
            ServiceState::Overloaded
        } else if f32_gt(max_load, crate::hybrid_query_optimizer::F32_0_7) {
            ServiceState::Busy
        } else {
            ServiceState::Ready
        }
    }

    /// Whether `q` picks the service `s`.
    fn query_matches(q: &Query, s: &RegisteredService) -> (b: bool)
        ensures
            b == query_pred(*q)(*s),
    {
        let available = Self::is_service_available(s);
        match q {
            Query::Capabilities(c) => covers(&s.info.capabilities, c) && available,
            Query::Dimensions(d) => contains_u32(&s.info.capabilities.supported_dimensions, *d) && available,
            Query::Model(m) => contains_text(&s.info.capabilities.supported_models, m) && available,
            Query::Active => available,
            Query::Filter(f) => f.matches(s) && available,
            Query::Priority(p) => available && s.priority == *p,
        }
    }

    /// The services `q` picks, in increasing order of id.
    fn select(&self, q: &Query) -> (r: Vec<&RegisteredService>)
        requires
            self.wf(),
        ensures
            r@.map_values(|p: &RegisteredService| *p) == self.listed().filter(query_pred(*q)),
    {
        let ghost listed = self.listed();
        let ghost pred = query_pred(*q);
        let n = self.services.len();
        let mut out: Vec<&RegisteredService> = Vec::new();
        let mut i: usize = 0;
        while i < n
            invariant
                self.wf(),
                n == self.service_ids().len(),
                listed == self.listed(),
                pred == query_pred(*q),
                i <= n,
                out@.map_values(|p: &RegisteredService| *p) == listed.subrange(0, i as int).filter(pred),
            decreases n - i,
        {
            proof {
                reveal_with_fuel(Seq::<_>::filter, 1);
                assert(listed.subrange(0, i + 1).drop_last() =~= listed.subrange(0, i as int));
                self.services.lemma_entry(i as int);
            }
            let s = self.services.value_at(i);
            assert(listed[i as int] == *s);
            if Self::query_matches(q, s) {
                let ghost prev = out@;
                out.push(s);
                assert(out@.map_values(|p: &RegisteredService| *p) =~= prev.map_values(|p: &RegisteredService| *p).push(
                    *s,
                ));
            }
            i += 1;
        }
        assert(listed.subrange(0, n as int) =~= listed);
        out
    }

    /// The available services whose capabilities cover the required ones,
    /// in increasing order of id.
    pub fn find_services_by_capabilities(&self, required_capabilities: &ServiceCapabilities) -> (r: Vec<
        &RegisteredService,
    >)
        requires
            self.wf(),
        ensures
            r@.map_values(|p: &RegisteredService| *p) == self.listed().filter(
                capability_query(*required_capabilities),
            ),
    {
        self.select(&Query::Capabilities(required_capabilities))
    }

    /// The available services that support a dimension, in increasing
    /// order of id.
    pub fn find_services_by_dimensions(&self, dimensions: u32) -> (r: Vec<&RegisteredService>)
        requires
            self.wf(),
        ensures
            r@.map_values(|p: &RegisteredService| *p) == self.listed().filter(dimension_query(dimensions)),
    {
        self.select(&Query::Dimensions(dimensions))
    }

    /// The available services that support a model, in increasing order of
    /// id.
    pub fn find_services_by_model(&self, model: &str) -> (r: Vec<&RegisteredService>)
        requires
            self.wf(),
        ensures
            r@.map_values(|p: &RegisteredService| *p) == self.listed().filter(model_query(model@)),
    {
        self.select(&Query::Model(model))
    }

    /// The available services, in increasing order of id.
    pub fn get_active_services(&self) -> (r: Vec<&RegisteredService>)
        requires
            self.wf(),
        ensures
            r@.map_values(|p: &RegisteredService| *p) == self.listed().filter(active_query()),
    {
        self.select(&Query::Active)
    }

    /// The available services a filter accepts, in increasing order of id.
    pub fn find_services_with_filter(&self, filter: &ServiceFilter) -> (r: Vec<&RegisteredService>)
        requires
            self.wf(),
        ensures
            r@.map_values(|p: &RegisteredService| *p) == self.listed().filter(filter_query(*filter)),
    {
        self.select(&Query::Filter(filter))
    }

    /// The number of available services.
    pub fn get_active_service_count(&self) -> (n: usize)
        requires
            self.wf(),
        ensures
            n == self.listed().filter(active_query()).len(),
    {
        let active = self.select(&Query::Active);
        assert(active@.map_values(|p: &RegisteredService| *p).len() == active@.len());
        active.len()
    }

    /// The available services by descending priority; services of equal
    /// priority keep their order of id.
    pub fn get_services_by_priority(&self) -> (r: Vec<&RegisteredService>)
        requires
            self.wf(),
        ensures
            r@.map_values(|p: &RegisteredService| *p) == by_priority_from(self.listed(), 0),
    {
        let ghost listed = self.listed();
        let mut out: Vec<&RegisteredService> = Vec::new();
        let mut level: u16 = 256;
        assert(out@.map_values(|p: &RegisteredService| *p) =~= by_priority_from(listed, 256));
        while level > 0
            invariant
                self.wf(),
                listed == self.listed(),
                level <= 256,
                out@.map_values(|p: &RegisteredService| *p) == by_priority_from(listed, level as nat),
            decreases level,
        {
            level -= 1;
            let p = level as u8;
            let part = self.select(&Query::Priority(p));
            let ghost base = out@;
            let mut j: usize = 0;
            while j < part.len()
                invariant
                    j <= part@.len(),
                    out@ == base + part@.subrange(0, j as int),
                decreases part@.len() - j,
            {
                out.push(part[j]);
                assert(out@ =~= base + part@.subrange(0, j + 1));
                j += 1;
            }
            proof {
                assert(part@.subrange(0, part@.len() as int) =~= part@);
                assert(out@.map_values(|p: &RegisteredService| *p) =~= base.map_values(|p: &RegisteredService| *p)
                    + part@.map_values(|p: &RegisteredService| *p));
                assert(p as nat == level as nat);
            }
        }
        out
    }

    /// Count one request of a service: see `stats_after_request`. Refused
    /// when the service has no statistics.
    pub fn update_service_stats(&mut self, service_id: &str, response_time_us: u64, success: bool) -> (r:
        IpcResult<()>)
        requires
            old(self).wf(),
            old(self).stats().contains_key(service_id@) ==> request_fits(
                old(self).stats()[service_id@],
                response_time_us,
                success,
            ),
        ensures
            final(self).wf(),
            final(self).settings() == old(self).settings(),
            final(self).services() == old(self).services(),
            final(self).service_ids() == old(self).service_ids(),
            if old(self).stats().contains_key(service_id@) {
                &&& r is Ok
                &&& final(self).stats() == old(self).stats().insert(
                    service_id@,
                    stats_after_request(old(self).stats()[service_id@], response_time_us, success),
                )
            } else {
                &&& r matches Err(e) && e@ == IpcErrorView::ServiceNotFound(service_id@)
                &&& final(self).stats() == old(self).stats()
            },
    {
        let current_timestamp = self.get_current_timestamp();
        let j = match self.stats.position(service_id) {
            Some(j) => j,
            None => {
                return Err(IpcError::ServiceNotFound(message(service_id)));
            },
        };
        let mut stats = *self.stats.value_at(j);
        stats.total_requests = stats.total_requests + 1;
        if success {
            stats.successful_requests = stats.successful_requests + 1;
        } else {
            stats.failed_requests = stats.failed_requests + 1;
        }
        if stats.avg_response_time_us == 0 {
            stats.avg_response_time_us = response_time_us;
        } else {
            stats.avg_response_time_us = (stats.avg_response_time_us * 9 + response_time_us) / 10;
        }
        stats.last_updated = current_timestamp;
        self.stats.set_value_at(j, stats);
        proof {
            assert(self.stats@.dom() =~= self.services@.dom());
        }
        Ok(())
    }

    /// Record the share of failed requests of a service, the bit pattern of
    /// an IEEE 754 double. Refused when the service has no statistics.
    pub fn record_error_rate(&mut self, service_id: &str, error_rate_bits: u64) -> (r: IpcResult<()>)
        requires
            old(self).wf(),
        ensures
            final(self).wf(),
            final(self).settings() == old(self).settings(),
            final(self).services() == old(self).services(),
            final(self).service_ids() == old(self).service_ids(),
            if old(self).stats().contains_key(service_id@) {
                &&& r is Ok
                &&& final(self).stats() == old(self).stats().insert(
                    service_id@,
                    ServiceStats { error_rate_bits: error_rate_bits, ..old(self).stats()[service_id@] },
                )
            } else {
                &&& r matches Err(e) && e@ == IpcErrorView::ServiceNotFound(service_id@)
                &&& final(self).stats() == old(self).stats()
            },
    {
        let j = match self.stats.position(service_id) {
            Some(j) => j,
            None => {
                return Err(IpcError::ServiceNotFound(message(service_id)));
            },
        };
        let mut stats = *self.stats.value_at(j);
        stats.error_rate_bits = error_rate_bits;
        self.stats.set_value_at(j, stats);
        proof {
            assert(self.stats@.dom() =~= self.services@.dom());
        }
        Ok(())
    }

    /// Forget the services that sent no heartbeat for longer than the
    /// timeout, with their statistics; give their ids in increasing order.
    pub fn cleanup_expired_services(&mut self) -> (r: Vec<String>)
        requires
            old(self).wf(),
        ensures
            final(self).wf(),
            final(self).settings() == old(self).settings(),
            ({
                let expired = old(self).service_ids().filter(
                    expired_services(old(self).services(), old(self).settings().service_timeout_sec),
                );
                &&& r@.map_values(|s: String| s@) == expired
                &&& final(self).services() == old(self).services().remove_keys(expired.to_set())
                &&& final(self).stats() == old(self).stats().remove_keys(expired.to_set())
            }),
    {
        let current_time = self.get_current_timestamp();
        let timeout = self.config.service_timeout_sec;
        let ghost keys = self.service_ids();
        let ghost services0 = self.services();
        let ghost stats0 = self.stats();
        let ghost pred = expired_services(services0, timeout);
        let mut expired: Vec<String> = Vec::new();
        let n = self.services.len();
        let mut i: usize = 0;
        while i < n
            invariant
                self.wf(),
                keys == self.service_ids(),
                services0 == self.services(),
                timeout == self.settings().service_timeout_sec,
                pred == expired_services(services0, timeout),
                current_time == service_now(),
                n == keys.len(),
                i <= n,
                expired@.map_values(|s: String| s@) == keys.subrange(0, i as int).filter(pred),
            decreases n - i,
        {
            proof {
                reveal_with_fuel(Seq::<_>::filter, 1);
                assert(keys.subrange(0, i + 1).drop_last() =~= keys.subrange(0, i as int));
                self.services.lemma_entry(i as int);
            }
            let service = self.services.value_at(i);
            if current_time - service.last_heartbeat > timeout {
                let ghost prev = expired@;
                let k = self.services.key_at(i).clone();
                expired.push(k);
                assert(expired@.map_values(|s: String| s@) =~= prev.map_values(|s: String| s@).push(keys[i as int]));
            }
            i += 1;
        }
        assert(keys.subrange(0, n as int) =~= keys);
        let ghost expired_keys = keys.filter(pred);
        let mut j: usize = 0;
        while j < expired.len()
            invariant
                self.wf(),
                expired@.map_values(|s: String| s@) == expired_keys,
                j <= expired@.len(),
                self.services() == services0.remove_keys(expired_keys.subrange(0, j as int).to_set()),
                self.stats() == stats0.remove_keys(expired_keys.subrange(0, j as int).to_set()),
                self.settings() == old(self).settings(),
            decreases expired@.len() - j,
        {
            proof {
                crate::ordered_map::lemma_prefix_set_step(expired_keys, j as int);
            }
            let ghost before = self.services();
            let ghost before_stats = self.stats();
            let ghost key = expired_keys[j as int];
            assert(expired@[j as int]@ == key);
            self.services.remove(expired[j].as_str());
            self.stats.remove(expired[j].as_str());
            proof {
                assert(self.services() =~= before.remove(key));
                assert(before.remove(key) =~= services0.remove_keys(expired_keys.subrange(0, j + 1).to_set()));
                assert(self.stats() =~= before_stats.remove(key));
                assert(before_stats.remove(key) =~= stats0.remove_keys(expired_keys.subrange(0, j + 1).to_set()));
                assert(self.stats@.dom() =~= self.services@.dom());
            }
            j += 1;
        }
        assert(expired_keys.subrange(0, expired@.len() as int) =~= expired_keys);
        expired
    }

    /// The load of each service (see `load_of`), in increasing order of id.
    pub fn loads(&self) -> (r: Vec<u32>)
        requires
            self.wf(),
        ensures
            r@ == self.listed().map_values(|s: RegisteredService| load_of(s.load_info)),
    {
        let ghost listed = self.listed();
        let n = self.services.len();
        let mut out: Vec<u32> = Vec::new();
        let mut i: usize = 0;
        while i < n
            invariant
                self.wf(),
                n == self.service_ids().len(),
                listed == self.listed(),
                i <= n,
                out@ == listed.subrange(0, i as int).map_values(|s: RegisteredService| load_of(s.load_info)),
            decreases n - i,
        {
            proof {
                self.services.lemma_entry(i as int);
            }
            let s = self.services.value_at(i);
            assert(listed[i as int] == *s);
            out.push(f32_max(s.load_info.cpu_usage_bits, s.load_info.memory_usage_bits));
            assert(out@ =~= listed.subrange(0, i + 1).map_values(|s: RegisteredService| load_of(s.load_info)));
            i += 1;
        }
        assert(listed.subrange(0, n as int) =~= listed);
        out
    }

    /// Statistics of the whole registry: how many services there are and
    /// how many are available, the request counts summed over all services
    /// (wrapping at 2^64, as a release build adds), and the average load
    /// given, which is computed from `loads` in floating point.
    pub fn get_registry_stats(&self, average_load_bits: u32) -> (r: RegistryStats)
        requires
            self.wf(),
        ensures
            r.total_services == self.service_ids().len(),
            r.active_services == self.listed().filter(active_query()).len(),
            r.total_requests == wrap_u64(sum_of(self.listed_stats(), |s: ServiceStats| s.total_requests)),
            r.successful_requests == wrap_u64(
                sum_of(self.listed_stats(), |s: ServiceStats| s.successful_requests),
            ),
            r.failed_requests == wrap_u64(sum_of(self.listed_stats(), |s: ServiceStats| s.failed_requests)),
            r.average_load_bits == average_load_bits,
            r.registry_uptime == 0,
    {
        let active_services = self.get_active_service_count();
        let total_services = self.services.len();
        let ghost ls = self.listed_stats();
        let ghost ft = |s: ServiceStats| s.total_requests;
        let ghost fs = |s: ServiceStats| s.successful_requests;
        let ghost ff = |s: ServiceStats| s.failed_requests;
        let n = self.stats.len();
        let mut total: u64 = 0;
        let mut successful: u64 = 0;
        let mut failed: u64 = 0;
        let mut i: usize = 0;
        while i < n
            invariant
                self.wf(),
                ls == self.listed_stats(),
                n == ls.len(),
                i <= n,
                ft == (|s: ServiceStats| s.total_requests),
                fs == (|s: ServiceStats| s.successful_requests),
                ff == (|s: ServiceStats| s.failed_requests),
                total == wrap_u64(sum_of(ls.subrange(0, i as int), ft)),
                successful == wrap_u64(sum_of(ls.subrange(0, i as int), fs)),
                failed == wrap_u64(sum_of(ls.subrange(0, i as int), ff)),
            decreases n - i,
        {
            proof {
                self.stats.lemma_entry(i as int);
                assert(ls.subrange(0, i + 1).drop_last() =~= ls.subrange(0, i as int));
            }
            let st = self.stats.value_at(i);
            assert(ls[i as int] == *st);
            proof {
                lemma_wrap_step(total, sum_of(ls.subrange(0, i as int), ft), st.total_requests);
                lemma_wrap_step(successful, sum_of(ls.subrange(0, i as int), fs), st.successful_requests);
                lemma_wrap_step(failed, sum_of(ls.subrange(0, i as int), ff), st.failed_requests);
            }
            total = total.wrapping_add(st.total_requests);
            successful = successful.wrapping_add(st.successful_requests);
            failed = failed.wrapping_add(st.failed_requests);
            i += 1;
        }
        assert(ls.subrange(0, n as int) =~= ls);
        RegistryStats {
            total_services,
            active_services,
            total_requests: total,
            successful_requests: successful,
            failed_requests: failed,
            average_load_bits,
            registry_uptime: 0,
        }
    }

    fn is_service_available(service: &RegisteredService) -> (b: bool)
        ensures
            b == is_available(*service),
    {
        match service.status {
            ServiceState::Ready | ServiceState::Busy => true,
            _ => false,
        }
    }

    fn validate_service_info(service_info: &ServiceInfo) -> (r: IpcResult<()>)
        ensures
            match service_info_error(*service_info) {
                Some(m) => r matches Err(e) && e@ == IpcErrorView::RegistrationFailed(m),
                None => r is Ok,
            },
    {
        let id_len = service_info.id.as_str().as_bytes().len();
        if id_len == 0 || id_len > MAX_SERVICE_NAME_LEN {
            return Err(IpcError::RegistrationFailed(message("Invalid service ID")));
        }
        let name_len = service_info.name.as_str().as_bytes().len();
        if name_len == 0 || name_len > MAX_SERVICE_NAME_LEN {
            return Err(IpcError::RegistrationFailed(message("Invalid service name")));
        }
        if service_info.capabilities.supported_dimensions.len() == 0 {
            return Err(IpcError::RegistrationFailed(message("No supported dimensions")));
        }
        if service_info.capabilities.max_batch_size == 0 {
            return Err(IpcError::RegistrationFailed(message("Invalid batch size")));
        }
        Ok(())
    }

    fn get_current_timestamp(&self) -> (t: u64)
        ensures
            t == service_now(),
    {
        0
    }
}

} // verus!
