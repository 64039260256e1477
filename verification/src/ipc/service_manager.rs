//! Discovering embedding services and monitoring their health.

use vstd::prelude::*;
use crate::fs_core::path::byte_len;
use crate::ipc::protocol::{HealthStatus, ServiceCapabilities, ServiceHealth, ServiceInfo, ServiceLoadInfo};
use crate::ipc::service_registry::{
    active_query, capability_query, expired_services, is_available, is_fresh_registration, request_fits,
    service_info_error, stats_after_request, status_for_load, zero_stats, RegisteredService,
    ServiceRegistry, ServiceStats,
};
use crate::ipc::{IpcConfig, IpcError, IpcErrorView, IpcResult};
use crate::shared::message;
use crate::text_map::TextMap;
use vstd::string::*;

verus! {

/// What a maintenance run did.
#[derive(Debug, Clone, Copy, Default)]
pub struct MaintenanceResult {
    pub expired_services: usize,
    pub failed_health_checks: usize,
    pub scheduled_health_checks: usize,
}

/// Statistics of the service manager.
#[derive(Debug, Clone, Copy)]
pub struct ManagerStats {
    pub total_services: usize,
    pub active_services: usize,
    pub pending_health_checks: usize,
    pub discovery_active: bool,
    pub health_monitoring_active: bool,
    pub total_requests: u64,
    pub successful_requests: u64,
    pub failed_requests: u64,
}

/// Settings of service discovery.
#[derive(Debug, Clone, Copy)]
pub struct DiscoveryConfig {
    /// Seconds between discovery rounds.
    pub interval_sec: u64,
    /// Seconds after which an unseen service is forgotten.
    pub timeout_sec: u64,
    /// Most services tracked.
    pub max_services: usize,
    pub enable_multicast: bool,
    pub enable_broadcast: bool,
}

impl Default for DiscoveryConfig {
    /// A round every minute, a 10 second timeout, up to 1000 services,
    /// multicast on, broadcast off.
    fn default() -> (c: Self)
        ensures
            c.interval_sec == 60,
            c.timeout_sec == 10,
            c.max_services == 1000,
            c.enable_multicast,
            !c.enable_broadcast,
    {
        DiscoveryConfig {
            interval_sec: 60,
            timeout_sec: 10,
            max_services: 1000,
            enable_multicast: true,
            enable_broadcast: false,
        }
    }
}

/// How a service was found.
#[derive(Debug, Clone, Copy, PartialEq, Eq, Structural)]
pub enum DiscoveryMethod {
    Multicast,
    Broadcast,
    DirectAnnouncement,
    HealthCheck,
}

/// A service found by discovery.
#[derive(Debug, Clone)]
pub struct DiscoveredService {
    pub info: ServiceInfo,
    pub discovered_at: u64,
    pub last_seen: u64,
    pub discovery_method: DiscoveryMethod,
}

/// The time discoveries and checks are stamped with; there is no clock and
/// 0 is used.
pub open spec fn service_now() -> u64 {
    0
}

/// The services not seen for longer than the timeout.
pub open spec fn stale_services(services: Map<Seq<char>, DiscoveredService>, timeout: u64) -> spec_fn(Seq<char>) -> bool {
    |k: Seq<char>| service_now() - services[k].last_seen > timeout
}

/// Tracks the services found by discovery.
pub struct ServiceDiscovery {
    config: DiscoveryConfig,
    discovered_services: TextMap<DiscoveredService>,
    active: bool,
}

impl ServiceDiscovery {
    /// The settings.
    pub closed spec fn settings(&self) -> DiscoveryConfig {
        self.config
    }

    /// The services found, by id.
    pub closed spec fn services(&self) -> Map<Seq<char>, DiscoveredService> {
        self.discovered_services@
    }

    /// Their ids, in increasing order.
    pub closed spec fn service_ids(&self) -> Seq<Seq<char>> {
        self.discovered_services.keys_seq()
    }

    /// Whether discovery runs.
    pub closed spec fn is_active(&self) -> bool {
        self.active
    }

    /// Internal consistency: services are stored under their own ids and
    /// were seen no later than now.
    pub closed spec fn wf(&self) -> bool {
        &&& self.discovered_services.wf()
        &&& forall|k: Seq<char>| #[trigger] self.discovered_services@.contains_key(k) ==> self.discovered_services@[k].info.id@ == k
            && self.discovered_services@[k].last_seen <= service_now()
    }

    /// Discovery with no service known, not running.
    pub fn new(config: DiscoveryConfig) -> (d: Self)
        ensures
            d.wf(),
            d.settings() == config,
            d.services() == Map::<Seq<char>, DiscoveredService>::empty(),
            !d.is_active(),
    {
        ServiceDiscovery { config, discovered_services: TextMap::new(), active: false }
    }

    /// Start discovery.
    pub fn start(&mut self) -> (r: IpcResult<()>)
        ensures
            r is Ok,
            final(self).is_active(),
            final(self).services() == old(self).services(),
            final(self).service_ids() == old(self).service_ids(),
            final(self).settings() == old(self).settings(),
            final(self).wf() == old(self).wf(),
    {
        if self.active {
            return Ok(());
        }
        self.active = true;
        Ok(())
    }

    /// Stop discovery.
    pub fn stop(&mut self) -> (r: IpcResult<()>)
        ensures
            r is Ok,
            !final(self).is_active(),
            final(self).services() == old(self).services(),
            final(self).service_ids() == old(self).service_ids(),
            final(self).settings() == old(self).settings(),
            final(self).wf() == old(self).wf(),
    {
        if !self.active {
            return Ok(());
        }
        self.active = false;
        Ok(())
    }

    /// Record a service: a known one is seen again and takes the new
    /// description; a new one is added unless as many services as allowed
    /// are tracked.
    pub fn handle_discovered_service(&mut self, service_info: ServiceInfo, method: DiscoveryMethod) -> (r: IpcResult<()>)
        requires
            old(self).wf(),
        ensures
            final(self).wf(),
            final(self).settings() == old(self).settings(),
            final(self).is_active() == old(self).is_active(),
            ({
                let id = service_info.id@;
                if old(self).services().contains_key(id) {
                    &&& r is Ok
                    &&& final(self).services() == old(self).services().insert(
                        id,
                        DiscoveredService {
                            info: service_info,
                            last_seen: service_now(),
                            ..old(self).services()[id]
                        },
                    )
                } else if old(self).services().dom().len() >= old(self).settings().max_services {
                    &&& r matches Err(e) && e@ == IpcErrorView::ServiceOverloaded("Discovery cache full"@)
                    &&& *final(self) == *old(self)
                } else {
                    &&& r is Ok
                    &&& final(self).services() == old(self).services().insert(
                        id,
                        DiscoveredService {
                            info: service_info,
                            discovered_at: service_now(),
                            last_seen: service_now(),
                            discovery_method: method,
                        },
                    )
                }
            }),
    {
        let current_time = self.get_current_timestamp();
        match self.discovered_services.position(service_info.id.as_str()) {
            Some(i) => {
                let existing = self.discovered_services.value_at(i);
                let updated = DiscoveredService {
                    discovered_at: existing.discovered_at,
                    discovery_method: existing.discovery_method,
                    last_seen: current_time,
                    info: service_info,
                };
                self.discovered_services.set_value_at(i, updated);
                Ok(())
            },
            None => {
                if self.discovered_services.len() >= self.config.max_services {
                    return Err(IpcError::ServiceOverloaded(message("Discovery cache full")));
                }
                let key = service_info.id.clone();
                let discovered_service = DiscoveredService {
                    info: service_info,
                    discovered_at: current_time,
                    last_seen: current_time,
                    discovery_method: method,
                };
                self.discovered_services.insert(key, discovered_service);
                Ok(())
            },
        }
    }

    /// The services found, by increasing id.
    pub fn get_discovered_services(&self) -> (r: Vec<&DiscoveredService>)
        requires
            self.wf(),
        ensures
            r@.len() == self.service_ids().len(),
            forall|i: int| 0 <= i < r@.len() ==> *r@[i] == self.services()[#[trigger] self.service_ids()[i]],
    {
        let mut out: Vec<&DiscoveredService> = Vec::new();
        let n = self.discovered_services.len();
        let mut i: usize = 0;
        while i < n
            invariant
                self.wf(),
                n == self.service_ids().len(),
                i <= n,
                out@.len() == i,
                forall|j: int| 0 <= j < i ==> *out@[j] == self.services()[#[trigger] self.service_ids()[j]],
            decreases n - i,
        {
            proof {
                self.discovered_services.lemma_entry(i as int);
            }
            out.push(self.discovered_services.value_at(i));
            i += 1;
        }
        out
    }

    /// Forget the services not seen for longer than the timeout; give how
    /// many.
    pub fn cleanup_stale_discoveries(&mut self) -> (n: usize)
        requires
            old(self).wf(),
        ensures
            final(self).wf(),
            ({
                let stale = old(self).service_ids().filter(stale_services(old(self).services(), old(self).settings().timeout_sec));
                &&& n == stale.len()
                &&& final(self).services() == old(self).services().remove_keys(stale.to_set())
            }),
            final(self).settings() == old(self).settings(),
            final(self).is_active() == old(self).is_active(),
    {
        let current_time = self.get_current_timestamp();
        let timeout = self.config.timeout_sec;
        let ghost keys = self.service_ids();
        let ghost services0 = self.services();
        let ghost pred = stale_services(services0, timeout);
        let mut stale: Vec<String> = Vec::new();
        let n = self.discovered_services.len();
        let mut i: usize = 0;
        while i < n
            invariant
                self.wf(),
                keys == self.service_ids(),
                services0 == self.services(),
                timeout == self.settings().timeout_sec,
                pred == stale_services(services0, timeout),
                current_time == service_now(),
                n == keys.len(),
                i <= n,
                stale@.map_values(|s: String| s@) == keys.subrange(0, i as int).filter(pred),
            decreases n - i,
        {
            proof {
                reveal_with_fuel(Seq::<_>::filter, 1);
                assert(keys.subrange(0, i + 1).drop_last() =~= keys.subrange(0, i as int));
                self.discovered_services.lemma_entry(i as int);
            }
            let service = self.discovered_services.value_at(i);
            if current_time - service.last_seen > timeout {
                let ghost prev = stale@;
                let k = self.discovered_services.key_at(i).clone();
                stale.push(k);
                assert(stale@.map_values(|s: String| s@) =~= prev.map_values(|s: String| s@).push(keys[i as int]));
            }
            i += 1;
        }
        assert(keys.subrange(0, n as int) =~= keys);
        let ghost stale_keys = keys.filter(pred);
        let mut j: usize = 0;
        while j < stale.len()
            invariant
                self.wf(),
                stale@.map_values(|s: String| s@) == stale_keys,
                j <= stale@.len(),
                self.services() == services0.remove_keys(stale_keys.subrange(0, j as int).to_set()),
                self.settings() == old(self).settings(),
                self.is_active() == old(self).is_active(),
            decreases stale@.len() - j,
        {
            proof {
                crate::ordered_map::lemma_prefix_set_step(stale_keys, j as int);
            }
            let ghost before = self.services();
            let ghost key = stale_keys[j as int];
            assert(stale@[j as int]@ == key);
            self.discovered_services.remove(stale[j].as_str());
            proof {
                assert(self.services() =~= before.remove(key));
                assert(before.remove(key) =~= services0.remove_keys(stale_keys.subrange(0, j + 1).to_set()));
            }
            j += 1;
        }
        assert(stale_keys.subrange(0, stale@.len() as int) =~= stale_keys);
        stale.len()
    }

    fn get_current_timestamp(&self) -> (t: u64)
        ensures
            t == service_now(),
    {
        0
    }
}

/// Settings of health monitoring.
#[derive(Debug, Clone, Copy)]
pub struct HealthConfig {
    /// Seconds between checks.
    pub check_interval_sec: u64,
    pub check_timeout_sec: u64,
    /// Consecutive failures after which a service is unhealthy.
    pub unhealthy_threshold: u32,
    /// Consecutive successes after which a service is healthy again.
    pub recovery_threshold: u32,
}

impl Default for HealthConfig {
    /// A check every 30 seconds with a 5 second timeout; unhealthy after 3
    /// failures, healthy after 2 successes.
    fn default() -> (c: Self)
        ensures
            c.check_interval_sec == 30,
            c.check_timeout_sec == 5,
            c.unhealthy_threshold == 3,
            c.recovery_threshold == 2,
    {
        HealthConfig { check_interval_sec: 30, check_timeout_sec: 5, unhealthy_threshold: 3, recovery_threshold: 2 }
    }
}

/// Health checking state of one service.
#[derive(Debug, Clone, Copy, PartialEq, Eq, Structural)]
pub struct HealthCheckState {
    pub last_check: u64,
    pub next_check: u64,
    pub consecutive_failures: u32,
    pub consecutive_successes: u32,
    pub current_status: HealthStatus,
}

/// The state after one more check: a success resets the failures and
/// makes the service healthy once enough successes followed each other; a
/// failure resets the successes and makes it unhealthy once enough
/// failures followed each other, degraded before that.
pub open spec fn after_check(st: HealthCheckState, success: bool, now: u64, cfg: HealthConfig) -> HealthCheckState {
    if success {
        let successes = (st.consecutive_successes + 1) as u32;
        HealthCheckState {
            last_check: now,
            next_check: (now + cfg.check_interval_sec) as u64,
            consecutive_failures: 0,
            consecutive_successes: successes,
            current_status: if successes >= cfg.recovery_threshold { HealthStatus::Healthy } else { st.current_status },
        }
    } else {
        let failures = (st.consecutive_failures + 1) as u32;
        HealthCheckState {
            last_check: now,
            next_check: (now + cfg.check_interval_sec) as u64,
            consecutive_failures: failures,
            consecutive_successes: 0,
            current_status: if failures >= cfg.unhealthy_threshold { HealthStatus::Unhealthy } else { HealthStatus::Degraded },
        }
    }
}

/// The services whose next check is due.
pub open spec fn due_for_check(checks: Map<Seq<char>, HealthCheckState>) -> spec_fn(Seq<char>) -> bool {
    |k: Seq<char>| service_now() >= checks[k].next_check
}

/// Tracks the health of services.
pub struct HealthMonitor {
    config: HealthConfig,
    health_checks: TextMap<HealthCheckState>,
    active: bool,
}

impl HealthMonitor {
    /// The settings.
    pub closed spec fn settings(&self) -> HealthConfig {
        self.config
    }

    /// The monitored services and their state, by id.
    pub closed spec fn checks(&self) -> Map<Seq<char>, HealthCheckState> {
        self.health_checks@
    }

    /// Their ids, in increasing order.
    pub closed spec fn monitored_ids(&self) -> Seq<Seq<char>> {
        self.health_checks.keys_seq()
    }

    /// Whether monitoring runs.
    pub closed spec fn is_active(&self) -> bool {
        self.active
    }

    /// Internal consistency.
    pub closed spec fn wf(&self) -> bool {
        self.health_checks.wf()
    }

    /// A monitor of no service, not running.
    pub fn new(config: HealthConfig) -> (m: Self)
        ensures
            m.wf(),
            m.settings() == config,
            m.checks() == Map::<Seq<char>, HealthCheckState>::empty(),
            !m.is_active(),
    {
        HealthMonitor { config, health_checks: TextMap::new(), active: false }
    }

    /// Start monitoring.
    pub fn start(&mut self) -> (r: IpcResult<()>)
        ensures
            r is Ok,
            final(self).is_active(),
            final(self).checks() == old(self).checks(),
            final(self).monitored_ids() == old(self).monitored_ids(),
            final(self).settings() == old(self).settings(),
            final(self).wf() == old(self).wf(),
    {
        if self.active {
            return Ok(());
        }
        self.active = true;
        Ok(())
    }

    /// Stop monitoring and forget every service's state.
    pub fn stop(&mut self) -> (r: IpcResult<()>)
        requires
            old(self).wf(),
        ensures
            r is Ok,
            final(self).wf(),
            !final(self).is_active(),
            final(self).settings() == old(self).settings(),
            old(self).is_active() ==> final(self).checks() == Map::<Seq<char>, HealthCheckState>::empty(),
            !old(self).is_active() ==> final(self).checks() == old(self).checks(),
    {
        if !self.active {
            return Ok(());
        }
        self.active = false;
        self.health_checks = TextMap::new();
        Ok(())
    }

    /// Start monitoring a service: state unknown, no check yet, the first
    /// one due after the interval.
    pub fn add_service(&mut self, service_id: &str) -> (r: IpcResult<()>)
        requires
            old(self).wf(),
        ensures
            r is Ok,
            final(self).wf(),
            final(self).checks() == old(self).checks().insert(
                service_id@,
                HealthCheckState {
                    last_check: 0,
                    next_check: (service_now() + old(self).settings().check_interval_sec) as u64,
                    consecutive_failures: 0,
                    consecutive_successes: 0,
                    current_status: HealthStatus::Unknown,
                },
            ),
            final(self).settings() == old(self).settings(),
            final(self).is_active() == old(self).is_active(),
    {
        let current_time = self.get_current_timestamp();
        let health_state = HealthCheckState {
            last_check: 0,
            next_check: current_time + self.config.check_interval_sec,
            consecutive_failures: 0,
            consecutive_successes: 0,
            current_status: HealthStatus::Unknown,
        };
        self.health_checks.insert(message(service_id), health_state);
        Ok(())
    }

    /// Stop monitoring a service.
    pub fn remove_service(&mut self, service_id: &str) -> (r: IpcResult<()>)
        requires
            old(self).wf(),
        ensures
            r is Ok,
            final(self).wf(),
            final(self).checks() == old(self).checks().remove(service_id@),
            final(self).settings() == old(self).settings(),
            final(self).is_active() == old(self).is_active(),
    {
        self.health_checks.remove(service_id);
        Ok(())
    }

    /// Record the outcome of a check of a monitored service and give its
    /// resulting status.
    pub fn record_health_result(&mut self, service_id: &str, success: bool) -> (r: IpcResult<HealthStatus>)
        requires
            old(self).wf(),
            old(self).checks().contains_key(service_id@) ==> old(self).checks()[service_id@].consecutive_successes
                < u32::MAX && old(self).checks()[service_id@].consecutive_failures < u32::MAX,
        ensures
            final(self).wf(),
            final(self).settings() == old(self).settings(),
            final(self).is_active() == old(self).is_active(),
            !old(self).checks().contains_key(service_id@) ==> (r matches Err(e) && e@ == IpcErrorView::ServiceNotFound(
                service_id@,
            ) && *final(self) == *old(self)),
            old(self).checks().contains_key(service_id@) ==> {
                let st = after_check(old(self).checks()[service_id@], success, service_now(), old(self).settings());
                &&& r == Ok::<HealthStatus, IpcError>(st.current_status)
                &&& final(self).checks() == old(self).checks().insert(service_id@, st)
            },
    {
        let current_time = self.get_current_timestamp();
        let check_interval = self.config.check_interval_sec;
        let recovery_threshold = self.config.recovery_threshold;
        let unhealthy_threshold = self.config.unhealthy_threshold;
        let i = match self.health_checks.position(service_id) {
            Some(i) => i,
            None => return Err(IpcError::ServiceNotFound(message(service_id))),
        };
        let mut state = *self.health_checks.value_at(i);
        state.last_check = current_time;
        state.next_check = current_time + check_interval;
        if success {
            state.consecutive_failures = 0;
            state.consecutive_successes = state.consecutive_successes + 1;
            if state.consecutive_successes >= recovery_threshold {
                state.current_status = HealthStatus::Healthy;
            }
        } else {
            state.consecutive_successes = 0;
            state.consecutive_failures = state.consecutive_failures + 1;
            if state.consecutive_failures >= unhealthy_threshold {
                state.current_status = HealthStatus::Unhealthy;
            } else {
                state.current_status = HealthStatus::Degraded;
            }
        }
        let status = state.current_status;
        self.health_checks.set_value_at(i, state);
        Ok(status)
    }

    /// The ids of the services whose next check is due, in increasing
    /// order.
    pub fn get_services_needing_checks(&self) -> (r: Vec<String>)
        requires
            self.wf(),
        ensures
            r@.map_values(|s: String| s@) == self.monitored_ids().filter(due_for_check(self.checks())),
    {
        let current_time = self.get_current_timestamp();
        let ghost keys = self.monitored_ids();
        let ghost pred = due_for_check(self.checks());
        let mut out: Vec<String> = Vec::new();
        let n = self.health_checks.len();
        let mut i: usize = 0;
        while i < n
            invariant
                self.wf(),
                keys == self.monitored_ids(),
                pred == due_for_check(self.checks()),
                current_time == service_now(),
                n == keys.len(),
                i <= n,
                out@.map_values(|s: String| s@) == keys.subrange(0, i as int).filter(pred),
            decreases n - i,
        {
            proof {
                reveal_with_fuel(Seq::<_>::filter, 1);
                assert(keys.subrange(0, i + 1).drop_last() =~= keys.subrange(0, i as int));
                self.health_checks.lemma_entry(i as int);
            }
            if current_time >= self.health_checks.value_at(i).next_check {
                let ghost prev = out@;
                let k = self.health_checks.key_at(i).clone();
                out.push(k);
                assert(out@.map_values(|s: String| s@) =~= prev.map_values(|s: String| s@).push(keys[i as int]));
            }
            i += 1;
        }
        assert(keys.subrange(0, n as int) =~= keys);
        out
    }

    fn get_current_timestamp(&self) -> (t: u64)
        ensures
            t == service_now(),
    {
        0
    }
}

/// Why a service cannot be registered, if it cannot: what
/// `service_info_error` finds, or an empty endpoint address.
pub open spec fn registration_error(info: ServiceInfo) -> Option<Seq<char>> {
    match service_info_error(info) {
        Some(m) => Some(m),
        None => if byte_len(info.endpoint.address@) == 0 {
            Some("Invalid endpoint address"@)
        } else {
            None
        },
    }
}

/// When a health check scheduled now is due.
pub open spec fn check_due_at(config: IpcConfig) -> u64 {
    (service_now() + config.health_check_interval_sec) as u64
}

/// When a service heard from now times out.
pub open spec fn timeout_at(config: IpcConfig) -> u64 {
    (service_now() + config.request_timeout_ms / 1000) as u64
}

/// The pending health checks that went unanswered for over a minute.
pub open spec fn overdue_checks(pending: Map<Seq<char>, u64>) -> spec_fn(Seq<char>) -> bool {
    |k: Seq<char>| service_now() > pending[k] + 60
}

/// Whether `h` is the report of a failed health check made now: unhealthy,
/// score 0, no details.
pub open spec fn is_unhealthy_report(h: ServiceHealth) -> bool {
    &&& h.status == HealthStatus::Unhealthy
    &&& h.score == 0
    &&& h.last_check == service_now()
    &&& h.details@.len() == 0
}

/// Whether `after` is `before` with an unhealthy report.
pub open spec fn marked_unhealthy(after: RegisteredService, before: RegisteredService) -> bool {
    &&& after == RegisteredService { health: after.health, ..before }
    &&& is_unhealthy_report(after.health)
}

/// Whether an available service is due a health check: its last check is
/// older than the interval and none is pending.
pub open spec fn needs_health_check(pending: Map<Seq<char>, u64>, interval: u64) -> spec_fn(RegisteredService) -> bool {
    |s: RegisteredService| service_now() - s.health.last_check > interval && !pending.contains_key(s.info.id@)
}

/// `m` with a check due at `t` for each of `ids`.
pub open spec fn with_checks(m: Map<Seq<char>, u64>, ids: Seq<Seq<char>>, t: u64) -> Map<Seq<char>, u64> {
    Map::new(|k: Seq<char>| m.contains_key(k) || ids.contains(k), |k: Seq<char>| if ids.contains(k) { t } else { m[k] })
}

/// Whether `after` is `before` with the services of `ids` marked unhealthy.
pub open spec fn marked_services(
    after: Map<Seq<char>, RegisteredService>,
    before: Map<Seq<char>, RegisteredService>,
    ids: Seq<Seq<char>>,
) -> bool {
    &&& after.dom() == before.dom()
    &&& forall|k: Seq<char>| #[trigger]
        before.contains_key(k) ==> if ids.contains(k) {
            marked_unhealthy(after[k], before[k])
        } else {
            after[k] == before[k]
        }
}

/// Manages the life of services: registration, heartbeats, health checks
/// and discovery.
pub struct ServiceManager {
    registry: ServiceRegistry,
    config: IpcConfig,
    health_monitoring_active: bool,
    discovery_active: bool,
    pending_health_checks: TextMap<u64>,
    service_timeouts: TextMap<u64>,
}

impl ServiceManager {
    /// The registry of services.
    pub closed spec fn registry(&self) -> ServiceRegistry {
        self.registry
    }

    /// The settings.
    pub closed spec fn settings(&self) -> IpcConfig {
        self.config
    }

    /// Whether health monitoring runs.
    pub closed spec fn monitoring(&self) -> bool {
        self.health_monitoring_active
    }

    /// Whether discovery runs.
    pub closed spec fn discovering(&self) -> bool {
        self.discovery_active
    }

    /// The pending health checks: when each is due, by service id.
    pub closed spec fn pending(&self) -> Map<Seq<char>, u64> {
        self.pending_health_checks@
    }

    /// The ids with a pending check, in increasing order.
    pub closed spec fn pending_ids(&self) -> Seq<Seq<char>> {
        self.pending_health_checks.keys_seq()
    }

    /// When each service times out, by service id.
    pub closed spec fn timeouts(&self) -> Map<Seq<char>, u64> {
        self.service_timeouts@
    }

    /// Internal consistency.
    pub closed spec fn wf(&self) -> bool {
        &&& self.registry.wf()
        &&& self.pending_health_checks.wf()
        &&& self.service_timeouts.wf()
    }

    /// A manager with an empty default registry, nothing running.
    pub fn new(config: IpcConfig) -> (m: Self)
        ensures
            m.wf(),
            m.settings() == config,
            m.registry().services() == Map::<Seq<char>, RegisteredService>::empty(),
            m.registry().stats() == Map::<Seq<char>, ServiceStats>::empty(),
            m.registry().settings().max_services == 100,
            m.registry().settings().service_timeout_sec == 300,
            !m.monitoring(),
            !m.discovering(),
            m.pending() == Map::<Seq<char>, u64>::empty(),
            m.timeouts() == Map::<Seq<char>, u64>::empty(),
    {
        ServiceManager {
            registry: ServiceRegistry::new(),
            config,
            health_monitoring_active: false,
            discovery_active: false,
            pending_health_checks: TextMap::new(),
            service_timeouts: TextMap::new(),
        }
    }

    /// Start discovery.
    pub fn start_discovery(&mut self) -> (r: IpcResult<()>)
        ensures
            r is Ok,
            final(self).discovering(),
            final(self).monitoring() == old(self).monitoring(),
            final(self).registry() == old(self).registry(),
            final(self).pending() == old(self).pending(),
            final(self).pending_ids() == old(self).pending_ids(),
            final(self).timeouts() == old(self).timeouts(),
            final(self).settings() == old(self).settings(),
            final(self).wf() == old(self).wf(),
    {
        if self.discovery_active {
            return Ok(());
        }
        self.discovery_active = true;
        Ok(())
    }

    /// Stop discovery.
    pub fn stop_discovery(&mut self) -> (r: IpcResult<()>)
        ensures
            r is Ok,
            !final(self).discovering(),
            final(self).monitoring() == old(self).monitoring(),
            final(self).registry() == old(self).registry(),
            final(self).pending() == old(self).pending(),
            final(self).pending_ids() == old(self).pending_ids(),
            final(self).timeouts() == old(self).timeouts(),
            final(self).settings() == old(self).settings(),
            final(self).wf() == old(self).wf(),
    {
        if !self.discovery_active {
            return Ok(());
        }
        self.discovery_active = false;
        Ok(())
    }

    /// Start health monitoring.
    pub fn start_health_monitoring(&mut self) -> (r: IpcResult<()>)
        ensures
            r is Ok,
            final(self).monitoring(),
            final(self).discovering() == old(self).discovering(),
            final(self).registry() == old(self).registry(),
            final(self).pending() == old(self).pending(),
            final(self).pending_ids() == old(self).pending_ids(),
            final(self).timeouts() == old(self).timeouts(),
            final(self).settings() == old(self).settings(),
            final(self).wf() == old(self).wf(),
    {
        if self.health_monitoring_active {
            return Ok(());
        }
        self.health_monitoring_active = true;
        Ok(())
    }

    /// Stop health monitoring, dropping the pending checks.
    pub fn stop_health_monitoring(&mut self) -> (r: IpcResult<()>)
        requires
            old(self).wf(),
        ensures
            r is Ok,
            final(self).wf(),
            !final(self).monitoring(),
            final(self).discovering() == old(self).discovering(),
            final(self).registry() == old(self).registry(),
            old(self).monitoring() ==> final(self).pending() == Map::<Seq<char>, u64>::empty(),
            !old(self).monitoring() ==> final(self).pending() == old(self).pending(),
            final(self).timeouts() == old(self).timeouts(),
            final(self).settings() == old(self).settings(),
    {
        if !self.health_monitoring_active {
            return Ok(());
        }
        self.health_monitoring_active = false;
        self.pending_health_checks = TextMap::new();
        Ok(())
    }

    /// Register a service: refused when `registration_error` finds a fault,
    /// then for the reasons the registry refuses it. A registered service
    /// gets a health check scheduled when monitoring runs, and a timeout.
    pub fn register_service(&mut self, service_info: ServiceInfo) -> (r: IpcResult<()>)
        requires
            old(self).wf(),
        ensures
            final(self).wf(),
            final(self).settings() == old(self).settings(),
            final(self).monitoring() == old(self).monitoring(),
            final(self).discovering() == old(self).discovering(),
            final(self).registry().settings() == old(self).registry().settings(),
            ({
                let id = service_info.id@;
                let reg = old(self).registry();
                if registration_error(service_info) is Some {
                    &&& r matches Err(e) && e@ == IpcErrorView::RegistrationFailed(
                        registration_error(service_info).unwrap(),
                    )
                    &&& final(self).registry().services() == reg.services()
                    &&& final(self).registry().stats() == reg.stats()
                    &&& final(self).pending() == old(self).pending()
                    &&& final(self).timeouts() == old(self).timeouts()
                } else if reg.services().dom().len() >= reg.settings().max_services {
                    &&& r matches Err(e) && e@ == IpcErrorView::RegistrationFailed("Registry full"@)
                    &&& final(self).registry().services() == reg.services()
                    &&& final(self).registry().stats() == reg.stats()
                    &&& final(self).pending() == old(self).pending()
                    &&& final(self).timeouts() == old(self).timeouts()
                } else if reg.services().contains_key(id) {
                    &&& r matches Err(e) && e@ == IpcErrorView::RegistrationFailed("Service already registered"@)
                    &&& final(self).registry().services() == reg.services()
                    &&& final(self).registry().stats() == reg.stats()
                    &&& final(self).pending() == old(self).pending()
                    &&& final(self).timeouts() == old(self).timeouts()
                } else {
                    &&& r is Ok
                    &&& final(self).registry().services().dom() == reg.services().dom().insert(id)
                    &&& final(self).registry().services().remove(id) == reg.services()
                    &&& is_fresh_registration(final(self).registry().services()[id], service_info)
                    &&& final(self).registry().stats() == reg.stats().insert(id, zero_stats())
                    &&& final(self).pending() == if old(self).monitoring() {
                        old(self).pending().insert(id, check_due_at(old(self).settings()))
                    } else {
                        old(self).pending()
                    }
                    &&& final(self).timeouts() == old(self).timeouts().insert(id, timeout_at(old(self).settings()))
                }
            }),
    {
        if let Err(e) = Self::validate_service_registration(&service_info) {
            return Err(e);
        }
        let id = service_info.id.clone();
        let id2 = service_info.id.clone();
        let r = self.registry.register_service(service_info);
        if let Err(e) = r {
            return Err(e);
        }
        if self.health_monitoring_active {
            self.schedule_health_check(id.as_str());
        }
        let timeout = self.get_current_timestamp() + self.config.request_timeout_ms / 1000;
        self.service_timeouts.insert(id2, timeout);
        Ok(())
    }

    /// Unregister a service and forget its check and timeout.
    pub fn unregister_service(&mut self, service_id: &str) -> (r: IpcResult<()>)
        requires
            old(self).wf(),
        ensures
            final(self).wf(),
            final(self).settings() == old(self).settings(),
            final(self).monitoring() == old(self).monitoring(),
            final(self).discovering() == old(self).discovering(),
            final(self).registry().settings() == old(self).registry().settings(),
            if old(self).registry().services().contains_key(service_id@) {
                &&& r is Ok
                &&& final(self).registry().services() == old(self).registry().services().remove(service_id@)
                &&& final(self).registry().stats() == old(self).registry().stats().remove(service_id@)
                &&& final(self).pending() == old(self).pending().remove(service_id@)
                &&& final(self).timeouts() == old(self).timeouts().remove(service_id@)
            } else {
                &&& r matches Err(e) && e@ == IpcErrorView::ServiceNotFound(service_id@)
                &&& final(self).registry().services() == old(self).registry().services()
                &&& final(self).registry().stats() == old(self).registry().stats()
                &&& final(self).pending() == old(self).pending()
                &&& final(self).timeouts() == old(self).timeouts()
            },
    {
        if let Err(e) = self.registry.unregister_service(service_id) {
            return Err(e);
        }
        self.pending_health_checks.remove(service_id);
        self.service_timeouts.remove(service_id);
        Ok(())
    }

    /// Take a heartbeat: the registry records it, the timeout restarts and
    /// a pending check is dropped.
    pub fn handle_heartbeat(&mut self, service_id: &str, load_info: ServiceLoadInfo) -> (r: IpcResult<()>)
        requires
            old(self).wf(),
        ensures
            final(self).wf(),
            final(self).settings() == old(self).settings(),
            final(self).monitoring() == old(self).monitoring(),
            final(self).discovering() == old(self).discovering(),
            final(self).registry().settings() == old(self).registry().settings(),
            final(self).registry().service_ids() == old(self).registry().service_ids(),
            if old(self).registry().services().contains_key(service_id@) {
                let before = old(self).registry().services()[service_id@];
                &&& r is Ok
                &&& final(self).registry().services() == old(self).registry().services().insert(
                    service_id@,
                    RegisteredService {
                        last_heartbeat: service_now(),
                        load_info: load_info,
                        status: status_for_load(load_info),
                        ..before
                    },
                )
                &&& final(self).timeouts() == old(self).timeouts().insert(service_id@, timeout_at(old(self).settings()))
                &&& final(self).pending() == old(self).pending().remove(service_id@)
            } else {
                &&& r matches Err(e) && e@ == IpcErrorView::ServiceNotFound(service_id@)
                &&& final(self).registry().services() == old(self).registry().services()
                &&& final(self).registry().stats() == old(self).registry().stats()
                &&& final(self).pending() == old(self).pending()
                &&& final(self).timeouts() == old(self).timeouts()
            },
    {
        if let Err(e) = self.registry.update_heartbeat(service_id, load_info) {
            return Err(e);
        }
        let timeout = self.get_current_timestamp() + self.config.request_timeout_ms / 1000;
        self.service_timeouts.insert(message(service_id), timeout);
        self.pending_health_checks.remove(service_id);
        Ok(())
    }

    /// Take a health report: the registry records it, the pending check is
    /// dropped and, when monitoring runs, the next one scheduled.
    pub fn handle_health_response(&mut self, service_id: &str, health: ServiceHealth) -> (r: IpcResult<()>)
        requires
            old(self).wf(),
        ensures
            final(self).wf(),
            final(self).settings() == old(self).settings(),
            final(self).monitoring() == old(self).monitoring(),
            final(self).discovering() == old(self).discovering(),
            final(self).timeouts() == old(self).timeouts(),
            final(self).registry().settings() == old(self).registry().settings(),
            final(self).registry().stats() == old(self).registry().stats(),
            if old(self).registry().services().contains_key(service_id@) {
                &&& r is Ok
                &&& final(self).registry().services() == old(self).registry().services().insert(
                    service_id@,
                    RegisteredService { health: health, ..old(self).registry().services()[service_id@] },
                )
                &&& final(self).pending() == if old(self).monitoring() {
                    old(self).pending().insert(service_id@, check_due_at(old(self).settings()))
                } else {
                    old(self).pending().remove(service_id@)
                }
            } else {
                &&& r matches Err(e) && e@ == IpcErrorView::ServiceNotFound(service_id@)
                &&& final(self).registry().services() == old(self).registry().services()
                &&& final(self).pending() == old(self).pending()
            },
    {
        if let Err(e) = self.registry.update_health(service_id, health) {
            return Err(e);
        }
        self.pending_health_checks.remove(service_id);
        if self.health_monitoring_active {
            self.schedule_health_check(service_id);
            proof {
                assert(self.pending_health_checks@ =~= old(self).pending_health_checks@.insert(
                    service_id@,
                    check_due_at(self.config),
                ));
            }
        }
        Ok(())
    }

    /// The service registered under an id.
    pub fn get_service(&self, service_id: &str) -> (r: IpcResult<&RegisteredService>)
        requires
            self.wf(),
        ensures
            match r {
                Ok(s) => self.registry().services().contains_key(service_id@) && *s == self.registry().services()[service_id@],
                Err(e) => !self.registry().services().contains_key(service_id@) && e@ == IpcErrorView::ServiceNotFound(
                    service_id@,
                ),
            },
    {
        self.registry.get_service(service_id)
    }

    /// The available services whose capabilities cover the given ones, in
    /// increasing order of id.
    pub fn find_services(&self, capabilities: &ServiceCapabilities) -> (r: Vec<&RegisteredService>)
        requires
            self.wf(),
        ensures
            r@.map_values(|p: &RegisteredService| *p) == self.registry().listed().filter(capability_query(*capabilities)),
    {
        self.registry.find_services_by_capabilities(capabilities)
    }

    /// The available services, in increasing order of id.
    pub fn get_active_services(&self) -> (r: Vec<&RegisteredService>)
        requires
            self.wf(),
        ensures
            r@.map_values(|p: &RegisteredService| *p) == self.registry().listed().filter(active_query()),
    {
        self.registry.get_active_services()
    }

    /// The statistics of a service.
    pub fn get_service_stats(&self, service_id: &str) -> (r: IpcResult<ServiceStats>)
        requires
            self.wf(),
        ensures
            match r {
                Ok(s) => self.registry().stats().contains_key(service_id@) && s == self.registry().stats()[service_id@],
                Err(e) => !self.registry().stats().contains_key(service_id@) && e@ == IpcErrorView::ServiceNotFound(
                    service_id@,
                ),
            },
    {
        self.registry.get_service_stats(service_id)
    }

    /// Count a request of a service, as the registry does.
    pub fn update_service_stats(&mut self, service_id: &str, response_time_us: u64, success: bool) -> (r: IpcResult<()>)
        requires
            old(self).wf(),
            old(self).registry().stats().contains_key(service_id@) ==> request_fits(
                old(self).registry().stats()[service_id@],
                response_time_us,
                success,
            ),
        ensures
            final(self).wf(),
            final(self).settings() == old(self).settings(),
            final(self).monitoring() == old(self).monitoring(),
            final(self).discovering() == old(self).discovering(),
            final(self).pending() == old(self).pending(),
            final(self).timeouts() == old(self).timeouts(),
            final(self).registry().services() == old(self).registry().services(),
            final(self).registry().settings() == old(self).registry().settings(),
            if old(self).registry().stats().contains_key(service_id@) {
                &&& r is Ok
                &&& final(self).registry().stats() == old(self).registry().stats().insert(
                    service_id@,
                    stats_after_request(old(self).registry().stats()[service_id@], response_time_us, success),
                )
            } else {
                &&& r matches Err(e) && e@ == IpcErrorView::ServiceNotFound(service_id@)
                &&& final(self).registry().stats() == old(self).registry().stats()
            },
    {
        self.registry.update_service_stats(service_id, response_time_us, success)
    }

    /// Statistics of the manager: the registry's counts, the pending
    /// checks and what runs.
    pub fn get_manager_stats(&self) -> (s: ManagerStats)
        requires
            self.wf(),
        ensures
            s.total_services == self.registry().service_ids().len(),
            s.active_services == self.registry().listed().filter(active_query()).len(),
            s.pending_health_checks == self.pending().dom().len(),
            s.discovery_active == self.discovering(),
            s.health_monitoring_active == self.monitoring(),
            s.total_requests == crate::ipc::service_registry::wrap_u64(
                crate::ipc::service_registry::sum_of(self.registry().listed_stats(), |s: ServiceStats| s.total_requests),
            ),
            s.successful_requests == crate::ipc::service_registry::wrap_u64(
                crate::ipc::service_registry::sum_of(
                    self.registry().listed_stats(),
                    |s: ServiceStats| s.successful_requests,
                ),
            ),
            s.failed_requests == crate::ipc::service_registry::wrap_u64(
                crate::ipc::service_registry::sum_of(self.registry().listed_stats(), |s: ServiceStats| s.failed_requests),
            ),
    {
        let registry_stats = self.registry.get_registry_stats(0);
        ManagerStats {
            total_services: registry_stats.total_services,
            active_services: registry_stats.active_services,
            pending_health_checks: self.pending_health_checks.len(),
            discovery_active: self.discovery_active,
            health_monitoring_active: self.health_monitoring_active,
            total_requests: registry_stats.total_requests,
            successful_requests: registry_stats.successful_requests,
            failed_requests: registry_stats.failed_requests,
        }
    }

    /// Maintenance: forget the services the registry finds expired; drop
    /// the health checks unanswered for over a minute and mark their
    /// services unhealthy; when monitoring runs, schedule a check for each
    /// available service due one. Give how many of each.
    pub fn perform_maintenance(&mut self) -> (r: IpcResult<MaintenanceResult>)
        requires
            old(self).wf(),
            forall|k: Seq<char>| #[trigger] old(self).pending().contains_key(k) ==> old(self).pending()[k] + 60 <= u64::MAX,
            ({
                let reg = old(self).registry();
                let expired = reg.service_ids().filter(expired_services(reg.services(), reg.settings().service_timeout_sec));
                let services1 = reg.services().remove_keys(expired.to_set());
                let overdue = old(self).pending_ids().filter(overdue_checks(old(self).pending()));
                old(self).monitoring() ==> forall|k: Seq<char>| #[trigger]
                    services1.contains_key(k) && !overdue.contains(k) && is_available(services1[k])
                        ==> services1[k].health.last_check <= service_now()
            }),
        ensures
            final(self).wf(),
            final(self).settings() == old(self).settings(),
            final(self).monitoring() == old(self).monitoring(),
            final(self).discovering() == old(self).discovering(),
            final(self).timeouts() == old(self).timeouts(),
            final(self).registry().settings() == old(self).registry().settings(),
            ({
                let reg = old(self).registry();
                let expired = reg.service_ids().filter(expired_services(reg.services(), reg.settings().service_timeout_sec));
                let overdue = old(self).pending_ids().filter(overdue_checks(old(self).pending()));
                let pending2 = old(self).pending().remove_keys(overdue.to_set());
                let needing = final(self).registry().listed().filter(active_query()).filter(
                    needs_health_check(pending2, old(self).settings().health_check_interval_sec),
                ).map_values(|s: RegisteredService| s.info.id@);
                &&& marked_services(
                    final(self).registry().services(),
                    reg.services().remove_keys(expired.to_set()),
                    overdue,
                )
                &&& final(self).registry().stats() == reg.stats().remove_keys(expired.to_set())
                &&& final(self).pending() == if old(self).monitoring() {
                    with_checks(pending2, needing, check_due_at(old(self).settings()))
                } else {
                    pending2
                }
                &&& r matches Ok(m) && m.expired_services == expired.len() && m.failed_health_checks == overdue.len()
                    && m.scheduled_health_checks == if old(self).monitoring() {
                    needing.len()
                } else {
                    0
                }
            }),
    {
        let expired_list = self.registry.cleanup_expired_services();
        let expired_count = expired_list.len();
        assert(expired_list@.map_values(|s: String| s@).len() == expired_list@.len());
        let ghost services1 = self.registry.services();
        let ghost stats1 = self.registry.stats();
        let current_time = self.get_current_timestamp();

        // The checks unanswered for over a minute.
        let ghost keys = self.pending_ids();
        let ghost pending0 = self.pending();
        let ghost pred = overdue_checks(pending0);
        assert(pending0 == old(self).pending());
        assert(keys == old(self).pending_ids());
        let mut overdue: Vec<String> = Vec::new();
        let n = self.pending_health_checks.len();
        let mut i: usize = 0;
        while i < n
            invariant
                self.wf(),
                keys == self.pending_ids(),
                pending0 == self.pending(),
                pred == overdue_checks(pending0),
                current_time == service_now(),
                forall|k: Seq<char>| #[trigger] pending0.contains_key(k) ==> pending0[k] + 60 <= u64::MAX,
                n == keys.len(),
                i <= n,
                overdue@.map_values(|s: String| s@) == keys.subrange(0, i as int).filter(pred),
            decreases n - i,
        {
            proof {
                reveal_with_fuel(Seq::<_>::filter, 1);
                assert(keys.subrange(0, i + 1).drop_last() =~= keys.subrange(0, i as int));
                self.pending_health_checks.lemma_entry(i as int);
            }
            let timestamp = *self.pending_health_checks.value_at(i);
            if current_time > timestamp + 60 {
                let ghost prev = overdue@;
                let k = self.pending_health_checks.key_at(i).clone();
                overdue.push(k);
                assert(overdue@.map_values(|s: String| s@) =~= prev.map_values(|s: String| s@).push(keys[i as int]));
            }
            i += 1;
        }
        assert(keys.subrange(0, n as int) =~= keys);
        let ghost overdue_ids = keys.filter(pred);
        let failed_count = overdue.len();
        assert(overdue@.map_values(|s: String| s@).len() == overdue@.len());

        // Drop them and mark their services unhealthy.
        let mut j: usize = 0;
        while j < overdue.len()
            invariant
                self.wf(),
                overdue@.map_values(|s: String| s@) == overdue_ids,
                j <= overdue@.len(),
                overdue_ids.no_duplicates(),
                current_time == service_now(),
                self.pending() == pending0.remove_keys(overdue_ids.subrange(0, j as int).to_set()),
                marked_services(self.registry.services(), services1, overdue_ids.subrange(0, j as int)),
                self.registry.stats() == stats1,
                self.registry.settings() == old(self).registry.settings(),
                self.timeouts() == old(self).timeouts(),
                self.settings() == old(self).settings(),
                self.monitoring() == old(self).monitoring(),
                self.discovering() == old(self).discovering(),
            decreases overdue@.len() - j,
        {
            proof {
                crate::ordered_map::lemma_prefix_set_step(overdue_ids, j as int);
            }
            let ghost before = self.pending();
            let ghost before_services = self.registry.services();
            let ghost key = overdue_ids[j as int];
            assert(overdue@[j as int]@ == key);
            self.pending_health_checks.remove(overdue[j].as_str());
            proof {
                assert(self.pending() =~= before.remove(key));
                assert(before.remove(key) =~= pending0.remove_keys(overdue_ids.subrange(0, j + 1).to_set()));
            }
            if self.registry.get_service(overdue[j].as_str()).is_ok() {
                let unhealthy_health = ServiceHealth {
                    status: HealthStatus::Unhealthy,
                    score: 0,
                    last_check: current_time,
                    details: Vec::new(),
                };
                let _ = self.registry.update_health(overdue[j].as_str(), unhealthy_health);
            }
            proof {
                let prefix = overdue_ids.subrange(0, j as int);
                let next = overdue_ids.subrange(0, j + 1);
                assert(!prefix.contains(key)) by {
                    if prefix.contains(key) {
                        let q = choose|q: int| 0 <= q < prefix.len() && prefix[q] == key;
                        assert(overdue_ids[q] == overdue_ids[j as int]);
                    }
                }
                assert forall|k: Seq<char>| next.contains(k) <==> prefix.contains(k) || k == key by {
                    if next.contains(k) {
                        let q = choose|q: int| 0 <= q < next.len() && next[q] == k;
                        if q < j {
                            assert(prefix[q] == k);
                        }
                    }
                    if prefix.contains(k) {
                        let q = choose|q: int| 0 <= q < prefix.len() && prefix[q] == k;
                        assert(next[q] == k);
                    }
                    if k == key {
                        assert(next[j as int] == k);
                    }
                }
                assert(self.registry.services().dom() =~= services1.dom());
            }
            j += 1;
        }
        proof {
            assert(overdue_ids.subrange(0, overdue@.len() as int) =~= overdue_ids);
        }

        // Schedule checks for the services due one.
        proof {
            let reg = old(self).registry();
            let expired = reg.service_ids().filter(expired_services(reg.services(), reg.settings().service_timeout_sec));
            assert(services1 == reg.services().remove_keys(expired.to_set()));
            assert(overdue_ids == old(self).pending_ids().filter(overdue_checks(old(self).pending())));
            if self.health_monitoring_active {
                assert forall|k: Seq<char>| #[trigger]
                    self.registry().services().contains_key(k) && is_available(self.registry().services()[k])
                    implies self.registry().services()[k].health.last_check <= service_now() by {
                    assert(services1.contains_key(k));
                    if !overdue_ids.contains(k) {
                        assert(self.registry().services()[k] == services1[k]);
                    }
                }
            }
        }
        let ghost pending2 = self.pending();
        let mut scheduled: usize = 0;
        if self.health_monitoring_active {
            let needing = self.find_services_needing_health_checks();
            let ghost needing_ids = needing@.map_values(|s: String| s@);
            let ghost reg2 = self.registry;
            let mut q: usize = 0;
            while q < needing.len()
                invariant
                    self.wf(),
                    needing_ids == needing@.map_values(|s: String| s@),
                    q <= needing@.len(),
                    self.pending() == with_checks(pending2, needing_ids.subrange(0, q as int), check_due_at(self.settings())),
                    self.registry == reg2,
                    marked_services(self.registry.services(), services1, overdue_ids),
                    self.registry.stats() == stats1,
                    self.registry.settings() == old(self).registry.settings(),
                    self.timeouts() == old(self).timeouts(),
                    self.settings() == old(self).settings(),
                    self.monitoring() == old(self).monitoring(),
                    self.discovering() == old(self).discovering(),
                decreases needing@.len() - q,
            {
                let ghost before = self.pending();
                assert(needing@[q as int]@ == needing_ids[q as int]);
                self.schedule_health_check(needing[q].as_str());
                proof {
                    let prefix = needing_ids.subrange(0, q as int);
                    let next = needing_ids.subrange(0, q + 1);
                    assert forall|k: Seq<char>| next.contains(k) <==> prefix.contains(k) || k == needing_ids[q as int] by {
                        if next.contains(k) {
                            let w = choose|w: int| 0 <= w < next.len() && next[w] == k;
                            if w < q {
                                assert(prefix[w] == k);
                            }
                        }
                        if prefix.contains(k) {
                            let w = choose|w: int| 0 <= w < prefix.len() && prefix[w] == k;
                            assert(next[w] == k);
                        }
                        if k == needing_ids[q as int] {
                            assert(next[q as int] == k);
                        }
                    }
                    assert(self.pending() =~= with_checks(pending2, next, check_due_at(self.settings())));
                }
                q += 1;
            }
            proof {
                assert(needing_ids.subrange(0, needing@.len() as int) =~= needing_ids);
            }
            scheduled = needing.len();
            assert(needing_ids.len() == needing@.len());
        }
        proof {
            let reg = old(self).registry();
            let expired = reg.service_ids().filter(expired_services(reg.services(), reg.settings().service_timeout_sec));
            assert(services1 == reg.services().remove_keys(expired.to_set()));
            assert(stats1 == reg.stats().remove_keys(expired.to_set()));
            assert(marked_services(self.registry().services(), services1, overdue_ids));
            assert(expired_count == expired.len());
            assert(failed_count == overdue_ids.len());
            let overdue = old(self).pending_ids().filter(overdue_checks(old(self).pending()));
            assert(overdue == overdue_ids);
            assert(pending2 == old(self).pending().remove_keys(overdue.to_set()));
            assert(self.registry().stats() == reg.stats().remove_keys(expired.to_set()));
        }
        Ok(MaintenanceResult {
            expired_services: expired_count,
            failed_health_checks: failed_count,
            scheduled_health_checks: scheduled,
        })
    }

    /// The ids of the available services due a health check, in increasing
    /// order.
    fn find_services_needing_health_checks(&self) -> (r: Vec<String>)
        requires
            self.wf(),
            forall|k: Seq<char>| #[trigger]
                self.registry().services().contains_key(k) && is_available(self.registry().services()[k])
                    ==> self.registry().services()[k].health.last_check <= service_now(),
        ensures
            r@.map_values(|s: String| s@) == self.registry().listed().filter(active_query()).filter(
                needs_health_check(self.pending(), self.settings().health_check_interval_sec),
            ).map_values(|s: RegisteredService| s.info.id@),
    {
        let current_time = self.get_current_timestamp();
        let check_interval = self.config.health_check_interval_sec;
        let active = self.registry.get_active_services();
        let ghost act = active@.map_values(|p: &RegisteredService| *p);
        let ghost pred = needs_health_check(self.pending(), check_interval);
        let mut out: Vec<String> = Vec::new();
        let mut i: usize = 0;
        while i < active.len()
            invariant
                self.wf(),
                act == active@.map_values(|p: &RegisteredService| *p),
                act == self.registry().listed().filter(active_query()),
                pred == needs_health_check(self.pending(), check_interval),
                check_interval == self.settings().health_check_interval_sec,
                current_time == service_now(),
                forall|k: Seq<char>| #[trigger]
                    self.registry().services().contains_key(k) && is_available(self.registry().services()[k])
                        ==> self.registry().services()[k].health.last_check <= service_now(),
                i <= active@.len(),
                out@.map_values(|s: String| s@) == act.subrange(0, i as int).filter(pred).map_values(
                    |s: RegisteredService| s.info.id@,
                ),
            decreases active@.len() - i,
        {
            proof {
                reveal_with_fuel(Seq::<_>::filter, 1);
                assert(act.subrange(0, i + 1).drop_last() =~= act.subrange(0, i as int));
                self.registry.lemma_listed_available(i as int);
            }
            let service = active[i];
            assert(act[i as int] == *service);
            let last_check = service.health.last_check;
            let needs_check = current_time - last_check > check_interval;
            let not_pending = !self.pending_health_checks.contains_key(service.info.id.as_str());
            if needs_check && not_pending {
                let ghost prev = out@;
                let ghost prev_f = act.subrange(0, i as int).filter(pred);
                out.push(service.info.id.clone());
                assert(out@.map_values(|s: String| s@) =~= prev.map_values(|s: String| s@).push(service.info.id@));
                assert(prev_f.push(*service).map_values(|s: RegisteredService| s.info.id@) =~= prev_f.map_values(
                    |s: RegisteredService| s.info.id@,
                ).push(service.info.id@));
            }
            i += 1;
        }
        assert(act.subrange(0, active@.len() as int) =~= act);
        out
    }

    fn validate_service_registration(service_info: &ServiceInfo) -> (r: IpcResult<()>)
        ensures
            match registration_error(*service_info) {
                Some(m) => r matches Err(e) && e@ == IpcErrorView::RegistrationFailed(m),
                None => r is Ok,
            },
    {
        let id_len = service_info.id.as_str().as_bytes().len();
        if id_len == 0 || id_len > crate::ipc::protocol::MAX_SERVICE_NAME_LEN {
            return Err(IpcError::RegistrationFailed(message("Invalid service ID")));
        }
        let name_len = service_info.name.as_str().as_bytes().len();
        if name_len == 0 || name_len > crate::ipc::protocol::MAX_SERVICE_NAME_LEN {
            return Err(IpcError::RegistrationFailed(message("Invalid service name")));
        }
        if service_info.capabilities.supported_dimensions.len() == 0 {
            return Err(IpcError::RegistrationFailed(message("No supported dimensions")));
        }
        if service_info.capabilities.max_batch_size == 0 {
            return Err(IpcError::RegistrationFailed(message("Invalid batch size")));
        }
        if service_info.endpoint.address.as_str().as_bytes().len() == 0 {
            return Err(IpcError::RegistrationFailed(message("Invalid endpoint address")));
        }
        Ok(())
    }

    /// Schedule a health check of a service after the interval.
    fn schedule_health_check(&mut self, service_id: &str)
        requires
            old(self).wf(),
        ensures
            final(self).wf(),
            final(self).pending() == old(self).pending().insert(service_id@, check_due_at(old(self).settings())),
            final(self).registry() == old(self).registry(),
            final(self).timeouts() == old(self).timeouts(),
            final(self).settings() == old(self).settings(),
            final(self).monitoring() == old(self).monitoring(),
            final(self).discovering() == old(self).discovering(),
    {
        let check_time = self.get_current_timestamp() + self.config.health_check_interval_sec;
        self.pending_health_checks.insert(message(service_id), check_time);
    }

    fn get_current_timestamp(&self) -> (t: u64)
        ensures
            t == service_now(),
    {
        0
    }
}

} // verus!
