//! The ioctl layer of the vector operations: security levels and the
//! permissions they grant, which operations are audited, the configuration
//! records of the handler, its logger, and the aggregation of resource usage.

use vstd::prelude::*;
use crate::shared::{VexfsError, VexfsResult};
use crate::fs_core::permissions::UserContext as FsUserContext;

verus! {

/// The clock time of an audit record.
#[verifier::external_type_specification]
#[verifier::external_body]
pub struct ExSystemTime(std::time::SystemTime);

/// Privilege level of a user, from least to most privileged.
#[derive(Debug, Clone, Copy, PartialEq, Eq, PartialOrd, Ord, Structural)]
pub enum UserSecurityLevel {
    /// Guest user with minimal privileges.
    Guest,
    /// Regular user.
    User,
    /// Power user with extended privileges.
    PowerUser,
    /// Administrator.
    Admin,
    /// The system itself, unrestricted.
    System,
}

/// Rank of a security level: 0 for a guest up to 4 for the system.
pub open spec fn level_rank(level: UserSecurityLevel) -> u8 {
    match level {
        UserSecurityLevel::Guest => 0,
        UserSecurityLevel::User => 1,
        UserSecurityLevel::PowerUser => 2,
        UserSecurityLevel::Admin => 3,
        UserSecurityLevel::System => 4,
    }
}

impl UserSecurityLevel {
    /// Rank of the level: 0 for a guest up to 4 for the system.
    pub fn rank(&self) -> (r: u8)
        ensures
            r == level_rank(*self),
    {
        match self {
            UserSecurityLevel::Guest => 0,
            UserSecurityLevel::User => 1,
            UserSecurityLevel::PowerUser => 2,
            UserSecurityLevel::Admin => 3,
            UserSecurityLevel::System => 4,
        }
    }
}

/// Rate limiting of a user's operations.
#[derive(Debug, Clone)]
pub struct RateLimitConfig {
    /// Operations per second.
    pub max_ops_per_second: u32,
    /// Operations in flight at once.
    pub max_concurrent_ops: u32,
    /// Operations allowed above the rate in a burst.
    pub burst_allowance: u32,
    /// Window of the rate, in seconds.
    pub window_seconds: u32,
}

/// A pattern of operations that may point to an attack.
#[derive(Debug, Clone)]
pub struct SuspiciousPattern {
    /// What kind of pattern.
    pub pattern_type: PatternType,
    /// When the pattern is deemed present.
    pub criteria: PatternCriteria,
    /// How serious it is.
    pub severity: SecuritySeverity,
}

/// Kinds of suspicious patterns.
#[derive(Debug, Clone, Copy, PartialEq, Eq, Structural)]
pub enum PatternType {
    RapidOperations,
    MemoryAnomalies,
    PrivilegeTesting,
    BufferOverflow,
    TimingAttacks,
}

/// When a pattern is deemed present.
#[derive(Debug, Clone)]
pub struct PatternCriteria {
    /// Operations within the window.
    pub operation_count: u32,
    /// The window, in milliseconds.
    pub time_window_ms: u64,
    /// Memory threshold in bytes.
    pub memory_threshold: usize,
    /// Further flags.
    pub flags: u32,
}

/// Severity of a security event, from monitoring only to immediate action.
#[derive(Debug, Clone, Copy, PartialEq, Eq, PartialOrd, Ord, Structural)]
pub enum SecuritySeverity {
    Low,
    Medium,
    High,
    Critical,
}

/// How security alerts are raised.
#[derive(Debug, Clone)]
pub struct AlertConfig {
    /// Raise critical events at once.
    pub immediate_alerts: bool,
    /// Window over which alerts are gathered, in milliseconds.
    pub aggregation_window_ms: u64,
    /// Alerts raised per window at most.
    pub max_alerts_per_window: u32,
}

/// Vector operations reached through ioctl.
#[derive(Debug, Clone, Copy, PartialEq, Eq, PartialOrd, Ord, Structural)]
pub enum VectorIoctlOperation {
    AddEmbedding,
    GetEmbedding,
    UpdateEmbedding,
    DeleteEmbedding,
    VectorSearch,
    HybridSearch,
    IndexManagement,
    BatchSearch,
}

/// Batching of operations: the sizes per operation kind, as pairs.
#[derive(Debug, Clone)]
pub struct BatchConfig {
    /// Best batch size of each operation kind.
    pub optimal_batch_sizes: Vec<(VectorIoctlOperation, usize)>,
    /// Largest batch size of each operation kind.
    pub max_batch_sizes: Vec<(VectorIoctlOperation, usize)>,
    /// Batch timeout in milliseconds.
    pub batch_timeout_ms: u64,
    /// Whether batch sizes adapt to the load.
    pub adaptive_batching: bool,
}

/// Parallel processing of operations.
#[derive(Debug, Clone)]
pub struct ParallelizationConfig {
    pub enable_parallel: bool,
    pub max_threads: usize,
    pub work_stealing: bool,
    pub thread_pool_config: ThreadPoolConfig,
}

/// The worker pool.
#[derive(Debug, Clone)]
pub struct ThreadPoolConfig {
    pub core_threads: usize,
    pub max_threads: usize,
    pub keep_alive_ms: u64,
    pub queue_capacity: usize,
}

/// Caching of results.
#[derive(Debug, Clone)]
pub struct CacheOptimizationConfig {
    pub enable_caching: bool,
    /// Entries kept.
    pub cache_size: usize,
    pub cache_ttl_seconds: u64,
    pub enable_warming: bool,
    pub warming_strategy: CacheWarmingStrategy,
}

/// How the cache is filled ahead of use.
#[derive(Debug, Clone, Copy, PartialEq, Eq, Structural)]
pub enum CacheWarmingStrategy {
    NoWarming,
    Lazy,
    Proactive,
    Aggressive,
}

/// What a failed operation may fall back to.
#[derive(Debug, Clone, Copy, PartialEq, Eq, Structural)]
pub enum FallbackType {
    CachedResults,
    ApproximateResults,
    SimplifiedAlgorithm,
    PartialResults,
}

/// How far service is degraded, from minimal to severe.
#[derive(Debug, Clone, Copy, PartialEq, Eq, PartialOrd, Ord, Structural)]
pub enum DegradationLevel {
    Minimal,
    Moderate,
    Significant,
    Severe,
}

/// The circuit breaker of the handler.
#[derive(Debug, Clone)]
pub struct CircuitBreakerConfig {
    /// Failures that open the circuit.
    pub failure_threshold: u32,
    /// Successes that close it again.
    pub success_threshold: u32,
    /// Time in the half-open state, in milliseconds.
    pub timeout_ms: u64,
    pub enabled: bool,
}

/// Which fallbacks are enabled.
#[derive(Debug, Clone)]
pub struct FallbackMechanisms {
    pub cached_results: bool,
    pub approximate_results: bool,
    pub degraded_service: bool,
    pub fallback_timeout_ms: u64,
}

/// Severity of a log record.
#[derive(Debug, Clone, Copy, PartialEq, Eq, PartialOrd, Ord, Structural)]
pub enum LogLevel {
    Error,
    Warn,
    Info,
    Debug,
    Trace,
    Fatal,
}

/// The logger of ioctl operations.
#[derive(Debug, Clone)]
pub struct IoctlLogger {
    pub config: LoggingConfig,
    pub log_buffer: LogBuffer,
    pub audit_config: AuditConfig,
    pub metrics_config: MetricsLoggingConfig,
}

/// What is logged and how.
#[derive(Debug, Clone)]
pub struct LoggingConfig {
    pub log_level: LogLevel,
    pub structured_logging: bool,
    pub async_logging: bool,
    pub rotation_config: LogRotationConfig,
}

/// Health of the handler as a whole.
#[derive(Debug, Clone)]
pub struct SystemHealthStatus {
    pub active_operations: usize,
    pub total_operations: u64,
    pub security_violations: u64,
    pub performance_alerts: u64,
}

/// Buffering of log records.
#[derive(Debug, Clone)]
pub struct LogBuffer {
    /// Records held.
    pub buffer_size: usize,
    /// Records that trigger a flush.
    pub flush_threshold: usize,
    pub flush_interval_ms: u64,
    pub compression: bool,
}

/// Which operations leave an audit record.
#[derive(Debug, Clone)]
pub struct AuditConfig {
    pub enabled: bool,
    pub audit_all: bool,
    pub audit_operations: Vec<VectorIoctlOperation>,
    pub retention_days: u32,
}

/// Which metrics are logged.
#[derive(Debug, Clone)]
pub struct MetricsLoggingConfig {
    pub performance_metrics: bool,
    pub security_metrics: bool,
    pub resource_metrics: bool,
    pub aggregation_interval_seconds: u32,
}

/// When log files rotate.
#[derive(Debug, Clone)]
pub struct LogRotationConfig {
    /// Largest file, in bytes.
    pub max_file_size: usize,
    /// Files kept.
    pub max_files: u32,
    pub rotation_strategy: RotationStrategy,
}

/// What triggers a rotation.
#[derive(Debug, Clone, Copy, PartialEq, Eq, Structural)]
pub enum RotationStrategy {
    Size,
    Time,
    SizeAndTime,
}

/// One change of state of an operation, with its reason and context pairs.
#[derive(Debug, Clone)]
pub struct OperationStateTransition {
    pub timestamp_us: u64,
    pub from_state: EnhancedOperationState,
    pub to_state: EnhancedOperationState,
    pub reason: String,
    pub context: Vec<(String, String)>,
}

/// The states an operation passes through.
#[derive(Debug, Clone, Copy, PartialEq, Eq, Structural)]
pub enum EnhancedOperationState {
    Initializing,
    WaitingForDependencies,
    SecurityValidation,
    ResourceAllocation,
    Executing,
    PreparingResponse,
    Completed,
    Failed,
    Cancelled,
    TimedOut,
    CleaningUp,
}

/// A record of the resources in use at one moment.
#[derive(Debug, Clone)]
pub struct ResourceUsageSnapshot {
    pub timestamp_us: u64,
    pub memory_usage_bytes: usize,
    pub cpu_time_us: u64,
    pub io_operations: u64,
    pub active_operations: usize,
}

/// The state of an operation.
#[derive(Debug, Clone, Copy, PartialEq, Eq, Structural)]
pub enum OperationStatus {
    Starting,
    Validating,
    Processing,
    Executing,
    PreparingResponse,
    Completed,
    Failed,
    Cancelled,
    TimedOut,
}

/// Resources used by one operation.
#[derive(Debug, Clone)]
pub struct ResourceUsage {
    pub memory_allocated: usize,
    pub cpu_time_us: u64,
    pub io_operations: u64,
    pub network_bytes: u64,
}

/// A user as the ioctl layer sees it.
#[derive(Debug, Clone)]
pub struct UserContext {
    pub user_id: u32,
    pub group_id: u32,
    pub security_level: UserSecurityLevel,
    pub session_id: u64,
    pub process_id: u32,
}

/// What an operation is allowed to do.
#[derive(Debug, Clone)]
pub struct SecurityContext {
    pub security_level: UserSecurityLevel,
    pub permissions: Vec<Permission>,
    pub security_flags: u32,
    pub audit_required: bool,
}

/// The user named in an audit record.
#[derive(Debug, Clone)]
pub struct UserInfo {
    pub uid: u32,
    pub gid: u32,
    pub username: String,
}

/// The process named in an audit record.
#[derive(Debug, Clone)]
pub struct ProcessInfo {
    pub pid: u32,
    pub ppid: u32,
    pub executable_path: String,
}

/// What an audit record says of an operation.
#[derive(Debug)]
pub struct AuditContext {
    pub operation_id: u64,
    pub user: UserInfo,
    pub process: ProcessInfo,
    pub timestamp: std::time::SystemTime,
    pub session_id: Option<String>,
    pub source_ip: Option<String>,
}

/// Rights over vectors and indexes.
#[derive(Debug, Clone, Copy, PartialEq, Eq, Structural)]
pub enum Permission {
    ReadVector,
    WriteVector,
    DeleteVector,
    SearchVector,
    ManageIndex,
    Admin,
}

/// The security level of a user: the superuser is the system, a group below
/// 100 administers, a group below 1000 is a power user, anyone else a user.
pub open spec fn security_level_of(uid: u32, gid: u32) -> UserSecurityLevel {
    if uid == 0 {
        UserSecurityLevel::System
    } else if gid < 100 {
        UserSecurityLevel::Admin
    } else if gid < 1000 {
        UserSecurityLevel::PowerUser
    } else {
        UserSecurityLevel::User
    }
}

/// The security level of a user by their user and group id.
pub fn determine_security_level(uid: u32, gid: u32) -> (r: UserSecurityLevel)
    ensures
        r == security_level_of(uid, gid),
{
    if uid == 0 {
        UserSecurityLevel::System
    } else if gid < 100 {
        UserSecurityLevel::Admin
    } else if gid < 1000 {
        UserSecurityLevel::PowerUser
    } else {
        UserSecurityLevel::User
    }
}

/// The permissions granted at a level, in a fixed order: each level grants
/// those of the level below and more.
pub open spec fn permissions_of(level: UserSecurityLevel) -> Seq<Permission> {
    match level {
        UserSecurityLevel::System => seq![
            Permission::ReadVector,
            Permission::WriteVector,
            Permission::DeleteVector,
            Permission::SearchVector,
            Permission::ManageIndex,
            Permission::Admin,
        ],
        UserSecurityLevel::Admin => seq![
            Permission::ReadVector,
            Permission::WriteVector,
            Permission::DeleteVector,
            Permission::SearchVector,
            Permission::ManageIndex,
        ],
        UserSecurityLevel::PowerUser => seq![
            Permission::ReadVector,
            Permission::WriteVector,
            Permission::SearchVector,
        ],
        UserSecurityLevel::User => seq![Permission::ReadVector, Permission::SearchVector],
        UserSecurityLevel::Guest => seq![Permission::ReadVector],
    }
}

/// The permissions granted at a security level.
pub fn determine_permissions(level: UserSecurityLevel) -> (r: Vec<Permission>)
    ensures
        r@ == permissions_of(level),
{
    let mut v: Vec<Permission> = Vec::new();
    match level {
        UserSecurityLevel::System => {
            v.push(Permission::ReadVector);
            v.push(Permission::WriteVector);
            v.push(Permission::DeleteVector);
            v.push(Permission::SearchVector);
            v.push(Permission::ManageIndex);
            v.push(Permission::Admin);
        },
        UserSecurityLevel::Admin => {
            v.push(Permission::ReadVector);
            v.push(Permission::WriteVector);
            v.push(Permission::DeleteVector);
            v.push(Permission::SearchVector);
            v.push(Permission::ManageIndex);
        },
        UserSecurityLevel::PowerUser => {
            v.push(Permission::ReadVector);
            v.push(Permission::WriteVector);
            v.push(Permission::SearchVector);
        },
        UserSecurityLevel::User => {
            v.push(Permission::ReadVector);
            v.push(Permission::SearchVector);
        },
        UserSecurityLevel::Guest => {
            v.push(Permission::ReadVector);
        },
    }
    assert(v@ =~= permissions_of(level));
    v
}

/// Each level grants every permission of the levels below it.
pub proof fn lemma_permissions_grow_with_level(low: UserSecurityLevel, high: UserSecurityLevel, p: Permission)
    requires
        level_rank(low) <= level_rank(high),
        permissions_of(low).contains(p),
    ensures
        permissions_of(high).contains(p),
{
    let l = permissions_of(low);
    let h = permissions_of(high);
    match p {
        Permission::ReadVector => { assert(h[0] == p); },
        Permission::WriteVector => { assert(h[1] == p); },
        Permission::DeleteVector => { assert(h[2] == p); },
        Permission::SearchVector => {
            if high == UserSecurityLevel::User { assert(h[1] == p); }
            else if high == UserSecurityLevel::PowerUser { assert(h[2] == p); }
            else { assert(h[3] == p); }
        },
        Permission::ManageIndex => { assert(h[4] == p); },
        Permission::Admin => { assert(h[5] == p); },
    }
}

/// Whether an operation leaves an audit record: deletions and index management.
pub open spec fn audited(op: VectorIoctlOperation) -> bool {
    op == VectorIoctlOperation::DeleteEmbedding || op == VectorIoctlOperation::IndexManagement
}

/// Whether an operation must be audited.
pub fn requires_audit(operation_type: &VectorIoctlOperation) -> (r: bool)
    ensures
        r == audited(*operation_type),
{
    match operation_type {
        VectorIoctlOperation::DeleteEmbedding | VectorIoctlOperation::IndexManagement => true,
        _ => false,
    }
}

impl IoctlLogger {
    /// A logger at level info with structured, asynchronous logging; files
    /// rotate at 100 MiB or by time, ten kept; a buffer of 1000 records
    /// flushed at 100 or every 5 s; deletions and index management audited
    /// and kept 90 days; all metrics gathered each minute.
    pub fn new() -> (r: Self)
        ensures
            r.config.log_level == LogLevel::Info,
            r.config.structured_logging,
            r.config.async_logging,
            r.config.rotation_config.max_file_size == 100 * 1024 * 1024,
            r.config.rotation_config.max_files == 10,
            r.config.rotation_config.rotation_strategy == RotationStrategy::SizeAndTime,
            r.log_buffer.buffer_size == 1000,
            r.log_buffer.flush_threshold == 100,
            r.log_buffer.flush_interval_ms == 5000,
            r.log_buffer.compression,
            r.audit_config.enabled,
            !r.audit_config.audit_all,
            r.audit_config.audit_operations@ == seq![
                VectorIoctlOperation::DeleteEmbedding,
                VectorIoctlOperation::IndexManagement,
            ],
            r.audit_config.retention_days == 90,
            r.metrics_config.performance_metrics,
            r.metrics_config.security_metrics,
            r.metrics_config.resource_metrics,
            r.metrics_config.aggregation_interval_seconds == 60,
    {
        let mut audit_operations: Vec<VectorIoctlOperation> = Vec::new();
        audit_operations.push(VectorIoctlOperation::DeleteEmbedding);
        audit_operations.push(VectorIoctlOperation::IndexManagement);
        let r = IoctlLogger {
            config: LoggingConfig {
                log_level: LogLevel::Info,
                structured_logging: true,
                async_logging: true,
                rotation_config: LogRotationConfig {
                    max_file_size: 100 * 1024 * 1024,
                    max_files: 10,
                    rotation_strategy: RotationStrategy::SizeAndTime,
                },
            },
            log_buffer: LogBuffer {
                buffer_size: 1000,
                flush_threshold: 100,
                flush_interval_ms: 5000,
                compression: true,
            },
            audit_config: AuditConfig {
                enabled: true,
                audit_all: false,
                audit_operations,
                retention_days: 90,
            },
            metrics_config: MetricsLoggingConfig {
                performance_metrics: true,
                security_metrics: true,
                resource_metrics: true,
                aggregation_interval_seconds: 60,
            },
        };
        assert(r.audit_config.audit_operations@ =~= seq![
            VectorIoctlOperation::DeleteEmbedding,
            VectorIoctlOperation::IndexManagement,
        ]);
        r
    }

    /// Records an operation of a user and its outcome; recording never fails.
    pub fn log_operation(
        &self,
        _context: &FsUserContext,
        _operation: &VectorIoctlOperation,
        _result: &VexfsResult<i32>,
    ) -> (r: VexfsResult<()>)
        ensures
            r is Ok,
    {
        Ok(())
    }

    /// Records an audit entry for an operation; recording never fails.
    pub fn log_audit_entry(
        &self,
        _audit_context: &AuditContext,
        _operation: &VectorIoctlOperation,
        _result: &VexfsResult<i32>,
    ) -> (r: VexfsResult<()>)
        ensures
            r is Ok,
    {
        Ok(())
    }
}

/// Totals of the resource aggregator. The counters wrap around on overflow.
pub struct AggregatorView {
    pub memory: usize,
    pub peak: usize,
    pub cpu_time_us: u64,
    pub io_operations: u64,
    pub io_bytes: u64,
}

impl AggregatorView {
    /// After `n` bytes are allocated: the memory in use grows (wrapping), and
    /// the peak follows it upwards.
    pub open spec fn after_allocation(self, n: usize) -> AggregatorView {
        let m = vstd::wrapping::usize_specs::wrapping_add(self.memory, n);
        AggregatorView {
            memory: m,
            peak: if m > self.peak { m } else { self.peak },
            cpu_time_us: self.cpu_time_us,
            io_operations: self.io_operations,
            io_bytes: self.io_bytes,
        }
    }

    /// After `n` bytes are freed: the memory in use shrinks (wrapping).
    pub open spec fn after_deallocation(self, n: usize) -> AggregatorView {
        AggregatorView {
            memory: vstd::wrapping::usize_specs::wrapping_sub(self.memory, n),
            peak: self.peak,
            cpu_time_us: self.cpu_time_us,
            io_operations: self.io_operations,
            io_bytes: self.io_bytes,
        }
    }

    /// After `t` microseconds of processor time.
    pub open spec fn after_cpu(self, t: u64) -> AggregatorView {
        AggregatorView {
            memory: self.memory,
            peak: self.peak,
            cpu_time_us: vstd::wrapping::u64_specs::wrapping_add(self.cpu_time_us, t),
            io_operations: self.io_operations,
            io_bytes: self.io_bytes,
        }
    }

    /// After one I/O operation of `b` bytes.
    pub open spec fn after_io(self, b: u64) -> AggregatorView {
        AggregatorView {
            memory: self.memory,
            peak: self.peak,
            cpu_time_us: self.cpu_time_us,
            io_operations: vstd::wrapping::u64_specs::wrapping_add(self.io_operations, 1),
            io_bytes: vstd::wrapping::u64_specs::wrapping_add(self.io_bytes, b),
        }
    }
}

/// Resource usage summed over all operations.
#[derive(Debug)]
pub struct ResourceUsageAggregator {
    total_memory_allocated: usize,
    peak_memory_usage: usize,
    total_cpu_time_us: u64,
    total_io_operations: u64,
    total_io_bytes: u64,
    operation_counts: Vec<(VectorIoctlOperation, u64)>,
    usage_history: Vec<ResourceUsageSnapshot>,
}

impl View for ResourceUsageAggregator {
    type V = AggregatorView;

    closed spec fn view(&self) -> AggregatorView {
        AggregatorView {
            memory: self.total_memory_allocated,
            peak: self.peak_memory_usage,
            cpu_time_us: self.total_cpu_time_us,
            io_operations: self.total_io_operations,
            io_bytes: self.total_io_bytes,
        }
    }
}

impl ResourceUsageAggregator {
    /// The operation counts kept, by kind of operation.
    pub closed spec fn operation_counts(&self) -> Seq<(VectorIoctlOperation, u64)> {
        self.operation_counts@
    }

    /// The snapshots of resource usage kept, oldest first.
    pub closed spec fn usage_history(&self) -> Seq<ResourceUsageSnapshot> {
        self.usage_history@
    }

    /// An aggregator with every total at zero, no operation counted and no
    /// snapshot kept.
    pub fn new() -> (r: Self)
        ensures
            r@ == (AggregatorView { memory: 0, peak: 0, cpu_time_us: 0, io_operations: 0, io_bytes: 0 }),
            r.operation_counts() == Seq::<(VectorIoctlOperation, u64)>::empty(),
            r.usage_history() == Seq::<ResourceUsageSnapshot>::empty(),
    {
        ResourceUsageAggregator {
            total_memory_allocated: 0,
            peak_memory_usage: 0,
            total_cpu_time_us: 0,
            total_io_operations: 0,
            total_io_bytes: 0,
            operation_counts: Vec::new(),
            usage_history: Vec::new(),
        }
    }

    /// Counts an allocation and raises the peak if the total exceeds it.
    pub fn track_memory_allocation(&mut self, size_bytes: usize)
        ensures
            final(self)@ == old(self)@.after_allocation(size_bytes),
    {
        self.total_memory_allocated = self.total_memory_allocated.wrapping_add(size_bytes);
        let current = self.total_memory_allocated;
        if current > self.peak_memory_usage {
            self.peak_memory_usage = current;
        }
    }

    /// Counts a deallocation.
    pub fn track_memory_deallocation(&mut self, size_bytes: usize)
        ensures
            final(self)@ == old(self)@.after_deallocation(size_bytes),
    {
        self.total_memory_allocated = self.total_memory_allocated.wrapping_sub(size_bytes);
    }

    /// Counts processor time.
    pub fn track_cpu_usage(&mut self, cpu_time_us: u64)
        ensures
            final(self)@ == old(self)@.after_cpu(cpu_time_us),
    {
        self.total_cpu_time_us = self.total_cpu_time_us.wrapping_add(cpu_time_us);
    }

    /// Counts one I/O operation and its bytes.
    pub fn track_io_operation(&mut self, bytes: u64)
        ensures
            final(self)@ == old(self)@.after_io(bytes),
    {
        self.total_io_operations = self.total_io_operations.wrapping_add(1);
        self.total_io_bytes = self.total_io_bytes.wrapping_add(bytes);
    }

    /// Memory in use.
    pub fn get_current_memory_usage(&self) -> (r: usize)
        ensures
            r == self@.memory,
    {
        self.total_memory_allocated
    }

    /// Highest memory in use seen.
    pub fn get_peak_memory_usage(&self) -> (r: usize)
        ensures
            r == self@.peak,
    {
        self.peak_memory_usage
    }

    /// Processor time counted.
    pub fn get_total_cpu_time(&self) -> (r: u64)
        ensures
            r == self@.cpu_time_us,
    {
        self.total_cpu_time_us
    }

    /// I/O operations counted.
    pub fn get_total_io_operations(&self) -> (r: u64)
        ensures
            r == self@.io_operations,
    {
        self.total_io_operations
    }
}

/// Freeing what was just allocated gives the memory in use back, whatever
/// wrapped in between.
pub proof fn lemma_allocation_then_deallocation(s: AggregatorView, n: usize)
    ensures
        s.after_allocation(n).after_deallocation(n).memory == s.memory,
        s.after_allocation(n).after_deallocation(n).peak >= s.peak,
{
}

/// The peak never falls and is at least the memory in use after an
/// allocation; a deallocation that does not underflow keeps the peak at or
/// above the memory in use.
pub proof fn lemma_peak_bounds_memory(s: AggregatorView, n: usize)
    ensures
        s.after_allocation(n).peak >= s.peak,
        s.after_allocation(n).peak >= s.after_allocation(n).memory,
        s.peak >= s.memory && n <= s.memory ==> s.after_deallocation(n).peak >= s.after_deallocation(n).memory,
{
}

} // verus!
