//! Bounded first-in first-out queues of embedding requests, with their
//! statistics.

use vstd::prelude::*;
use crate::hybrid_query_optimizer::{F32_0_7, F32_0_9};
use crate::ipc::protocol::{EmbeddingRequest, EmbeddingResponse, ResponseStatus, ServiceInfo};
use crate::ipc::service_manager::service_now;
use crate::ipc::{IpcConfig, IpcError, IpcErrorView, IpcResult};
use crate::knn_search::{f32_ge, f32_greater, f32_gt};
use crate::shared::message;
use crate::text::{decimal_string, spec_decimal, str_eq};
use crate::text_map::TextMap;
use vstd::string::*;

verus! {

/// A request waiting in a queue.
#[derive(Debug, Clone)]
pub struct QueuedRequest {
    pub request_id: u64,
    pub request: EmbeddingRequest,
    /// The service it is meant for.
    pub service_id: String,
    pub queued_at: u64,
    pub priority: u8,
    pub retry_count: u32,
    /// Extra information, as name and value.
    pub metadata: Vec<(String, String)>,
}

/// Queue statistics.
#[derive(Debug, Clone, Copy, Default, PartialEq, Eq, Structural)]
pub struct QueueStats {
    pub total_enqueued: u64,
    pub total_dequeued: u64,
    pub total_dropped: u64,
    pub current_size: usize,
    pub peak_size: usize,
    pub average_wait_time_ms: u64,
    pub total_wait_time_ms: u64,
}

/// What a maintenance run did.
#[derive(Debug, Clone, Copy, Default)]
pub struct QueueMaintenanceResult {
    pub expired_requests: usize,
    pub removed_empty_queues: usize,
}

/// Settings of queue monitoring.
#[derive(Debug, Clone, Copy)]
pub struct MonitorConfig {
    /// Seconds between samples.
    pub interval_sec: u64,
    /// Seconds samples are kept.
    pub retention_sec: u64,
    pub enable_alerts: bool,
}

impl Default for MonitorConfig {
    /// A sample every 10 seconds, kept for an hour, with alerts.
    fn default() -> (c: Self)
        ensures
            c.interval_sec == 10,
            c.retention_sec == 3600,
            c.enable_alerts,
    {
        MonitorConfig { interval_sec: 10, retention_sec: 3600, enable_alerts: true }
    }
}

/// The requests of a queue that were queued after `threshold`.
pub open spec fn fresh_after(threshold: u64) -> spec_fn(QueuedRequest) -> bool {
    |r: QueuedRequest| r.queued_at > threshold
}

/// Position of the first request meant for the service, or -1.
pub open spec fn first_for_service(rs: Seq<QueuedRequest>, service_id: Seq<char>) -> int
    decreases rs.len(),
{
    if rs.len() == 0 {
        -1
    } else {
        let j = first_for_service(rs.drop_last(), service_id);
        if j >= 0 {
            j
        } else if rs.last().service_id@ == service_id {
            rs.len() - 1
        } else {
            -1
        }
    }
}

/// A bounded queue of requests, served first in, first out.
#[derive(Debug, Clone)]
pub struct RequestQueue {
    pub name: String,
    pub requests: Vec<QueuedRequest>,
    /// Most requests the queue holds.
    pub max_size: usize,
    pub created_at: u64,
    pub stats: QueueStats,
}

impl RequestQueue {
    /// Every request that entered the queue has left it, by being taken or
    /// dropped, or still waits.
    pub open spec fn balanced(&self) -> bool {
        self.stats.total_enqueued == self.stats.total_dequeued + self.stats.total_dropped + self.requests@.len()
    }

    /// An empty queue.
    pub fn new(name: String, max_size: usize) -> (q: Self)
        ensures
            q.name == name,
            q.requests@ == Seq::<QueuedRequest>::empty(),
            q.max_size == max_size,
            q.created_at == 0,
            q.stats == QueueStats::zero(),
            q.balanced(),
    {
        RequestQueue { name, requests: Vec::new(), max_size, created_at: 0, stats: QueueStats::zero_exec() }
    }

    /// Add a request at the back; a full queue refuses it.
    pub fn enqueue(&mut self, request: QueuedRequest) -> (r: IpcResult<()>)
        requires
            old(self).stats.total_enqueued < u64::MAX,
        ensures
            old(self).balanced() ==> final(self).balanced(),
            old(self).requests@.len() >= old(self).max_size ==> (r matches Err(e) && e@ == IpcErrorView::QueueFull
                && *final(self) == *old(self)),
            old(self).requests@.len() < old(self).max_size ==> {
                &&& r is Ok
                &&& final(self).requests@ == old(self).requests@.push(request)
                &&& final(self).stats == (QueueStats {
                    total_enqueued: (old(self).stats.total_enqueued + 1) as u64,
                    current_size: final(self).requests@.len() as usize,
                    peak_size: if final(self).requests@.len() > old(self).stats.peak_size {
                        final(self).requests@.len() as usize
                    } else {
                        old(self).stats.peak_size
                    },
                    ..old(self).stats
                })
                &&& final(self).name == old(self).name
                &&& final(self).max_size == old(self).max_size
                &&& final(self).created_at == old(self).created_at
            },
    {
        if self.requests.len() >= self.max_size {
            return Err(IpcError::QueueFull);
        }
        self.requests.push(request);
        self.stats.total_enqueued = self.stats.total_enqueued + 1;
        self.stats.current_size = self.requests.len();
        if self.requests.len() > self.stats.peak_size {
            self.stats.peak_size = self.requests.len();
        }
        Ok(())
    }

    /// Take the request at the front, if any.
    pub fn dequeue(&mut self) -> (r: Option<QueuedRequest>)
        requires
            old(self).stats.total_dequeued < u64::MAX,
        ensures
            old(self).balanced() ==> final(self).balanced(),
            old(self).requests@.len() == 0 ==> r is None && *final(self) == *old(self),
            old(self).requests@.len() > 0 ==> {
                &&& r == Some(old(self).requests@[0])
                &&& final(self).requests@ == old(self).requests@.drop_first()
                &&& final(self).stats == (QueueStats {
                    total_dequeued: (old(self).stats.total_dequeued + 1) as u64,
                    current_size: final(self).requests@.len() as usize,
                    average_wait_time_ms: (old(self).stats.total_wait_time_ms as int / (old(self).stats.total_dequeued
                        + 1)) as u64,
                    ..old(self).stats
                })
                &&& final(self).name == old(self).name
                &&& final(self).max_size == old(self).max_size
                &&& final(self).created_at == old(self).created_at
            },
    {
        if self.requests.len() == 0 {
            return None;
        }
        let request = self.requests.remove(0);
        self.stats.total_dequeued = self.stats.total_dequeued + 1;
        self.stats.current_size = self.requests.len();
        let wait_time: u64 = 0;
        self.stats.total_wait_time_ms = self.stats.total_wait_time_ms + wait_time;
        if self.stats.total_dequeued > 0 {
            self.stats.average_wait_time_ms = self.stats.total_wait_time_ms / self.stats.total_dequeued;
        }
        assert(self.requests@ =~= old(self).requests@.drop_first());
        Some(request)
    }

    /// Take the first request meant for a service, if any.
    pub fn dequeue_for_service(&mut self, service_id: &str) -> (r: Option<QueuedRequest>)
        requires
            old(self).stats.total_dequeued < u64::MAX,
        ensures
            old(self).balanced() ==> final(self).balanced(),
            ({
                let j = first_for_service(old(self).requests@, service_id@);
                &&& j < 0 ==> r is None && *final(self) == *old(self)
                &&& j >= 0 ==> {
                    &&& r == Some(old(self).requests@[j])
                    &&& final(self).requests@ == old(self).requests@.remove(j)
                    &&& final(self).stats == (QueueStats {
                        total_dequeued: (old(self).stats.total_dequeued + 1) as u64,
                        current_size: final(self).requests@.len() as usize,
                        ..old(self).stats
                    })
                    &&& final(self).name == old(self).name
                    &&& final(self).max_size == old(self).max_size
                    &&& final(self).created_at == old(self).created_at
                }
            }),
    {
        let ghost rs = self.requests@;
        let n = self.requests.len();
        let mut i: usize = 0;
        while i < n
            invariant
                n == rs.len(),
                rs == self.requests@,
                *self == *old(self),
                old(self).stats.total_dequeued < u64::MAX,
                i <= n,
                first_for_service(rs.subrange(0, i as int), service_id@) == -1,
            decreases n - i,
        {
            proof {
                assert(rs.subrange(0, i + 1).drop_last() =~= rs.subrange(0, i as int));
            }
            if str_eq(self.requests[i].service_id.as_str(), service_id) {
                proof {
                    lemma_first_for_service_prefix(rs, service_id@, i as int + 1);
                }
                let request = self.requests.remove(i);
                self.stats.total_dequeued = self.stats.total_dequeued + 1;
                self.stats.current_size = self.requests.len();
                return Some(request);
            }
            i += 1;
        }
        assert(rs.subrange(0, n as int) =~= rs);
        None
    }

    /// Drop every request, counting them as dropped; give how many.
    pub fn clear(&mut self) -> (n: usize)
        requires
            old(self).stats.total_dropped + old(self).requests@.len() <= u64::MAX,
        ensures
            old(self).balanced() ==> final(self).balanced(),
            n == old(self).requests@.len(),
            final(self).requests@ == Seq::<QueuedRequest>::empty(),
            final(self).stats == (QueueStats {
                total_dropped: (old(self).stats.total_dropped + n) as u64,
                current_size: 0,
                ..old(self).stats
            }),
            final(self).name == old(self).name,
            final(self).max_size == old(self).max_size,
            final(self).created_at == old(self).created_at,
    {
        let count = self.requests.len();
        self.requests.clear();
        self.stats.total_dropped = self.stats.total_dropped + count as u64;
        self.stats.current_size = 0;
        count
    }

    /// Drop the requests queued at or before `timeout_threshold`, counting
    /// them as dropped; the others keep their order. Give how many were
    /// dropped.
    pub fn remove_expired(&mut self, timeout_threshold: u64) -> (n: usize)
        requires
            old(self).stats.total_dropped + old(self).requests@.len() <= u64::MAX,
        ensures
            old(self).balanced() ==> final(self).balanced(),
            final(self).requests@ == old(self).requests@.filter(fresh_after(timeout_threshold)),
            n == old(self).requests@.len() - final(self).requests@.len(),
            final(self).stats == (QueueStats {
                total_dropped: (old(self).stats.total_dropped + n) as u64,
                current_size: final(self).requests@.len() as usize,
                ..old(self).stats
            }),
            final(self).name == old(self).name,
            final(self).max_size == old(self).max_size,
            final(self).created_at == old(self).created_at,
    {
        let initial_len = self.requests.len();
        let ghost rs = self.requests@;
        let ghost keep = fresh_after(timeout_threshold);
        let mut kept: Vec<QueuedRequest> = Vec::new();
        let mut rest: Vec<QueuedRequest> = Vec::new();
        std::mem::swap(&mut rest, &mut self.requests);
        let mut i: usize = 0;
        while i < initial_len
            invariant
                initial_len == rs.len(),
                keep == fresh_after(timeout_threshold),
                i <= initial_len,
                rest@ == rs.subrange(i as int, initial_len as int),
                kept@ == rs.subrange(0, i as int).filter(keep),
            decreases initial_len - i,
        {
            proof {
                reveal_with_fuel(Seq::<_>::filter, 1);
                assert(rs.subrange(0, i + 1).drop_last() =~= rs.subrange(0, i as int));
            }
            let r = rest.remove(0);
            proof {
                assert(r == rs[i as int]);
                assert(rest@ =~= rs.subrange(i + 1, initial_len as int));
            }
            if r.queued_at > timeout_threshold {
                kept.push(r);
            }
            i += 1;
        }
        assert(rs.subrange(0, initial_len as int) =~= rs);
        proof {
            broadcast use vstd::seq_lib::group_filter_ensures;
        }
        self.requests = kept;
        let removed_count = initial_len - self.requests.len();
        self.stats.total_dropped = self.stats.total_dropped + removed_count as u64;
        self.stats.current_size = self.requests.len();
        removed_count
    }

    /// Number of requests waiting.
    pub fn size(&self) -> (n: usize)
        ensures
            n == self.requests@.len(),
    {
        self.requests.len()
    }

    /// Whether no request waits.
    pub fn is_empty(&self) -> (b: bool)
        ensures
            b == (self.requests@.len() == 0),
    {
        self.requests.len() == 0
    }

    /// Whether the queue holds as many requests as it may.
    pub fn is_full(&self) -> (b: bool)
        ensures
            b == (self.requests@.len() >= self.max_size),
    {
        self.requests.len() >= self.max_size
    }
}

/// Once a request for the service is found in a prefix, the whole list
/// finds the same one.
proof fn lemma_first_for_service_prefix(rs: Seq<QueuedRequest>, s: Seq<char>, n: int)
    requires
        0 <= n <= rs.len(),
        first_for_service(rs.subrange(0, n), s) >= 0,
    ensures
        first_for_service(rs, s) == first_for_service(rs.subrange(0, n), s),
    decreases rs.len() - n,
{
    if n == rs.len() {
        assert(rs.subrange(0, n) =~= rs);
    } else {
        assert(rs.subrange(0, n + 1).drop_last() =~= rs.subrange(0, n));
        lemma_first_for_service_prefix(rs, s, n + 1);
    }
}

/// Requests leave a queue in the order they entered it: after adding a
/// request at the back, the front is unchanged unless the queue was empty,
/// and taking the front of a queue that held only that request gives it
/// back and leaves the queue empty.
pub proof fn lemma_first_in_first_out(q: Seq<QueuedRequest>, r: QueuedRequest)
    ensures
        q.len() > 0 ==> q.push(r)[0] == q[0],
        q.len() > 0 ==> q.push(r).drop_first() == q.drop_first().push(r),
        q.len() == 0 ==> q.push(r)[0] == r && q.push(r).drop_first() == Seq::<QueuedRequest>::empty(),
{
    if q.len() > 0 {
        assert(q.push(r).drop_first() =~= q.drop_first().push(r));
    } else {
        assert(q.push(r).drop_first() =~= Seq::<QueuedRequest>::empty());
    }
}

impl QueueStats {
    /// All counters zero.
    pub open spec fn zero() -> QueueStats {
        QueueStats {
            total_enqueued: 0,
            total_dequeued: 0,
            total_dropped: 0,
            current_size: 0,
            peak_size: 0,
            average_wait_time_ms: 0,
            total_wait_time_ms: 0,
        }
    }

    /// All counters zero.
    pub fn zero_exec() -> (s: QueueStats)
        ensures
            s == QueueStats::zero(),
    {
        QueueStats {
            total_enqueued: 0,
            total_dequeued: 0,
            total_dropped: 0,
            current_size: 0,
            peak_size: 0,
            average_wait_time_ms: 0,
            total_wait_time_ms: 0,
        }
    }
}

/// Flow control of the queues; the levels and thresholds are bit patterns
/// of IEEE 754 singles.
#[derive(Debug, Clone, Copy, PartialEq, Eq, Structural)]
pub struct FlowControlState {
    pub enabled: bool,
    /// Current level, 0.0 to 1.0.
    pub level_bits: u32,
    pub backpressure_threshold_bits: u32,
    /// Above this backpressure low-priority requests are dropped.
    pub drop_threshold_bits: u32,
    /// Share of the queue capacity in use.
    pub current_backpressure_bits: u32,
}

/// Flow control on, no backpressure, thresholds 0.7 and 0.9.
pub open spec fn initial_flow() -> FlowControlState {
    FlowControlState {
        enabled: true,
        level_bits: 0,
        backpressure_threshold_bits: F32_0_7,
        drop_threshold_bits: F32_0_9,
        current_backpressure_bits: 0,
    }
}

impl Default for FlowControlState {
    fn default() -> (f: Self)
        ensures
            f == initial_flow(),
    {
        FlowControlState {
            enabled: true,
            level_bits: 0,
            backpressure_threshold_bits: F32_0_7,
            drop_threshold_bits: F32_0_9,
            current_backpressure_bits: 0,
        }
    }
}

/// The priority of the queue at position `i` of the priority queues.
pub open spec fn level_at(i: int) -> u8 {
    if i == 0 {
        0
    } else if i == 1 {
        64
    } else if i == 2 {
        128
    } else if i == 3 {
        192
    } else {
        255
    }
}

/// The position of the priority queue that takes requests of a priority:
/// the queues hold 0 to 63, 64 to 127, 128 to 191, 192 to 254, and 255.
pub open spec fn level_index(priority: u8) -> int {
    if priority < 64 {
        0
    } else if priority < 128 {
        1
    } else if priority < 192 {
        2
    } else if priority < 255 {
        3
    } else {
        4
    }
}

/// The number of requests waiting in a list of queues.
pub open spec fn queued_count(qs: Seq<RequestQueue>) -> int
    decreases qs.len(),
{
    if qs.len() == 0 {
        0
    } else {
        queued_count(qs.drop_last()) + qs.last().requests@.len()
    }
}

/// The name of the queue of a service.
pub open spec fn service_queue_name(service_id: Seq<char>) -> Seq<char> {
    "service_"@ + service_id
}

/// The name of the queue of a priority.
pub open spec fn priority_queue_name(level: u8) -> Seq<char> {
    "priority_"@ + spec_decimal(level as nat)
}

/// Whether `x` is what queuing `request` for the service records: stamped
/// now, with the request's id and priority, no retry and no metadata.
pub open spec fn is_queued_form(x: QueuedRequest, request: EmbeddingRequest, service_id: Seq<char>) -> bool {
    &&& x.request_id == request.request_id
    &&& x.request == request
    &&& x.service_id@ == service_id
    &&& x.queued_at == service_now()
    &&& x.priority == request.priority
    &&& x.retry_count == 0
    &&& x.metadata@.len() == 0
}

/// The statistics of a queue after one more request was added, leaving
/// `len` waiting.
pub open spec fn stats_after_enqueue(s: QueueStats, len: nat) -> QueueStats {
    QueueStats {
        total_enqueued: (s.total_enqueued + 1) as u64,
        current_size: len as usize,
        peak_size: if len > s.peak_size { len as usize } else { s.peak_size },
        ..s
    }
}

/// Whether `after` is `before` with `request`, queued for the service,
/// added at the back.
pub open spec fn took(after: RequestQueue, before: RequestQueue, request: EmbeddingRequest, service_id: Seq<char>) -> bool {
    &&& after.requests@.len() == before.requests@.len() + 1
    &&& after.requests@.drop_last() == before.requests@
    &&& is_queued_form(after.requests@.last(), request, service_id)
    &&& after.stats == stats_after_enqueue(before.stats, after.requests@.len())
    &&& after.name == before.name
    &&& after.max_size == before.max_size
    &&& after.created_at == before.created_at
}

/// Whether `q` is a new empty queue.
pub open spec fn is_fresh_queue(q: RequestQueue, name: Seq<char>, max_size: usize) -> bool {
    &&& q.name@ == name
    &&& q.requests@.len() == 0
    &&& q.max_size == max_size
    &&& q.created_at == 0
    &&& q.stats == QueueStats::zero()
}

/// Whether `q` is a new queue that took `request`, queued for the service.
pub open spec fn took_fresh(q: RequestQueue, name: Seq<char>, max_size: usize, request: EmbeddingRequest, service_id: Seq<
    char,
>) -> bool {
    &&& q.name@ == name
    &&& q.requests@.len() == 1
    &&& is_queued_form(q.requests@[0], request, service_id)
    &&& q.max_size == max_size
    &&& q.created_at == 0
    &&& q.stats == stats_after_enqueue(QueueStats::zero(), 1)
}

/// Whether `after` is the list of priority queues `before` with the one at
/// `level` having taken `request`, queued for the service.
pub open spec fn took_at_level(
    after: Seq<RequestQueue>,
    before: Seq<RequestQueue>,
    level: int,
    request: EmbeddingRequest,
    service_id: Seq<char>,
) -> bool {
    &&& after.len() == before.len()
    &&& forall|j: int| 0 <= j < before.len() && j != level ==> #[trigger] after[j] == before[j]
    &&& took(after[level], before[level], request, service_id)
}

/// Whether `resp` is the answer to a request that was queued: successful,
/// with no embedding, the text "Request queued" and nothing else.
pub open spec fn is_queued_response(resp: crate::ipc::protocol::ResponseView, request_id: u64) -> bool {
    &&& resp.request_id == request_id
    &&& resp.status == ResponseStatus::Success
    &&& resp.embedding is None
    &&& resp.error == Some("Request queued"@)
    &&& resp.processing_time_us == 0
    &&& resp.model_used is None
    &&& resp.metadata.len() == 0
}

/// The highest position below `n` of a nonempty queue, or -1.
pub open spec fn last_nonempty(qs: Seq<RequestQueue>, n: int) -> int
    decreases n,
{
    if n <= 0 {
        -1
    } else if qs[n - 1].requests@.len() > 0 {
        n - 1
    } else {
        last_nonempty(qs, n - 1)
    }
}

/// Priority queues are served highest level first: the queue
/// `last_nonempty` picks among the first `n` holds a request, and every
/// queue above it among them is empty; when it picks none, all are empty.
pub proof fn lemma_highest_level_served_first(qs: Seq<RequestQueue>, n: int)
    requires
        0 <= n <= qs.len(),
    ensures
        -1 <= last_nonempty(qs, n) < n,
        last_nonempty(qs, n) >= 0 ==> qs[last_nonempty(qs, n)].requests@.len() > 0,
        forall|i: int| last_nonempty(qs, n) < i < n ==> #[trigger] qs[i].requests@.len() == 0,
    decreases n,
{
    if n > 0 && qs[n - 1].requests@.len() == 0 {
        lemma_highest_level_served_first(qs, n - 1);
    }
}

/// A higher priority never goes to a lower priority queue: the queue
/// positions follow the priorities, from position 0 for the lowest to
/// position 4 for priority 255 alone.
pub proof fn lemma_levels_follow_priority(a: u8, b: u8)
    ensures
        0 <= level_index(a) <= 4,
        a <= b ==> level_index(a) <= level_index(b),
        level_index(a) == 4 <==> a == 255,
        level_index(a) == 0 <==> a < 64,
{
}

/// The first position of a nonempty queue, or -1.
pub open spec fn first_nonempty(qs: Seq<RequestQueue>) -> int
    decreases qs.len(),
{
    if qs.len() == 0 {
        -1
    } else {
        let j = first_nonempty(qs.drop_last());
        if j >= 0 {
            j
        } else if qs.last().requests@.len() > 0 {
            qs.len() - 1
        } else {
            -1
        }
    }
}

/// The highest position below `n` of a queue holding a request for the
/// service, or -1.
pub open spec fn last_with_service(qs: Seq<RequestQueue>, n: int, service_id: Seq<char>) -> int
    decreases n,
{
    if n <= 0 {
        -1
    } else if first_for_service(qs[n - 1].requests@, service_id) >= 0 {
        n - 1
    } else {
        last_with_service(qs, n - 1, service_id)
    }
}

/// Whether `after` is `before` with its front request taken.
pub open spec fn took_front(after: RequestQueue, before: RequestQueue) -> bool {
    &&& after.requests@ == before.requests@.drop_first()
    &&& after.stats == (QueueStats {
        total_dequeued: (before.stats.total_dequeued + 1) as u64,
        current_size: after.requests@.len() as usize,
        average_wait_time_ms: (before.stats.total_wait_time_ms as int / (before.stats.total_dequeued + 1)) as u64,
        ..before.stats
    })
    &&& after.name == before.name
    &&& after.max_size == before.max_size
    &&& after.created_at == before.created_at
}

/// Whether `after` is `before` with its first request for the service taken.
pub open spec fn took_for_service(after: RequestQueue, before: RequestQueue, service_id: Seq<char>) -> bool {
    &&& after.requests@ == before.requests@.remove(first_for_service(before.requests@, service_id))
    &&& after.stats == (QueueStats {
        total_dequeued: (before.stats.total_dequeued + 1) as u64,
        current_size: after.requests@.len() as usize,
        ..before.stats
    })
    &&& after.name == before.name
    &&& after.max_size == before.max_size
    &&& after.created_at == before.created_at
}

/// Whether `after` is `before` emptied, its requests counted as dropped.
pub open spec fn cleared(after: RequestQueue, before: RequestQueue) -> bool {
    &&& after.requests@ == Seq::<QueuedRequest>::empty()
    &&& after.stats == (QueueStats {
        total_dropped: (before.stats.total_dropped + before.requests@.len()) as u64,
        current_size: 0,
        ..before.stats
    })
    &&& after.name == before.name
    &&& after.max_size == before.max_size
    &&& after.created_at == before.created_at
}

/// Whether `after` is `before` without the requests queued at or before
/// `threshold`, counted as dropped.
pub open spec fn expired_out(after: RequestQueue, before: RequestQueue, threshold: u64) -> bool {
    &&& after.requests@ == before.requests@.filter(fresh_after(threshold))
    &&& after.stats == (QueueStats {
        total_dropped: (before.stats.total_dropped + before.requests@.len() - after.requests@.len()) as u64,
        current_size: after.requests@.len() as usize,
        ..before.stats
    })
    &&& after.name == before.name
    &&& after.max_size == before.max_size
    &&& after.created_at == before.created_at
}

/// The service queues that hold no request queued after `threshold`.
pub open spec fn emptied_by(queues: Map<Seq<char>, RequestQueue>, threshold: u64) -> spec_fn(Seq<char>) -> bool {
    |k: Seq<char>| queues[k].requests@.filter(fresh_after(threshold)).len() == 0
}

/// Queues requests for the embedding services: per service, per priority
/// and an overflow queue, under flow control.
pub struct QueueManager {
    config: IpcConfig,
    priority_queues: Vec<RequestQueue>,
    service_queues: TextMap<RequestQueue>,
    global_queue: RequestQueue,
    stats: QueueStats,
    flow_control: FlowControlState,
}

impl QueueManager {
    /// The settings.
    pub closed spec fn settings(&self) -> IpcConfig {
        self.config
    }

    /// The priority queues, for priorities 0, 64, 128, 192 and 255.
    pub closed spec fn priority_queues(&self) -> Seq<RequestQueue> {
        self.priority_queues@
    }

    /// The queues of the services, by service id.
    pub closed spec fn service_queues(&self) -> Map<Seq<char>, RequestQueue> {
        self.service_queues@
    }

    /// The ids with a queue, in increasing order.
    pub closed spec fn service_queue_ids(&self) -> Seq<Seq<char>> {
        self.service_queues.keys_seq()
    }

    /// The overflow queue.
    pub closed spec fn global_queue(&self) -> RequestQueue {
        self.global_queue
    }

    /// The statistics.
    pub closed spec fn stats(&self) -> QueueStats {
        self.stats
    }

    /// The flow control state.
    pub closed spec fn flow(&self) -> FlowControlState {
        self.flow_control
    }

    /// The service queues in increasing order of id.
    pub closed spec fn listed_service_queues(&self) -> Seq<RequestQueue> {
        self.service_queues.values_seq()
    }

    /// The listing holds the queue of each id, in increasing order of id.
    pub proof fn lemma_listed_service_queues(&self)
        requires
            self.wf(),
        ensures
            self.listed_service_queues().len() == self.service_queue_ids().len(),
            forall|i: int|
                0 <= i < self.service_queue_ids().len() ==> self.service_queues().contains_key(
                    #[trigger] self.service_queue_ids()[i],
                ) && self.listed_service_queues()[i] == self.service_queues()[self.service_queue_ids()[i]],
    {
        assert forall|i: int| 0 <= i < self.service_queue_ids().len() implies self.service_queues().contains_key(
            #[trigger] self.service_queue_ids()[i],
        ) && self.listed_service_queues()[i] == self.service_queues()[self.service_queue_ids()[i]] by {
            self.service_queues.lemma_entry(i);
        }
    }

    /// The number of requests waiting in all queues.
    pub open spec fn queue_size(&self) -> int {
        self.global_queue().requests@.len() + queued_count(self.priority_queues()) + queued_count(
            self.listed_service_queues(),
        )
    }

    /// Whether flow control drops a request: it is on, and either the
    /// backpressure is above the drop threshold and the request's priority
    /// is below 128, or the queues hold as many requests as allowed.
    pub open spec fn drops(&self, request: EmbeddingRequest) -> bool {
        &&& self.flow().enabled
        &&& ((f32_greater(self.flow().current_backpressure_bits, self.flow().drop_threshold_bits) && request.priority
            < 128) || self.queue_size() >= self.settings().max_queue_size)
    }

    /// Who flow control drops: nobody while it is off; while it is on,
    /// everybody once the queues are full, and before that only requests
    /// below priority 128, and those only under backpressure above the drop
    /// threshold. A request of priority 128 or more is dropped only when the
    /// queues are full.
    pub proof fn lemma_drop_rules(&self, request: EmbeddingRequest)
        ensures
            !self.flow().enabled ==> !self.drops(request),
            self.flow().enabled && self.queue_size() >= self.settings().max_queue_size ==> self.drops(request),
            self.drops(request) && request.priority >= 128 ==> self.queue_size() >= self.settings().max_queue_size,
            self.drops(request) && self.queue_size() < self.settings().max_queue_size ==> request.priority < 128
                && f32_greater(self.flow().current_backpressure_bits, self.flow().drop_threshold_bits),
    {
    }

    /// A queue the manager holds keeps its counts consistent, counted no
    /// more additions than the manager, and has the capacity given.
    pub open spec fn sound_queue(&self, q: RequestQueue, max_size: usize) -> bool {
        &&& q.balanced()
        &&& q.stats.total_enqueued <= self.stats().total_enqueued
        &&& q.max_size == max_size
    }

    /// Internal consistency: five priority queues of the full capacity, the
    /// overflow queue of twice that, service queues of a quarter, all sound,
    /// flow control on, and no more requests waiting than allowed.
    pub closed spec fn wf(&self) -> bool {
        &&& self.service_queues.wf()
        &&& self.priority_queues@.len() == 5
        &&& forall|i: int| 0 <= i < 5 ==> self.sound_queue(#[trigger] self.priority_queues@[i], self.config.max_queue_size)
        &&& self.sound_queue(self.global_queue, (self.config.max_queue_size * 2) as usize)
        &&& forall|k: Seq<char>| #[trigger] self.service_queues@.contains_key(k) ==> self.sound_queue(
            self.service_queues@[k],
            self.config.max_queue_size / 4,
        )
        &&& self.flow_control.enabled
        &&& self.queue_size() <= self.config.max_queue_size
    }

    /// A manager with empty queues: priority queues named after their
    /// priority with the configured capacity, an overflow queue named
    /// "global" of twice that, no service queue, zero statistics and flow
    /// control as `initial_flow` says.
    pub fn new(config: IpcConfig) -> (m: Self)
        requires
            config.max_queue_size * 2 <= usize::MAX,
        ensures
            m.wf(),
            m.settings() == config,
            m.priority_queues().len() == 5,
            forall|i: int| 0 <= i < 5 ==> is_fresh_queue(
                #[trigger] m.priority_queues()[i],
                priority_queue_name(level_at(i)),
                config.max_queue_size,
            ),
            is_fresh_queue(m.global_queue(), "global"@, (config.max_queue_size * 2) as usize),
            m.service_queues() == Map::<Seq<char>, RequestQueue>::empty(),
            m.stats() == QueueStats::zero(),
            m.flow() == initial_flow(),
            m.queue_size() == 0,
    {
        let mut priority_queues: Vec<RequestQueue> = Vec::new();
        let levels: [u8; 5] = [0, 64, 128, 192, 255];
        let mut i: usize = 0;
        while i < 5
            invariant
                i <= 5,
                levels@ == seq![0u8, 64u8, 128u8, 192u8, 255u8],
                priority_queues@.len() == i,
                forall|j: int| 0 <= j < i ==> is_fresh_queue(
                    #[trigger] priority_queues@[j],
                    priority_queue_name(level_at(j)),
                    config.max_queue_size,
                ),
                forall|j: int| 0 <= j < i ==> (#[trigger] priority_queues@[j]).balanced(),
            decreases 5 - i,
        {
            let mut name = message("priority_");
            let digits = decimal_string(levels[i] as u64);
            name.append(digits.as_str());
            assert(levels@[i as int] == level_at(i as int));
            priority_queues.push(RequestQueue::new(name, config.max_queue_size));
            i += 1;
        }
        let global_queue = RequestQueue::new(message("global"), config.max_queue_size * 2);
        let m = QueueManager {
            config,
            priority_queues,
            service_queues: TextMap::new(),
            global_queue,
            stats: QueueStats::zero_exec(),
            flow_control: FlowControlState::default(),
        };
        proof {
            assert(m.service_queues.keys_seq().len() == 0);
            assert(m.service_queues.entries_seq().len() == 0);
            assert(m.listed_service_queues() =~= Seq::<RequestQueue>::empty());
            reveal_with_fuel(queued_count, 6);
            assert(queued_count(m.priority_queues@) == 0) by {
                assert(m.priority_queues@.drop_last().drop_last().drop_last().drop_last().drop_last().len() == 0);
            }
        }
        m
    }

    /// The number of requests waiting in all queues.
    pub fn get_queue_size(&self) -> (n: usize)
        requires
            self.wf(),
        ensures
            n == self.queue_size(),
    {
        let mut total_size = self.global_queue.requests.len();
        let mut i: usize = 0;
        while i < 5
            invariant
                self.wf(),
                i <= 5,
                total_size == self.global_queue().requests@.len() + queued_count(self.priority_queues().subrange(0, i as int)),
            decreases 5 - i,
        {
            proof {
                assert(self.priority_queues().subrange(0, i + 1).drop_last() =~= self.priority_queues().subrange(0, i as int));
                lemma_queued_count_prefix(self.priority_queues(), i as int + 1);
                lemma_queued_count_nonneg(self.listed_service_queues());
            }
            total_size = total_size + self.priority_queues[i].requests.len();
            i += 1;
        }
        assert(self.priority_queues().subrange(0, 5) =~= self.priority_queues());
        let ghost listed = self.listed_service_queues();
        let n = self.service_queues.len();
        let mut j: usize = 0;
        while j < n
            invariant
                self.wf(),
                listed == self.listed_service_queues(),
                n == listed.len(),
                j <= n,
                total_size == self.global_queue().requests@.len() + queued_count(self.priority_queues()) + queued_count(
                    listed.subrange(0, j as int),
                ),
            decreases n - j,
        {
            proof {
                assert(listed.subrange(0, j + 1).drop_last() =~= listed.subrange(0, j as int));
                lemma_queued_count_prefix(listed, j as int + 1);
                assert(listed.subrange(0, listed.len() as int) =~= listed);
                self.service_queues.lemma_entry(j as int);
            }
            total_size = total_size + self.service_queues.value_at(j).requests.len();
            j += 1;
        }
        assert(listed.subrange(0, n as int) =~= listed);
        total_size
    }

    /// The queues never hold more requests than the configured capacity.
    pub proof fn lemma_size_within_capacity(&self)
        requires
            self.wf(),
        ensures
            0 <= self.queue_size() <= self.settings().max_queue_size,
    {
        lemma_queued_count_nonneg(self.priority_queues@);
        lemma_queued_count_nonneg(self.service_queues.values_seq());
    }

    /// The configured capacity of the queues.
    pub fn capacity(&self) -> (n: usize)
        ensures
            n == self.settings().max_queue_size,
    {
        self.config.max_queue_size
    }

    /// The statistics.
    pub fn get_stats(&self) -> (s: &QueueStats)
        ensures
            *s == self.stats(),
    {
        &self.stats
    }

    /// The flow control state.
    pub fn get_flow_control_state(&self) -> (f: &FlowControlState)
        ensures
            *f == self.flow(),
    {
        &self.flow_control
    }

    /// Record the backpressure, the bit pattern of the share of the
    /// capacity in use (an IEEE 754 single), as the flow control level too.
    pub fn record_backpressure(&mut self, backpressure_bits: u32)
        requires
            old(self).wf(),
        ensures
            final(self).wf(),
            final(self).flow() == (FlowControlState {
                current_backpressure_bits: backpressure_bits,
                level_bits: backpressure_bits,
                ..old(self).flow()
            }),
            final(self).priority_queues() == old(self).priority_queues(),
            final(self).service_queues() == old(self).service_queues(),
            final(self).service_queue_ids() == old(self).service_queue_ids(),
            final(self).global_queue() == old(self).global_queue(),
            final(self).stats() == old(self).stats(),
            final(self).settings() == old(self).settings(),
    {
        self.flow_control.current_backpressure_bits = backpressure_bits;
        self.flow_control.level_bits = backpressure_bits;
    }

    /// Queue a request for a service. Flow control may drop it (see
    /// `drops`). Otherwise it goes to the back of the service's queue,
    /// which is made, with a quarter of the capacity, when the service has
    /// none; when that queue is full, to the queue of its priority, which
    /// then always has room. The answer says that it was queued.
    pub fn queue_request(&mut self, request: EmbeddingRequest, service: ServiceInfo) -> (r: IpcResult<
        EmbeddingResponse,
    >)
        requires
            old(self).wf(),
            old(self).stats().total_enqueued < u64::MAX,
            old(self).stats().total_dropped < u64::MAX,
        ensures
            final(self).wf(),
            final(self).settings() == old(self).settings(),
            final(self).flow() == old(self).flow(),
            ({
                let id = service.id@;
                let cap = (old(self).settings().max_queue_size / 4) as usize;
                let level = level_index(request.priority);
                if old(self).drops(request) {
                    &&& r matches Err(e) && e@ == IpcErrorView::QueueFull
                    &&& final(self).stats() == (QueueStats {
                        total_dropped: (old(self).stats().total_dropped + 1) as u64,
                        ..old(self).stats()
                    })
                    &&& final(self).priority_queues() == old(self).priority_queues()
                    &&& final(self).service_queues() == old(self).service_queues()
                    &&& final(self).global_queue() == old(self).global_queue()
                } else {
                    &&& r matches Ok(resp) && is_queued_response(resp@, request.request_id)
                    &&& final(self).stats() == (QueueStats {
                        total_enqueued: (old(self).stats().total_enqueued + 1) as u64,
                        ..old(self).stats()
                    })
                    &&& final(self).global_queue() == old(self).global_queue()
                    &&& final(self).queue_size() == old(self).queue_size() + 1
                    &&& final(self).service_queues().dom() == old(self).service_queues().dom().insert(id)
                    &&& forall|k: Seq<char>| #[trigger]
                        old(self).service_queues().contains_key(k) && k != id ==> final(self).service_queues()[k]
                            == old(self).service_queues()[k]
                    &&& if old(self).service_queues().contains_key(id) {
                        let sq = old(self).service_queues()[id];
                        if sq.requests@.len() < sq.max_size {
                            &&& took(final(self).service_queues()[id], sq, request, id)
                            &&& final(self).priority_queues() == old(self).priority_queues()
                        } else {
                            &&& final(self).service_queues()[id] == sq
                            &&& took_at_level(final(self).priority_queues(), old(self).priority_queues(), level, request, id)
                        }
                    } else if cap > 0 {
                        &&& took_fresh(final(self).service_queues()[id], service_queue_name(id), cap, request, id)
                        &&& final(self).priority_queues() == old(self).priority_queues()
                    } else {
                        &&& is_fresh_queue(final(self).service_queues()[id], service_queue_name(id), cap)
                        &&& took_at_level(final(self).priority_queues(), old(self).priority_queues(), level, request, id)
                    }
                }
            }),
    {
        if self.should_drop_request(&request) {
            self.stats.total_dropped = self.stats.total_dropped + 1;
            return Err(IpcError::QueueFull);
        }
        let ghost old_size = self.queue_size();
        let ghost id = service.id@;
        let request_id = request.request_id;
        let priority = request.priority;
        let ghost req = request;
        let queued = QueuedRequest {
            request_id,
            request,
            service_id: service.id.clone(),
            queued_at: self.get_current_timestamp(),
            priority,
            retry_count: 0,
            metadata: Vec::new(),
        };
        let cap = self.config.max_queue_size / 4;
        let ghost sq0 = self.service_queues;
        proof {
            self.service_queues.lemma_len();
            lemma_queued_count_nonneg(self.priority_queues@);
            lemma_queued_count_nonneg(self.service_queues.values_seq());
        }
        let i = match self.service_queues.position(service.id.as_str()) {
            Some(i) => i,
            None => {
                let mut name = message("service_");
                name.append(service.id.as_str());
                self.service_queues.insert(service.id.clone(), RequestQueue::new(name, cap));
                proof {
                    let pos = choose|pos: int|
                        0 <= pos <= sq0.spec_len() && self.service_queues.values_seq() == sq0.values_seq().insert(
                            pos,
                            self.service_queues@[id],
                        );
                    assert(self.service_queues@[id] == self.service_queues@.index(id));
                    lemma_queued_count_insert(sq0.values_seq(), pos, self.service_queues@[id]);
                }
                match self.service_queues.position(service.id.as_str()) {
                    Some(i) => i,
                    None => {
                        assert(false);
                        0
                    },
                }
            },
        };
        let ghost sq1 = self.service_queues;
        proof {
            self.service_queues.lemma_entry(i as int);
        }
        assert(self.queue_size() == old_size);
        if self.service_queues.value_at(i).requests.len() < self.service_queues.value_at(i).max_size {
            {
                let q = self.service_queues.value_mut_at(i);
                let _ = q.enqueue(queued);
            }
            proof {
                TextMap::lemma_value_changed(&sq1, &self.service_queues, i as int, self.service_queues.value_seq(i as int));
                lemma_queued_count_update(sq1.values_seq(), i as int, self.service_queues.value_seq(i as int));
                assert(self.service_queues@[id].requests@.drop_last() =~= sq1@[id].requests@);
                assert(self.service_queues@[id].requests@.last() == queued);
            }
        } else {
            let level = Self::map_priority_to_level(priority);
            let ghost pq1 = self.priority_queues@;
            proof {
                lemma_queued_count_update(pq1, level as int, pq1[level as int]);
                assert(pq1.update(level as int, pq1[level as int]) =~= pq1);
                lemma_queued_count_remove(pq1, level as int);
                lemma_queued_count_nonneg(pq1.remove(level as int));
            }
            if self.priority_queues[level].requests.len() < self.priority_queues[level].max_size {
                let q = &mut self.priority_queues[level];
                let _ = q.enqueue(queued);
                proof {
                    assert(self.priority_queues@ == pq1.update(level as int, self.priority_queues@[level as int]));
                    lemma_queued_count_update(pq1, level as int, self.priority_queues@[level as int]);
                    assert(self.priority_queues@[level as int].requests@.drop_last() =~= pq1[level as int].requests@);
                }
            } else {
                assert(false);
                self.stats.total_dropped = self.stats.total_dropped + 1;
                return Err(IpcError::QueueFull);
            }
        }
        self.stats.total_enqueued = self.stats.total_enqueued + 1;
        let response = EmbeddingResponse {
            request_id,
            status: ResponseStatus::Success,
            embedding: None,
            error: Some(message("Request queued")),
            processing_time_us: 0,
            model_used: None,
            metadata: Vec::new(),
        };
        proof {
            assert(crate::ipc::protocol::pairs_view(response.metadata@).len() == 0);
        }
        Ok(response)
    }

    /// Take the next request: from the nonempty priority queue of highest
    /// priority, else from the first nonempty service queue in order of
    /// id, else from the overflow queue.
    pub fn dequeue_next_request(&mut self) -> (r: Option<QueuedRequest>)
        requires
            old(self).wf(),
            old(self).stats().total_dequeued < u64::MAX,
        ensures
            final(self).wf(),
            final(self).settings() == old(self).settings(),
            final(self).flow() == old(self).flow(),
            final(self).service_queue_ids() == old(self).service_queue_ids(),
            ({
                let t = last_nonempty(old(self).priority_queues(), 5);
                let f = first_nonempty(old(self).listed_service_queues());
                let counted = QueueStats {
                    total_dequeued: (old(self).stats().total_dequeued + 1) as u64,
                    ..old(self).stats()
                };
                if t >= 0 {
                    &&& r == Some(old(self).priority_queues()[t].requests@[0])
                    &&& final(self).priority_queues().len() == 5
                    &&& took_front(final(self).priority_queues()[t], old(self).priority_queues()[t])
                    &&& forall|j: int| 0 <= j < 5 && j != t ==> #[trigger] final(self).priority_queues()[j]
                        == old(self).priority_queues()[j]
                    &&& final(self).service_queues() == old(self).service_queues()
                    &&& final(self).global_queue() == old(self).global_queue()
                    &&& final(self).stats() == counted
                } else if f >= 0 {
                    let k = old(self).service_queue_ids()[f];
                    &&& r == Some(old(self).service_queues()[k].requests@[0])
                    &&& final(self).priority_queues() == old(self).priority_queues()
                    &&& final(self).service_queues().dom() == old(self).service_queues().dom()
                    &&& took_front(final(self).service_queues()[k], old(self).service_queues()[k])
                    &&& forall|j: Seq<char>| #[trigger]
                        old(self).service_queues().contains_key(j) && j != k ==> final(self).service_queues()[j]
                            == old(self).service_queues()[j]
                    &&& final(self).global_queue() == old(self).global_queue()
                    &&& final(self).stats() == counted
                } else if old(self).global_queue().requests@.len() > 0 {
                    &&& r == Some(old(self).global_queue().requests@[0])
                    &&& final(self).priority_queues() == old(self).priority_queues()
                    &&& final(self).service_queues() == old(self).service_queues()
                    &&& took_front(final(self).global_queue(), old(self).global_queue())
                    &&& final(self).stats() == counted
                } else {
                    &&& r is None
                    &&& final(self).priority_queues() == old(self).priority_queues()
                    &&& final(self).service_queues() == old(self).service_queues()
                    &&& final(self).global_queue() == old(self).global_queue()
                    &&& final(self).stats() == old(self).stats()
                }
            }),
    {
        proof {
            self.lemma_listed_service_queues();
            lemma_queued_count_nonneg(self.priority_queues@);
            lemma_queued_count_nonneg(self.service_queues.values_seq());
        }
        let ghost pq0 = self.priority_queues@;
        let mut level: usize = 5;
        while level > 0
            invariant
                self.wf(),
                *self == *old(self),
                pq0 == self.priority_queues@,
                self.stats.total_dequeued < u64::MAX,
                level <= 5,
                last_nonempty(pq0, 5) == last_nonempty(pq0, level as int),
            decreases level,
        {
            if self.priority_queues[level - 1].requests.len() > 0 {
                assert(last_nonempty(pq0, level as int) == level - 1);
                let q = &mut self.priority_queues[level - 1];
                let request = q.dequeue();
                proof {
                    assert(self.priority_queues@ == pq0.update(level - 1, self.priority_queues@[level - 1]));
                    lemma_queued_count_update(pq0, level - 1, self.priority_queues@[level - 1]);
                }
                self.stats.total_dequeued = self.stats.total_dequeued + 1;
                return request;
            }
            level -= 1;
        }
        let ghost listed = self.service_queues.values_seq();
        let ghost sq0 = self.service_queues;
        let n = self.service_queues.len();
        let mut i: usize = 0;
        while i < n
            invariant
                self.wf(),
                *self == *old(self),
                listed == self.service_queues.values_seq(),
                sq0 == self.service_queues,
                self.stats.total_dequeued < u64::MAX,
                pq0 == old(self).priority_queues@,
                last_nonempty(pq0, 5) == -1,
                n == listed.len(),
                i <= n,
                first_nonempty(listed.subrange(0, i as int)) == -1,
            decreases n - i,
        {
            proof {
                assert(listed.subrange(0, i + 1).drop_last() =~= listed.subrange(0, i as int));
                self.service_queues.lemma_entry(i as int);
            }
            if self.service_queues.value_at(i).requests.len() > 0 {
                proof {
                    lemma_first_nonempty_prefix(listed, i as int + 1);
                }
                let request;
                {
                    let q = self.service_queues.value_mut_at(i);
                    request = q.dequeue();
                }
                proof {
                    TextMap::lemma_value_changed(&sq0, &self.service_queues, i as int, self.service_queues.value_seq(i as int));
                    lemma_queued_count_update(listed, i as int, self.service_queues.value_seq(i as int));
                    assert(first_nonempty(listed) == i);
                    assert(sq0@[sq0.keys_seq()[i as int]] == listed[i as int]);
                    assert(self.service_queues@.dom() =~= sq0@.dom());
                }
                self.stats.total_dequeued = self.stats.total_dequeued + 1;
                return request;
            }
            i += 1;
        }
        assert(listed.subrange(0, n as int) =~= listed);
        if self.global_queue.requests.len() > 0 {
            let request = self.global_queue.dequeue();
            self.stats.total_dequeued = self.stats.total_dequeued + 1;
            return request;
        }
        None
    }

    /// Take the next request for a service: the front of its own queue,
    /// else its first request in the priority queue of highest priority
    /// holding one, else its first request in the overflow queue.
    pub fn dequeue_request_for_service(&mut self, service_id: &str) -> (r: Option<QueuedRequest>)
        requires
            old(self).wf(),
            old(self).stats().total_dequeued < u64::MAX,
        ensures
            final(self).wf(),
            final(self).settings() == old(self).settings(),
            final(self).flow() == old(self).flow(),
            final(self).service_queue_ids() == old(self).service_queue_ids(),
            ({
                let id = service_id@;
                let lv = last_with_service(old(self).priority_queues(), 5, id);
                let g = first_for_service(old(self).global_queue().requests@, id);
                let counted = QueueStats {
                    total_dequeued: (old(self).stats().total_dequeued + 1) as u64,
                    ..old(self).stats()
                };
                if old(self).service_queues().contains_key(id) && old(self).service_queues()[id].requests@.len() > 0 {
                    &&& r == Some(old(self).service_queues()[id].requests@[0])
                    &&& final(self).priority_queues() == old(self).priority_queues()
                    &&& final(self).service_queues().dom() == old(self).service_queues().dom()
                    &&& took_front(final(self).service_queues()[id], old(self).service_queues()[id])
                    &&& forall|j: Seq<char>| #[trigger]
                        old(self).service_queues().contains_key(j) && j != id ==> final(self).service_queues()[j]
                            == old(self).service_queues()[j]
                    &&& final(self).global_queue() == old(self).global_queue()
                    &&& final(self).stats() == counted
                } else if lv >= 0 {
                    let q = old(self).priority_queues()[lv];
                    &&& r == Some(q.requests@[first_for_service(q.requests@, id)])
                    &&& final(self).priority_queues().len() == 5
                    &&& took_for_service(final(self).priority_queues()[lv], q, id)
                    &&& forall|j: int| 0 <= j < 5 && j != lv ==> #[trigger] final(self).priority_queues()[j]
                        == old(self).priority_queues()[j]
                    &&& final(self).service_queues() == old(self).service_queues()
                    &&& final(self).global_queue() == old(self).global_queue()
                    &&& final(self).stats() == counted
                } else if g >= 0 {
                    &&& r == Some(old(self).global_queue().requests@[g])
                    &&& final(self).priority_queues() == old(self).priority_queues()
                    &&& final(self).service_queues() == old(self).service_queues()
                    &&& took_for_service(final(self).global_queue(), old(self).global_queue(), id)
                    &&& final(self).stats() == counted
                } else {
                    &&& r is None
                    &&& final(self).priority_queues() == old(self).priority_queues()
                    &&& final(self).service_queues() == old(self).service_queues()
                    &&& final(self).global_queue() == old(self).global_queue()
                    &&& final(self).stats() == old(self).stats()
                }
            }),
    {
        proof {
            self.lemma_listed_service_queues();
            lemma_queued_count_nonneg(self.priority_queues@);
            lemma_queued_count_nonneg(self.service_queues.values_seq());
        }
        let ghost sq0 = self.service_queues;
        if let Some(i) = self.service_queues.position(service_id) {
            if self.service_queues.value_at(i).requests.len() > 0 {
                proof {
                    self.service_queues.lemma_entry(i as int);
                }
                let request;
                {
                    let q = self.service_queues.value_mut_at(i);
                    request = q.dequeue();
                }
                proof {
                    TextMap::lemma_value_changed(&sq0, &self.service_queues, i as int, self.service_queues.value_seq(i as int));
                    lemma_queued_count_update(sq0.values_seq(), i as int, self.service_queues.value_seq(i as int));
                    assert(self.service_queues@.dom() =~= sq0@.dom());
                    assert(sq0@[service_id@] == sq0.value_seq(i as int));
                    assert(request == Some(sq0@[service_id@].requests@[0]));
                }
                self.stats.total_dequeued = self.stats.total_dequeued + 1;
                return request;
            }
        }
        let ghost pq0 = self.priority_queues@;
        let mut level: usize = 5;
        while level > 0
            invariant
                self.wf(),
                *self == *old(self),
                pq0 == self.priority_queues@,
                self.stats.total_dequeued < u64::MAX,
                level <= 5,
                last_with_service(pq0, 5, service_id@) == last_with_service(pq0, level as int, service_id@),
                !(self.service_queues@.contains_key(service_id@) && self.service_queues@[service_id@].requests@.len() > 0),
            decreases level,
        {
            if holds_request_for(&self.priority_queues[level - 1].requests, service_id) {
                assert(last_with_service(pq0, level as int, service_id@) == level - 1);
                let q = &mut self.priority_queues[level - 1];
                let request = q.dequeue_for_service(service_id);
                proof {
                    assert(self.priority_queues@ == pq0.update(level - 1, self.priority_queues@[level - 1]));
                    lemma_queued_count_update(pq0, level - 1, self.priority_queues@[level - 1]);
                }
                self.stats.total_dequeued = self.stats.total_dequeued + 1;
                return request;
            }
            level -= 1;
        }
        if holds_request_for(&self.global_queue.requests, service_id) {
            let request = self.global_queue.dequeue_for_service(service_id);
            self.stats.total_dequeued = self.stats.total_dequeued + 1;
            return request;
        }
        None
    }

    /// Empty every queue, counting the requests as dropped; give how many.
    pub fn clear_all_queues(&mut self) -> (n: usize)
        requires
            old(self).wf(),
            old(self).stats().total_dropped + old(self).queue_size() <= u64::MAX,
        ensures
            final(self).wf(),
            n == old(self).queue_size(),
            final(self).queue_size() == 0,
            final(self).stats() == (QueueStats {
                total_dropped: (old(self).stats().total_dropped + n) as u64,
                ..old(self).stats()
            }),
            cleared(final(self).global_queue(), old(self).global_queue()),
            final(self).priority_queues().len() == 5,
            forall|j: int| 0 <= j < 5 ==> cleared(#[trigger] final(self).priority_queues()[j], old(self).priority_queues()[j]),
            final(self).service_queues().dom() == old(self).service_queues().dom(),
            forall|k: Seq<char>| #[trigger]
                old(self).service_queues().contains_key(k) ==> cleared(final(self).service_queues()[k], old(self).service_queues()[k]),
            final(self).service_queue_ids() == old(self).service_queue_ids(),
            final(self).settings() == old(self).settings(),
            final(self).flow() == old(self).flow(),
    {
        proof {
            lemma_queued_count_nonneg(self.priority_queues@);
            lemma_queued_count_nonneg(self.service_queues.values_seq());
        }
        let ghost size0 = self.queue_size();
        let mut cleared_count = self.global_queue.clear();
        let ghost pq0 = self.priority_queues@;
        let mut i: usize = 0;
        while i < 5
            invariant
                old(self).wf(),
                i <= 5,
                self.priority_queues@.len() == 5,
                pq0 == old(self).priority_queues@,
                self.service_queues == old(self).service_queues,
                self.stats == old(self).stats,
                self.config == old(self).config,
                self.flow_control == old(self).flow_control,
                cleared(self.global_queue, old(self).global_queue),
                forall|j: int| 0 <= j < i ==> cleared(#[trigger] self.priority_queues@[j], pq0[j]),
                forall|j: int| i <= j < 5 ==> #[trigger] self.priority_queues@[j] == pq0[j],
                cleared_count == old(self).global_queue.requests@.len() + queued_count(pq0.subrange(0, i as int)),
                size0 == old(self).queue_size(),
                size0 <= old(self).config.max_queue_size,
                size0 == old(self).global_queue.requests@.len() + queued_count(pq0) + queued_count(
                    old(self).service_queues.values_seq(),
                ),
                queued_count(old(self).service_queues.values_seq()) >= 0,
            decreases 5 - i,
        {
            proof {
                lemma_queued_count_prefix(pq0, i as int + 1);
                assert(old(self).sound_queue(pq0[i as int], old(self).config.max_queue_size));
            }
            let q = &mut self.priority_queues[i];
            let c = q.clear();
            cleared_count = cleared_count + c;
            i += 1;
        }
        assert(pq0.subrange(0, 5) =~= pq0);
        let ghost sq0 = self.service_queues;
        let ghost listed = sq0.values_seq();
        let n = self.service_queues.len();
        let mut j: usize = 0;
        while j < n
            invariant
                old(self).wf(),
                sq0 == old(self).service_queues,
                listed == sq0.values_seq(),
                n == listed.len(),
                j <= n,
                self.service_queues.wf(),
                self.service_queues.keys_seq() == sq0.keys_seq(),
                self.service_queues.values_seq().len() == n,
                forall|q: int| 0 <= q < j ==> cleared(#[trigger] self.service_queues.values_seq()[q], listed[q]),
                forall|q: int| j <= q < n ==> #[trigger] self.service_queues.values_seq()[q] == listed[q],
                self.priority_queues@.len() == 5,
                forall|q: int| 0 <= q < 5 ==> cleared(#[trigger] self.priority_queues@[q], pq0[q]),
                pq0 == old(self).priority_queues@,
                self.stats == old(self).stats,
                self.config == old(self).config,
                self.flow_control == old(self).flow_control,
                cleared(self.global_queue, old(self).global_queue),
                cleared_count == old(self).global_queue.requests@.len() + queued_count(pq0) + queued_count(
                    listed.subrange(0, j as int),
                ),
                size0 == old(self).queue_size(),
                size0 <= old(self).config.max_queue_size,
                size0 == old(self).global_queue.requests@.len() + queued_count(pq0) + queued_count(listed),
            decreases n - j,
        {
            proof {
                lemma_queued_count_prefix(listed, j as int + 1);
                sq0.lemma_entry(j as int);
                sq0.lemma_values();
                self.service_queues.lemma_values();
                assert(old(self).sound_queue(listed[j as int], old(self).config.max_queue_size / 4));
                assert(self.service_queues.values_seq()[j as int] == listed[j as int]);
                assert(self.service_queues.value_seq(j as int) == listed[j as int]);
                assert(listed[j as int].balanced());
                assert(listed[j as int].stats.total_dropped + listed[j as int].requests@.len() <= u64::MAX);
            }
            let ghost before = self.service_queues;
            let c;
            {
                let q = self.service_queues.value_mut_at(j);
                c = q.clear();
            }
            proof {
                TextMap::lemma_value_changed(&before, &self.service_queues, j as int, self.service_queues.value_seq(j as int));
                self.service_queues.lemma_values();
            }
            cleared_count = cleared_count + c;
            j += 1;
        }
        assert(listed.subrange(0, n as int) =~= listed);
        self.stats.total_dropped = self.stats.total_dropped + cleared_count as u64;
        proof {
            lemma_queued_count_all_empty(self.priority_queues@);
            lemma_queued_count_all_empty(self.service_queues.values_seq());
            sq0.lemma_values();
            self.service_queues.lemma_values();
            assert forall|k: Seq<char>| #[trigger] sq0@.contains_key(k) implies cleared(self.service_queues@[k], sq0@[k])
                && self.service_queues@.contains_key(k) by {
                let p = sq0.lemma_key_position(k);
                self.service_queues.lemma_entry(p);
                assert(cleared(self.service_queues.values_seq()[p], listed[p]));
            }
            assert forall|k: Seq<char>| #[trigger] self.service_queues@.contains_key(k) implies sq0@.contains_key(k) by {
                let p = self.service_queues.lemma_key_position(k);
                sq0.lemma_entry(p);
            }
            assert(self.service_queues@.dom() =~= sq0@.dom());
        }
        cleared_count
    }

    /// Empty the queue of a service, counting its requests as dropped;
    /// give how many (none when the service has no queue).
    pub fn clear_service_queue(&mut self, service_id: &str) -> (n: usize)
        requires
            old(self).wf(),
            old(self).service_queues().contains_key(service_id@) ==> old(self).stats().total_dropped
                + old(self).service_queues()[service_id@].requests@.len() <= u64::MAX,
        ensures
            final(self).wf(),
            final(self).priority_queues() == old(self).priority_queues(),
            final(self).global_queue() == old(self).global_queue(),
            final(self).service_queue_ids() == old(self).service_queue_ids(),
            final(self).settings() == old(self).settings(),
            final(self).flow() == old(self).flow(),
            if old(self).service_queues().contains_key(service_id@) {
                let q = old(self).service_queues()[service_id@];
                &&& n == q.requests@.len()
                &&& final(self).service_queues().dom() == old(self).service_queues().dom()
                &&& cleared(final(self).service_queues()[service_id@], q)
                &&& forall|j: Seq<char>| #[trigger]
                    old(self).service_queues().contains_key(j) && j != service_id@ ==> final(self).service_queues()[j]
                        == old(self).service_queues()[j]
                &&& final(self).stats() == (QueueStats {
                    total_dropped: (old(self).stats().total_dropped + n) as u64,
                    ..old(self).stats()
                })
            } else {
                &&& n == 0
                &&& final(self).service_queues() == old(self).service_queues()
                &&& final(self).stats() == old(self).stats()
            },
    {
        let ghost sq0 = self.service_queues;
        if let Some(i) = self.service_queues.position(service_id) {
            proof {
                self.service_queues.lemma_entry(i as int);
                lemma_queued_count_nonneg(self.priority_queues@);
            }
            let cleared;
            {
                let q = self.service_queues.value_mut_at(i);
                cleared = q.clear();
            }
            proof {
                TextMap::lemma_value_changed(&sq0, &self.service_queues, i as int, self.service_queues.value_seq(i as int));
                lemma_queued_count_update(sq0.values_seq(), i as int, self.service_queues.value_seq(i as int));
                assert(self.service_queues@.dom() =~= sq0@.dom());
            }
            self.stats.total_dropped = self.stats.total_dropped + cleared as u64;
            cleared
        } else {
            0
        }
    }

    /// Maintenance: drop from every queue the requests older than the
    /// request timeout, then remove the service queues left empty; give how
    /// many requests were dropped and queues removed.
    pub fn perform_maintenance(&mut self) -> (r: IpcResult<QueueMaintenanceResult>)
        requires
            old(self).wf(),
            old(self).settings().request_timeout_ms / 1000 <= service_now(),
        ensures
            final(self).wf(),
            final(self).settings() == old(self).settings(),
            final(self).flow() == old(self).flow(),
            final(self).stats() == old(self).stats(),
            ({
                let t = (service_now() - old(self).settings().request_timeout_ms / 1000) as u64;
                let emptied = old(self).service_queue_ids().filter(emptied_by(old(self).service_queues(), t));
                &&& expired_out(final(self).global_queue(), old(self).global_queue(), t)
                &&& final(self).priority_queues().len() == 5
                &&& forall|j: int| 0 <= j < 5 ==> expired_out(
                    #[trigger] final(self).priority_queues()[j],
                    old(self).priority_queues()[j],
                    t,
                )
                &&& final(self).service_queues().dom() == old(self).service_queues().dom().difference(emptied.to_set())
                &&& forall|k: Seq<char>| #[trigger]
                    final(self).service_queues().contains_key(k) ==> expired_out(
                        final(self).service_queues()[k],
                        old(self).service_queues()[k],
                        t,
                    )
                &&& r matches Ok(m) && m.expired_requests == old(self).queue_size() - final(self).queue_size()
                    && m.removed_empty_queues == emptied.len()
            }),
    {
        let current_time = self.get_current_timestamp();
        let timeout_threshold = current_time - self.config.request_timeout_ms / 1000;
        proof {
            lemma_queued_count_nonneg(self.priority_queues@);
            lemma_queued_count_nonneg(self.service_queues.values_seq());
        }
        let ghost size0 = self.queue_size();
        let ghost g0 = self.global_queue;
        let mut expired = self.global_queue.remove_expired(timeout_threshold);
        assert(self.global_queue.requests@.len() <= g0.requests@.len()) by {
            g0.requests@.lemma_filter_len(fresh_after(timeout_threshold));
        }
        let ghost pq0 = self.priority_queues@;
        let mut i: usize = 0;
        while i < 5
            invariant
                old(self).wf(),
                i <= 5,
                self.priority_queues@.len() == 5,
                pq0 == old(self).priority_queues@,
                self.service_queues == old(self).service_queues,
                self.stats == old(self).stats,
                self.config == old(self).config,
                self.flow_control == old(self).flow_control,
                g0 == old(self).global_queue,
                expired_out(self.global_queue, g0, timeout_threshold),
                self.global_queue.balanced(),
                forall|j: int| 0 <= j < i ==> expired_out(#[trigger] self.priority_queues@[j], pq0[j], timeout_threshold),
                forall|j: int| 0 <= j < i ==> (#[trigger] self.priority_queues@[j]).balanced(),
                forall|j: int| i <= j < 5 ==> #[trigger] self.priority_queues@[j] == pq0[j],
                size0 == old(self).queue_size(),
                size0 == g0.requests@.len() + queued_count(pq0) + queued_count(old(self).service_queues.values_seq()),
                queued_count(old(self).service_queues.values_seq()) >= 0,
                expired + self.global_queue.requests@.len() + queued_count(self.priority_queues@) == g0.requests@.len()
                    + queued_count(pq0),
                self.global_queue.requests@.len() + queued_count(self.priority_queues@) >= 0,
            decreases 5 - i,
        {
            proof {
                assert(old(self).sound_queue(pq0[i as int], old(self).config.max_queue_size));
                lemma_queued_count_nonneg(self.priority_queues@);
            }
            let ghost pq_before = self.priority_queues@;
            let q = &mut self.priority_queues[i];
            let c = q.remove_expired(timeout_threshold);
            proof {
                assert(self.priority_queues@ == pq_before.update(i as int, self.priority_queues@[i as int]));
                lemma_queued_count_update(pq_before, i as int, self.priority_queues@[i as int]);
                lemma_queued_count_nonneg(self.priority_queues@);
            }
            expired = expired + c;
            i += 1;
        }
        let ghost sq0 = self.service_queues;
        let ghost listed = sq0.values_seq();
        let n = self.service_queues.len();
        let mut j: usize = 0;
        while j < n
            invariant
                old(self).wf(),
                sq0 == old(self).service_queues,
                listed == sq0.values_seq(),
                n == listed.len(),
                j <= n,
                self.service_queues.wf(),
                self.service_queues.keys_seq() == sq0.keys_seq(),
                self.service_queues.values_seq().len() == n,
                forall|q: int| 0 <= q < j ==> expired_out(#[trigger] self.service_queues.values_seq()[q], listed[q], timeout_threshold),
                forall|q: int| 0 <= q < j ==> (#[trigger] self.service_queues.values_seq()[q]).balanced(),
                forall|q: int| j <= q < n ==> #[trigger] self.service_queues.values_seq()[q] == listed[q],
                self.priority_queues@.len() == 5,
                forall|q: int| 0 <= q < 5 ==> expired_out(#[trigger] self.priority_queues@[q], pq0[q], timeout_threshold),
                forall|q: int| 0 <= q < 5 ==> (#[trigger] self.priority_queues@[q]).balanced(),
                pq0 == old(self).priority_queues@,
                self.stats == old(self).stats,
                self.config == old(self).config,
                self.flow_control == old(self).flow_control,
                g0 == old(self).global_queue,
                expired_out(self.global_queue, g0, timeout_threshold),
                self.global_queue.balanced(),
                size0 == old(self).queue_size(),
                size0 == g0.requests@.len() + queued_count(pq0) + queued_count(listed),
                size0 <= old(self).config.max_queue_size,
                expired + self.global_queue.requests@.len() + queued_count(self.priority_queues@) + queued_count(
                    self.service_queues.values_seq(),
                ) == size0,
                self.global_queue.requests@.len() + queued_count(self.priority_queues@) + queued_count(
                    self.service_queues.values_seq(),
                ) >= 0,
            decreases n - j,
        {
            proof {
                sq0.lemma_entry(j as int);
                sq0.lemma_values();
                self.service_queues.lemma_values();
                assert(self.service_queues.values_seq()[j as int] == listed[j as int]);
                assert(old(self).sound_queue(listed[j as int], old(self).config.max_queue_size / 4));
                lemma_queued_count_nonneg(self.service_queues.values_seq());
            }
            let ghost before = self.service_queues;
            let c;
            {
                let q = self.service_queues.value_mut_at(j);
                c = q.remove_expired(timeout_threshold);
            }
            proof {
                TextMap::lemma_value_changed(&before, &self.service_queues, j as int, self.service_queues.value_seq(j as int));
                self.service_queues.lemma_values();
                lemma_queued_count_update(before.values_seq(), j as int, self.service_queues.value_seq(j as int));
                lemma_queued_count_nonneg(self.service_queues.values_seq());
                lemma_queued_count_nonneg(self.priority_queues@);
            }
            expired = expired + c;
            j += 1;
        }
        proof {
            sq0.lemma_values();
            self.service_queues.lemma_values();
            assert forall|k: Seq<char>| #[trigger] sq0@.contains_key(k) implies self.service_queues@.contains_key(k)
                && expired_out(self.service_queues@[k], sq0@[k], timeout_threshold) by {
                let p = sq0.lemma_key_position(k);
                self.service_queues.lemma_entry(p);
                assert(expired_out(self.service_queues.values_seq()[p], listed[p], timeout_threshold));
            }
            assert forall|k: Seq<char>| #[trigger] self.service_queues@.contains_key(k) implies sq0@.contains_key(k) by {
                let p = self.service_queues.lemma_key_position(k);
                sq0.lemma_entry(p);
            }
        }
        // Remove the service queues left empty.
        let ghost keys = self.service_queues.keys_seq();
        let ghost sq1 = self.service_queues;
        let ghost pred = emptied_by(sq0@, timeout_threshold);
        let mut empty: Vec<String> = Vec::new();
        let mut q: usize = 0;
        while q < n
            invariant
                self.service_queues == sq1,
                sq1.wf(),
                keys == sq1.keys_seq(),
                keys == sq0.keys_seq(),
                n == keys.len(),
                q <= n,
                pred == emptied_by(sq0@, timeout_threshold),
                forall|k: Seq<char>| #[trigger] sq0@.contains_key(k) ==> sq1@.contains_key(k) && expired_out(
                    sq1@[k],
                    sq0@[k],
                    timeout_threshold,
                ),
                empty@.map_values(|s: String| s@) == keys.subrange(0, q as int).filter(pred),
            decreases n - q,
        {
            proof {
                reveal_with_fuel(Seq::<_>::filter, 1);
                assert(keys.subrange(0, q + 1).drop_last() =~= keys.subrange(0, q as int));
                sq1.lemma_entry(q as int);
                sq0.lemma_entry(q as int);
            }
            if self.service_queues.value_at(q).requests.len() == 0 {
                let ghost prev = empty@;
                let k = self.service_queues.key_at(q).clone();
                empty.push(k);
                assert(empty@.map_values(|s: String| s@) =~= prev.map_values(|s: String| s@).push(keys[q as int]));
            }
            q += 1;
        }
        assert(keys.subrange(0, n as int) =~= keys);
        let ghost empty_keys = keys.filter(pred);
        proof {
            assert forall|k: Seq<char>| #[trigger] empty_keys.contains(k) implies sq1@.contains_key(k)
                && sq1@[k].requests@.len() == 0 by {
                let i = choose|i: int| 0 <= i < empty_keys.len() && empty_keys[i] == k;
                keys.lemma_filter_pred(pred, i);
                keys.lemma_filter_contains_rev(pred, k);
                let p = choose|p: int| 0 <= p < keys.len() && keys[p] == k;
                sq0.lemma_entry(p);
            }
        }
        let removed = empty.len();
        assert(empty@.map_values(|s: String| s@).len() == empty@.len());
        let ghost pq_final = self.priority_queues@;
        let ghost g_final = self.global_queue;
        let mut w: usize = 0;
        while w < empty.len()
            invariant
                self.priority_queues@ == pq_final,
                self.global_queue == g_final,
                self.stats == old(self).stats,
                self.config == old(self).config,
                self.flow_control == old(self).flow_control,
                empty@.map_values(|s: String| s@) == empty_keys,
                w <= empty@.len(),
                self.service_queues.wf(),
                self.service_queues@ == sq1@.remove_keys(empty_keys.subrange(0, w as int).to_set()),
                queued_count(self.service_queues.values_seq()) == queued_count(sq1.values_seq()),
                forall|k: Seq<char>| #[trigger] empty_keys.contains(k) ==> sq1@.contains_key(k) && sq1@[k].requests@.len() == 0,
            decreases empty@.len() - w,
        {
            proof {
                crate::ordered_map::lemma_prefix_set_step(empty_keys, w as int);
                assert(empty_keys.contains(empty_keys[w as int]));
            }
            let ghost before = self.service_queues;
            let ghost key = empty_keys[w as int];
            assert(empty@[w as int]@ == key);
            self.service_queues.remove(empty[w].as_str());
            proof {
                assert(self.service_queues@ =~= before@.remove(key));
                assert(before@.remove(key) =~= sq1@.remove_keys(empty_keys.subrange(0, w + 1).to_set()));
                if before@.contains_key(key) {
                    let pos = choose|pos: int|
                        0 <= pos < before.spec_len() && before.keys_seq()[pos] == key && self.service_queues.values_seq()
                            == before.values_seq().remove(pos);
                    before.lemma_entry(pos);
                    before.lemma_values();
                    lemma_queued_count_remove(before.values_seq(), pos);
                }
            }
            w += 1;
        }
        proof {
            assert(empty_keys.subrange(0, empty@.len() as int) =~= empty_keys);
            assert(self.service_queues@.dom() =~= sq0@.dom().difference(empty_keys.to_set())) by {
                assert forall|k: Seq<char>| #[trigger] empty_keys.to_set().contains(k) implies sq0@.contains_key(k) by {
                    assert(empty_keys.contains(k));
                }
            }
            assert forall|k: Seq<char>| #[trigger] self.service_queues@.contains_key(k) implies self.sound_queue(
                self.service_queues@[k],
                self.config.max_queue_size / 4,
            ) by {
                assert(sq1@.contains_key(k));
                assert(self.service_queues@[k] == sq1@[k]);
                assert(sq0@.contains_key(k));
                assert(old(self).sound_queue(sq0@[k], old(self).config.max_queue_size / 4));
                assert(expired_out(sq1@[k], sq0@[k], timeout_threshold));
            }
            assert forall|j: int| 0 <= j < 5 implies self.sound_queue(
                #[trigger] self.priority_queues@[j],
                self.config.max_queue_size,
            ) by {
                assert(old(self).sound_queue(pq0[j], old(self).config.max_queue_size));
            }
        }
        Ok(QueueMaintenanceResult { expired_requests: expired, removed_empty_queues: removed })
    }

    fn should_drop_request(&self, request: &EmbeddingRequest) -> (b: bool)
        requires
            self.wf(),
        ensures
            b == self.drops(*request),
    {
        if !self.flow_control.enabled {
            return false;
        }
        if f32_gt(self.flow_control.current_backpressure_bits, self.flow_control.drop_threshold_bits) {
            if request.priority < 128 {
                return true;
            }
        }
        let total_size = self.get_queue_size();
        if total_size >= self.config.max_queue_size {
            return true;
        }
        false
    }

    fn map_priority_to_level(priority: u8) -> (i: usize)
        ensures
            i == level_index(priority),
    {
        if priority < 64 {
            0
        } else if priority < 128 {
            1
        } else if priority < 192 {
            2
        } else if priority < 255 {
            3
        } else {
            4
        }
    }

    fn get_current_timestamp(&self) -> (t: u64)
        ensures
            t == service_now(),
    {
        0
    }
}

/// Counting two lists together adds their counts.
proof fn lemma_queued_count_concat(a: Seq<RequestQueue>, b: Seq<RequestQueue>)
    ensures
        queued_count(a + b) == queued_count(a) + queued_count(b),
    decreases b.len(),
{
    if b.len() > 0 {
        lemma_queued_count_concat(a, b.drop_last());
        assert((a + b).drop_last() =~= a + b.drop_last());
    } else {
        assert(a + b =~= a);
    }
}

/// Putting a queue in a list adds its requests to the count.
proof fn lemma_queued_count_insert(s: Seq<RequestQueue>, p: int, q: RequestQueue)
    requires
        0 <= p <= s.len(),
    ensures
        queued_count(s.insert(p, q)) == queued_count(s) + q.requests@.len(),
{
    let a = s.subrange(0, p);
    let b = s.subrange(p, s.len() as int);
    assert(s.insert(p, q) =~= a + (seq![q] + b));
    assert(s =~= a + b);
    lemma_queued_count_concat(a, seq![q] + b);
    lemma_queued_count_concat(seq![q], b);
    lemma_queued_count_concat(a, b);
    reveal_with_fuel(queued_count, 2);
    assert(seq![q].drop_last() =~= Seq::<RequestQueue>::empty());
}

/// Taking a queue out of a list removes its requests from the count.
proof fn lemma_queued_count_remove(s: Seq<RequestQueue>, p: int)
    requires
        0 <= p < s.len(),
    ensures
        queued_count(s.remove(p)) == queued_count(s) - s[p].requests@.len(),
{
    assert(s.remove(p).insert(p, s[p]) =~= s);
    lemma_queued_count_insert(s.remove(p), p, s[p]);
}

/// Replacing a queue of a list changes the count by the difference.
proof fn lemma_queued_count_update(s: Seq<RequestQueue>, p: int, q: RequestQueue)
    requires
        0 <= p < s.len(),
    ensures
        queued_count(s.update(p, q)) == queued_count(s) - s[p].requests@.len() + q.requests@.len(),
{
    assert(s.update(p, q) =~= s.remove(p).insert(p, q));
    lemma_queued_count_remove(s, p);
    lemma_queued_count_insert(s.remove(p), p, q);
}

/// Once a nonempty queue is found in a prefix, the whole list finds the
/// same one.
proof fn lemma_first_nonempty_prefix(qs: Seq<RequestQueue>, n: int)
    requires
        0 <= n <= qs.len(),
        first_nonempty(qs.subrange(0, n)) >= 0,
    ensures
        first_nonempty(qs) == first_nonempty(qs.subrange(0, n)),
    decreases qs.len() - n,
{
    if n == qs.len() {
        assert(qs.subrange(0, n) =~= qs);
    } else {
        assert(qs.subrange(0, n + 1).drop_last() =~= qs.subrange(0, n));
        lemma_first_nonempty_prefix(qs, n + 1);
    }
}

/// A list of empty queues holds no request.
proof fn lemma_queued_count_all_empty(qs: Seq<RequestQueue>)
    requires
        forall|i: int| 0 <= i < qs.len() ==> (#[trigger] qs[i]).requests@.len() == 0,
    ensures
        queued_count(qs) == 0,
    decreases qs.len(),
{
    if qs.len() > 0 {
        lemma_queued_count_all_empty(qs.drop_last());
    }
}

/// Whether the requests hold one for the service.
fn holds_request_for(rs: &Vec<QueuedRequest>, service_id: &str) -> (b: bool)
    ensures
        b == (first_for_service(rs@, service_id@) >= 0),
{
    let mut i: usize = 0;
    while i < rs.len()
        invariant
            i <= rs@.len(),
            first_for_service(rs@.subrange(0, i as int), service_id@) == -1,
        decreases rs@.len() - i,
    {
        proof {
            assert(rs@.subrange(0, i + 1).drop_last() =~= rs@.subrange(0, i as int));
        }
        if str_eq(rs[i].service_id.as_str(), service_id) {
            proof {
                lemma_first_for_service_prefix(rs@, service_id@, i as int + 1);
            }
            return true;
        }
        i += 1;
    }
    assert(rs@.subrange(0, rs@.len() as int) =~= rs@);
    false
}

/// No list of queues holds a negative number of requests.
proof fn lemma_queued_count_nonneg(qs: Seq<RequestQueue>)
    ensures
        queued_count(qs) >= 0,
    decreases qs.len(),
{
    if qs.len() > 0 {
        lemma_queued_count_nonneg(qs.drop_last());
    }
}

/// The count over a prefix one longer adds the next queue.
proof fn lemma_queued_count_prefix(qs: Seq<RequestQueue>, n: int)
    requires
        0 < n <= qs.len(),
    ensures
        queued_count(qs.subrange(0, n)) == queued_count(qs.subrange(0, n - 1)) + qs[n - 1].requests@.len(),
        queued_count(qs.subrange(0, n)) <= queued_count(qs),
    decreases qs.len() - n,
{
    assert(qs.subrange(0, n).drop_last() =~= qs.subrange(0, n - 1));
    lemma_queued_count_nonneg(qs.subrange(0, n - 1));
    if n < qs.len() {
        lemma_queued_count_prefix(qs, n + 1);
    } else {
        assert(qs.subrange(0, n) =~= qs);
    }
}

/// A snapshot of the queues; the utilization, rates and level are bit
/// patterns of IEEE 754 numbers (singles, the rates doubles).
#[derive(Debug, Clone, Copy, PartialEq, Eq, Structural)]
pub struct QueueMetrics {
    pub timestamp: u64,
    pub total_size: usize,
    /// Share of the capacity in use, 0.0 to 1.0.
    pub utilization_bits: u32,
    /// Requests queued per second.
    pub enqueue_rate_bits: u64,
    /// Requests taken per second.
    pub dequeue_rate_bits: u64,
    pub avg_wait_time_ms: u64,
    pub flow_control_level_bits: u32,
}

/// When the monitor warns; the utilizations are bit patterns of IEEE 754
/// singles.
#[derive(Debug, Clone, Copy, PartialEq, Eq, Structural)]
pub struct AlertThresholds {
    pub high_utilization_bits: u32,
    pub critical_utilization_bits: u32,
    pub high_wait_time_ms: u64,
    pub critical_wait_time_ms: u64,
}

/// Utilization alerts at 0.7 and 0.9, wait time alerts at one and five
/// seconds.
pub open spec fn default_thresholds() -> AlertThresholds {
    AlertThresholds {
        high_utilization_bits: F32_0_7,
        critical_utilization_bits: F32_0_9,
        high_wait_time_ms: 1000,
        critical_wait_time_ms: 5000,
    }
}

impl Default for AlertThresholds {
    fn default() -> (t: Self)
        ensures
            t == default_thresholds(),
    {
        AlertThresholds {
            high_utilization_bits: F32_0_7,
            critical_utilization_bits: F32_0_9,
            high_wait_time_ms: 1000,
            critical_wait_time_ms: 5000,
        }
    }
}

/// The snapshots taken after `threshold`.
pub open spec fn taken_after(threshold: u64) -> spec_fn(QueueMetrics) -> bool {
    |m: QueueMetrics| m.timestamp > threshold
}

/// Keeps snapshots of the queues.
pub struct QueueMonitor {
    config: MonitorConfig,
    metrics_history: Vec<QueueMetrics>,
    alert_thresholds: AlertThresholds,
}

impl QueueMonitor {
    /// The settings.
    pub closed spec fn settings(&self) -> MonitorConfig {
        self.config
    }

    /// The snapshots kept, oldest first.
    pub closed spec fn history(&self) -> Seq<QueueMetrics> {
        self.metrics_history@
    }

    /// The alert thresholds.
    pub closed spec fn thresholds(&self) -> AlertThresholds {
        self.alert_thresholds
    }

    /// A monitor with no snapshot and the default thresholds.
    pub fn new(config: MonitorConfig) -> (m: Self)
        ensures
            m.settings() == config,
            m.history() == Seq::<QueueMetrics>::empty(),
            m.thresholds() == default_thresholds(),
    {
        QueueMonitor { config, metrics_history: Vec::new(), alert_thresholds: AlertThresholds::default() }
    }

    /// Take a snapshot of the queues: their size, the backpressure as the
    /// utilization, the flow control level and the average wait, with no
    /// rates; then keep only the snapshots newer than the retention period.
    /// The alert check reads the newest snapshot kept, so there must be one
    /// when alerts are on.
    pub fn record_metrics(&mut self, queue_manager: &QueueManager)
        requires
            queue_manager.wf(),
            old(self).settings().retention_sec <= service_now(),
            old(self).settings().enable_alerts ==> ({
                let threshold = (service_now() - old(self).settings().retention_sec) as u64;
                old(self).history().push(
                    QueueMetrics {
                        timestamp: service_now(),
                        total_size: queue_manager.queue_size() as usize,
                        utilization_bits: queue_manager.flow().current_backpressure_bits,
                        enqueue_rate_bits: 0,
                        dequeue_rate_bits: 0,
                        avg_wait_time_ms: queue_manager.stats().average_wait_time_ms,
                        flow_control_level_bits: queue_manager.flow().level_bits,
                    },
                ).filter(taken_after(threshold)).len() > 0
            }),
        ensures
            final(self).settings() == old(self).settings(),
            final(self).thresholds() == old(self).thresholds(),
            final(self).history() == old(self).history().push(
                QueueMetrics {
                    timestamp: service_now(),
                    total_size: queue_manager.queue_size() as usize,
                    utilization_bits: queue_manager.flow().current_backpressure_bits,
                    enqueue_rate_bits: 0,
                    dequeue_rate_bits: 0,
                    avg_wait_time_ms: queue_manager.stats().average_wait_time_ms,
                    flow_control_level_bits: queue_manager.flow().level_bits,
                },
            ).filter(taken_after((service_now() - old(self).settings().retention_sec) as u64)),
    {
        let current_time = self.get_current_timestamp();
        let stats = queue_manager.get_stats();
        let flow_control = queue_manager.get_flow_control_state();
        let metrics = QueueMetrics {
            timestamp: current_time,
            total_size: queue_manager.get_queue_size(),
            utilization_bits: flow_control.current_backpressure_bits,
            enqueue_rate_bits: 0,
            dequeue_rate_bits: 0,
            avg_wait_time_ms: stats.average_wait_time_ms,
            flow_control_level_bits: flow_control.level_bits,
        };
        self.metrics_history.push(metrics);
        let retention_threshold = current_time - self.config.retention_sec;
        let ghost all = self.metrics_history@;
        let ghost keep = taken_after(retention_threshold);
        let mut kept: Vec<QueueMetrics> = Vec::new();
        let mut i: usize = 0;
        while i < self.metrics_history.len()
            invariant
                self.metrics_history@ == all,
                keep == taken_after(retention_threshold),
                i <= all.len(),
                kept@ == all.subrange(0, i as int).filter(keep),
            decreases all.len() - i,
        {
            proof {
                reveal_with_fuel(Seq::<_>::filter, 1);
                assert(all.subrange(0, i + 1).drop_last() =~= all.subrange(0, i as int));
            }
            if self.metrics_history[i].timestamp > retention_threshold {
                kept.push(self.metrics_history[i]);
            }
            i += 1;
        }
        assert(all.subrange(0, all.len() as int) =~= all);
        self.metrics_history = kept;
        if self.config.enable_alerts {
            let newest = self.metrics_history.len() - 1;
            self.check_alerts(&self.metrics_history[newest]);
        }
    }

    /// Compare a snapshot with the alert thresholds. No alert is raised:
    /// the comparisons have no effect.
    fn check_alerts(&self, metrics: &QueueMetrics) {
        if f32_ge(metrics.utilization_bits, self.alert_thresholds.critical_utilization_bits) {
        } else if f32_ge(metrics.utilization_bits, self.alert_thresholds.high_utilization_bits) {
        }
        if metrics.avg_wait_time_ms >= self.alert_thresholds.critical_wait_time_ms {
        } else if metrics.avg_wait_time_ms >= self.alert_thresholds.high_wait_time_ms {
        }
    }

    /// The snapshots of the last `duration_sec` seconds, oldest first.
    pub fn get_recent_metrics(&self, duration_sec: u64) -> (r: Vec<&QueueMetrics>)
        requires
            duration_sec <= service_now(),
        ensures
            r@.map_values(|m: &QueueMetrics| *m) == self.history().filter(
                taken_after((service_now() - duration_sec) as u64),
            ),
    {
        let current_time = self.get_current_timestamp();
        let threshold = current_time - duration_sec;
        let ghost all = self.metrics_history@;
        let ghost keep = taken_after(threshold);
        let mut out: Vec<&QueueMetrics> = Vec::new();
        let mut i: usize = 0;
        while i < self.metrics_history.len()
            invariant
                self.metrics_history@ == all,
                keep == taken_after(threshold),
                i <= all.len(),
                out@.map_values(|m: &QueueMetrics| *m) == all.subrange(0, i as int).filter(keep),
            decreases all.len() - i,
        {
            proof {
                reveal_with_fuel(Seq::<_>::filter, 1);
                assert(all.subrange(0, i + 1).drop_last() =~= all.subrange(0, i as int));
            }
            if self.metrics_history[i].timestamp > threshold {
                let ghost prev = out@;
                out.push(&self.metrics_history[i]);
                assert(out@.map_values(|m: &QueueMetrics| *m) =~= prev.map_values(|m: &QueueMetrics| *m).push(
                    all[i as int],
                ));
            }
            i += 1;
        }
        assert(all.subrange(0, all.len() as int) =~= all);
        out
    }

    fn get_current_timestamp(&self) -> (t: u64)
        ensures
            t == service_now(),
    {
        0
    }
}

} // verus!
