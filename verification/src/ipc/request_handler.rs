//! Tracking embedding requests from submission to completion: validation,
//! capacity, retries, timeouts and statistics.

use vstd::prelude::*;
use crate::fs_core::permissions::UserContext;
use crate::ipc::protocol::{EmbeddingRequest, EmbeddingResponse, VectorDataType, MAX_BATCH_SIZE, MAX_EMBEDDING_DIMENSIONS};
use crate::ipc::{IpcConfig, IpcError, IpcErrorView, IpcResult, ipc_unit_is};
use crate::ordered_map::OrderedMap;
use crate::shared::message;
use crate::text::{decimal_string, spec_decimal, str_eq};
use crate::text_map::TextMap;
use vstd::string::*;

verus! {

/// Where a request came from.
#[derive(Debug, Clone, Copy, PartialEq, Eq, Structural)]
pub enum RequestSource {
    Ioctl,
    DirectApi,
    Batch,
    Internal,
}

/// Who made a request.
#[derive(Debug, Clone)]
pub struct RequestContextInfo {
    pub user_id: u32,
    pub process_id: u32,
    pub source: RequestSource,
    pub security_context: String,
}

/// A request in flight.
#[derive(Debug, Clone)]
pub struct ActiveRequest {
    pub request: EmbeddingRequest,
    /// The service it was given to; empty until one is assigned.
    pub service_id: String,
    pub start_time: u64,
    /// Time after which it counts as timed out.
    pub timeout: u64,
    pub retry_count: u32,
    pub priority: u8,
    pub context_info: RequestContextInfo,
}

/// Request statistics.
#[derive(Debug, Clone, Copy, Default)]
pub struct RequestStats {
    pub total_requests: u64,
    pub successful_requests: u64,
    pub failed_requests: u64,
    pub timeout_requests: u64,
    pub retry_requests: u64,
    pub average_processing_time_us: u64,
    pub peak_concurrent_requests: usize,
    pub current_active_requests: usize,
}

/// What a maintenance run did.
#[derive(Debug, Clone, Copy, Default)]
pub struct RequestMaintenanceResult {
    pub timed_out_requests: usize,
}

/// The time requests are stamped with; the handler has no clock and uses 0.
pub open spec fn handler_now() -> u64 {
    0
}

/// The least data, in bytes, that a vector of the given type and
/// dimension takes.
pub open spec fn min_data_size(dimensions: u32, data_type: VectorDataType) -> int {
    match data_type {
        VectorDataType::Float32 => dimensions * 4,
        VectorDataType::Float16 => dimensions * 2,
        VectorDataType::Int8 => dimensions as int,
        VectorDataType::Int16 => dimensions * 2,
        VectorDataType::Binary => (dimensions + 7) / 8,
    }
}

/// The outcome of checking a request before it is accepted: the dimension
/// must be 1 to the largest allowed, the data must not be empty and must
/// hold at least a full vector.
pub open spec fn request_check(dimensions: u32, data: Seq<u8>, data_type: VectorDataType) -> Result<(), IpcErrorView> {
    if dimensions == 0 || dimensions > MAX_EMBEDDING_DIMENSIONS {
        Err(IpcErrorView::InvalidMessage("Invalid dimensions"@))
    } else if data.len() == 0 {
        Err(IpcErrorView::InvalidMessage("Empty data"@))
    } else if data.len() < min_data_size(dimensions, data_type) {
        Err(IpcErrorView::InvalidMessage("Data size too small"@))
    } else {
        Ok(())
    }
}

/// A request passes its check exactly when its dimension is 1 to the
/// largest allowed and its data holds a whole vector of that dimension,
/// by the width of an element: 4 bytes for `Float32`, 2 for `Float16` and
/// `Int16`, 1 for `Int8`, and a bit for `Binary`, rounded up to bytes.
pub proof fn lemma_request_check_sizes(dimensions: u32, data: Seq<u8>, data_type: VectorDataType)
    ensures
        request_check(dimensions, data, data_type) is Ok <==> {
            &&& 1 <= dimensions <= MAX_EMBEDDING_DIMENSIONS
            &&& data.len() >= 1
            &&& match data_type {
                VectorDataType::Float32 => data.len() >= 4 * dimensions,
                VectorDataType::Float16 => data.len() >= 2 * dimensions,
                VectorDataType::Int16 => data.len() >= 2 * dimensions,
                VectorDataType::Int8 => data.len() >= dimensions,
                VectorDataType::Binary => 8 * data.len() >= dimensions,
            }
        },
{
    if data_type == VectorDataType::Binary {
        let d = dimensions as int;
        let n = data.len() as int;
        assert(n >= (d + 7) / 8 <==> 8 * n >= d) by (nonlinear_arith)
            requires
                d >= 0,
                n >= 0,
        ;
    }
}

/// Why the request at position `k` of a batch is refused, if it is: its own
/// check, or, with `in_flight` requests in flight before the batch and the
/// `k` before it accepted, a handler that is full.
pub open spec fn batch_refusal(
    req: (u32, Vec<u8>, VectorDataType, Option<String>),
    in_flight: nat,
    max: usize,
    k: int,
) -> Option<IpcErrorView> {
    match request_check(req.0, req.1@, req.2) {
        Err(e) => Some(e),
        Ok(_) => if in_flight + k >= max { Some(IpcErrorView::QueueFull) } else { None },
    }
}

/// The position of the first request of a batch that is refused, if any.
pub open spec fn first_refused(
    reqs: Seq<(u32, Vec<u8>, VectorDataType, Option<String>)>,
    in_flight: nat,
    max: usize,
) -> Option<int> {
    if exists|k: int| 0 <= k < reqs.len() && #[trigger] batch_refusal(reqs[k], in_flight, max, k) is Some {
        Some(choose|k: int| 0 <= k < reqs.len() && #[trigger] batch_refusal(reqs[k], in_flight, max, k) is Some
            && forall|j: int| 0 <= j < k ==> #[trigger] batch_refusal(reqs[j], in_flight, max, j) is None)
    } else {
        None
    }
}

/// A request in flight holds what a batch entry asked for, under `id`, at
/// `priority`, not yet retried.
pub open spec fn accepted_as(
    a: ActiveRequest,
    req: (u32, Vec<u8>, VectorDataType, Option<String>),
    id: u64,
    priority: u8,
) -> bool {
    &&& a.request.request_id == id
    &&& a.request.dimensions == req.0
    &&& a.request.data == req.1
    &&& a.request.data_type == req.2
    &&& a.request.model == req.3
    &&& a.request.priority == priority
    &&& a.priority == priority
    &&& a.retry_count == 0
}

/// The first refused request is the one at `i` when it is refused and none
/// before it is.
pub proof fn lemma_first_refused_at(
    reqs: Seq<(u32, Vec<u8>, VectorDataType, Option<String>)>,
    in_flight: nat,
    max: usize,
    i: int,
)
    requires
        0 <= i < reqs.len(),
        batch_refusal(reqs[i], in_flight, max, i) is Some,
        forall|j: int| 0 <= j < i ==> #[trigger] batch_refusal(reqs[j], in_flight, max, j) is None,
    ensures
        first_refused(reqs, in_flight, max) == Some(i),
{
    let c = choose|k: int| 0 <= k < reqs.len() && #[trigger] batch_refusal(reqs[k], in_flight, max, k) is Some
        && forall|j: int| 0 <= j < k ==> #[trigger] batch_refusal(reqs[j], in_flight, max, j) is None;
    assert(0 <= c < reqs.len() && batch_refusal(reqs[c], in_flight, max, c) is Some
        && forall|j: int| 0 <= j < c ==> #[trigger] batch_refusal(reqs[j], in_flight, max, j) is None);
    if c < i {
        assert(batch_refusal(reqs[c], in_flight, max, c) is None);
    } else if c > i {
        assert(batch_refusal(reqs[i], in_flight, max, i) is None);
    }
}

/// No request is refused when none of them is.
pub proof fn lemma_none_refused(
    reqs: Seq<(u32, Vec<u8>, VectorDataType, Option<String>)>,
    in_flight: nat,
    max: usize,
)
    requires
        forall|j: int| 0 <= j < reqs.len() ==> #[trigger] batch_refusal(reqs[j], in_flight, max, j) is None,
    ensures
        first_refused(reqs, in_flight, max) is None,
{
}

/// The id `k` steps after `id`, wrapping around.
pub open spec fn id_after(id: u64, k: int) -> u64 {
    ((id + k) % 0x1_0000_0000_0000_0000) as u64
}

/// One more step.
pub proof fn lemma_id_after_step(id: u64, k: int)
    requires
        k >= 0,
    ensures
        next_id_after(id_after(id, k)) == id_after(id, k + 1),
{
    let x = id_after(id, k);
    assert(x == (id + k) % 0x1_0000_0000_0000_0000);
    assert(next_id_after(x) == (x + 1) % 0x1_0000_0000_0000_0000);
    vstd::arithmetic::div_mod::lemma_add_mod_noop(id + k, 1, 0x1_0000_0000_0000_0000);
    vstd::arithmetic::div_mod::lemma_mod_twice(id + k, 0x1_0000_0000_0000_0000);
}

/// The id after `id`, wrapping around.
pub open spec fn next_id_after(id: u64) -> u64 {
    if id == u64::MAX { 0 } else { (id + 1) as u64 }
}

/// The exponential moving average of processing times after one more
/// sample: the sample itself when the average is still zero.
pub open spec fn moving_average(avg: u64, sample: u64) -> int {
    if avg == 0 { sample as int } else { (avg * 9 + sample) / 10 }
}

/// The request ids, in increasing order, whose timeout lies before `now`.
pub open spec fn expired_ids(ids: Seq<u64>, timeouts: Map<u64, u64>, now: u64) -> Seq<u64> {
    ids.filter(|id: u64| now > timeouts[id])
}

/// Tracks the requests in flight.
pub struct RequestHandler {
    config: IpcConfig,
    active_requests: OrderedMap<ActiveRequest>,
    stats: RequestStats,
    request_timeouts: OrderedMap<u64>,
    next_request_id: u64,
}

impl RequestHandler {
    /// The settings.
    pub closed spec fn settings(&self) -> IpcConfig {
        self.config
    }

    /// The requests in flight, by id.
    pub closed spec fn active(&self) -> Map<u64, ActiveRequest> {
        self.active_requests@
    }

    /// The ids of the requests in flight, in increasing order.
    pub closed spec fn active_ids(&self) -> Seq<u64> {
        self.active_requests.keys_seq()
    }

    /// The timeouts of the requests in flight, by id.
    pub closed spec fn timeouts(&self) -> Map<u64, u64> {
        self.request_timeouts@
    }

    /// The statistics.
    pub closed spec fn statistics(&self) -> RequestStats {
        self.stats
    }

    /// The id the next request gets.
    pub closed spec fn next_id(&self) -> u64 {
        self.next_request_id
    }

    /// Internal consistency: every request in flight has a timeout equal to
    /// its own, started no later than now, and the active count is the
    /// number of requests in flight.
    pub closed spec fn wf(&self) -> bool {
        &&& self.active_requests.wf()
        &&& self.request_timeouts.wf()
        &&& self.active_requests@.dom() == self.request_timeouts@.dom()
        &&& self.active_requests.keys_seq() == self.request_timeouts.keys_seq()
        &&& forall|k: u64| #[trigger] self.active_requests@.contains_key(k) ==> self.request_timeouts@[k]
            == self.active_requests@[k].timeout && self.active_requests@[k].start_time <= handler_now()
        &&& self.stats.current_active_requests == self.active_requests@.dom().len()
        &&& self.next_request_id == next_id_after(self.stats.total_requests)
        &&& forall|k: u64| #[trigger] self.active_requests@.contains_key(k) ==> 1 <= k <= self.stats.total_requests
        &&& self.stats.total_requests == self.stats.successful_requests + self.stats.failed_requests
            + self.stats.timeout_requests + self.active_requests@.dom().len()
        &&& self.stats.peak_concurrent_requests >= self.stats.current_active_requests
    }

    /// The request totals balance: every request accepted has completed,
    /// failed, timed out, or is still in flight; and the peak number in
    /// flight is at least the number in flight now.
    pub proof fn lemma_stats_balance(&self)
        requires
            self.wf(),
        ensures
            self.statistics().total_requests == self.statistics().successful_requests
                + self.statistics().failed_requests + self.statistics().timeout_requests + self.active().dom().len(),
            self.statistics().current_active_requests == self.active().dom().len(),
            self.statistics().peak_concurrent_requests >= self.statistics().current_active_requests,
    {
    }

    /// Ids are handed out in order from 1: the next id follows the number of
    /// requests accepted so far, and every request in flight has an id
    /// between 1 and that number, so the next id is not in flight while
    /// fewer than `u64::MAX` requests were accepted.
    pub proof fn lemma_ids_in_order(&self)
        requires
            self.wf(),
        ensures
            self.next_id() == next_id_after(self.statistics().total_requests),
            forall|k: u64| #[trigger] self.active().contains_key(k) ==> 1 <= k <= self.statistics().total_requests,
            self.statistics().total_requests < u64::MAX ==> !self.active().contains_key(self.next_id()),
    {
    }

    /// A handler without requests, numbering them from 1.
    pub fn new(config: IpcConfig) -> (h: Self)
        ensures
            h.wf(),
            h.settings() == config,
            h.active() == Map::<u64, ActiveRequest>::empty(),
            h.statistics() == (RequestStats {
                total_requests: 0,
                successful_requests: 0,
                failed_requests: 0,
                timeout_requests: 0,
                retry_requests: 0,
                average_processing_time_us: 0,
                peak_concurrent_requests: 0,
                current_active_requests: 0,
            }),
            h.next_id() == 1,
    {
        let h = RequestHandler {
            config,
            active_requests: OrderedMap::new(),
            stats: RequestStats {
                total_requests: 0,
                successful_requests: 0,
                failed_requests: 0,
                timeout_requests: 0,
                retry_requests: 0,
                average_processing_time_us: 0,
                peak_concurrent_requests: 0,
                current_active_requests: 0,
            },
            request_timeouts: OrderedMap::new(),
            next_request_id: 1,
        };
        proof {
            h.active_requests.lemma_len();
        }
        h
    }

    fn get_current_timestamp(&self) -> (t: u64)
        ensures
            t == handler_now(),
    {
        0
    }

    /// Check a request before it is accepted.
    fn validate_request(&self, dimensions: u32, data: &[u8], data_type: VectorDataType) -> (r: IpcResult<()>)
        ensures
            ipc_unit_is(r, request_check(dimensions, data@, data_type)),
    {
        if dimensions == 0 || dimensions > MAX_EMBEDDING_DIMENSIONS {
            return Err(IpcError::InvalidMessage(message("Invalid dimensions")));
        }
        if data.len() == 0 {
            return Err(IpcError::InvalidMessage(message("Empty data")));
        }
        let d = dimensions as usize;
        let expected_min_size: usize = match data_type {
            VectorDataType::Float32 => d * 4,
            VectorDataType::Float16 => d * 2,
            VectorDataType::Int8 => d,
            VectorDataType::Int16 => d * 2,
            VectorDataType::Binary => (d + 7) / 8,
        };
        if data.len() < expected_min_size {
            return Err(IpcError::InvalidMessage(message("Data size too small")));
        }
        Ok(())
    }

    /// Hand out the next request id.
    fn generate_request_id(&mut self) -> (id: u64)
        ensures
            id == old(self).next_request_id,
            final(self).next_request_id == next_id_after(old(self).next_request_id),
            final(self).config == old(self).config,
            final(self).active_requests == old(self).active_requests,
            final(self).request_timeouts == old(self).request_timeouts,
            final(self).stats == old(self).stats,
    {
        let id = self.next_request_id;
        self.next_request_id = if self.next_request_id == u64::MAX { 0 } else { self.next_request_id + 1 };
        id
    }

    /// Accept a request: it is checked, refused when as many requests as
    /// allowed are in flight, given the next id and tracked with its
    /// timeout.
    pub fn submit_request(
        &mut self,
        dimensions: u32,
        data: Vec<u8>,
        data_type: VectorDataType,
        model: Option<String>,
        priority: u8,
        user: &UserContext,
    ) -> (r: IpcResult<u64>)
        requires
            old(self).wf(),
            old(self).statistics().total_requests < u64::MAX,
        ensures
            final(self).wf(),
            final(self).settings() == old(self).settings(),
            ({
                let check = request_check(dimensions, data@, data_type);
                let full = old(self).active().dom().len() >= old(self).settings().max_concurrent_requests;
                if check is Err {
                    r matches Err(e) && check == Err::<(), IpcErrorView>(e@) && *final(self) == *old(self)
                } else if full {
                    r matches Err(e) && e@ == IpcErrorView::QueueFull && *final(self) == *old(self)
                } else {
                    let id = old(self).next_id();
                    let timeout = (handler_now() + old(self).settings().request_timeout_ms / 1000) as u64;
                    let a = final(self).active()[id];
                    &&& r == Ok::<u64, IpcError>(id)
                    &&& !old(self).active().contains_key(id)
                    &&& final(self).next_id() == next_id_after(id)
                    &&& final(self).active().dom() == old(self).active().dom().insert(id)
                    &&& forall|k: u64| k != id && #[trigger] old(self).active().contains_key(k) ==> final(self).active()[k]
                        == old(self).active()[k]
                    &&& a.request.request_id == id && a.request.dimensions == dimensions && a.request.data == data
                        && a.request.data_type == data_type && a.request.model == model && a.request.parameters@.len()
                        == 0 && a.request.priority == priority && a.request.timeout_ms == old(
                        self,
                    ).settings().request_timeout_ms
                    &&& a.service_id@ == Seq::<char>::empty()
                    &&& a.start_time == handler_now() && a.timeout == timeout && a.retry_count == 0 && a.priority
                        == priority
                    &&& a.context_info.user_id == user.uid && a.context_info.process_id == 0 && a.context_info.source
                        == RequestSource::Ioctl && a.context_info.security_context@ == "uid:"@ + spec_decimal(
                        user.uid as nat,
                    )
                    &&& final(self).timeouts()[id] == timeout
                    &&& final(self).statistics() == (RequestStats {
                        total_requests: (old(self).statistics().total_requests + 1) as u64,
                        current_active_requests: final(self).active().dom().len() as usize,
                        peak_concurrent_requests: if final(self).active().dom().len() > old(
                            self,
                        ).statistics().peak_concurrent_requests {
                            final(self).active().dom().len() as usize
                        } else {
                            old(self).statistics().peak_concurrent_requests
                        },
                        ..old(self).statistics()
                    })
                }
            }),
    {
        self.validate_request(dimensions, data.as_slice(), data_type)?;
        if self.active_requests.len() >= self.config.max_concurrent_requests {
            return Err(IpcError::QueueFull);
        }
        let request_id = self.generate_request_id();
        let embedding_request = EmbeddingRequest {
            request_id,
            dimensions,
            data,
            data_type,
            model,
            parameters: Vec::new(),
            priority,
            timeout_ms: self.config.request_timeout_ms,
        };
        let mut security_context = message("uid:");
        let uid_text = decimal_string(user.uid as u64);
        security_context.append(uid_text.as_str());
        let context_info = RequestContextInfo {
            user_id: user.uid,
            process_id: 0,
            source: RequestSource::Ioctl,
            security_context,
        };
        let now = self.get_current_timestamp();
        let timeout = now + self.config.request_timeout_ms / 1000;
        let active_request = ActiveRequest {
            request: embedding_request,
            service_id: String::new(),
            start_time: now,
            timeout,
            retry_count: 0,
            priority,
            context_info,
        };
        let ghost old_active = self.active_requests@;
        let ghost old_keys = self.active_requests.keys_seq();
        self.active_requests.insert(request_id, active_request);
        self.request_timeouts.insert(request_id, timeout);
        proof {
            lemma_same_keys(old_active, self.request_timeouts@, old_keys, request_id, &self.active_requests,
                &self.request_timeouts);
            old(self).active_requests.lemma_len();
            assert(!old_active.contains_key(request_id));
            assert(self.active_requests@.dom() =~= old_active.dom().insert(request_id));
        }
        self.stats.total_requests = self.stats.total_requests + 1;
        let n = self.active_requests.len();
        self.stats.current_active_requests = n;
        if n > self.stats.peak_concurrent_requests {
            self.stats.peak_concurrent_requests = n;
        }
        Ok(request_id)
    }

    /// Accept a batch of requests, one after another with the same
    /// priority: an empty batch, or one larger than a queue, is refused; the
    /// first request refused stops the batch and gives its error, while the
    /// requests accepted before it stay accepted.
    pub fn submit_batch_request(
        &mut self,
        requests: Vec<(u32, Vec<u8>, VectorDataType, Option<String>)>,
        priority: u8,
        user: &UserContext,
    ) -> (r: IpcResult<Vec<u64>>)
        requires
            old(self).wf(),
            old(self).statistics().total_requests + requests@.len() < u64::MAX,
        ensures
            final(self).wf(),
            final(self).settings() == old(self).settings(),
            requests@.len() == 0 ==> (r matches Err(e) && e@ == IpcErrorView::InvalidMessage("Empty batch request"@)
                && *final(self) == *old(self)),
            requests@.len() > old(self).settings().max_queue_size && requests@.len() > 0 ==> (r matches Err(e) && e@
                == IpcErrorView::InvalidMessage("Batch too large"@) && *final(self) == *old(self)),
            0 < requests@.len() <= old(self).settings().max_queue_size ==> ({
                let n0 = old(self).active().dom().len();
                let max = old(self).settings().max_concurrent_requests;
                let start = old(self).next_id();
                let f = first_refused(requests@, n0, max);
                let acc: int = match f {
                    Some(j) => j,
                    None => requests@.len() as int,
                };
                &&& match f {
                    Some(j) => r matches Err(e) && batch_refusal(requests@[j], n0, max, j) == Some(e@),
                    None => r matches Ok(ids) && ids@.len() == requests@.len() && forall|k: int|
                        0 <= k < ids@.len() ==> #[trigger] ids@[k] == id_after(start, k),
                }
                &&& final(self).next_id() == id_after(start, acc)
                &&& final(self).statistics().total_requests == old(self).statistics().total_requests + acc
                &&& final(self).active().dom() == old(self).active().dom().union(
                    Set::new(|id: u64| exists|k: int| 0 <= k < acc && id == id_after(start, k)),
                )
                &&& forall|key: u64| #[trigger] old(self).active().contains_key(key) ==> final(self).active()[key]
                    == old(self).active()[key]
                &&& forall|k: int| 0 <= k < acc ==> accepted_as(
                    final(self).active()[id_after(start, k)],
                    #[trigger] requests@[k],
                    id_after(start, k),
                    priority,
                )
            }),
    {
        if requests.len() == 0 {
            return Err(IpcError::InvalidMessage(message("Empty batch request")));
        }
        if requests.len() > self.config.max_queue_size {
            return Err(IpcError::InvalidMessage(message("Batch too large")));
        }
        let n = requests.len();
        let ghost start = self.next_request_id;
        let ghost reqs = requests@;
        let ghost n0 = self.active().dom().len();
        let ghost max = self.config.max_concurrent_requests;
        proof {
            self.active_requests.lemma_len();
        }
        let mut ids: Vec<u64> = Vec::new();
        let mut rest = requests;
        let mut i: usize = 0;
        while i < n
            invariant
                self.wf(),
                self.settings() == old(self).settings(),
                n == reqs.len(),
                reqs == requests@,
                0 < n <= old(self).settings().max_queue_size,
                n0 == old(self).active().dom().len(),
                max == old(self).settings().max_concurrent_requests,
                old(self).active().dom().finite(),
                i <= n,
                rest@ == reqs.subrange(i as int, n as int),
                ids@.len() == i,
                self.next_id() == id_after(start, i as int),
                start == old(self).next_id(),
                self.statistics().total_requests == old(self).statistics().total_requests + i,
                old(self).statistics().total_requests + n < u64::MAX,
                self.active().dom().len() == n0 + i,
                forall|k: int| 0 <= k < i ==> #[trigger] ids@[k] == id_after(start, k) && self.active().contains_key(
                    ids@[k],
                ),
                self.active().dom() == old(self).active().dom().union(
                    Set::new(|id: u64| exists|k: int| 0 <= k < i && id == id_after(start, k)),
                ),
                forall|key: u64| #[trigger] old(self).active().contains_key(key) ==> self.active()[key]
                    == old(self).active()[key],
                forall|k: int| 0 <= k < i ==> accepted_as(
                    self.active()[id_after(start, k)],
                    #[trigger] reqs[k],
                    id_after(start, k),
                    priority,
                ),
                forall|k: int| 0 <= k < i ==> #[trigger] batch_refusal(reqs[k], n0, max, k) is None,
            decreases n - i,
        {
            proof {
                assert(rest@.len() == n - i);
                assert(rest@[0] == reqs[i as int]);
                self.active_requests.lemma_len();
            }
            let (dimensions, data, data_type, model) = rest.remove(0);
            let ghost before = self.active();
            let ghost before_h = *self;
            let result = self.submit_request(dimensions, data, data_type, model, priority, user);
            let id = match result {
                Ok(id) => id,
                Err(e) => {
                    proof {
                        assert(batch_refusal(reqs[i as int], n0, max, i as int) == Some(e@));
                        lemma_first_refused_at(reqs, n0, max, i as int);
                        assert(self.active().dom() =~= old(self).active().dom().union(
                            Set::new(|id: u64| exists|k: int| 0 <= k < i && id == id_after(start, k)),
                        ));
                    }
                    return Err(e);
                },
            };
            ids.push(id);
            proof {
                assert(batch_refusal(reqs[i as int], n0, max, i as int) is None);
                assert(!before.contains_key(id));
                lemma_id_after_step(start, i as int);
                assert(rest@ =~= reqs.subrange(i + 1, n as int));
                assert(self.active().dom() =~= old(self).active().dom().union(
                    Set::new(|x: u64| exists|k: int| 0 <= k < i + 1 && x == id_after(start, k)),
                )) by {
                    assert forall|x: u64| #[trigger] self.active().dom().contains(x) == old(self).active().dom().union(
                        Set::new(|y: u64| exists|k: int| 0 <= k < i + 1 && y == id_after(start, k)),
                    ).contains(x) by {
                        if x == id_after(start, i as int) {
                            assert(Set::new(|y: u64| exists|k: int| 0 <= k < i + 1 && y == id_after(start, k)).contains(x));
                        }
                        if Set::new(|y: u64| exists|k: int| 0 <= k < i && y == id_after(start, k)).contains(x) {
                            let k = choose|k: int| 0 <= k < i && x == id_after(start, k);
                            assert(Set::new(|y: u64| exists|k: int| 0 <= k < i + 1 && y == id_after(start, k)).contains(x));
                        }
                        if Set::new(|y: u64| exists|k: int| 0 <= k < i + 1 && y == id_after(start, k)).contains(x) {
                            let k = choose|k: int| 0 <= k < i + 1 && x == id_after(start, k);
                            if k < i {
                                assert(Set::new(|y: u64| exists|k: int| 0 <= k < i && y == id_after(start, k)).contains(x));
                            }
                        }
                    }
                }
                assert forall|key: u64| #[trigger] old(self).active().contains_key(key) implies self.active()[key]
                    == old(self).active()[key] by {
                    assert(before.contains_key(key));
                }
                assert forall|k: int| 0 <= k < i + 1 implies accepted_as(
                    self.active()[id_after(start, k)],
                    #[trigger] reqs[k],
                    id_after(start, k),
                    priority,
                ) by {
                    if k < i {
                        assert(ids@[k] == id_after(start, k));
                        assert(before.contains_key(id_after(start, k)));
                    }
                }
            }
            i += 1;
        }
        proof {
            lemma_none_refused(reqs, n0, max);
        }
        Ok(ids)
    }

    /// Give a request to a service.
    pub fn assign_service(&mut self, request_id: u64, service_id: String) -> (r: IpcResult<()>)
        requires
            old(self).wf(),
        ensures
            final(self).wf(),
            !old(self).active().contains_key(request_id) ==> (r matches Err(e) && e@
                == IpcErrorView::CorrelationFailed(request_id) && *final(self) == *old(self)),
            old(self).active().contains_key(request_id) ==> {
                &&& r is Ok
                &&& final(self).active() == old(self).active().insert(
                    request_id,
                    ActiveRequest { service_id, ..old(self).active()[request_id] },
                )
                &&& final(self).timeouts() == old(self).timeouts()
                &&& final(self).statistics() == old(self).statistics()
                &&& final(self).next_id() == old(self).next_id()
                &&& final(self).settings() == old(self).settings()
            },
    {
        if !self.active_requests.contains_key(request_id) {
            return Err(IpcError::CorrelationFailed(request_id));
        }
        match self.active_requests.remove(request_id) {
            None => Err(IpcError::CorrelationFailed(request_id)),
            Some(active_request) => {
                let ghost removed = self.active_requests@;
                let updated = ActiveRequest { service_id, ..active_request };
                self.active_requests.insert(request_id, updated);
                proof {
                    self.active_requests.lemma_len();
                    old(self).active_requests.lemma_len();
                    assert(self.active_requests@ =~= old(self).active_requests@.insert(request_id, updated));
                    assert(self.active_requests@.dom() =~= old(self).active_requests@.dom());
                    lemma_keys_from_dom(&old(self).active_requests, &self.active_requests);
                }
                Ok(())
            },
        }
    }

    /// Finish a request that a service answered.
    pub fn complete_request(&mut self, request_id: u64, _response: EmbeddingResponse) -> (r: IpcResult<()>)
        requires
            old(self).wf(),
            old(self).statistics().successful_requests < u64::MAX,
            old(self).statistics().average_processing_time_us * 9 <= u64::MAX,
        ensures
            final(self).wf(),
            !old(self).active().contains_key(request_id) ==> (r matches Err(e) && e@
                == IpcErrorView::CorrelationFailed(request_id) && *final(self) == *old(self)),
            old(self).active().contains_key(request_id) ==> {
                let processing = ((handler_now() - old(self).active()[request_id].start_time) * 1_000_000) as u64;
                &&& r is Ok
                &&& final(self).active() == old(self).active().remove(request_id)
                &&& final(self).timeouts() == old(self).timeouts().remove(request_id)
                &&& final(self).statistics() == (RequestStats {
                    successful_requests: (old(self).statistics().successful_requests + 1) as u64,
                    current_active_requests: final(self).active().dom().len() as usize,
                    average_processing_time_us: moving_average(
                        old(self).statistics().average_processing_time_us,
                        processing,
                    ) as u64,
                    ..old(self).statistics()
                })
                &&& final(self).next_id() == old(self).next_id()
                &&& final(self).settings() == old(self).settings()
            },
    {
        if !self.active_requests.contains_key(request_id) {
            return Err(IpcError::CorrelationFailed(request_id));
        }
        let active_request = match self.active_requests.remove(request_id) {
            None => return Err(IpcError::CorrelationFailed(request_id)),
            Some(a) => a,
        };
        self.request_timeouts.remove(request_id);
        proof {
            lemma_removed_keys(&old(self).active_requests, &old(self).request_timeouts, &self.active_requests,
                &self.request_timeouts, request_id);
        }
        self.stats.successful_requests = self.stats.successful_requests + 1;
        self.stats.current_active_requests = self.active_requests.len();
        let processing_time = self.get_current_timestamp() - active_request.start_time;
        self.update_average_processing_time(processing_time * 1_000_000);
        Ok(())
    }

    /// Record a failed attempt: the request is retried, without a service,
    /// while it has retries left; otherwise it is dropped as failed.
    pub fn fail_request(&mut self, request_id: u64, _error: String) -> (r: IpcResult<()>)
        requires
            old(self).wf(),
            old(self).statistics().retry_requests < u64::MAX,
            old(self).statistics().failed_requests < u64::MAX,
        ensures
            final(self).wf(),
            final(self).next_id() == old(self).next_id(),
            final(self).settings() == old(self).settings(),
            !old(self).active().contains_key(request_id) ==> (r matches Err(e) && e@
                == IpcErrorView::CorrelationFailed(request_id) && *final(self) == *old(self)),
            old(self).active().contains_key(request_id) ==> {
                let a = old(self).active()[request_id];
                &&& r is Ok
                &&& a.retry_count < old(self).settings().max_retry_attempts ==> {
                    &&& final(self).active().dom() == old(self).active().dom()
                    &&& final(self).active()[request_id].retry_count == a.retry_count + 1
                    &&& final(self).active()[request_id].service_id@ == Seq::<char>::empty()
                    &&& final(self).active()[request_id].request == a.request
                    &&& final(self).active()[request_id].timeout == a.timeout
                    &&& final(self).active()[request_id].start_time == a.start_time
                    &&& final(self).active()[request_id].priority == a.priority
                    &&& forall|k: u64| k != request_id && #[trigger] old(self).active().contains_key(k)
                        ==> final(self).active()[k] == old(self).active()[k]
                    &&& final(self).timeouts() == old(self).timeouts()
                    &&& final(self).statistics() == (RequestStats {
                        retry_requests: (old(self).statistics().retry_requests + 1) as u64,
                        ..old(self).statistics()
                    })
                }
                &&& a.retry_count >= old(self).settings().max_retry_attempts ==> {
                    &&& final(self).active() == old(self).active().remove(request_id)
                    &&& final(self).timeouts() == old(self).timeouts().remove(request_id)
                    &&& final(self).statistics() == (RequestStats {
                        failed_requests: (old(self).statistics().failed_requests + 1) as u64,
                        current_active_requests: final(self).active().dom().len() as usize,
                        ..old(self).statistics()
                    })
                }
            },
    {
        if !self.active_requests.contains_key(request_id) {
            return Err(IpcError::CorrelationFailed(request_id));
        }
        let mut active_request = match self.active_requests.remove(request_id) {
            None => return Err(IpcError::CorrelationFailed(request_id)),
            Some(a) => a,
        };
        if active_request.retry_count < self.config.max_retry_attempts {
            active_request.retry_count = active_request.retry_count + 1;
            self.stats.retry_requests = self.stats.retry_requests + 1;
            active_request.service_id = String::new();
            let ghost updated = active_request;
            self.active_requests.insert(request_id, active_request);
            proof {
                self.active_requests.lemma_len();
                old(self).active_requests.lemma_len();
                assert(self.active_requests@ =~= old(self).active_requests@.insert(request_id, updated));
                assert(self.active_requests@.dom() =~= old(self).active_requests@.dom());
                lemma_keys_from_dom(&old(self).active_requests, &self.active_requests);
            }
            return Ok(());
        }
        self.request_timeouts.remove(request_id);
        proof {
            lemma_removed_keys(&old(self).active_requests, &old(self).request_timeouts, &self.active_requests,
                &self.request_timeouts, request_id);
        }
        self.stats.failed_requests = self.stats.failed_requests + 1;
        self.stats.current_active_requests = self.active_requests.len();
        Ok(())
    }

    /// The request with the given id.
    pub fn get_active_request(&self, request_id: u64) -> (r: IpcResult<&ActiveRequest>)
        requires
            self.wf(),
        ensures
            match r {
                Ok(a) => self.active().contains_key(request_id) && *a == self.active()[request_id],
                Err(e) => !self.active().contains_key(request_id) && e@ == IpcErrorView::CorrelationFailed(request_id),
            },
    {
        match self.active_requests.get(request_id) {
            Some(a) => Ok(a),
            None => Err(IpcError::CorrelationFailed(request_id)),
        }
    }

    /// The requests in flight, by increasing id.
    pub fn get_active_requests(&self) -> (r: Vec<&ActiveRequest>)
        requires
            self.wf(),
        ensures
            r@.len() == self.active_ids().len(),
            forall|i: int| 0 <= i < r@.len() ==> *r@[i] == self.active()[#[trigger] self.active_ids()[i]],
    {
        let r = self.select_requests(0, None);
        proof {
            assert(opt_text(None) == None::<Seq<char>>);
            lemma_filter_same(self.active_ids(), selecting(self.active(), 0, None), any_id());
            lemma_filter_true(self.active_ids());
        }
        r
    }

    /// The requests of at least the given priority, by increasing id.
    pub fn get_requests_by_priority(&self, min_priority: u8) -> (r: Vec<&ActiveRequest>)
        requires
            self.wf(),
        ensures
            ({
                let ids = self.active_ids().filter(of_priority(self.active(), min_priority));
                &&& r@.len() == ids.len()
                &&& forall|i: int| 0 <= i < r@.len() ==> *r@[i] == self.active()[#[trigger] ids[i]]
            }),
    {
        let r = self.select_requests(min_priority, None);
        proof {
            lemma_filter_same(self.active_ids(), of_priority(self.active(), min_priority), selecting(self.active(), min_priority, None));
            assert(opt_text(None) == None::<Seq<char>>);
        }
        r
    }

    /// The requests given to a service, by increasing id.
    pub fn get_requests_for_service(&self, service_id: &str) -> (r: Vec<&ActiveRequest>)
        requires
            self.wf(),
        ensures
            ({
                let ids = self.active_ids().filter(of_service(self.active(), service_id@));
                &&& r@.len() == ids.len()
                &&& forall|i: int| 0 <= i < r@.len() ==> *r@[i] == self.active()[#[trigger] ids[i]]
            }),
    {
        let r = self.select_requests(0, Some(service_id));
        proof {
            assert(opt_text(Some(service_id)) == Some(service_id@));
            lemma_filter_same(self.active_ids(), of_service(self.active(), service_id@), selecting(self.active(), 0, Some(service_id@)));
        }
        r
    }

    /// The requests of at least a priority and, if asked, of a service, by
    /// increasing id.
    fn select_requests(&self, min_priority: u8, service_id: Option<&str>) -> (r: Vec<&ActiveRequest>)
        requires
            self.wf(),
        ensures
            r@.len() == self.active_ids().filter(selecting(self.active(), min_priority, opt_text(service_id))).len(),
            forall|i: int|
                0 <= i < r@.len() ==> *r@[i] == self.active()[#[trigger] self.active_ids().filter(
                    selecting(self.active(), min_priority, opt_text(service_id)),
                )[i]],
    {
        let ghost sid = opt_text(service_id);
        let ghost keys = self.active_ids();
        let ghost pred = selecting(self.active(), min_priority, sid);
        let mut out: Vec<&ActiveRequest> = Vec::new();
        let n = self.active_requests.len();
        let mut i: usize = 0;
        while i < n
            invariant
                self.wf(),
                keys == self.active_ids(),
                n == keys.len(),
                i <= n,
                sid == opt_text(service_id),
                pred == selecting(self.active(), min_priority, sid),
                out@.len() == keys.subrange(0, i as int).filter(pred).len(),
                forall|j: int| 0 <= j < out@.len() ==> *out@[j] == self.active()[#[trigger] keys.subrange(
                    0,
                    i as int,
                ).filter(pred)[j]],
            decreases n - i,
        {
            proof {
                reveal_with_fuel(Seq::<_>::filter, 1);
                assert(keys.subrange(0, i + 1).drop_last() =~= keys.subrange(0, i as int));
                self.active_requests.lemma_entry(i as int);
            }
            let a = self.active_requests.value_at(i);
            let keep = a.priority >= min_priority && match service_id {
                Some(s) => str_eq(a.service_id.as_str(), s),
                None => true,
            };
            if keep {
                out.push(a);
            }
            i += 1;
        }
        assert(keys.subrange(0, n as int) =~= keys);
        out
    }

    /// Drop every request whose timeout has passed, counting each as timed
    /// out, and give their ids in increasing order.
    pub fn check_timeouts(&mut self) -> (r: Vec<u64>)
        requires
            old(self).wf(),
            old(self).statistics().timeout_requests + old(self).active().dom().len() <= u64::MAX,
        ensures
            final(self).wf(),
            r@ == expired_ids(old(self).active_ids(), old(self).timeouts(), handler_now()),
            final(self).active() == old(self).active().remove_keys(r@.to_set()),
            final(self).timeouts() == old(self).timeouts().remove_keys(r@.to_set()),
            final(self).statistics() == (RequestStats {
                timeout_requests: (old(self).statistics().timeout_requests + r@.len()) as u64,
                current_active_requests: final(self).active().dom().len() as usize,
                ..old(self).statistics()
            }),
            final(self).next_id() == old(self).next_id(),
            final(self).settings() == old(self).settings(),
    {
        let current_time = self.get_current_timestamp();
        let ghost keys = self.active_ids();
        let ghost tmap = self.request_timeouts@;
        let ghost pred = |id: u64| current_time > tmap[id];
        let mut timed_out: Vec<u64> = Vec::new();
        let n = self.request_timeouts.len();
        let mut i: usize = 0;
        while i < n
            invariant
                old(self).wf(),
                self.request_timeouts == old(self).request_timeouts,
                keys == old(self).active_ids(),
                tmap == old(self).timeouts(),
                pred == (|id: u64| current_time > tmap[id]),
                current_time == handler_now(),
                n == keys.len(),
                i <= n,
                timed_out@ == keys.subrange(0, i as int).filter(pred),
            decreases n - i,
        {
            proof {
                reveal_with_fuel(Seq::<_>::filter, 1);
                assert(keys.subrange(0, i + 1).drop_last() =~= keys.subrange(0, i as int));
                self.request_timeouts.lemma_entry(i as int);
            }
            let k = self.request_timeouts.key_at(i);
            let t = *self.request_timeouts.value_at(i);
            if current_time > t {
                timed_out.push(k);
            }
            i += 1;
        }
        assert(keys.subrange(0, n as int) =~= keys);
        assert(timed_out@ == expired_ids(keys, tmap, handler_now()));
        proof {
            old(self).active_requests.lemma_len();
        }
        let mut j: usize = 0;
        while j < timed_out.len()
            invariant
                self.wf(),
                old(self).active_requests.wf(),
                old(self).active().dom().finite(),
                j <= timed_out@.len(),
                self.active() == old(self).active().remove_keys(timed_out@.subrange(0, j as int).to_set()),
                self.timeouts() == old(self).timeouts().remove_keys(timed_out@.subrange(0, j as int).to_set()),
                self.statistics() == (RequestStats {
                    timeout_requests: (old(self).statistics().timeout_requests + j) as u64,
                    current_active_requests: self.statistics().current_active_requests,
                    ..old(self).statistics()
                }),
                timed_out@.no_duplicates(),
                timed_out@.to_set().subset_of(old(self).active().dom()),
                old(self).statistics().timeout_requests + old(self).active().dom().len() <= u64::MAX,
                self.next_id() == old(self).next_id(),
                self.settings() == old(self).settings(),
            decreases timed_out@.len() - j,
        {
            let id = timed_out[j];
            proof {
                crate::ordered_map::lemma_prefix_set_step(timed_out@, j as int);
                lemma_prefix_count(timed_out@, j as int, old(self).active().dom());
            }
            let ghost a0 = self.active_requests;
            let ghost t0 = self.request_timeouts;
            self.active_requests.remove(id);
            self.request_timeouts.remove(id);
            proof {
                lemma_removed_keys(&a0, &t0, &self.active_requests, &self.request_timeouts, id);
                assert(!timed_out@.subrange(0, j as int).contains(id));
                assert(timed_out@.to_set().contains(id));
                assert(!timed_out@.subrange(0, j as int).to_set().contains(id));
                assert(a0@.contains_key(id));
            }
            self.stats.timeout_requests = self.stats.timeout_requests + 1;
            self.stats.current_active_requests = self.active_requests.len();
            j += 1;
        }
        assert(timed_out@.subrange(0, timed_out@.len() as int) =~= timed_out@);
        self.stats.current_active_requests = self.active_requests.len();
        timed_out
    }

    /// The statistics.
    pub fn get_stats(&self) -> (s: &RequestStats)
        ensures
            *s == self.statistics(),
    {
        &self.stats
    }

    /// Requests submitted so far.
    pub fn get_total_requests(&self) -> (n: u64)
        ensures
            n == self.statistics().total_requests,
    {
        self.stats.total_requests
    }

    /// Requests completed so far.
    pub fn get_successful_requests(&self) -> (n: u64)
        ensures
            n == self.statistics().successful_requests,
    {
        self.stats.successful_requests
    }

    /// Requests that failed for good so far.
    pub fn get_failed_requests(&self) -> (n: u64)
        ensures
            n == self.statistics().failed_requests,
    {
        self.stats.failed_requests
    }

    /// Drop timed out requests and report how many there were.
    pub fn perform_maintenance(&mut self) -> (r: IpcResult<RequestMaintenanceResult>)
        requires
            old(self).wf(),
            old(self).statistics().timeout_requests + old(self).active().dom().len() <= u64::MAX,
        ensures
            final(self).wf(),
            ({
                let expired = expired_ids(old(self).active_ids(), old(self).timeouts(), handler_now());
                &&& r matches Ok(m) && m.timed_out_requests == expired.len()
                &&& final(self).active() == old(self).active().remove_keys(expired.to_set())
            }),
    {
        let timed_out = self.check_timeouts();
        Ok(RequestMaintenanceResult { timed_out_requests: timed_out.len() })
    }

    fn update_average_processing_time(&mut self, processing_time_us: u64)
        requires
            old(self).stats.average_processing_time_us * 9 + processing_time_us <= u64::MAX,
        ensures
            final(self).stats == (RequestStats {
                average_processing_time_us: moving_average(old(self).stats.average_processing_time_us, processing_time_us)
                    as u64,
                ..old(self).stats
            }),
            final(self).config == old(self).config,
            final(self).active_requests == old(self).active_requests,
            final(self).request_timeouts == old(self).request_timeouts,
            final(self).next_request_id == old(self).next_request_id,
    {
        if self.stats.average_processing_time_us == 0 {
            self.stats.average_processing_time_us = processing_time_us;
        } else {
            self.stats.average_processing_time_us = (self.stats.average_processing_time_us * 9 + processing_time_us)
                / 10;
        }
    }
}

/// Whether a request is of at least a priority and, if asked, of a service.
pub open spec fn selected(a: ActiveRequest, min_priority: u8, service_id: Option<Seq<char>>) -> bool {
    a.priority >= min_priority && match service_id {
        Some(s) => a.service_id@ == s,
        None => true,
    }
}

/// The ids whose requests are selected.
pub open spec fn selecting(active: Map<u64, ActiveRequest>, min_priority: u8, service_id: Option<Seq<char>>) -> spec_fn(
    u64,
) -> bool {
    |k: u64| selected(active[k], min_priority, service_id)
}

/// The ids whose requests are of at least a priority.
pub open spec fn of_priority(active: Map<u64, ActiveRequest>, min_priority: u8) -> spec_fn(u64) -> bool {
    |k: u64| active[k].priority >= min_priority
}

/// The ids whose requests were given to a service.
pub open spec fn of_service(active: Map<u64, ActiveRequest>, service_id: Seq<char>) -> spec_fn(u64) -> bool {
    |k: u64| active[k].service_id@ == service_id
}

/// The text of an optional text.
pub open spec fn opt_text(o: Option<&str>) -> Option<Seq<char>> {
    match o {
        Some(s) => Some(s@),
        None => None,
    }
}

/// Every id.
pub open spec fn any_id() -> spec_fn(u64) -> bool {
    |k: u64| true
}

proof fn lemma_filter_true(s: Seq<u64>)
    ensures
        s.filter(any_id()) == s,
    decreases s.len(),
{
    reveal_with_fuel(Seq::<_>::filter, 1);
    if s.len() > 0 {
        lemma_filter_true(s.drop_last());
        assert(s =~= s.drop_last().push(s.last()));
    }
    assert(s.filter(any_id()) =~= s);
}

proof fn lemma_filter_same(s: Seq<u64>, p: spec_fn(u64) -> bool, q: spec_fn(u64) -> bool)
    requires
        forall|x: u64| #[trigger] p(x) == q(x),
    ensures
        s.filter(p) == s.filter(q),
    decreases s.len(),
{
    reveal_with_fuel(Seq::<_>::filter, 1);
    if s.len() > 0 {
        lemma_filter_same(s.drop_last(), p, q);
    }
    assert(s.filter(p) =~= s.filter(q));
}

/// Inserting the same new key into the two tables keeps their keys equal.
proof fn lemma_same_keys(
    old_active: Map<u64, ActiveRequest>,
    _t: Map<u64, u64>,
    _old_keys: Seq<u64>,
    _id: u64,
    active: &OrderedMap<ActiveRequest>,
    timeouts: &OrderedMap<u64>,
)
    requires
        active.wf(),
        timeouts.wf(),
        active@.dom() == timeouts@.dom(),
    ensures
        active.keys_seq() == timeouts.keys_seq(),
{
    lemma_sorted_same_set(active, timeouts);
}

/// Two well-formed maps with the same domain have the same key order.
proof fn lemma_sorted_same_set(a: &OrderedMap<ActiveRequest>, b: &OrderedMap<u64>)
    requires
        a.wf(),
        b.wf(),
        a@.dom() == b@.dom(),
    ensures
        a.keys_seq() == b.keys_seq(),
{
    a.lemma_len();
    b.lemma_len();
    let s = a.keys_seq();
    let t = b.keys_seq();
    assert(s.to_set() == t.to_set());
    crate::ordered_map::lemma_sorted_same_set_equal(s, t);
}

/// A well-formed map whose domain did not change keeps its key order.
proof fn lemma_keys_from_dom(a: &OrderedMap<ActiveRequest>, b: &OrderedMap<ActiveRequest>)
    requires
        a.wf(),
        b.wf(),
        a@.dom() == b@.dom(),
    ensures
        a.keys_seq() == b.keys_seq(),
{
    a.lemma_len();
    b.lemma_len();
    crate::ordered_map::lemma_sorted_same_set_equal(a.keys_seq(), b.keys_seq());
}

/// Removing one key from both tables keeps the tables consistent.
proof fn lemma_removed_keys(
    a0: &OrderedMap<ActiveRequest>,
    t0: &OrderedMap<u64>,
    a1: &OrderedMap<ActiveRequest>,
    t1: &OrderedMap<u64>,
    id: u64,
)
    requires
        a0.wf(),
        t0.wf(),
        a1.wf(),
        t1.wf(),
        a0@.dom() == t0@.dom(),
        a1@ == a0@.remove(id),
        t1@ == t0@.remove(id),
    ensures
        a1@.dom() == t1@.dom(),
        a1.keys_seq() == t1.keys_seq(),
        a0@.contains_key(id) ==> a1@.dom().len() + 1 == a0@.dom().len(),
{
    assert(a1@.dom() =~= t1@.dom());
    lemma_sorted_same_set(a1, t1);
    a0.lemma_len();
    assert(a1@.dom() =~= a0@.dom().remove(id));
}

/// The prefix of a list without duplicates, within a finite set, is no
/// longer than the set.
proof fn lemma_prefix_count(s: Seq<u64>, j: int, dom: Set<u64>)
    requires
        0 <= j < s.len(),
        s.no_duplicates(),
        s.to_set().subset_of(dom),
        dom.finite(),
    ensures
        j + 1 <= dom.len(),
        !s.subrange(0, j).contains(s[j]),
{
    let p = s.subrange(0, j + 1);
    assert(p.no_duplicates());
    p.unique_seq_to_set();
    assert(p.to_set().subset_of(dom)) by {
        assert forall|x: u64| p.to_set().contains(x) implies dom.contains(x) by {
            let k = choose|k: int| 0 <= k < p.len() && p[k] == x;
            assert(s[k] == x);
            assert(s.to_set().contains(x));
        }
    }
    vstd::set_lib::lemma_len_subset(p.to_set(), dom);
    if s.subrange(0, j).contains(s[j]) {
        let k = choose|k: int| 0 <= k < j && s.subrange(0, j)[k] == s[j];
        assert(s[k] == s[j]);
    }
}

/// Request priority classes.
#[derive(Debug, Clone, Copy, PartialEq, Eq, PartialOrd, Ord)]
pub enum RequestPriority {
    Low,
    Normal,
    High,
    Critical,
}

/// The class of a priority: up to 63 low, up to 191 normal, up to 254
/// high, 255 critical.
pub open spec fn priority_class(value: u8) -> RequestPriority {
    if value <= 63 {
        RequestPriority::Low
    } else if value <= 191 {
        RequestPriority::Normal
    } else if value <= 254 {
        RequestPriority::High
    } else {
        RequestPriority::Critical
    }
}

/// The priority value of a class: 0, 128, 192 or 255.
pub open spec fn class_value(p: RequestPriority) -> u8 {
    match p {
        RequestPriority::Low => 0,
        RequestPriority::Normal => 128,
        RequestPriority::High => 192,
        RequestPriority::Critical => 255,
    }
}

impl From<u8> for RequestPriority {
    fn from(value: u8) -> (p: Self) {
        if value <= 63 {
            RequestPriority::Low
        } else if value <= 191 {
            RequestPriority::Normal
        } else if value <= 254 {
            RequestPriority::High
        } else {
            RequestPriority::Critical
        }
    }
}

impl vstd::std_specs::convert::FromSpecImpl<u8> for RequestPriority {
    open spec fn obeys_from_spec() -> bool {
        true
    }

    open spec fn from_spec(v: u8) -> RequestPriority {
        priority_class(v)
    }
}

impl From<RequestPriority> for u8 {
    fn from(p: RequestPriority) -> (v: Self) {
        match p {
            RequestPriority::Low => 0,
            RequestPriority::Normal => 128,
            RequestPriority::High => 192,
            RequestPriority::Critical => 255,
        }
    }
}

impl vstd::std_specs::convert::FromSpecImpl<RequestPriority> for u8 {
    open spec fn obeys_from_spec() -> bool {
        true
    }

    open spec fn from_spec(p: RequestPriority) -> u8 {
        class_value(p)
    }
}

/// A class survives the trip through its priority value.
pub proof fn lemma_priority_roundtrip(p: RequestPriority)
    ensures
        priority_class(class_value(p)) == p,
{
}

/// The outcome of checking a request received from outside.
pub open spec fn embedding_request_check(r: EmbeddingRequest) -> Result<(), IpcErrorView> {
    if r.dimensions == 0 || r.dimensions > MAX_EMBEDDING_DIMENSIONS {
        Err(IpcErrorView::InvalidMessage("Invalid dimensions"@))
    } else if r.data@.len() == 0 {
        Err(IpcErrorView::InvalidMessage("Empty data"@))
    } else if r.timeout_ms == 0 {
        Err(IpcErrorView::InvalidMessage("Invalid timeout"@))
    } else {
        Ok(())
    }
}

/// The first failing check of the requests from position `i` on.
pub open spec fn first_request_error(rs: Seq<EmbeddingRequest>, i: int) -> Result<(), IpcErrorView>
    decreases rs.len() - i,
{
    if i >= rs.len() || i < 0 {
        Ok(())
    } else {
        match embedding_request_check(rs[i]) {
            Err(e) => Err(e),
            Ok(_) => first_request_error(rs, i + 1),
        }
    }
}

/// Checks of requests received from outside.
pub struct RequestValidator;

impl RequestValidator {
    /// Check a request: dimension 1 to the largest allowed, some data, a
    /// timeout.
    pub fn validate_embedding_request(request: &EmbeddingRequest) -> (r: IpcResult<()>)
        ensures
            ipc_unit_is(r, embedding_request_check(*request)),
    {
        if request.dimensions == 0 || request.dimensions > MAX_EMBEDDING_DIMENSIONS {
            return Err(IpcError::InvalidMessage(message("Invalid dimensions")));
        }
        if request.data.len() == 0 {
            return Err(IpcError::InvalidMessage(message("Empty data")));
        }
        if request.timeout_ms == 0 {
            return Err(IpcError::InvalidMessage(message("Invalid timeout")));
        }
        Ok(())
    }

    /// Check a batch: not empty, not larger than allowed, every request
    /// valid (the first invalid one gives the error).
    pub fn validate_batch_request(requests: &[EmbeddingRequest]) -> (r: IpcResult<()>)
        ensures
            ipc_unit_is(
                r,
                if requests@.len() == 0 {
                    Err(IpcErrorView::InvalidMessage("Empty batch"@))
                } else if requests@.len() > MAX_BATCH_SIZE {
                    Err(IpcErrorView::InvalidMessage("Batch too large"@))
                } else {
                    first_request_error(requests@, 0)
                },
            ),
    {
        if requests.len() == 0 {
            return Err(IpcError::InvalidMessage(message("Empty batch")));
        }
        if requests.len() > MAX_BATCH_SIZE {
            return Err(IpcError::InvalidMessage(message("Batch too large")));
        }
        let mut i: usize = 0;
        while i < requests.len()
            invariant
                0 < requests@.len() <= MAX_BATCH_SIZE,
                i <= requests@.len(),
                first_request_error(requests@, 0) == first_request_error(requests@, i as int),
            decreases requests@.len() - i,
        {
            match Self::validate_embedding_request(&requests[i]) {
                Ok(()) => {},
                Err(e) => return Err(e),
            }
            i += 1;
        }
        Ok(())
    }

    /// Check who made a request: the security context must not be empty.
    pub fn validate_request_context(context: &RequestContextInfo) -> (r: IpcResult<()>)
        ensures
            ipc_unit_is(
                r,
                if context.security_context@.len() == 0 {
                    Err(IpcErrorView::AuthenticationFailed("Empty security context"@))
                } else {
                    Ok(())
                },
            ),
    {
        if context.security_context.as_str().unicode_len() == 0 {
            return Err(IpcError::AuthenticationFailed(message("Empty security context")));
        }
        Ok(())
    }
}

/// Most success rates kept.
pub const SUCCESS_RATE_HISTORY_LEN: usize = 1000;

/// The counts of a histogram in increasing order of key.
pub open spec fn histogram_counts(h: Seq<u64>, m: Map<u64, u64>) -> Seq<u64> {
    h.map_values(|k: u64| m[k])
}

/// The sum of a list of counts.
pub open spec fn count_sum(c: Seq<u64>) -> int
    decreases c.len(),
{
    if c.len() == 0 {
        0
    } else {
        count_sum(c.drop_last()) + c.last()
    }
}

/// The first position at which the running sum of the counts reaches
/// `target`, or -1.
pub open spec fn first_reaching(c: Seq<u64>, target: u64) -> int
    decreases c.len(),
{
    if c.len() == 0 {
        -1
    } else {
        let j = first_reaching(c.drop_last(), target);
        if j >= 0 {
            j
        } else if count_sum(c) >= target {
            c.len() - 1
        } else {
            -1
        }
    }
}

/// Whether position `i` holds the last of the greatest counts.
pub open spec fn last_greatest_count(c: Seq<u64>, i: int) -> bool {
    &&& 0 <= i < c.len()
    &&& forall|j: int| 0 <= j < c.len() ==> #[trigger] c[j] <= c[i]
    &&& forall|j: int| i < j < c.len() ==> #[trigger] c[j] < c[i]
}

/// Histograms and counters of requests: latencies in milliseconds, sizes
/// in kilobytes, errors by kind, and the recent success rates (bit patterns
/// of IEEE 754 doubles).
pub struct RequestMetrics {
    latency_histogram: OrderedMap<u64>,
    size_histogram: OrderedMap<u64>,
    error_counts: TextMap<u64>,
    success_rate_history: Vec<(u64, u64)>,
}

impl RequestMetrics {
    /// Requests seen per latency in milliseconds.
    pub closed spec fn latencies(&self) -> Map<u64, u64> {
        self.latency_histogram@
    }

    /// The latencies seen, in increasing order.
    pub closed spec fn latency_keys(&self) -> Seq<u64> {
        self.latency_histogram.keys_seq()
    }

    /// Requests seen per size in kilobytes.
    pub closed spec fn sizes(&self) -> Map<u64, u64> {
        self.size_histogram@
    }

    /// Errors seen per kind.
    pub closed spec fn errors(&self) -> Map<Seq<char>, u64> {
        self.error_counts@
    }

    /// The kinds of error seen, in increasing order.
    pub closed spec fn error_kinds(&self) -> Seq<Seq<char>> {
        self.error_counts.keys_seq()
    }

    /// The success rates recorded, oldest first, with their time.
    pub closed spec fn success_rates(&self) -> Seq<(u64, u64)> {
        self.success_rate_history@
    }

    /// Internal consistency.
    pub closed spec fn wf(&self) -> bool {
        &&& self.latency_histogram.wf()
        &&& self.size_histogram.wf()
        &&& self.error_counts.wf()
        &&& self.success_rate_history@.len() <= SUCCESS_RATE_HISTORY_LEN
    }

    /// Nothing recorded.
    pub fn new() -> (m: Self)
        ensures
            m.wf(),
            m.latencies() == Map::<u64, u64>::empty(),
            m.sizes() == Map::<u64, u64>::empty(),
            m.errors() == Map::<Seq<char>, u64>::empty(),
            m.success_rates() == Seq::<(u64, u64)>::empty(),
    {
        RequestMetrics {
            latency_histogram: OrderedMap::new(),
            size_histogram: OrderedMap::new(),
            error_counts: TextMap::new(),
            success_rate_history: Vec::new(),
        }
    }

    /// Count a request by its latency, rounded to the nearest millisecond.
    pub fn record_latency(&mut self, latency_us: u64)
        requires
            old(self).wf(),
            latency_us + 500 <= u64::MAX,
            old(self).latencies().contains_key(((latency_us + 500) / 1000) as u64) ==> old(self).latencies()[((
            latency_us + 500) / 1000) as u64] < u64::MAX,
        ensures
            final(self).wf(),
            ({
                let ms = ((latency_us + 500) / 1000) as u64;
                final(self).latencies() == old(self).latencies().insert(
                    ms,
                    if old(self).latencies().contains_key(ms) {
                        (old(self).latencies()[ms] + 1) as u64
                    } else {
                        1
                    },
                )
            }),
            final(self).sizes() == old(self).sizes(),
            final(self).errors() == old(self).errors(),
            final(self).error_kinds() == old(self).error_kinds(),
            final(self).success_rates() == old(self).success_rates(),
    {
        let latency_ms = (latency_us + 500) / 1000;
        let count = match self.latency_histogram.get(latency_ms) {
            Some(c) => *c + 1,
            None => 1,
        };
        self.latency_histogram.insert(latency_ms, count);
    }

    /// Count a request by its size, rounded to the nearest kilobyte.
    pub fn record_size(&mut self, size_bytes: usize)
        requires
            old(self).wf(),
            size_bytes + 512 <= usize::MAX,
            old(self).sizes().contains_key(((size_bytes + 512) / 1024) as u64) ==> old(self).sizes()[((size_bytes
                + 512) / 1024) as u64] < u64::MAX,
        ensures
            final(self).wf(),
            ({
                let kb = ((size_bytes + 512) / 1024) as u64;
                final(self).sizes() == old(self).sizes().insert(
                    kb,
                    if old(self).sizes().contains_key(kb) {
                        (old(self).sizes()[kb] + 1) as u64
                    } else {
                        1
                    },
                )
            }),
            final(self).latencies() == old(self).latencies(),
            final(self).latency_keys() == old(self).latency_keys(),
            final(self).errors() == old(self).errors(),
            final(self).error_kinds() == old(self).error_kinds(),
            final(self).success_rates() == old(self).success_rates(),
    {
        let size_kb = ((size_bytes + 512) / 1024) as u64;
        let count = match self.size_histogram.get(size_kb) {
            Some(c) => *c + 1,
            None => 1,
        };
        self.size_histogram.insert(size_kb, count);
    }

    /// Count an error of a kind.
    pub fn record_error(&mut self, error_type: &str)
        requires
            old(self).wf(),
            old(self).errors().contains_key(error_type@) ==> old(self).errors()[error_type@] < u64::MAX,
        ensures
            final(self).wf(),
            final(self).errors() == old(self).errors().insert(
                error_type@,
                if old(self).errors().contains_key(error_type@) {
                    (old(self).errors()[error_type@] + 1) as u64
                } else {
                    1
                },
            ),
            final(self).latencies() == old(self).latencies(),
            final(self).latency_keys() == old(self).latency_keys(),
            final(self).sizes() == old(self).sizes(),
            final(self).success_rates() == old(self).success_rates(),
    {
        let count = match self.error_counts.get(error_type) {
            Some(c) => *c + 1,
            None => 1,
        };
        self.error_counts.insert(message(error_type), count);
    }

    /// Record the success rate at a time, keeping the last thousand.
    pub fn record_success_rate(&mut self, timestamp: u64, success_rate_bits: u64)
        requires
            old(self).wf(),
        ensures
            final(self).wf(),
            ({
                let h = old(self).success_rates().push((timestamp, success_rate_bits));
                final(self).success_rates() == if h.len() > SUCCESS_RATE_HISTORY_LEN {
                    h.drop_first()
                } else {
                    h
                }
            }),
            final(self).latencies() == old(self).latencies(),
            final(self).latency_keys() == old(self).latency_keys(),
            final(self).sizes() == old(self).sizes(),
            final(self).errors() == old(self).errors(),
            final(self).error_kinds() == old(self).error_kinds(),
    {
        self.success_rate_history.push((timestamp, success_rate_bits));
        if self.success_rate_history.len() > SUCCESS_RATE_HISTORY_LEN {
            self.success_rate_history.remove(0);
            assert(self.success_rate_history@ =~= old(self).success_rate_history@.push((timestamp, success_rate_bits)).drop_first());
        }
    }

    /// The number of latencies counted, when it fits in 64 bits.
    pub fn latency_sample_count(&self) -> (r: Option<u64>)
        requires
            self.wf(),
        ensures
            ({
                let total = count_sum(histogram_counts(self.latency_keys(), self.latencies()));
                match r {
                    Some(n) => n == total,
                    None => total > u64::MAX,
                }
            }),
    {
        let ghost counts = histogram_counts(self.latency_keys(), self.latencies());
        let n = self.latency_histogram.len();
        let mut total: u64 = 0;
        let mut i: usize = 0;
        while i < n
            invariant
                self.wf(),
                n == self.latency_keys().len(),
                counts == histogram_counts(self.latency_keys(), self.latencies()),
                i <= n,
                total == count_sum(counts.subrange(0, i as int)),
            decreases n - i,
        {
            proof {
                assert(counts.subrange(0, i + 1).drop_last() =~= counts.subrange(0, i as int));
                self.latency_histogram.lemma_entry(i as int);
                lemma_count_sum_prefix(counts, i as int + 1);
            }
            let c = *self.latency_histogram.value_at(i);
            match total.checked_add(c) {
                Some(t) => total = t,
                None => {
                    return None;
                },
            }
            i += 1;
        }
        assert(counts.subrange(0, n as int) =~= counts);
        Some(total)
    }

    /// The first latency, in increasing order, at which the running count
    /// of requests reaches `target_count`; none when nothing was counted or
    /// the count is never reached. The counts must sum within 64 bits.
    pub fn latency_at_rank(&self, target_count: u64) -> (r: Option<u64>)
        requires
            self.wf(),
            count_sum(histogram_counts(self.latency_keys(), self.latencies())) <= u64::MAX,
        ensures
            ({
                let j = first_reaching(histogram_counts(self.latency_keys(), self.latencies()), target_count);
                match r {
                    Some(l) => j >= 0 && l == self.latency_keys()[j],
                    None => j < 0,
                }
            }),
    {
        let ghost counts = histogram_counts(self.latency_keys(), self.latencies());
        let n = self.latency_histogram.len();
        let mut cumulative_count: u64 = 0;
        let mut i: usize = 0;
        while i < n
            invariant
                self.wf(),
                n == self.latency_keys().len(),
                counts == histogram_counts(self.latency_keys(), self.latencies()),
                count_sum(counts) <= u64::MAX,
                i <= n,
                cumulative_count == count_sum(counts.subrange(0, i as int)),
                first_reaching(counts.subrange(0, i as int), target_count) == -1,
            decreases n - i,
        {
            proof {
                assert(counts.subrange(0, i + 1).drop_last() =~= counts.subrange(0, i as int));
                self.latency_histogram.lemma_entry(i as int);
                lemma_count_sum_prefix(counts, i as int + 1);
            }
            cumulative_count = cumulative_count + *self.latency_histogram.value_at(i);
            if cumulative_count >= target_count {
                proof {
                    lemma_first_reaching_prefix(counts, target_count, i as int + 1);
                }
                return Some(self.latency_histogram.key_at(i));
            }
            i += 1;
        }
        assert(counts.subrange(0, n as int) =~= counts);
        None
    }

    /// The kind of error seen most often, with its count; of kinds seen
    /// equally often the last in increasing order.
    pub fn get_most_common_error(&self) -> (r: Option<(&String, u64)>)
        requires
            self.wf(),
        ensures
            ({
                let c = histogram_counts_of(self.error_kinds(), self.errors());
                match r {
                    Some((k, n)) => exists|i: int|
                        last_greatest_count(c, i) && k@ == #[trigger] self.error_kinds()[i] && n == c[i],
                    None => self.error_kinds().len() == 0,
                }
            }),
    {
        let ghost c = histogram_counts_of(self.error_kinds(), self.errors());
        let n = self.error_counts.len();
        if n == 0 {
            return None;
        }
        proof {
            self.error_counts.lemma_entry(0);
        }
        let mut best: usize = 0;
        let mut i: usize = 1;
        while i < n
            invariant
                self.wf(),
                n == self.error_kinds().len(),
                c == histogram_counts_of(self.error_kinds(), self.errors()),
                1 <= i <= n,
                best < i,
                forall|j: int| 0 <= j < i ==> #[trigger] c[j] <= c[best as int],
                forall|j: int| best < j < i ==> #[trigger] c[j] < c[best as int],
            decreases n - i,
        {
            proof {
                self.error_counts.lemma_entry(i as int);
                self.error_counts.lemma_entry(best as int);
            }
            if *self.error_counts.value_at(i) >= *self.error_counts.value_at(best) {
                best = i;
            }
            i += 1;
        }
        proof {
            self.error_counts.lemma_entry(best as int);
        }
        let r = Some((self.error_counts.key_at(best), *self.error_counts.value_at(best)));
        assert(last_greatest_count(c, best as int));
        r
    }

    /// The success rate recorded last.
    pub fn get_current_success_rate(&self) -> (r: Option<u64>)
        ensures
            match r {
                Some(rate) => self.success_rates().len() > 0 && rate == self.success_rates().last().1,
                None => self.success_rates().len() == 0,
            },
    {
        let n = self.success_rate_history.len();
        if n == 0 {
            None
        } else {
            Some(self.success_rate_history[n - 1].1)
        }
    }
}

/// The counts of each kind of error, in increasing order of kind.
pub open spec fn histogram_counts_of(kinds: Seq<Seq<char>>, m: Map<Seq<char>, u64>) -> Seq<u64> {
    kinds.map_values(|k: Seq<char>| m[k])
}

/// The sum over a prefix one longer adds the next count, and no prefix sums
/// to more than the whole.
proof fn lemma_count_sum_prefix(c: Seq<u64>, n: int)
    requires
        0 < n <= c.len(),
    ensures
        count_sum(c.subrange(0, n)) == count_sum(c.subrange(0, n - 1)) + c[n - 1],
        count_sum(c.subrange(0, n)) <= count_sum(c),
    decreases c.len() - n,
{
    assert(c.subrange(0, n).drop_last() =~= c.subrange(0, n - 1));
    if n < c.len() {
        lemma_count_sum_prefix(c, n + 1);
    } else {
        assert(c.subrange(0, n) =~= c);
    }
}

/// Once a prefix reaches the target, the whole list reaches it at the same
/// position.
proof fn lemma_first_reaching_prefix(c: Seq<u64>, target: u64, n: int)
    requires
        0 <= n <= c.len(),
        first_reaching(c.subrange(0, n), target) >= 0 || (n > 0 && count_sum(c.subrange(0, n)) >= target
            && first_reaching(c.subrange(0, n - 1), target) == -1),
    ensures
        first_reaching(c, target) == first_reaching(c.subrange(0, n), target),
        first_reaching(c, target) >= 0,
    decreases c.len() - n,
{
    if n > 0 {
        assert(c.subrange(0, n).drop_last() =~= c.subrange(0, n - 1));
    }
    if n == c.len() {
        assert(c.subrange(0, n) =~= c);
    } else {
        assert(c.subrange(0, n + 1).drop_last() =~= c.subrange(0, n));
        lemma_first_reaching_prefix(c, target, n + 1);
    }
}

} // verus!
