//! Matching service responses to the requests waiting for them, caching
//! successful responses, timeouts and statistics; correlation records and
//! the checks responses must pass.

use vstd::prelude::*;
use crate::ipc::protocol::{EmbeddingResponse, ResponseStatus, ResponseView};
use crate::ipc::{IpcConfig, IpcError, IpcErrorView, IpcResult, ipc_unit_is};
use crate::ordered_map::{OrderedMap, lemma_same_dom_same_keys};
use crate::shared::message;
use crate::text::{decimal_string, spec_decimal, str_eq};
use crate::text_map::{TextMap, text_lt, texts_increasing, lemma_text_lt_antisymmetric};
use vstd::string::*;

verus! {

/// How the waiting caller is told of a response.
#[derive(Debug, Clone, Copy, PartialEq, Eq, Structural)]
pub enum CallbackType {
    Synchronous,
    Asynchronous,
    Signal,
    Polling,
}

/// Who waits for a response.
#[derive(Debug, Clone, Copy, PartialEq, Eq, Structural)]
pub struct ResponseCallback {
    pub callback_type: CallbackType,
    pub user_context: u64,
    pub process_id: u32,
    pub thread_id: u32,
}

/// A response being waited for.
#[derive(Debug, Clone)]
pub struct PendingResponse {
    pub request_id: u64,
    /// The service that should answer.
    pub service_id: String,
    pub request_time: u64,
    pub timeout: u64,
    pub callback_info: ResponseCallback,
    pub retry_count: u32,
}

/// A cached successful response.
#[derive(Debug, Clone)]
pub struct CachedResponse {
    pub response: EmbeddingResponse,
    pub cached_at: u64,
    pub expires_at: u64,
    pub hit_count: u64,
}

/// A cached response with the response taken by its view.
pub struct CachedView {
    pub response: ResponseView,
    pub cached_at: u64,
    pub expires_at: u64,
    pub hit_count: u64,
}

impl View for CachedResponse {
    type V = CachedView;

    open spec fn view(&self) -> CachedView {
        CachedView {
            response: self.response@,
            cached_at: self.cached_at,
            expires_at: self.expires_at,
            hit_count: self.hit_count,
        }
    }
}

/// Response statistics.
#[derive(Debug, Clone, Copy, Default, PartialEq, Eq, Structural)]
pub struct ResponseStats {
    pub total_responses: u64,
    pub successful_responses: u64,
    pub failed_responses: u64,
    pub timeout_responses: u64,
    pub cached_responses: u64,
    pub average_response_time_us: u64,
    pub min_response_time_us: u64,
    pub max_response_time_us: u64,
    pub pending_responses: usize,
}

/// A response handed to the caller waiting for it.
#[derive(Debug, Clone)]
pub struct ResponseDelivery {
    pub request_id: u64,
    pub response: EmbeddingResponse,
    pub callback_info: ResponseCallback,
    pub response_time_us: u64,
    /// The service that answered.
    pub service_id: String,
}

/// What a maintenance run did.
#[derive(Debug, Clone, Copy, Default)]
pub struct ResponseMaintenanceResult {
    pub timed_out_responses: usize,
    pub expired_cache_entries: usize,
}

/// Seconds a cached response stays valid.
pub const CACHE_TTL_SECONDS: u64 = 300;

/// Most responses kept in the cache.
pub const MAX_CACHED_RESPONSES: usize = 1000;

/// The time responses are stamped with; the manager has no clock and uses 0.
pub open spec fn manager_now() -> u64 {
    0
}

/// The cache key of a response: "response_" and its request id.
pub open spec fn cache_key(request_id: u64) -> Seq<char> {
    "response_"@ + spec_decimal(request_id as nat)
}

/// Position of the first smallest value, or -1 for none.
pub open spec fn first_min_index(s: Seq<u64>) -> int
    decreases s.len(),
{
    if s.len() == 0 {
        -1
    } else {
        let b = first_min_index(s.drop_last());
        if b < 0 || s.last() < s[b] {
            s.len() - 1
        } else {
            b
        }
    }
}

/// The first smallest element sits at the position `first_min_index`
/// finds: no element is smaller, and every element before it is larger.
pub proof fn lemma_first_min_index(s: Seq<u64>)
    requires
        s.len() > 0,
    ensures
        0 <= first_min_index(s) < s.len(),
        forall|j: int| 0 <= j < s.len() ==> s[first_min_index(s)] <= #[trigger] s[j],
        forall|j: int| 0 <= j < first_min_index(s) ==> s[first_min_index(s)] < #[trigger] s[j],
    decreases s.len(),
{
    let d = s.drop_last();
    let m = first_min_index(s);
    let n = s.len() - 1;
    if d.len() > 0 {
        lemma_first_min_index(d);
        let b = first_min_index(d);
        assert(d[b] == s[b]);
        if s[n] < s[b] {
            assert(m == n);
            assert forall|j: int| 0 <= j < s.len() implies s[m] <= #[trigger] s[j] by {
                if j < n {
                    assert(d[j] == s[j]);
                }
            }
            assert forall|j: int| 0 <= j < m implies s[m] < #[trigger] s[j] by {
                assert(d[j] == s[j]);
            }
        } else {
            assert(m == b);
            assert forall|j: int| 0 <= j < s.len() implies s[m] <= #[trigger] s[j] by {
                if j < n {
                    assert(d[j] == s[j]);
                }
            }
            assert forall|j: int| 0 <= j < m implies s[m] < #[trigger] s[j] by {
                assert(d[j] == s[j]);
            }
        }
    } else {
        assert(first_min_index(d) == -1);
        assert(m == 0);
    }
}

/// What handing over responses changes in a response manager.
pub struct ResponseState {
    pub pending: Map<u64, PendingResponse>,
    pub timeouts: Map<u64, u64>,
    pub stats: ResponseStats,
    pub cache: Map<Seq<char>, CachedView>,
}

/// The response time of a response to the pending request `p`.
pub open spec fn response_time(p: PendingResponse) -> u64 {
    ((manager_now() - p.request_time) * 1_000_000) as u64
}

/// The state after a response to a request waited for is handed over: the
/// request is no longer waited for, the statistics count the response and
/// a successful one is cached.
pub open spec fn after_response(st: ResponseState, response: EmbeddingResponse) -> ResponseState {
    let id = response.request_id;
    let success = response.status == ResponseStatus::Success;
    ResponseState {
        pending: st.pending.remove(id),
        timeouts: st.timeouts.remove(id),
        stats: stats_after_response(st.stats, success, response_time(st.pending[id]), st.pending.remove(id).dom().len()),
        cache: if success {
            cache_after_store(
                st.cache,
                cache_key(id),
                CachedView {
                    response: response@,
                    cached_at: manager_now(),
                    expires_at: (manager_now() + CACHE_TTL_SECONDS) as u64,
                    hit_count: 0,
                },
            )
        } else {
            st.cache
        },
    }
}

/// The state after the first `k` responses of a batch are handed over.
pub open spec fn after_responses(st: ResponseState, batch: Seq<EmbeddingResponse>, k: nat) -> ResponseState
    decreases k,
{
    if k == 0 {
        st
    } else {
        after_response(after_responses(st, batch, (k - 1) as nat), batch[k - 1])
    }
}

/// Whether the response at position `k` of a batch finds its request no
/// longer (or never) waited for once those before it are handed over.
pub open spec fn uncorrelated_at(st: ResponseState, batch: Seq<EmbeddingResponse>, k: int) -> bool {
    !after_responses(st, batch, k as nat).pending.contains_key(batch[k].request_id)
}

/// The position of the first response of a batch whose request is not
/// waited for when its turn comes, if any.
pub open spec fn first_uncorrelated(st: ResponseState, batch: Seq<EmbeddingResponse>) -> Option<int> {
    if exists|k: int| 0 <= k < batch.len() && #[trigger] uncorrelated_at(st, batch, k) {
        Some(choose|k: int| 0 <= k < batch.len() && #[trigger] uncorrelated_at(st, batch, k)
            && forall|j: int| 0 <= j < k ==> !#[trigger] uncorrelated_at(st, batch, j))
    } else {
        None
    }
}

/// A delivery hands `response` to the caller waiting in `st` for it.
pub open spec fn delivered(st: ResponseState, response: EmbeddingResponse, d: ResponseDelivery) -> bool {
    let p = st.pending[response.request_id];
    &&& d.request_id == response.request_id
    &&& d.response@ == response@
    &&& d.callback_info == p.callback_info
    &&& d.response_time_us == response_time(p)
    &&& d.service_id == p.service_id
}

/// The first response whose request is not waited for is the one at `i`
/// when it is such a response and none before it is.
pub proof fn lemma_first_uncorrelated_at(st: ResponseState, batch: Seq<EmbeddingResponse>, i: int)
    requires
        0 <= i < batch.len(),
        uncorrelated_at(st, batch, i),
        forall|j: int| 0 <= j < i ==> !#[trigger] uncorrelated_at(st, batch, j),
    ensures
        first_uncorrelated(st, batch) == Some(i),
{
    let c = choose|k: int| 0 <= k < batch.len() && #[trigger] uncorrelated_at(st, batch, k)
        && forall|j: int| 0 <= j < k ==> !#[trigger] uncorrelated_at(st, batch, j);
    assert(0 <= c < batch.len() && uncorrelated_at(st, batch, c)
        && forall|j: int| 0 <= j < c ==> !#[trigger] uncorrelated_at(st, batch, j));
    if c < i {
        assert(!uncorrelated_at(st, batch, c));
    } else if c > i {
        assert(!uncorrelated_at(st, batch, i));
    }
}

/// Whether `k` is the entry a full cache drops: one of its oldest entries,
/// the first of those in key order.
pub open spec fn is_evicted(cache: Map<Seq<char>, CachedView>, k: Seq<char>) -> bool {
    &&& cache.contains_key(k)
    &&& forall|k2: Seq<char>| #[trigger] cache.contains_key(k2) ==> cache[k].cached_at <= cache[k2].cached_at
        && (cache[k2].cached_at == cache[k].cached_at ==> k2 == k || text_lt(k, k2))
}

/// The cache after storing `v` under `key`: a cache already holding as many
/// entries as allowed first drops its evicted entry.
pub open spec fn cache_after_store(cache: Map<Seq<char>, CachedView>, key: Seq<char>, v: CachedView) -> Map<
    Seq<char>,
    CachedView,
> {
    let base = if cache.dom().len() >= MAX_CACHED_RESPONSES {
        cache.remove(choose|k: Seq<char>| is_evicted(cache, k))
    } else {
        cache
    };
    base.insert(key, v)
}

/// At most one entry is the evicted one.
pub proof fn lemma_evicted_unique(cache: Map<Seq<char>, CachedView>, a: Seq<char>, b: Seq<char>)
    requires
        is_evicted(cache, a),
        is_evicted(cache, b),
    ensures
        a == b,
{
    assert(cache.contains_key(b));
    assert(cache.contains_key(a));
    if a != b {
        assert(text_lt(a, b));
        assert(text_lt(b, a));
        lemma_text_lt_antisymmetric(a, b);
    }
}

/// Statistics after one more response with the given response time: the
/// first time sets the average, the minimum and the maximum; later ones
/// move the average by a tenth and widen the range.
pub open spec fn stats_after_response(st: ResponseStats, success: bool, t: u64, pending: nat) -> ResponseStats {
    let counted = ResponseStats {
        total_responses: (st.total_responses + 1) as u64,
        pending_responses: pending as usize,
        successful_responses: if success { (st.successful_responses + 1) as u64 } else { st.successful_responses },
        failed_responses: if success { st.failed_responses } else { (st.failed_responses + 1) as u64 },
        ..st
    };
    if st.average_response_time_us == 0 {
        ResponseStats {
            average_response_time_us: t,
            min_response_time_us: t,
            max_response_time_us: t,
            ..counted
        }
    } else {
        ResponseStats {
            average_response_time_us: ((st.average_response_time_us * 9 + t) / 10) as u64,
            min_response_time_us: if t < st.min_response_time_us { t } else { st.min_response_time_us },
            max_response_time_us: if t > st.max_response_time_us { t } else { st.max_response_time_us },
            ..counted
        }
    }
}

/// The ids, in increasing order, whose timeout lies before `now`.
pub open spec fn expired_response_ids(ids: Seq<u64>, timeouts: Map<u64, u64>, now: u64) -> Seq<u64> {
    ids.filter(|id: u64| now > timeouts[id])
}

/// The cache keys whose entries have expired.
pub open spec fn stale_in(cache: Map<Seq<char>, CachedView>) -> spec_fn(Seq<char>) -> bool {
    |k: Seq<char>| manager_now() > cache[k].expires_at
}

/// The pending responses of a service, by id.
pub open spec fn for_service(pending: Map<u64, PendingResponse>, service_id: Seq<char>) -> spec_fn(u64) -> bool {
    |k: u64| pending[k].service_id@ == service_id
}

/// Matches responses to the requests waiting for them.
pub struct ResponseManager {
    config: IpcConfig,
    pending_responses: OrderedMap<PendingResponse>,
    stats: ResponseStats,
    response_timeouts: OrderedMap<u64>,
    response_cache: TextMap<CachedResponse>,
}

impl ResponseManager {
    /// The settings.
    pub closed spec fn settings(&self) -> IpcConfig {
        self.config
    }

    /// The responses waited for, by request id.
    pub closed spec fn pending(&self) -> Map<u64, PendingResponse> {
        self.pending_responses@
    }

    /// The request ids waited for, in increasing order.
    pub closed spec fn pending_ids(&self) -> Seq<u64> {
        self.pending_responses.keys_seq()
    }

    /// The timeouts of the responses waited for.
    pub closed spec fn timeouts(&self) -> Map<u64, u64> {
        self.response_timeouts@
    }

    /// The statistics.
    pub closed spec fn statistics(&self) -> ResponseStats {
        self.stats
    }

    /// What handing over responses changes: the responses waited for, their
    /// timeouts, the statistics and the cache.
    pub open spec fn state(&self) -> ResponseState {
        ResponseState {
            pending: self.pending(),
            timeouts: self.timeouts(),
            stats: self.statistics(),
            cache: self.cache(),
        }
    }

    /// The cached responses, by key.
    pub closed spec fn cache(&self) -> Map<Seq<char>, CachedView> {
        self.response_cache@.map_values(|c: CachedResponse| c@)
    }

    /// The cache keys, in increasing order.
    pub closed spec fn cache_keys(&self) -> Seq<Seq<char>> {
        self.response_cache.keys_seq()
    }

    /// Internal consistency: every response waited for has a timeout equal
    /// to its own and was asked for no later than now; the pending count is
    /// the number waited for.
    pub closed spec fn wf(&self) -> bool {
        &&& self.pending_responses.wf()
        &&& self.response_timeouts.wf()
        &&& self.response_cache.wf()
        &&& self.pending_responses@.dom() == self.response_timeouts@.dom()
        &&& self.pending_responses.keys_seq() == self.response_timeouts.keys_seq()
        &&& forall|k: u64| #[trigger] self.pending_responses@.contains_key(k) ==> self.response_timeouts@[k]
            == self.pending_responses@[k].timeout && self.pending_responses@[k].request_time <= manager_now()
        &&& self.stats.pending_responses == self.pending_responses@.dom().len()
    }

    /// A manager waiting for nothing, with an empty cache.
    pub fn new(config: IpcConfig) -> (m: Self)
        ensures
            m.wf(),
            m.settings() == config,
            m.pending() == Map::<u64, PendingResponse>::empty(),
            m.cache() == Map::<Seq<char>, CachedView>::empty(),
            m.statistics() == ResponseStats::default_spec(),
    {
        let m = ResponseManager {
            config,
            pending_responses: OrderedMap::new(),
            stats: ResponseStats {
                total_responses: 0,
                successful_responses: 0,
                failed_responses: 0,
                timeout_responses: 0,
                cached_responses: 0,
                average_response_time_us: 0,
                min_response_time_us: 0,
                max_response_time_us: 0,
                pending_responses: 0,
            },
            response_timeouts: OrderedMap::new(),
            response_cache: TextMap::new(),
        };
        proof {
            m.pending_responses.lemma_len();
            assert(m.cache() =~= Map::<Seq<char>, CachedView>::empty());
        }
        m
    }

    fn get_current_timestamp(&self) -> (t: u64)
        ensures
            t == manager_now(),
    {
        0
    }

    /// Wait for the response to a request, from a service; it times out
    /// after the request timeout.
    pub fn register_pending_response(&mut self, request_id: u64, service_id: String, callback_info: ResponseCallback) -> (r:
        IpcResult<()>)
        requires
            old(self).wf(),
        ensures
            final(self).wf(),
            r is Ok,
            ({
                let timeout = (manager_now() + old(self).settings().request_timeout_ms / 1000) as u64;
                &&& final(self).pending() == old(self).pending().insert(
                    request_id,
                    PendingResponse {
                        request_id,
                        service_id,
                        request_time: manager_now(),
                        timeout,
                        callback_info,
                        retry_count: 0,
                    },
                )
                &&& final(self).timeouts() == old(self).timeouts().insert(request_id, timeout)
            }),
            final(self).statistics() == (ResponseStats {
                pending_responses: final(self).pending().dom().len() as usize,
                ..old(self).statistics()
            }),
            final(self).cache() == old(self).cache(),
            final(self).settings() == old(self).settings(),
    {
        let current_time = self.get_current_timestamp();
        let timeout = current_time + self.config.request_timeout_ms / 1000;
        let pending_response = PendingResponse {
            request_id,
            service_id,
            request_time: current_time,
            timeout,
            callback_info,
            retry_count: 0,
        };
        self.pending_responses.insert(request_id, pending_response);
        self.response_timeouts.insert(request_id, timeout);
        proof {
            assert(self.pending_responses@.dom() =~= self.response_timeouts@.dom());
            lemma_same_dom_same_keys(&self.pending_responses, &self.response_timeouts);
        }
        self.stats.pending_responses = self.pending_responses.len();
        Ok(())
    }

    /// Hand over a response: it must be waited for; the statistics count
    /// it, a successful one is cached, and the delivery names the waiting
    /// caller and the service.
    pub fn handle_response(&mut self, response: EmbeddingResponse) -> (r: IpcResult<ResponseDelivery>)
        requires
            old(self).wf(),
            old(self).statistics().total_responses < u64::MAX,
            old(self).statistics().successful_responses < u64::MAX,
            old(self).statistics().failed_responses < u64::MAX,
            old(self).statistics().average_response_time_us * 9 <= u64::MAX,
        ensures
            final(self).wf(),
            final(self).settings() == old(self).settings(),
            !old(self).pending().contains_key(response.request_id) ==> (r matches Err(e) && e@
                == IpcErrorView::CorrelationFailed(response.request_id) && *final(self) == *old(self)),
            old(self).pending().contains_key(response.request_id) ==> {
                let id = response.request_id;
                let p = old(self).pending()[id];
                let t = ((manager_now() - p.request_time) * 1_000_000) as u64;
                &&& r matches Ok(d) && d.request_id == id && d.response@ == response@ && d.callback_info
                    == p.callback_info && d.response_time_us == t && d.service_id == p.service_id
                &&& final(self).pending() == old(self).pending().remove(id)
                &&& final(self).timeouts() == old(self).timeouts().remove(id)
                &&& final(self).statistics() == stats_after_response(
                    old(self).statistics(),
                    response.status == ResponseStatus::Success,
                    t,
                    final(self).pending().dom().len(),
                )
                &&& final(self).state() == after_response(old(self).state(), response)
                &&& response.status == ResponseStatus::Success ==> final(self).cache() == cache_after_store(
                    old(self).cache(),
                    cache_key(id),
                    CachedView {
                        response: response@,
                        cached_at: manager_now(),
                        expires_at: (manager_now() + CACHE_TTL_SECONDS) as u64,
                        hit_count: 0,
                    },
                )
                &&& response.status != ResponseStatus::Success ==> final(self).cache() == old(self).cache()
            },
    {
        let request_id = response.request_id;
        if !self.pending_responses.contains_key(request_id) {
            return Err(IpcError::CorrelationFailed(request_id));
        }
        let pending_response = match self.pending_responses.remove(request_id) {
            Some(p) => p,
            None => return Err(IpcError::CorrelationFailed(request_id)),
        };
        self.response_timeouts.remove(request_id);
        proof {
            assert(self.pending_responses@.dom() =~= self.response_timeouts@.dom());
            lemma_same_dom_same_keys(&self.pending_responses, &self.response_timeouts);
            self.pending_responses.lemma_len();
        }
        let current_time = self.get_current_timestamp();
        let response_time_us = (current_time - pending_response.request_time) * 1_000_000;
        self.update_response_stats(&response, response_time_us);
        if response.status == ResponseStatus::Success {
            self.cache_response(&response);
        }
        Ok(ResponseDelivery {
            request_id,
            response,
            callback_info: pending_response.callback_info,
            response_time_us,
            service_id: pending_response.service_id,
        })
    }

    /// Hand over a batch of responses in order; the first one not waited
    /// for stops the batch with its error, those before it stay handed
    /// over.
    pub fn handle_batch_response(&mut self, batch_response: Vec<EmbeddingResponse>) -> (r: IpcResult<
        Vec<ResponseDelivery>,
    >)
        requires
            old(self).wf(),
            old(self).statistics().total_responses + batch_response@.len() < u64::MAX,
            old(self).statistics().successful_responses + batch_response@.len() < u64::MAX,
            old(self).statistics().failed_responses + batch_response@.len() < u64::MAX,
            old(self).statistics().average_response_time_us * 9 <= u64::MAX,
        ensures
            final(self).wf(),
            final(self).settings() == old(self).settings(),
            ({
                let st0 = old(self).state();
                let batch = batch_response@;
                let f = first_uncorrelated(st0, batch);
                let acc: int = match f {
                    Some(j) => j,
                    None => batch.len() as int,
                };
                &&& match f {
                    Some(j) => r matches Err(e) && e@ == IpcErrorView::CorrelationFailed(batch[j].request_id),
                    None => r matches Ok(ds) && ds@.len() == batch.len() && forall|k: int|
                        0 <= k < ds@.len() ==> delivered(after_responses(st0, batch, k as nat), batch[k], #[trigger] ds@[k]),
                }
                &&& final(self).state() == after_responses(st0, batch, acc as nat)
            }),
    {
        let ghost batch = batch_response@;
        let ghost st0 = self.state();
        let n = batch_response.len();
        let mut deliveries: Vec<ResponseDelivery> = Vec::new();
        let mut i: usize = 0;
        while i < n
            invariant
                self.wf(),
                self.settings() == old(self).settings(),
                st0 == old(self).state(),
                n == batch.len(),
                batch == batch_response@,
                i <= n,
                deliveries@.len() == i,
                self.statistics().total_responses == old(self).statistics().total_responses + i,
                self.statistics().successful_responses <= old(self).statistics().successful_responses + i,
                self.statistics().failed_responses <= old(self).statistics().failed_responses + i,
                old(self).statistics().total_responses + n < u64::MAX,
                old(self).statistics().successful_responses + n < u64::MAX,
                old(self).statistics().failed_responses + n < u64::MAX,
                self.statistics().average_response_time_us * 9 <= u64::MAX,
                self.state() == after_responses(st0, batch, i as nat),
                forall|k: int| 0 <= k < i ==> !#[trigger] uncorrelated_at(st0, batch, k),
                forall|k: int|
                    0 <= k < i ==> delivered(after_responses(st0, batch, k as nat), batch[k], #[trigger] deliveries@[k]),
            decreases n - i,
        {
            let response = batch_response[i].clone();
            let ghost before = self.state();
            match self.handle_response(response) {
                Ok(d) => {
                    proof {
                        assert(!uncorrelated_at(st0, batch, i as int));
                        assert(after_responses(st0, batch, (i + 1) as nat) == after_response(before, batch[i as int]));
                    }
                    deliveries.push(d);
                },
                Err(e) => {
                    proof {
                        assert(uncorrelated_at(st0, batch, i as int));
                        lemma_first_uncorrelated_at(st0, batch, i as int);
                    }
                    return Err(e);
                },
            }
            proof {
                assert forall|k: int| 0 <= k < i + 1 implies delivered(
                    after_responses(st0, batch, k as nat),
                    batch[k],
                    #[trigger] deliveries@[k],
                ) by {}
            }
            i += 1;
        }
        proof {
            if exists|k: int| 0 <= k < batch.len() && #[trigger] uncorrelated_at(st0, batch, k) {
                let k = choose|k: int| 0 <= k < batch.len() && #[trigger] uncorrelated_at(st0, batch, k);
                assert(!uncorrelated_at(st0, batch, k));
            }
        }
        Ok(deliveries)
    }

    /// A cached response under the given key: an expired one is dropped
    /// and none is given; a valid one counts a hit.
    pub fn check_cache(&mut self, request_hash: &str) -> (r: Option<EmbeddingResponse>)
        requires
            old(self).wf(),
            old(self).statistics().cached_responses < u64::MAX,
            old(self).cache().contains_key(request_hash@) ==> old(self).cache()[request_hash@].hit_count < u64::MAX,
        ensures
            final(self).wf(),
            final(self).pending() == old(self).pending(),
            final(self).timeouts() == old(self).timeouts(),
            !old(self).cache().contains_key(request_hash@) ==> r is None && *final(self) == *old(self),
            old(self).cache().contains_key(request_hash@) ==> {
                let c = old(self).cache()[request_hash@];
                if manager_now() > c.expires_at {
                    &&& r is None
                    &&& final(self).cache() == old(self).cache().remove(request_hash@)
                    &&& final(self).statistics() == old(self).statistics()
                } else {
                    &&& r matches Some(resp) && resp@ == c.response
                    &&& final(self).cache() == old(self).cache().insert(
                        request_hash@,
                        CachedView { hit_count: (c.hit_count + 1) as u64, ..c },
                    )
                    &&& final(self).statistics() == (ResponseStats {
                        cached_responses: (old(self).statistics().cached_responses + 1) as u64,
                        ..old(self).statistics()
                    })
                }
            },
    {
        let current_time = self.get_current_timestamp();
        let idx = match self.response_cache.position(request_hash) {
            None => return None,
            Some(i) => i,
        };
        let ghost old_cache = self.response_cache@;
        if current_time > self.response_cache.value_at(idx).expires_at {
            self.response_cache.remove(request_hash);
            proof {
                assert(self.cache() =~= old(self).cache().remove(request_hash@));
            }
            return None;
        }
        let cached = self.response_cache.value_at(idx);
        let copy = cached.response.clone();
        let updated = CachedResponse {
            response: cached.response.clone(),
            cached_at: cached.cached_at,
            expires_at: cached.expires_at,
            hit_count: cached.hit_count + 1,
        };
        self.response_cache.set_value_at(idx, updated);
        self.stats.cached_responses = self.stats.cached_responses + 1;
        proof {
            assert(self.cache() =~= old(self).cache().insert(
                request_hash@,
                CachedView { hit_count: (old(self).cache()[request_hash@].hit_count + 1) as u64, ..old(self).cache()[request_hash@] },
            ));
        }
        Some(copy)
    }

    /// Stop waiting for every response whose timeout has passed, counting
    /// each as timed out, and give their ids in increasing order.
    pub fn check_timeouts(&mut self) -> (r: Vec<u64>)
        requires
            old(self).wf(),
            old(self).statistics().timeout_responses + old(self).pending().dom().len() <= u64::MAX,
        ensures
            final(self).wf(),
            r@ == expired_response_ids(old(self).pending_ids(), old(self).timeouts(), manager_now()),
            final(self).pending() == old(self).pending().remove_keys(r@.to_set()),
            final(self).timeouts() == old(self).timeouts().remove_keys(r@.to_set()),
            final(self).statistics() == (ResponseStats {
                timeout_responses: (old(self).statistics().timeout_responses + r@.len()) as u64,
                pending_responses: final(self).pending().dom().len() as usize,
                ..old(self).statistics()
            }),
            final(self).cache() == old(self).cache(),
            final(self).cache_keys() == old(self).cache_keys(),
            final(self).settings() == old(self).settings(),
    {
        let current_time = self.get_current_timestamp();
        let ghost keys = self.pending_ids();
        let ghost tmap = self.response_timeouts@;
        let ghost pred = |id: u64| current_time > tmap[id];
        let mut timed_out: Vec<u64> = Vec::new();
        let n = self.response_timeouts.len();
        let mut i: usize = 0;
        while i < n
            invariant
                old(self).wf(),
                self.response_timeouts == old(self).response_timeouts,
                keys == old(self).pending_ids(),
                tmap == old(self).timeouts(),
                pred == (|id: u64| current_time > tmap[id]),
                current_time == manager_now(),
                n == keys.len(),
                i <= n,
                timed_out@ == keys.subrange(0, i as int).filter(pred),
            decreases n - i,
        {
            proof {
                reveal_with_fuel(Seq::<_>::filter, 1);
                assert(keys.subrange(0, i + 1).drop_last() =~= keys.subrange(0, i as int));
                self.response_timeouts.lemma_entry(i as int);
            }
            let k = self.response_timeouts.key_at(i);
            let t = *self.response_timeouts.value_at(i);
            if current_time > t {
                timed_out.push(k);
            }
            i += 1;
        }
        assert(keys.subrange(0, n as int) =~= keys);
        assert(timed_out@ == expired_response_ids(keys, tmap, manager_now()));
        proof {
            old(self).pending_responses.lemma_len();
        }
        let mut j: usize = 0;
        while j < timed_out.len()
            invariant
                self.wf(),
                old(self).pending_responses.wf(),
                old(self).pending().dom().finite(),
                j <= timed_out@.len(),
                self.pending() == old(self).pending().remove_keys(timed_out@.subrange(0, j as int).to_set()),
                self.timeouts() == old(self).timeouts().remove_keys(timed_out@.subrange(0, j as int).to_set()),
                self.statistics() == (ResponseStats {
                    timeout_responses: (old(self).statistics().timeout_responses + j) as u64,
                    pending_responses: self.statistics().pending_responses,
                    ..old(self).statistics()
                }),
                timed_out@.no_duplicates(),
                timed_out@.to_set().subset_of(old(self).pending().dom()),
                old(self).statistics().timeout_responses + old(self).pending().dom().len() <= u64::MAX,
                self.cache() == old(self).cache(),
                self.response_cache == old(self).response_cache,
                self.settings() == old(self).settings(),
            decreases timed_out@.len() - j,
        {
            let id = timed_out[j];
            proof {
                crate::ordered_map::lemma_prefix_set_step(timed_out@, j as int);
                lemma_prefix_count(timed_out@, j as int, old(self).pending().dom());
            }
            self.pending_responses.remove(id);
            self.response_timeouts.remove(id);
            proof {
                assert(self.pending_responses@.dom() =~= self.response_timeouts@.dom());
                lemma_same_dom_same_keys(&self.pending_responses, &self.response_timeouts);
            }
            self.stats.timeout_responses = self.stats.timeout_responses + 1;
            self.stats.pending_responses = self.pending_responses.len();
            j += 1;
        }
        assert(timed_out@.subrange(0, timed_out@.len() as int) =~= timed_out@);
        self.stats.pending_responses = self.pending_responses.len();
        timed_out
    }

    /// The response waited for under a request id, if any.
    pub fn get_pending_response(&self, request_id: u64) -> (r: Option<&PendingResponse>)
        requires
            self.wf(),
        ensures
            match r {
                Some(p) => self.pending().contains_key(request_id) && *p == self.pending()[request_id],
                None => !self.pending().contains_key(request_id),
            },
    {
        self.pending_responses.get(request_id)
    }

    /// The responses waited for, by increasing request id.
    pub fn get_pending_responses(&self) -> (r: Vec<&PendingResponse>)
        requires
            self.wf(),
        ensures
            r@.len() == self.pending_ids().len(),
            forall|i: int| 0 <= i < r@.len() ==> *r@[i] == self.pending()[#[trigger] self.pending_ids()[i]],
    {
        let mut out: Vec<&PendingResponse> = Vec::new();
        let n = self.pending_responses.len();
        let mut i: usize = 0;
        while i < n
            invariant
                self.wf(),
                n == self.pending_ids().len(),
                i <= n,
                out@.len() == i,
                forall|j: int| 0 <= j < i ==> *out@[j] == self.pending()[#[trigger] self.pending_ids()[j]],
            decreases n - i,
        {
            proof {
                self.pending_responses.lemma_entry(i as int);
            }
            out.push(self.pending_responses.value_at(i));
            i += 1;
        }
        out
    }

    /// The responses waited for from a service, by increasing request id.
    pub fn get_pending_responses_for_service(&self, service_id: &str) -> (r: Vec<&PendingResponse>)
        requires
            self.wf(),
        ensures
            ({
                let ids = self.pending_ids().filter(for_service(self.pending(), service_id@));
                &&& r@.len() == ids.len()
                &&& forall|i: int| 0 <= i < r@.len() ==> *r@[i] == self.pending()[#[trigger] ids[i]]
            }),
    {
        let ghost keys = self.pending_ids();
        let ghost pred = for_service(self.pending(), service_id@);
        let mut out: Vec<&PendingResponse> = Vec::new();
        let n = self.pending_responses.len();
        let mut i: usize = 0;
        while i < n
            invariant
                self.wf(),
                keys == self.pending_ids(),
                pred == for_service(self.pending(), service_id@),
                n == keys.len(),
                i <= n,
                out@.len() == keys.subrange(0, i as int).filter(pred).len(),
                forall|j: int| 0 <= j < out@.len() ==> *out@[j] == self.pending()[#[trigger] keys.subrange(
                    0,
                    i as int,
                ).filter(pred)[j]],
            decreases n - i,
        {
            proof {
                reveal_with_fuel(Seq::<_>::filter, 1);
                assert(keys.subrange(0, i + 1).drop_last() =~= keys.subrange(0, i as int));
                self.pending_responses.lemma_entry(i as int);
            }
            let p = self.pending_responses.value_at(i);
            if str_eq(p.service_id.as_str(), service_id) {
                out.push(p);
            }
            i += 1;
        }
        assert(keys.subrange(0, n as int) =~= keys);
        out
    }

    /// Stop waiting for a response.
    pub fn cancel_pending_response(&mut self, request_id: u64) -> (r: IpcResult<()>)
        requires
            old(self).wf(),
        ensures
            final(self).wf(),
            !old(self).pending().contains_key(request_id) ==> (r matches Err(e) && e@
                == IpcErrorView::CorrelationFailed(request_id) && *final(self) == *old(self)),
            old(self).pending().contains_key(request_id) ==> {
                &&& r is Ok
                &&& final(self).pending() == old(self).pending().remove(request_id)
                &&& final(self).timeouts() == old(self).timeouts().remove(request_id)
                &&& final(self).statistics() == (ResponseStats {
                    pending_responses: final(self).pending().dom().len() as usize,
                    ..old(self).statistics()
                })
                &&& final(self).cache() == old(self).cache()
            },
    {
        if !self.pending_responses.contains_key(request_id) {
            return Err(IpcError::CorrelationFailed(request_id));
        }
        self.pending_responses.remove(request_id);
        self.response_timeouts.remove(request_id);
        proof {
            assert(self.pending_responses@.dom() =~= self.response_timeouts@.dom());
            lemma_same_dom_same_keys(&self.pending_responses, &self.response_timeouts);
        }
        self.stats.pending_responses = self.pending_responses.len();
        Ok(())
    }

    /// The statistics.
    pub fn get_stats(&self) -> (s: &ResponseStats)
        ensures
            *s == self.statistics(),
    {
        &self.stats
    }

    /// The average response time, in microseconds.
    pub fn get_average_response_time(&self) -> (t: u64)
        ensures
            t == self.statistics().average_response_time_us,
    {
        self.stats.average_response_time_us
    }

    /// Stop waiting for timed out responses and drop expired cache
    /// entries; report how many of each.
    pub fn perform_maintenance(&mut self) -> (r: IpcResult<ResponseMaintenanceResult>)
        requires
            old(self).wf(),
            old(self).statistics().timeout_responses + old(self).pending().dom().len() <= u64::MAX,
        ensures
            final(self).wf(),
            ({
                let expired = expired_response_ids(old(self).pending_ids(), old(self).timeouts(), manager_now());
                let stale = old(self).cache_keys().filter(stale_in(old(self).cache()));
                &&& r matches Ok(m) && m.timed_out_responses == expired.len() && m.expired_cache_entries == stale.len()
                &&& final(self).pending() == old(self).pending().remove_keys(expired.to_set())
                &&& final(self).cache() == old(self).cache().remove_keys(stale.to_set())
            }),
    {
        let timed_out = self.check_timeouts();
        let current_time = self.get_current_timestamp();
        let ghost keys = self.cache_keys();
        let ghost cache0 = self.cache();
        let ghost pred = stale_in(cache0);
        let mut stale: Vec<String> = Vec::new();
        let n = self.response_cache.len();
        let mut i: usize = 0;
        while i < n
            invariant
                self.wf(),
                keys == self.cache_keys(),
                cache0 == self.cache(),
                pred == stale_in(cache0),
                current_time == manager_now(),
                n == keys.len(),
                i <= n,
                stale@.map_values(|s: String| s@) == keys.subrange(0, i as int).filter(pred),
            decreases n - i,
        {
            proof {
                reveal_with_fuel(Seq::<_>::filter, 1);
                assert(keys.subrange(0, i + 1).drop_last() =~= keys.subrange(0, i as int));
                self.response_cache.lemma_entry(i as int);
            }
            if current_time > self.response_cache.value_at(i).expires_at {
                let ghost prev = stale@;
                let k = self.response_cache.key_at(i).clone();
                stale.push(k);
                assert(stale@.map_values(|s: String| s@) =~= prev.map_values(|s: String| s@).push(keys[i as int]));
            }
            i += 1;
        }
        assert(keys.subrange(0, n as int) =~= keys);
        let ghost stale_keys = keys.filter(pred);
        let mut j: usize = 0;
        while j < stale.len()
            invariant
                self.wf(),
                stale@.map_values(|s: String| s@) == stale_keys,
                j <= stale@.len(),
                self.cache() == cache0.remove_keys(stale_keys.subrange(0, j as int).to_set()),
                self.pending() == old(self).pending().remove_keys(timed_out@.to_set()),
                timed_out@ == expired_response_ids(old(self).pending_ids(), old(self).timeouts(), manager_now()),
            decreases stale@.len() - j,
        {
            proof {
                crate::ordered_map::lemma_prefix_set_step(stale_keys, j as int);
            }
            let ghost before = self.cache();
            let ghost key = stale_keys[j as int];
            assert(stale@[j as int]@ == key);
            self.response_cache.remove(stale[j].as_str());
            proof {
                assert(self.cache() =~= before.remove(key));
                assert(before.remove(key) =~= cache0.remove_keys(stale_keys.subrange(0, j + 1).to_set()));
            }
            j += 1;
        }
        assert(stale_keys.subrange(0, stale@.len() as int) =~= stale_keys);
        assert(old(self).cache() == cache0);
        Ok(ResponseMaintenanceResult { timed_out_responses: timed_out.len(), expired_cache_entries: stale.len() })
    }

    fn update_response_stats(&mut self, response: &EmbeddingResponse, response_time_us: u64)
        requires
            old(self).stats.total_responses < u64::MAX,
            old(self).stats.successful_responses < u64::MAX,
            old(self).stats.failed_responses < u64::MAX,
            old(self).stats.average_response_time_us * 9 + response_time_us <= u64::MAX,
            old(self).pending_responses.wf(),
        ensures
            final(self).stats == stats_after_response(
                old(self).stats,
                response.status == ResponseStatus::Success,
                response_time_us,
                old(self).pending_responses@.dom().len(),
            ),
            final(self).config == old(self).config,
            final(self).pending_responses == old(self).pending_responses,
            final(self).response_timeouts == old(self).response_timeouts,
            final(self).response_cache == old(self).response_cache,
    {
        self.stats.total_responses = self.stats.total_responses + 1;
        self.stats.pending_responses = self.pending_responses.len();
        match response.status {
            ResponseStatus::Success => {
                self.stats.successful_responses = self.stats.successful_responses + 1;
            },
            _ => {
                self.stats.failed_responses = self.stats.failed_responses + 1;
            },
        }
        if self.stats.average_response_time_us == 0 {
            self.stats.average_response_time_us = response_time_us;
            self.stats.min_response_time_us = response_time_us;
            self.stats.max_response_time_us = response_time_us;
        } else {
            self.stats.average_response_time_us = (self.stats.average_response_time_us * 9 + response_time_us) / 10;
            if response_time_us < self.stats.min_response_time_us {
                self.stats.min_response_time_us = response_time_us;
            }
            if response_time_us > self.stats.max_response_time_us {
                self.stats.max_response_time_us = response_time_us;
            }
        }
    }

    /// Cache a successful response under its key, valid for five minutes;
    /// a full cache first drops its oldest entry (the first in key order
    /// among the oldest).
    fn cache_response(&mut self, response: &EmbeddingResponse)
        requires
            old(self).response_cache.wf(),
        ensures
            final(self).response_cache.wf(),
            final(self).config == old(self).config,
            final(self).pending_responses == old(self).pending_responses,
            final(self).response_timeouts == old(self).response_timeouts,
            final(self).stats == old(self).stats,
            final(self).cache() == cache_after_store(
                old(self).cache(),
                cache_key(response.request_id),
                CachedView {
                    response: response@,
                    cached_at: manager_now(),
                    expires_at: (manager_now() + CACHE_TTL_SECONDS) as u64,
                    hit_count: 0,
                },
            ),
    {
        let mut cache_key = message("response_");
        let id_text = decimal_string(response.request_id);
        cache_key.append(id_text.as_str());
        let current_time = self.get_current_timestamp();
        let cached_response = CachedResponse {
            response: response.clone(),
            cached_at: current_time,
            expires_at: current_time + CACHE_TTL_SECONDS,
            hit_count: 0,
        };
        let ghost c0 = self.cache();
        proof {
            self.response_cache.lemma_len();
            assert(c0.dom() == self.response_cache@.dom());
        }
        if self.response_cache.len() >= MAX_CACHED_RESPONSES {
            let oldest = self.oldest_cache_entry();
            let oldest_key = self.response_cache.key_at(oldest).clone();
            proof {
                self.lemma_oldest_evicted(oldest as int);
            }
            self.response_cache.remove(oldest_key.as_str());
            proof {
                assert(self.cache() =~= c0.remove(choose|k: Seq<char>| is_evicted(c0, k)));
            }
        }
        let ghost k = cache_key@;
        let ghost v = cached_response;
        let ghost mid = self.cache();
        self.response_cache.insert(cache_key, cached_response);
        assert(self.response_cache@.contains_key(k) && self.response_cache@[k] == v);
        assert(self.cache() =~= mid.insert(k, v@));
    }

    /// The entry at the position `oldest_cache_entry` finds is the evicted
    /// one.
    proof fn lemma_oldest_evicted(&self, i: int)
        requires
            self.response_cache.wf(),
            self.response_cache.spec_len() > 0,
            i == first_min_index(
                Seq::new(self.response_cache.spec_len(), |j: int| self.response_cache.value_seq(j).cached_at),
            ),
        ensures
            0 <= i < self.response_cache.spec_len(),
            is_evicted(self.cache(), self.response_cache.keys_seq()[i]),
            (choose|k: Seq<char>| is_evicted(self.cache(), k)) == self.response_cache.keys_seq()[i],
    {
        let times = Seq::new(self.response_cache.spec_len(), |j: int| self.response_cache.value_seq(j).cached_at);
        lemma_first_min_index(times);
        let keys = self.response_cache.keys_seq();
        let c = self.cache();
        self.response_cache.lemma_entry(i);
        let k = keys[i];
        assert forall|k2: Seq<char>| #[trigger] c.contains_key(k2) implies c[k].cached_at <= c[k2].cached_at
            && (c[k2].cached_at == c[k].cached_at ==> k2 == k || text_lt(k, k2)) by {
            let j = self.response_cache.lemma_key_position(k2);
            assert(times[j] == c[k2].cached_at);
            assert(times[i] == c[k].cached_at);
            if c[k2].cached_at == c[k].cached_at && j != i {
                assert(j > i);
                assert(texts_increasing(keys));
            }
        }
        assert(is_evicted(c, k));
        let ch = choose|k3: Seq<char>| is_evicted(c, k3);
        lemma_evicted_unique(c, ch, k);
    }

    /// Position of the first oldest cache entry in key order.
    fn oldest_cache_entry(&self) -> (i: usize)
        requires
            self.response_cache.wf(),
            self.response_cache.spec_len() > 0,
        ensures
            i < self.response_cache.spec_len(),
            i == first_min_index(
                Seq::new(self.response_cache.spec_len(), |j: int| self.response_cache.value_seq(j).cached_at),
            ),
    {
        let ghost times = Seq::new(self.response_cache.spec_len(), |j: int| self.response_cache.value_seq(j).cached_at);
        let n = self.response_cache.len();
        let mut best: usize = 0;
        let mut i: usize = 1;
        proof {
            assert(times.subrange(0, 1).drop_last() =~= Seq::<u64>::empty());
            assert(first_min_index(Seq::<u64>::empty()) == -1);
            assert(first_min_index(times.subrange(0, 1)) == 0);
        }
        while i < n
            invariant
                n == self.response_cache.spec_len(),
                times == Seq::new(self.response_cache.spec_len(), |j: int| self.response_cache.value_seq(j).cached_at),
                1 <= i <= n,
                best < i,
                best as int == first_min_index(times.subrange(0, i as int)),
            decreases n - i,
        {
            proof {
                assert(times.subrange(0, i + 1).drop_last() =~= times.subrange(0, i as int));
                assert(times.subrange(0, i + 1)[best as int] == times[best as int]);
            }
            if self.response_cache.value_at(i).cached_at < self.response_cache.value_at(best).cached_at {
                best = i;
            }
            i += 1;
        }
        assert(times.subrange(0, n as int) =~= times);
        best
    }
}

/// The prefix of a list without duplicates, within a finite set, is no
/// longer than the set.
proof fn lemma_prefix_count(s: Seq<u64>, j: int, dom: Set<u64>)
    requires
        0 <= j < s.len(),
        s.no_duplicates(),
        s.to_set().subset_of(dom),
        dom.finite(),
    ensures
        j + 1 <= dom.len(),
        !s.subrange(0, j).contains(s[j]),
{
    let p = s.subrange(0, j + 1);
    assert(p.no_duplicates());
    p.unique_seq_to_set();
    assert(p.to_set().subset_of(dom)) by {
        assert forall|x: u64| p.to_set().contains(x) implies dom.contains(x) by {
            let k = choose|k: int| 0 <= k < p.len() && p[k] == x;
            assert(s[k] == x);
            assert(s.to_set().contains(x));
        }
    }
    vstd::set_lib::lemma_len_subset(p.to_set(), dom);
    if s.subrange(0, j).contains(s[j]) {
        let k = choose|k: int| 0 <= k < j && s.subrange(0, j)[k] == s[j];
        assert(s[k] == s[j]);
    }
}

impl ResponseStats {
    /// All counters zero.
    pub open spec fn default_spec() -> ResponseStats {
        ResponseStats {
            total_responses: 0,
            successful_responses: 0,
            failed_responses: 0,
            timeout_responses: 0,
            cached_responses: 0,
            average_response_time_us: 0,
            min_response_time_us: 0,
            max_response_time_us: 0,
            pending_responses: 0,
        }
    }
}

/// What is known of a request whose response is expected.
#[derive(Debug, Clone)]
pub struct CorrelationInfo {
    pub request_id: u64,
    pub service_id: String,
    pub request_time: u64,
    /// Time by which the response is expected.
    pub expected_response_time: u64,
    /// Extra information, as name and value.
    pub metadata: Vec<(String, String)>,
}

/// Correlation statistics.
#[derive(Debug, Clone, Copy, Default, PartialEq, Eq, Structural)]
pub struct CorrelationStats {
    pub total_correlations: u64,
    pub successful_correlations: u64,
    pub failed_correlations: u64,
    pub orphaned_responses: u64,
    pub duplicate_responses: u64,
}

/// The ids, in increasing order, whose expected response time lies before
/// `now`.
pub open spec fn overdue_ids(ids: Seq<u64>, cs: Map<u64, CorrelationInfo>, now: u64) -> Seq<u64> {
    ids.filter(|id: u64| now > cs[id].expected_response_time)
}

/// Matches responses to the requests that expect them.
pub struct ResponseCorrelator {
    correlations: OrderedMap<CorrelationInfo>,
    stats: CorrelationStats,
}

impl ResponseCorrelator {
    /// The expected responses, by request id.
    pub closed spec fn expected(&self) -> Map<u64, CorrelationInfo> {
        self.correlations@
    }

    /// Their request ids, in increasing order.
    pub closed spec fn expected_ids(&self) -> Seq<u64> {
        self.correlations.keys_seq()
    }

    /// The statistics.
    pub closed spec fn statistics(&self) -> CorrelationStats {
        self.stats
    }

    /// Internal consistency.
    pub closed spec fn wf(&self) -> bool {
        self.correlations.wf()
    }

    /// A correlator expecting nothing.
    pub fn new() -> (c: Self)
        ensures
            c.wf(),
            c.expected() == Map::<u64, CorrelationInfo>::empty(),
            c.statistics() == (CorrelationStats {
                total_correlations: 0,
                successful_correlations: 0,
                failed_correlations: 0,
                orphaned_responses: 0,
                duplicate_responses: 0,
            }),
    {
        ResponseCorrelator {
            correlations: OrderedMap::new(),
            stats: CorrelationStats {
                total_correlations: 0,
                successful_correlations: 0,
                failed_correlations: 0,
                orphaned_responses: 0,
                duplicate_responses: 0,
            },
        }
    }

    /// Expect a response; a request already expected is refused.
    pub fn add_correlation(&mut self, correlation_info: CorrelationInfo) -> (r: IpcResult<()>)
        requires
            old(self).wf(),
            old(self).statistics().total_correlations < u64::MAX,
        ensures
            final(self).wf(),
            old(self).expected().contains_key(correlation_info.request_id) ==> (r matches Err(e) && e@
                == IpcErrorView::CorrelationFailed(correlation_info.request_id) && *final(self) == *old(self)),
            !old(self).expected().contains_key(correlation_info.request_id) ==> {
                &&& r is Ok
                &&& final(self).expected() == old(self).expected().insert(correlation_info.request_id, correlation_info)
                &&& final(self).statistics() == (CorrelationStats {
                    total_correlations: (old(self).statistics().total_correlations + 1) as u64,
                    ..old(self).statistics()
                })
            },
    {
        let request_id = correlation_info.request_id;
        if self.correlations.contains_key(request_id) {
            return Err(IpcError::CorrelationFailed(request_id));
        }
        self.correlations.insert(request_id, correlation_info);
        self.stats.total_correlations = self.stats.total_correlations + 1;
        Ok(())
    }

    /// Stop expecting a response and give what was known of it.
    pub fn remove_correlation(&mut self, request_id: u64) -> (r: IpcResult<CorrelationInfo>)
        requires
            old(self).wf(),
            old(self).statistics().successful_correlations < u64::MAX,
        ensures
            final(self).wf(),
            !old(self).expected().contains_key(request_id) ==> (r matches Err(e) && e@
                == IpcErrorView::CorrelationFailed(request_id) && *final(self) == *old(self)),
            old(self).expected().contains_key(request_id) ==> {
                &&& r == Ok::<CorrelationInfo, IpcError>(old(self).expected()[request_id])
                &&& final(self).expected() == old(self).expected().remove(request_id)
                &&& final(self).statistics() == (CorrelationStats {
                    successful_correlations: (old(self).statistics().successful_correlations + 1) as u64,
                    ..old(self).statistics()
                })
            },
    {
        if !self.correlations.contains_key(request_id) {
            return Err(IpcError::CorrelationFailed(request_id));
        }
        match self.correlations.remove(request_id) {
            Some(info) => {
                self.stats.successful_correlations = self.stats.successful_correlations + 1;
                Ok(info)
            },
            None => Err(IpcError::CorrelationFailed(request_id)),
        }
    }

    /// What is known of an expected response, if it is expected.
    pub fn check_correlation(&self, request_id: u64) -> (r: Option<&CorrelationInfo>)
        requires
            self.wf(),
        ensures
            match r {
                Some(c) => self.expected().contains_key(request_id) && *c == self.expected()[request_id],
                None => !self.expected().contains_key(request_id),
            },
    {
        self.correlations.get(request_id)
    }

    /// Count a response that nobody expected.
    pub fn handle_orphaned_response(&mut self, _response: &EmbeddingResponse) -> (r: IpcResult<()>)
        requires
            old(self).statistics().orphaned_responses < u64::MAX,
        ensures
            r is Ok,
            final(self).expected() == old(self).expected(),
            final(self).expected_ids() == old(self).expected_ids(),
            final(self).wf() == old(self).wf(),
            final(self).statistics() == (CorrelationStats {
                orphaned_responses: (old(self).statistics().orphaned_responses + 1) as u64,
                ..old(self).statistics()
            }),
    {
        self.stats.orphaned_responses = self.stats.orphaned_responses + 1;
        Ok(())
    }

    /// The statistics.
    pub fn get_stats(&self) -> (s: &CorrelationStats)
        ensures
            *s == self.statistics(),
    {
        &self.stats
    }

    /// Stop expecting the responses that are overdue at `current_time`,
    /// counting each as failed; give how many there were.
    pub fn cleanup_expired(&mut self, current_time: u64) -> (n: usize)
        requires
            old(self).wf(),
            old(self).statistics().failed_correlations + old(self).expected().dom().len() <= u64::MAX,
        ensures
            final(self).wf(),
            ({
                let overdue = overdue_ids(old(self).expected_ids(), old(self).expected(), current_time);
                &&& n == overdue.len()
                &&& final(self).expected() == old(self).expected().remove_keys(overdue.to_set())
                &&& final(self).statistics() == (CorrelationStats {
                    failed_correlations: (old(self).statistics().failed_correlations + n) as u64,
                    ..old(self).statistics()
                })
            }),
    {
        let ghost keys = self.expected_ids();
        let ghost cs = self.correlations@;
        let ghost pred = |id: u64| current_time > cs[id].expected_response_time;
        let mut overdue: Vec<u64> = Vec::new();
        let n = self.correlations.len();
        let mut i: usize = 0;
        while i < n
            invariant
                old(self).wf(),
                self.correlations == old(self).correlations,
                keys == old(self).expected_ids(),
                cs == old(self).expected(),
                pred == (|id: u64| current_time > cs[id].expected_response_time),
                n == keys.len(),
                i <= n,
                overdue@ == keys.subrange(0, i as int).filter(pred),
            decreases n - i,
        {
            proof {
                reveal_with_fuel(Seq::<_>::filter, 1);
                assert(keys.subrange(0, i + 1).drop_last() =~= keys.subrange(0, i as int));
                self.correlations.lemma_entry(i as int);
            }
            let k = self.correlations.key_at(i);
            if current_time > self.correlations.value_at(i).expected_response_time {
                overdue.push(k);
            }
            i += 1;
        }
        assert(keys.subrange(0, n as int) =~= keys);
        assert(overdue@ == overdue_ids(keys, cs, current_time));
        proof {
            old(self).correlations.lemma_len();
            crate::ordered_map::lemma_filter_increasing(keys, pred);
        }
        let mut j: usize = 0;
        while j < overdue.len()
            invariant
                self.wf(),
                old(self).wf(),
                old(self).expected().dom().finite(),
                j <= overdue@.len(),
                self.expected() == old(self).expected().remove_keys(overdue@.subrange(0, j as int).to_set()),
                self.statistics() == (CorrelationStats {
                    failed_correlations: (old(self).statistics().failed_correlations + j) as u64,
                    ..old(self).statistics()
                }),
                overdue@.no_duplicates(),
                overdue@.to_set().subset_of(old(self).expected().dom()),
                old(self).statistics().failed_correlations + old(self).expected().dom().len() <= u64::MAX,
            decreases overdue@.len() - j,
        {
            let id = overdue[j];
            proof {
                crate::ordered_map::lemma_prefix_set_step(overdue@, j as int);
                lemma_prefix_count(overdue@, j as int, old(self).expected().dom());
            }
            self.correlations.remove(id);
            self.stats.failed_correlations = self.stats.failed_correlations + 1;
            j += 1;
        }
        assert(overdue@.subrange(0, overdue@.len() as int) =~= overdue@);
        overdue.len()
    }
}

/// Whether the bit pattern of a single is a NaN or an infinity.
pub open spec fn not_finite(bits: u32) -> bool {
    bits & 0x7f80_0000 == 0x7f80_0000
}

/// Whether a status needs an error message.
pub open spec fn needs_error_message(status: ResponseStatus) -> bool {
    match status {
        ResponseStatus::Error | ResponseStatus::InternalError | ResponseStatus::Overloaded
        | ResponseStatus::InvalidRequest | ResponseStatus::ModelNotFound => true,
        _ => false,
    }
}

/// The message of the status check a response fails, if it fails one.
pub open spec fn status_problem(r: ResponseView) -> Option<Seq<char>> {
    match r.status {
        ResponseStatus::Success => {
            if r.embedding is None {
                Some("Missing embedding in successful response"@)
            } else if r.error is Some {
                Some("Error message in successful response"@)
            } else {
                None
            }
        },
        ResponseStatus::Error | ResponseStatus::InternalError => {
            if r.error is None { Some("Missing error message in error response"@) } else { None }
        },
        ResponseStatus::Timeout => None,
        ResponseStatus::Overloaded => {
            if r.error is None { Some("Missing error message in overloaded response"@) } else { None }
        },
        ResponseStatus::InvalidRequest => {
            if r.error is None { Some("Missing error message in invalid request response"@) } else { None }
        },
        ResponseStatus::ModelNotFound => {
            if r.error is None { Some("Missing error message in model not found response"@) } else { None }
        },
    }
}

/// The outcome of checking a response: a request id, a status consistent
/// with the embedding and error message, and an embedding that is not
/// empty and holds only finite values.
pub open spec fn response_check(r: ResponseView) -> Result<(), IpcErrorView> {
    if r.request_id == 0 {
        Err(IpcErrorView::InvalidMessage("Invalid request ID"@))
    } else if status_problem(r) is Some {
        Err(IpcErrorView::InvalidMessage(status_problem(r)->Some_0))
    } else {
        match r.embedding {
            Some(e) => {
                if e.len() == 0 {
                    Err(IpcErrorView::InvalidMessage("Empty embedding vector"@))
                } else if exists|i: int| 0 <= i < e.len() && not_finite(#[trigger] e[i]) {
                    Err(IpcErrorView::InvalidMessage("Invalid embedding value"@))
                } else {
                    Ok(())
                }
            },
            None => Ok(()),
        }
    }
}

/// The first failing check of the responses from position `i` on.
pub open spec fn first_response_error(rs: Seq<ResponseView>, i: int) -> Result<(), IpcErrorView>
    decreases rs.len() - i,
{
    if i >= rs.len() || i < 0 {
        Ok(())
    } else {
        match response_check(rs[i]) {
            Err(e) => Err(e),
            Ok(_) => first_response_error(rs, i + 1),
        }
    }
}

/// Whether two responses of a list share a request id.
pub open spec fn has_duplicate_id(rs: Seq<ResponseView>) -> bool {
    exists|i: int, j: int| 0 <= i < j < rs.len() && rs[i].request_id == rs[j].request_id
}

/// Checks of responses received from services.
pub struct ResponseValidator;

impl ResponseValidator {
    /// Check a response.
    pub fn validate_response(response: &EmbeddingResponse) -> (r: IpcResult<()>)
        ensures
            ipc_unit_is(r, response_check(response@)),
    {
        if response.request_id == 0 {
            return Err(IpcError::InvalidMessage(message("Invalid request ID")));
        }
        match response.status {
            ResponseStatus::Success => {
                if response.embedding.is_none() {
                    return Err(IpcError::InvalidMessage(message("Missing embedding in successful response")));
                }
                if response.error.is_some() {
                    return Err(IpcError::InvalidMessage(message("Error message in successful response")));
                }
            },
            ResponseStatus::Error | ResponseStatus::InternalError => {
                if response.error.is_none() {
                    return Err(IpcError::InvalidMessage(message("Missing error message in error response")));
                }
            },
            ResponseStatus::Timeout => {},
            ResponseStatus::Overloaded => {
                if response.error.is_none() {
                    return Err(IpcError::InvalidMessage(message("Missing error message in overloaded response")));
                }
            },
            ResponseStatus::InvalidRequest => {
                if response.error.is_none() {
                    return Err(IpcError::InvalidMessage(message("Missing error message in invalid request response")));
                }
            },
            ResponseStatus::ModelNotFound => {
                if response.error.is_none() {
                    return Err(IpcError::InvalidMessage(message("Missing error message in model not found response")));
                }
            },
        }
        if let Some(embedding) = &response.embedding {
            if embedding.len() == 0 {
                return Err(IpcError::InvalidMessage(message("Empty embedding vector")));
            }
            let mut i: usize = 0;
            while i < embedding.len()
                invariant
                    i <= embedding@.len(),
                    embedding@.len() > 0,
                    response@.embedding == Some(embedding@),
                    response.request_id != 0,
                    status_problem(response@) is None,
                    forall|j: int| 0 <= j < i ==> !not_finite(#[trigger] embedding@[j]),
                decreases embedding@.len() - i,
            {
                if embedding[i] & 0x7f80_0000 == 0x7f80_0000 {
                    assert(not_finite(embedding@[i as int]));
                    return Err(IpcError::InvalidMessage(message("Invalid embedding value")));
                }
                i += 1;
            }
        }
        Ok(())
    }

    /// Check a batch of responses: not empty, every response valid (the
    /// first invalid one gives the error), no request id twice.
    pub fn validate_batch_response(responses: &[EmbeddingResponse]) -> (r: IpcResult<()>)
        ensures
            ({
                let views = responses@.map_values(|x: EmbeddingResponse| x@);
                ipc_unit_is(
                    r,
                    if responses@.len() == 0 {
                        Err(IpcErrorView::InvalidMessage("Empty batch response"@))
                    } else if first_response_error(views, 0) is Err {
                        first_response_error(views, 0)
                    } else if has_duplicate_id(views) {
                        Err(IpcErrorView::InvalidMessage("Duplicate request ID in batch"@))
                    } else {
                        Ok(())
                    },
                )
            }),
    {
        let ghost views = responses@.map_values(|x: EmbeddingResponse| x@);
        if responses.len() == 0 {
            return Err(IpcError::InvalidMessage(message("Empty batch response")));
        }
        let n = responses.len();
        let mut i: usize = 0;
        while i < n
            invariant
                n == responses@.len(),
                n > 0,
                views == responses@.map_values(|x: EmbeddingResponse| x@),
                i <= n,
                first_response_error(views, 0) == first_response_error(views, i as int),
            decreases n - i,
        {
            assert(views[i as int] == responses@[i as int]@);
            match Self::validate_response(&responses[i]) {
                Ok(()) => {},
                Err(e) => return Err(e),
            }
            i += 1;
        }
        let mut seen: Vec<u64> = Vec::new();
        let mut k: usize = 0;
        while k < n
            invariant
                n == responses@.len(),
                n > 0,
                views == responses@.map_values(|x: EmbeddingResponse| x@),
                first_response_error(views, 0) is Ok,
                k <= n,
                seen@.len() == k,
                forall|j: int| 0 <= j < k ==> #[trigger] seen@[j] == views[j].request_id,
                !has_duplicate_id(views.subrange(0, k as int)),
            decreases n - k,
        {
            let id = responses[k].request_id;
            assert(views[k as int].request_id == id);
            let mut m: usize = 0;
            while m < seen.len()
                invariant
                    m <= seen@.len(),
                    seen@.len() == k,
                    n > 0,
                    views == responses@.map_values(|x: EmbeddingResponse| x@),
                    first_response_error(views, 0) is Ok,
                    k < n,
                    n == views.len(),
                    views[k as int].request_id == id,
                    forall|j: int| 0 <= j < k ==> #[trigger] seen@[j] == views[j].request_id,
                    forall|j: int| 0 <= j < m ==> seen@[j] != id,
                decreases seen@.len() - m,
            {
                if seen[m] == id {
                    assert(views[m as int].request_id == views[k as int].request_id);
                    assert(has_duplicate_id(views));
                    return Err(IpcError::InvalidMessage(message("Duplicate request ID in batch")));
                }
                m += 1;
            }
            seen.push(id);
            proof {
                let w = views.subrange(0, k + 1);
                if has_duplicate_id(w) {
                    let (a, b) = choose|a: int, b: int| 0 <= a < b < w.len() && w[a].request_id == w[b].request_id;
                    if b < k {
                        assert(views.subrange(0, k as int)[a].request_id == views.subrange(0, k as int)[b].request_id);
                    } else {
                        assert(seen@[a] == views[a].request_id);
                    }
                }
            }
            k += 1;
        }
        assert(views.subrange(0, n as int) =~= views);
        Ok(())
    }
}

/// How several responses are combined.
#[derive(Debug, Clone, Copy, PartialEq, Eq, Structural)]
pub enum AggregationType {
    Average,
    WeightedAverage,
    FirstSuccess,
    HighestConfidence,
    MajorityVote,
}

/// When an aggregation rule applies.
#[derive(Debug, Clone)]
pub struct AggregationCondition {
    pub min_responses: usize,
    pub max_response_time_ms: u64,
    pub required_service_types: Vec<String>,
}

/// A way of combining responses, used when its condition holds; the weight
/// is the bit pattern of an IEEE 754 single.
#[derive(Debug, Clone)]
pub struct AggregationRule {
    pub name: String,
    pub aggregation_type: AggregationType,
    pub weight_bits: u32,
    pub condition: AggregationCondition,
}

/// What combining responses comes to: one response, or the average of the
/// embeddings of the responses at the given positions (successful, with an
/// embedding; at least one), whose time is the average of theirs, the rest
/// taken from the first of them.
pub enum Aggregation {
    Response(EmbeddingResponse),
    Average(Vec<usize>),
}

/// Whether a rule applies: enough responses, none slower than allowed.
pub open spec fn rule_applies_to(rule: AggregationRule, rs: Seq<ResponseView>) -> bool {
    &&& rs.len() >= rule.condition.min_responses
    &&& forall|i: int| 0 <= i < rs.len() ==> (#[trigger] rs[i]).processing_time_us / 1000 <= rule.condition.max_response_time_ms
}

/// The position of the first rule that applies, or -1.
pub open spec fn first_applying(rules: Seq<AggregationRule>, rs: Seq<ResponseView>) -> int
    decreases rules.len(),
{
    if rules.len() == 0 {
        -1
    } else {
        let j = first_applying(rules.drop_last(), rs);
        if j >= 0 {
            j
        } else if rule_applies_to(rules.last(), rs) {
            rules.len() - 1
        } else {
            -1
        }
    }
}

/// The position of the first successful response, or -1.
pub open spec fn first_success_position(rs: Seq<ResponseView>) -> int
    decreases rs.len(),
{
    if rs.len() == 0 {
        -1
    } else {
        let j = first_success_position(rs.drop_last());
        if j >= 0 {
            j
        } else if rs.last().status == ResponseStatus::Success {
            rs.len() - 1
        } else {
            -1
        }
    }
}

/// The position of the first successful response, or 0.
pub open spec fn first_success(rs: Seq<ResponseView>) -> int {
    if first_success_position(rs) >= 0 {
        first_success_position(rs)
    } else {
        0
    }
}

/// Whether a response can be averaged: successful, with an embedding.
pub open spec fn averageable(r: ResponseView) -> bool {
    r.status == ResponseStatus::Success && r.embedding is Some
}

/// The positions of the responses that can be averaged.
pub open spec fn averageable_positions(rs: Seq<ResponseView>) -> Seq<int> {
    Seq::new(rs.len(), |i: int| i).filter(|i: int| averageable(rs[i]))
}

/// Combines the responses of several services.
pub struct ResponseAggregator {
    rules: Vec<AggregationRule>,
}

impl ResponseAggregator {
    /// The rules, in the order they were added.
    pub closed spec fn rules(&self) -> Seq<AggregationRule> {
        self.rules@
    }

    /// An aggregator with no rule.
    pub fn new() -> (a: Self)
        ensures
            a.rules() == Seq::<AggregationRule>::empty(),
    {
        ResponseAggregator { rules: Vec::new() }
    }

    /// Add a rule after the others.
    pub fn add_rule(&mut self, rule: AggregationRule)
        ensures
            final(self).rules() == old(self).rules().push(rule),
    {
        self.rules.push(rule);
    }

    /// Combine responses by the first rule that applies: an averaging rule
    /// averages the successful responses with an embedding, when there is
    /// one; the other rules, and no rule, take the first successful
    /// response, or the first response. No response is refused.
    pub fn aggregate_responses(&self, responses: &[EmbeddingResponse]) -> (r: IpcResult<Aggregation>)
        ensures
            ({
                let rs = responses@.map_values(|x: EmbeddingResponse| x@);
                let j = first_applying(self.rules(), rs);
                let averaging = j >= 0 && (self.rules()[j].aggregation_type == AggregationType::Average
                    || self.rules()[j].aggregation_type == AggregationType::WeightedAverage);
                if rs.len() == 0 {
                    r matches Err(e) && e@ == IpcErrorView::InvalidMessage("No responses to aggregate"@)
                } else if averaging && averageable_positions(rs).len() > 0 {
                    r matches Ok(Aggregation::Average(ix)) && ix@.map_values(|u: usize| u as int) == averageable_positions(rs)
                } else if averaging {
                    r matches Ok(Aggregation::Response(x)) && x@ == rs[0]
                } else {
                    r matches Ok(Aggregation::Response(x)) && x@ == rs[first_success(rs)]
                }
            }),
    {
        let ghost rs = responses@.map_values(|x: EmbeddingResponse| x@);
        if responses.len() == 0 {
            return Err(IpcError::InvalidMessage(message("No responses to aggregate")));
        }
        let mut i: usize = 0;
        while i < self.rules.len()
            invariant
                i <= self.rules@.len(),
                responses@.len() > 0,
                rs == responses@.map_values(|x: EmbeddingResponse| x@),
                first_applying(self.rules@.subrange(0, i as int), rs) == -1,
            decreases self.rules@.len() - i,
        {
            proof {
                assert(self.rules@.subrange(0, i + 1).drop_last() =~= self.rules@.subrange(0, i as int));
            }
            if Self::rule_applies(&self.rules[i], responses) {
                proof {
                    assert(self.rules@.subrange(0, i + 1).last() == self.rules@[i as int]);
                    lemma_first_applying_prefix(self.rules@, rs, i as int + 1);
                }
                return Ok(self.apply_aggregation_rule(&self.rules[i], responses));
            }
            i += 1;
        }
        assert(self.rules@.subrange(0, self.rules@.len() as int) =~= self.rules@);
        Ok(Aggregation::Response(Self::first_success_response(responses)))
    }

    fn rule_applies(rule: &AggregationRule, responses: &[EmbeddingResponse]) -> (b: bool)
        ensures
            b == rule_applies_to(*rule, responses@.map_values(|x: EmbeddingResponse| x@)),
    {
        let ghost rs = responses@.map_values(|x: EmbeddingResponse| x@);
        if responses.len() < rule.condition.min_responses {
            return false;
        }
        let mut i: usize = 0;
        while i < responses.len()
            invariant
                i <= responses@.len(),
                rs == responses@.map_values(|x: EmbeddingResponse| x@),
                forall|j: int| 0 <= j < i ==> (#[trigger] rs[j]).processing_time_us / 1000 <= rule.condition.max_response_time_ms,
            decreases responses@.len() - i,
        {
            if responses[i].processing_time_us / 1000 > rule.condition.max_response_time_ms {
                assert(rs[i as int].processing_time_us / 1000 > rule.condition.max_response_time_ms);
                return false;
            }
            i += 1;
        }
        true
    }

    fn apply_aggregation_rule(&self, rule: &AggregationRule, responses: &[EmbeddingResponse]) -> (r: Aggregation)
        requires
            responses@.len() > 0,
        ensures
            ({
                let rs = responses@.map_values(|x: EmbeddingResponse| x@);
                if rule.aggregation_type == AggregationType::Average || rule.aggregation_type
                    == AggregationType::WeightedAverage {
                    if averageable_positions(rs).len() > 0 {
                        r matches Aggregation::Average(ix) && ix@.map_values(|u: usize| u as int) == averageable_positions(rs)
                    } else {
                        r matches Aggregation::Response(x) && x@ == rs[0]
                    }
                } else {
                    r matches Aggregation::Response(x) && x@ == rs[first_success(rs)]
                }
            }),
    {
        match rule.aggregation_type {
            AggregationType::Average | AggregationType::WeightedAverage => Self::average_responses(responses),
            _ => Aggregation::Response(Self::first_success_response(responses)),
        }
    }

    /// The responses to average, or the first response when none can be.
    fn average_responses(responses: &[EmbeddingResponse]) -> (r: Aggregation)
        requires
            responses@.len() > 0,
        ensures
            ({
                let rs = responses@.map_values(|x: EmbeddingResponse| x@);
                if averageable_positions(rs).len() > 0 {
                    r matches Aggregation::Average(ix) && ix@.map_values(|u: usize| u as int) == averageable_positions(rs)
                } else {
                    r matches Aggregation::Response(x) && x@ == rs[0]
                }
            }),
    {
        let ghost rs = responses@.map_values(|x: EmbeddingResponse| x@);
        let ghost all = Seq::new(rs.len(), |i: int| i);
        let ghost pred = |i: int| averageable(rs[i]);
        let mut ix: Vec<usize> = Vec::new();
        let mut i: usize = 0;
        while i < responses.len()
            invariant
                i <= responses@.len(),
                rs == responses@.map_values(|x: EmbeddingResponse| x@),
                all == Seq::new(rs.len(), |i: int| i),
                pred == (|i: int| averageable(rs[i])),
                ix@.map_values(|u: usize| u as int) == all.subrange(0, i as int).filter(pred),
            decreases responses@.len() - i,
        {
            proof {
                reveal_with_fuel(Seq::<_>::filter, 1);
                assert(all.subrange(0, i + 1).drop_last() =~= all.subrange(0, i as int));
            }
            if responses[i].status == ResponseStatus::Success && responses[i].embedding.is_some() {
                let ghost prev = ix@;
                ix.push(i);
                assert(ix@.map_values(|u: usize| u as int) =~= prev.map_values(|u: usize| u as int).push(i as int));
            }
            i += 1;
        }
        assert(all.subrange(0, rs.len() as int) =~= all);
        if ix.len() == 0 {
            assert(ix@.map_values(|u: usize| u as int).len() == 0);
            Aggregation::Response(responses[0].clone())
        } else {
            Aggregation::Average(ix)
        }
    }

    /// The first successful response, or the first response.
    fn first_success_response(responses: &[EmbeddingResponse]) -> (r: EmbeddingResponse)
        requires
            responses@.len() > 0,
        ensures
            r@ == responses@.map_values(|x: EmbeddingResponse| x@)[first_success(
                responses@.map_values(|x: EmbeddingResponse| x@),
            )],
    {
        let ghost rs = responses@.map_values(|x: EmbeddingResponse| x@);
        let mut i: usize = 0;
        while i < responses.len()
            invariant
                i <= responses@.len(),
                rs == responses@.map_values(|x: EmbeddingResponse| x@),
                forall|j: int| 0 <= j < i ==> (#[trigger] rs[j]).status != ResponseStatus::Success,
            decreases responses@.len() - i,
        {
            if responses[i].status == ResponseStatus::Success {
                proof {
                    lemma_first_success_at(rs, i as int);
                }
                return responses[i].clone();
            }
            i += 1;
        }
        proof {
            lemma_first_success_none(rs);
        }
        responses[0].clone()
    }
}

/// The first successful response is the one at `i` when the ones before it
/// failed.
proof fn lemma_first_success_at(rs: Seq<ResponseView>, i: int)
    requires
        0 <= i < rs.len(),
        rs[i].status == ResponseStatus::Success,
        forall|j: int| 0 <= j < i ==> (#[trigger] rs[j]).status != ResponseStatus::Success,
    ensures
        first_success_position(rs) == i,
    decreases rs.len(),
{
    if i < rs.len() - 1 {
        lemma_first_success_at(rs.drop_last(), i);
    } else {
        lemma_first_success_none(rs.drop_last());
    }
}

/// With no successful response there is no first one.
proof fn lemma_first_success_none(rs: Seq<ResponseView>)
    requires
        forall|j: int| 0 <= j < rs.len() ==> (#[trigger] rs[j]).status != ResponseStatus::Success,
    ensures
        first_success_position(rs) == -1,
    decreases rs.len(),
{
    if rs.len() > 0 {
        lemma_first_success_none(rs.drop_last());
    }
}

/// Once a rule of a prefix applies, the whole list finds the same one.
proof fn lemma_first_applying_prefix(rules: Seq<AggregationRule>, rs: Seq<ResponseView>, n: int)
    requires
        0 < n <= rules.len(),
        first_applying(rules.subrange(0, n - 1), rs) == -1,
        rule_applies_to(rules[n - 1], rs),
    ensures
        first_applying(rules, rs) == n - 1,
    decreases rules.len() - n,
{
    assert(rules.subrange(0, n).drop_last() =~= rules.subrange(0, n - 1));
    if n == rules.len() {
        assert(rules.subrange(0, n) =~= rules);
    } else {
        lemma_first_applying_prefix_rest(rules, rs, n);
    }
}

/// A prefix whose first applying rule is known keeps it as more rules follow.
proof fn lemma_first_applying_prefix_rest(rules: Seq<AggregationRule>, rs: Seq<ResponseView>, n: int)
    requires
        0 < n <= rules.len(),
        first_applying(rules.subrange(0, n), rs) >= 0,
    ensures
        first_applying(rules, rs) == first_applying(rules.subrange(0, n), rs),
    decreases rules.len() - n,
{
    if n == rules.len() {
        assert(rules.subrange(0, n) =~= rules);
    } else {
        assert(rules.subrange(0, n + 1).drop_last() =~= rules.subrange(0, n));
        lemma_first_applying_prefix_rest(rules, rs, n + 1);
    }
}

/// A successful response that was just cached is found by the next cache
/// check under its key, still fresh, and handed back unchanged.
pub proof fn lemma_cached_response_found(cache: Map<Seq<char>, CachedView>, response: ResponseView)
    ensures
        ({
            let c = cache.insert(
                cache_key(response.request_id),
                CachedView {
                    response,
                    cached_at: manager_now(),
                    expires_at: (manager_now() + CACHE_TTL_SECONDS) as u64,
                    hit_count: 0,
                },
            );
            &&& c.contains_key(cache_key(response.request_id))
            &&& !(manager_now() > c[cache_key(response.request_id)].expires_at)
            &&& c[cache_key(response.request_id)].response == response
        }),
{
}

} // verus!
