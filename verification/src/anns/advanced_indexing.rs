//! Index kinds besides HNSW, their settings, and the hash tables of the
//! locality-sensitive hashing index: buckets of vector ids keyed by the
//! hash values of a vector, exact lookups and multi-probe lookups, and the
//! choice of candidates from what the tables return.

use vstd::prelude::*;
use vstd::slice::slice_to_vec;
use crate::ordered_map::{OrderedMap, strictly_increasing};

verus! {

/// Kinds of index.
#[derive(Debug, Clone, Copy, PartialEq, Eq, PartialOrd, Ord, Hash)]
pub enum IndexStrategy {
    /// Locality-sensitive hashing.
    LSH,
    /// Inverted file index.
    IVF,
    /// Product quantization.
    PQ,
    /// Exact search over every vector.
    Flat,
    /// Hierarchical navigable small world graph.
    HNSW,
}

/// Settings of the exact index.
#[derive(Debug, Clone)]
pub struct FlatConfig {
    pub enable_simd: bool,
    /// Vectors per batch.
    pub batch_size: usize,
    pub enable_parallel: bool,
    /// Memory alignment for SIMD, in bytes.
    pub alignment: usize,
}

impl Default for FlatConfig {
    /// SIMD and parallelism on, batches of 64, 32-byte alignment.
    fn default() -> (c: Self)
        ensures
            c.enable_simd,
            c.batch_size == 64,
            c.enable_parallel,
            c.alignment == 32,
    {
        FlatConfig { enable_simd: true, batch_size: 64, enable_parallel: true, alignment: 32 }
    }
}

/// Bit pattern of the IEEE 754 single nearest to 1e-4, the default
/// convergence threshold of training.
pub const DEFAULT_CONVERGENCE_BITS: u32 = 0x38d1_b717;

/// Settings of the inverted file index.
#[derive(Debug, Clone)]
pub struct IvfConfig {
    /// Clusters (centroids).
    pub num_clusters: usize,
    /// Clusters searched per query.
    pub num_probes: usize,
    /// Most k-means iterations.
    pub max_iterations: usize,
    /// Convergence threshold of k-means, as the bit pattern of an IEEE 754 single.
    pub convergence_threshold_bits: u32,
    pub enable_fine_quantization: bool,
}

impl Default for IvfConfig {
    /// 256 clusters, 8 probed, 100 iterations, threshold 1e-4, fine quantization.
    fn default() -> (c: Self)
        ensures
            c.num_clusters == 256,
            c.num_probes == 8,
            c.max_iterations == 100,
            c.convergence_threshold_bits == DEFAULT_CONVERGENCE_BITS,
            c.enable_fine_quantization,
    {
        IvfConfig {
            num_clusters: 256,
            num_probes: 8,
            max_iterations: 100,
            convergence_threshold_bits: DEFAULT_CONVERGENCE_BITS,
            enable_fine_quantization: true,
        }
    }
}

/// Settings of the product quantization index.
#[derive(Debug, Clone)]
pub struct PqConfig {
    pub num_subspaces: usize,
    pub num_centroids_per_subspace: usize,
    /// Most training iterations.
    pub max_iterations: usize,
    /// Convergence threshold of training, as the bit pattern of an IEEE 754 single.
    pub convergence_threshold_bits: u32,
    pub asymmetric_distance: bool,
}

impl Default for PqConfig {
    /// 8 subspaces of 256 centroids, 50 iterations, threshold 1e-4,
    /// asymmetric distances.
    fn default() -> (c: Self)
        ensures
            c.num_subspaces == 8,
            c.num_centroids_per_subspace == 256,
            c.max_iterations == 50,
            c.convergence_threshold_bits == DEFAULT_CONVERGENCE_BITS,
            c.asymmetric_distance,
    {
        PqConfig {
            num_subspaces: 8,
            num_centroids_per_subspace: 256,
            max_iterations: 50,
            convergence_threshold_bits: DEFAULT_CONVERGENCE_BITS,
            asymmetric_distance: true,
        }
    }
}

/// Settings of the locality-sensitive hashing index.
#[derive(Debug, Clone)]
pub struct LshConfig {
    pub num_tables: usize,
    /// Hash functions per table.
    pub num_functions: usize,
    pub num_projections: usize,
    /// Bucket width, as the bit pattern of an IEEE 754 single.
    pub bucket_width_bits: u32,
    pub multi_probe: bool,
    /// Farthest probe of a multi-probe lookup.
    pub max_probe_distance: usize,
}

impl Default for LshConfig {
    /// 10 tables of 4 functions, 64 projections, bucket width 1.0,
    /// multi-probe up to distance 3.
    fn default() -> (c: Self)
        ensures
            c.num_tables == 10,
            c.num_functions == 4,
            c.num_projections == 64,
            c.bucket_width_bits == 0x3f80_0000,
            c.multi_probe,
            c.max_probe_distance == 3,
    {
        LshConfig {
            num_tables: 10,
            num_functions: 4,
            num_projections: 64,
            bucket_width_bits: 0x3f80_0000,
            multi_probe: true,
            max_probe_distance: 3,
        }
    }
}

/// Buckets of a hash table: hash values with the ids stored under them.
pub type Buckets = Seq<(Seq<i32>, Seq<u64>)>;

/// Position of the first bucket with the given hash values, or -1.
pub open spec fn key_index(es: Buckets, k: Seq<i32>) -> int
    decreases es.len(),
{
    if es.len() == 0 {
        -1
    } else {
        let j = key_index(es.drop_last(), k);
        if j >= 0 {
            j
        } else if es.last().0 == k {
            es.len() - 1
        } else {
            -1
        }
    }
}

/// The ids stored under the given hash values; none where there is no
/// such bucket.
pub open spec fn bucket_of(es: Buckets, k: Seq<i32>) -> Seq<u64> {
    let j = key_index(es, k);
    if j >= 0 {
        es[j].1
    } else {
        Seq::empty()
    }
}

/// The buckets after storing `id` under `k`: appended to its bucket, or in
/// a new bucket at the end.
pub open spec fn inserted(es: Buckets, k: Seq<i32>, id: u64) -> Buckets {
    let j = key_index(es, k);
    if j >= 0 {
        es.update(j, (k, es[j].1.push(id)))
    } else {
        es.push((k, seq![id]))
    }
}

/// Whether no two buckets share hash values.
pub open spec fn distinct_keys(es: Buckets) -> bool {
    forall|i: int, j: int| 0 <= i < j < es.len() ==> es[i].0 != es[j].0
}

/// The probes of one position: the hash values with that value one lower,
/// then one higher.
pub open spec fn probes_upto(hv: Seq<i32>, n: nat) -> Seq<Seq<i32>>
    decreases n,
{
    if n == 0 {
        Seq::empty()
    } else {
        let i = n - 1;
        probes_upto(hv, (n - 1) as nat) + seq![hv.update(i, (hv[i] - 1) as i32), hv.update(i, (hv[i] + 1) as i32)]
    }
}

/// The probes at a distance: for each of the first `distance` positions,
/// the hash values moved by one down and up there.
pub open spec fn probes(hv: Seq<i32>, distance: nat) -> Seq<Seq<i32>> {
    probes_upto(hv, if hv.len() < distance { hv.len() } else { distance })
}

/// Whether every value that a probe up to `distance` moves can move by one
/// without leaving the range of `i32`.
pub open spec fn probes_fit(hv: Seq<i32>, distance: nat) -> bool {
    forall|i: int| 0 <= i < hv.len() && i < distance ==> i32::MIN < #[trigger] hv[i] < i32::MAX
}

/// The ids under each of the given hash values, one bucket after another.
pub open spec fn concat_buckets(es: Buckets, ps: Seq<Seq<i32>>) -> Seq<u64>
    decreases ps.len(),
{
    if ps.len() == 0 {
        Seq::empty()
    } else {
        concat_buckets(es, ps.drop_last()) + bucket_of(es, ps.last())
    }
}

/// The ids found by the probes at distances 1 to `d`.
pub open spec fn probe_results(es: Buckets, hv: Seq<i32>, d: nat) -> Seq<u64>
    decreases d,
{
    if d == 0 {
        Seq::empty()
    } else {
        probe_results(es, hv, (d - 1) as nat) + concat_buckets(es, probes(hv, d))
    }
}

/// The sum, over the buckets, of four bytes per hash value and eight per id.
pub open spec fn buckets_bytes(es: Buckets) -> nat
    decreases es.len(),
{
    if es.len() == 0 {
        0
    } else {
        buckets_bytes(es.drop_last()) + 4 * es.last().0.len() + 8 * es.last().1.len()
    }
}

/// One hash table of the locality-sensitive hashing index.
pub struct LshHashTable {
    buckets: Vec<(Vec<i32>, Vec<u64>)>,
    num_functions: usize,
}

/// Whether two lists of hash values are equal.
fn same_hash(a: &[i32], b: &[i32]) -> (r: bool)
    ensures
        r == (a@ == b@),
{
    if a.len() != b.len() {
        return false;
    }
    let mut i: usize = 0;
    while i < a.len()
        invariant
            a@.len() == b@.len(),
            i <= a@.len(),
            forall|j: int| 0 <= j < i ==> a@[j] == b@[j],
        decreases a@.len() - i,
    {
        if a[i] != b[i] {
            return false;
        }
        i += 1;
    }
    assert(a@ =~= b@);
    true
}

/// Once a bucket is found in a prefix, the whole list finds the same one.
proof fn lemma_key_index_prefix(es: Buckets, k: Seq<i32>, n: int)
    requires
        0 <= n <= es.len(),
        key_index(es.subrange(0, n), k) >= 0,
    ensures
        key_index(es, k) == key_index(es.subrange(0, n), k),
    decreases es.len() - n,
{
    if n == es.len() {
        assert(es.subrange(0, n) =~= es);
    } else {
        assert(es.subrange(0, n + 1).drop_last() =~= es.subrange(0, n));
        lemma_key_index_prefix(es, k, n + 1);
    }
}

/// A found bucket holds the hash values looked for, and no bucket before
/// it does; an absent one is held by no bucket.
proof fn lemma_key_index_found(es: Buckets, k: Seq<i32>)
    ensures
        -1 <= key_index(es, k) < es.len(),
        key_index(es, k) >= 0 ==> es[key_index(es, k)].0 == k,
        forall|i: int| 0 <= i < es.len() && (key_index(es, k) < 0 || i < key_index(es, k)) ==> es[i].0 != k,
    decreases es.len(),
{
    if es.len() > 0 {
        let d = es.drop_last();
        lemma_key_index_found(d, k);
        assert forall|i: int| 0 <= i < es.len() && (key_index(es, k) < 0 || i < key_index(es, k)) implies es[i].0
            != k by {
            if i < d.len() {
                assert(es[i] == d[i]);
            }
        }
    }
}

/// Replacing the ids of a bucket does not move any bucket.
proof fn lemma_key_index_update(es: Buckets, j: int, v: Seq<u64>, k: Seq<i32>)
    requires
        0 <= j < es.len(),
    ensures
        key_index(es.update(j, (es[j].0, v)), k) == key_index(es, k),
    decreases es.len(),
{
    let u = es.update(j, (es[j].0, v));
    if j == es.len() - 1 {
        assert(u.drop_last() =~= es.drop_last());
    } else {
        assert(u.drop_last() =~= es.drop_last().update(j, (es[j].0, v)));
        lemma_key_index_update(es.drop_last(), j, v, k);
    }
}

impl LshHashTable {
    /// The buckets, in the order they were created.
    pub closed spec fn buckets_view(&self) -> Buckets {
        self.buckets@.map_values(|e: (Vec<i32>, Vec<u64>)| (e.0@, e.1@))
    }

    /// The number of hash functions the table was made for.
    pub closed spec fn functions(&self) -> usize {
        self.num_functions
    }

    /// Internal consistency: no two buckets share hash values.
    pub closed spec fn wf(&self) -> bool {
        distinct_keys(self.buckets_view())
    }

    /// An empty table.
    pub fn new(num_functions: usize) -> (t: Self)
        ensures
            t.wf(),
            t.buckets_view() == Seq::<(Seq<i32>, Seq<u64>)>::empty(),
            t.functions() == num_functions,
    {
        let t = LshHashTable { buckets: Vec::new(), num_functions };
        assert(t.buckets_view() =~= Seq::<(Seq<i32>, Seq<u64>)>::empty());
        t
    }

    /// Position of the bucket with the given hash values, if any.
    fn find(&self, hash_values: &[i32]) -> (r: Option<usize>)
        ensures
            match r {
                Some(i) => i as int == key_index(self.buckets_view(), hash_values@),
                None => key_index(self.buckets_view(), hash_values@) == -1,
            },
    {
        let ghost es = self.buckets_view();
        let n = self.buckets.len();
        let mut i: usize = 0;
        while i < n
            invariant
                n == self.buckets@.len(),
                es == self.buckets_view(),
                i <= n,
                key_index(es.subrange(0, i as int), hash_values@) == -1,
            decreases n - i,
        {
            proof {
                assert(es.subrange(0, i + 1).drop_last() =~= es.subrange(0, i as int));
                assert(es[i as int].0 == self.buckets@[i as int].0@);
            }
            if same_hash(self.buckets[i].0.as_slice(), hash_values) {
                proof {
                    lemma_key_index_prefix(es, hash_values@, i + 1);
                }
                return Some(i);
            }
            i += 1;
        }
        assert(es.subrange(0, n as int) =~= es);
        None
    }

    /// Store an id under the given hash values.
    pub fn insert(&mut self, hash_values: Vec<i32>, vector_id: u64)
        requires
            old(self).wf(),
        ensures
            final(self).wf(),
            final(self).buckets_view() == inserted(old(self).buckets_view(), hash_values@, vector_id),
            final(self).functions() == old(self).functions(),
    {
        let ghost es = self.buckets_view();
        proof {
            lemma_key_index_found(es, hash_values@);
        }
        match self.find(hash_values.as_slice()) {
            Some(i) => {
                let ghost old_ids = es[i as int].1;
                let mut entry = self.buckets.remove(i);
                entry.1.push(vector_id);
                self.buckets.insert(i, entry);
                proof {
                    assert(self.buckets_view() =~= es.update(i as int, (hash_values@, old_ids.push(vector_id))));
                    assert forall|a: int, b: int| 0 <= a < b < self.buckets_view().len() implies self.buckets_view()[a].0
                        != self.buckets_view()[b].0 by {
                        assert(self.buckets_view()[a].0 == es[a].0);
                        assert(self.buckets_view()[b].0 == es[b].0);
                    }
                }
            },
            None => {
                let ghost hv = hash_values@;
                let mut ids: Vec<u64> = Vec::new();
                ids.push(vector_id);
                self.buckets.push((hash_values, ids));
                proof {
                    assert(self.buckets_view() =~= es.push((hv, seq![vector_id])));
                    assert forall|a: int, b: int| 0 <= a < b < self.buckets_view().len() implies self.buckets_view()[a].0
                        != self.buckets_view()[b].0 by {
                        if b == es.len() {
                            assert(es[a].0 != hv);
                        }
                    }
                }
            },
        }
    }

    /// The ids stored under the given hash values.
    pub fn query(&self, hash_values: &[i32]) -> (r: Vec<u64>)
        ensures
            r@ == bucket_of(self.buckets_view(), hash_values@),
    {
        match self.find(hash_values) {
            Some(i) => {
                proof {
                    lemma_key_index_found(self.buckets_view(), hash_values@);
                }
                assert(self.buckets_view()[i as int].1 == self.buckets@[i as int].1@);
                slice_to_vec(self.buckets[i].1.as_slice())
            },
            None => Vec::new(),
        }
    }

    /// The ids under the hash values themselves, then under every probe at
    /// distance 1, 2, ... up to `max_distance`.
    pub fn multi_probe_query(&self, hash_values: &[i32], max_distance: usize) -> (r: Vec<u64>)
        requires
            probes_fit(hash_values@, max_distance as nat),
        ensures
            r@ == bucket_of(self.buckets_view(), hash_values@) + probe_results(
                self.buckets_view(),
                hash_values@,
                max_distance as nat,
            ),
    {
        let ghost es = self.buckets_view();
        let mut results = self.query(hash_values);
        let mut distance: usize = 0;
        while distance < max_distance
            invariant
                es == self.buckets_view(),
                distance <= max_distance,
                probes_fit(hash_values@, max_distance as nat),
                results@ == bucket_of(es, hash_values@) + probe_results(es, hash_values@, distance as nat),
            decreases max_distance - distance,
        {
            distance += 1;
            let probe_list = self.generate_probes(hash_values, distance);
            let ghost before = results@;
            let mut k: usize = 0;
            while k < probe_list.len()
                invariant
                    es == self.buckets_view(),
                    k <= probe_list@.len(),
                    results@ == before + concat_buckets(es, probe_list@.map_values(|p: Vec<i32>| p@).subrange(0, k as int)),
                decreases probe_list@.len() - k,
            {
                let mut found = self.query(probe_list[k].as_slice());
                results.append(&mut found);
                proof {
                    let ps = probe_list@.map_values(|p: Vec<i32>| p@);
                    assert(ps.subrange(0, k + 1).drop_last() =~= ps.subrange(0, k as int));
                    assert(ps.subrange(0, k + 1).last() == probe_list@[k as int]@);
                }
                k += 1;
            }
            proof {
                let ps = probe_list@.map_values(|p: Vec<i32>| p@);
                assert(ps.subrange(0, probe_list@.len() as int) =~= ps);
            }
        }
        results
    }

    /// The probes at a distance.
    pub fn generate_probes(&self, hash_values: &[i32], distance: usize) -> (r: Vec<Vec<i32>>)
        requires
            probes_fit(hash_values@, distance as nat),
        ensures
            r@.map_values(|p: Vec<i32>| p@) == probes(hash_values@, distance as nat),
    {
        let n = if hash_values.len() < distance { hash_values.len() } else { distance };
        let mut out: Vec<Vec<i32>> = Vec::new();
        let mut i: usize = 0;
        while i < n
            invariant
                n <= hash_values@.len(),
                n <= distance,
                n == (if hash_values@.len() < distance { hash_values@.len() } else { distance as nat }),
                probes_fit(hash_values@, distance as nat),
                i <= n,
                out@.map_values(|p: Vec<i32>| p@) == probes_upto(hash_values@, i as nat),
            decreases n - i,
        {
            let v = hash_values[i];
            assert(i32::MIN < v < i32::MAX);
            let mut down = slice_to_vec(hash_values);
            down.set(i, v - 1);
            let mut up = slice_to_vec(hash_values);
            up.set(i, v + 1);
            let ghost prev = out@;
            out.push(down);
            out.push(up);
            proof {
                let hv = hash_values@;
                assert(out@.map_values(|p: Vec<i32>| p@) =~= prev.map_values(|p: Vec<i32>| p@) + seq![
                    hv.update(i as int, (hv[i as int] - 1) as i32),
                    hv.update(i as int, (hv[i as int] + 1) as i32),
                ]);
            }
            i += 1;
        }
        out
    }

    /// Bytes held by the buckets: four per hash value and eight per id.
    pub fn memory_usage(&self) -> (r: usize)
        requires
            buckets_bytes(self.buckets_view()) <= usize::MAX,
        ensures
            r == buckets_bytes(self.buckets_view()),
    {
        let ghost es = self.buckets_view();
        let n = self.buckets.len();
        let mut size: usize = 0;
        let mut i: usize = 0;
        while i < n
            invariant
                n == self.buckets@.len(),
                es == self.buckets_view(),
                i <= n,
                size == buckets_bytes(es.subrange(0, i as int)),
                buckets_bytes(es) <= usize::MAX,
            decreases n - i,
        {
            proof {
                assert(es.subrange(0, i + 1).drop_last() =~= es.subrange(0, i as int));
                assert(es[i as int] == (self.buckets@[i as int].0@, self.buckets@[i as int].1@));
                lemma_buckets_bytes_prefix(es, i as int + 1);
            }
            size = size + self.buckets[i].0.len() * 4;
            size = size + self.buckets[i].1.len() * 8;
            i += 1;
        }
        assert(es.subrange(0, n as int) =~= es);
        size
    }
}

proof fn lemma_buckets_bytes_prefix(es: Buckets, k: int)
    requires
        0 <= k <= es.len(),
    ensures
        buckets_bytes(es.subrange(0, k)) <= buckets_bytes(es),
    decreases es.len() - k,
{
    if k < es.len() {
        lemma_buckets_bytes_prefix(es, k + 1);
        assert(es.subrange(0, k + 1).drop_last() =~= es.subrange(0, k));
    } else {
        assert(es.subrange(0, k) =~= es);
    }
}

/// Storing an id under hash values and then looking them up gives the ids
/// stored there before, followed by the new one; other hash values are not
/// affected.
pub proof fn lemma_insert_then_query(es: Buckets, k: Seq<i32>, id: u64, other: Seq<i32>)
    ensures
        bucket_of(inserted(es, k, id), k) == bucket_of(es, k).push(id),
        other != k ==> bucket_of(inserted(es, k, id), other) == bucket_of(es, other),
{
    lemma_key_index_found(es, k);
    lemma_key_index_found(es, other);
    let j = key_index(es, k);
    if j >= 0 {
        lemma_key_index_update(es, j, es[j].1.push(id), k);
        lemma_key_index_update(es, j, es[j].1.push(id), other);
        assert(es.update(j, (k, es[j].1.push(id))) == es.update(j, (es[j].0, es[j].1.push(id))));
        if other != k {
            let o = key_index(es, other);
            if o >= 0 {
                assert(o != j);
            }
        }
    } else {
        let p = es.push((k, seq![id]));
        assert(p.drop_last() =~= es);
        if other != k {
            assert(key_index(p, other) == key_index(es, other));
            if key_index(es, other) >= 0 {
                assert(p[key_index(es, other)] == es[key_index(es, other)]);
            }
        }
    }
}

/// The candidates after reading `ids` from the front into `s`, stopping as
/// soon as more than `limit` are held.
pub open spec fn absorb_ids(s: Set<u64>, ids: Seq<u64>, limit: nat) -> Set<u64>
    decreases ids.len(),
{
    if ids.len() == 0 {
        s
    } else {
        let s2 = s.insert(ids[0]);
        if s2.len() > limit {
            s2
        } else {
            absorb_ids(s2, ids.drop_first(), limit)
        }
    }
}

/// The candidates after reading the ids each table returned, table by
/// table; the limit cuts only the reading of the table at hand.
pub open spec fn absorb_tables(s: Set<u64>, tables: Seq<Seq<u64>>, limit: nat) -> Set<u64>
    decreases tables.len(),
{
    if tables.len() == 0 {
        s
    } else {
        absorb_tables(absorb_ids(s, tables[0], limit), tables.drop_first(), limit)
    }
}

/// The candidate set a search gathers from the ids each table returned.
pub open spec fn lsh_candidate_set(tables: Seq<Seq<u64>>, k: usize) -> Set<u64> {
    absorb_tables(Set::empty(), tables, (k * 1000) as nat)
}

/// The ids a search returns from what its tables returned: the `k` smallest
/// of the candidates gathered, in increasing order (every candidate is at
/// distance 0, so the order of ids decides). More than `k * 1000`
/// candidates are not gathered from one table.
pub fn lsh_candidates(tables: &Vec<Vec<u64>>, k: usize) -> (r: Vec<u64>)
    requires
        k * 1000 <= usize::MAX,
    ensures
        ({
            let cands = lsh_candidate_set(tables@.map_values(|t: Vec<u64>| t@), k);
            &&& cands.finite()
            &&& strictly_increasing(r@)
            &&& r@.len() == if k < cands.len() { k as nat } else { cands.len() }
            &&& forall|i: int| 0 <= i < r@.len() ==> cands.contains(#[trigger] r@[i])
            &&& forall|x: u64, i: int| #![trigger cands.contains(x), r@[i]] cands.contains(x) && !r@.contains(x) && 0 <= i < r@.len() ==> r@[i] < x
        }),
{
    let ghost views = tables@.map_values(|t: Vec<u64>| t@);
    let limit = k * 1000;
    let mut candidates: OrderedMap<()> = OrderedMap::new();
    proof {
        assert(candidates@.dom() =~= Set::<u64>::empty());
        assert(views.subrange(0, views.len() as int) =~= views);
    }
    let mut t: usize = 0;
    while t < tables.len()
        invariant
            views == tables@.map_values(|t: Vec<u64>| t@),
            limit == k * 1000,
            t <= tables@.len(),
            candidates.wf(),
            absorb_tables(candidates@.dom(), views.subrange(t as int, views.len() as int), limit as nat)
                == lsh_candidate_set(views, k),
        decreases tables@.len() - t,
    {
        let ids = &tables[t];
        let ghost rest = views.subrange(t + 1, views.len() as int);
        proof {
            assert(views.subrange(t as int, views.len() as int).drop_first() =~= rest);
            assert(views.subrange(t as int, views.len() as int)[0] == ids@);
            assert(ids@.subrange(0, ids@.len() as int) =~= ids@);
            assert(absorb_tables(candidates@.dom(), views.subrange(t as int, views.len() as int), limit as nat)
                == absorb_tables(absorb_ids(candidates@.dom(), ids@, limit as nat), rest, limit as nat));
        }
        let mut j: usize = 0;
        while j < ids.len()
            invariant
                candidates.wf(),
                j <= ids@.len(),
                limit == k * 1000,
                absorb_tables(absorb_ids(candidates@.dom(), ids@.subrange(j as int, ids@.len() as int), limit as nat), rest, limit as nat)
                    == lsh_candidate_set(views, k),
            decreases ids@.len() - j,
        {
            let id = ids[j];
            let ghost before = candidates@.dom();
            proof {
                assert(ids@.subrange(j as int, ids@.len() as int)[0] == id);
                assert(ids@.subrange(j as int, ids@.len() as int).drop_first() =~= ids@.subrange(j + 1, ids@.len() as int));
            }
            candidates.insert(id, ());
            proof {
                assert(candidates@.dom() =~= before.insert(id));
            }
            if candidates.len() > limit {
                proof {
                    candidates.lemma_len();
                    assert(absorb_ids(candidates@.dom(), ids@.subrange(ids@.len() as int, ids@.len() as int), limit as nat)
                        == candidates@.dom());
                }
                j = ids.len();
            } else {
                proof {
                    candidates.lemma_len();
                }
                j += 1;
            }
        }
        proof {
            assert(ids@.subrange(j as int, ids@.len() as int) =~= Seq::<u64>::empty());
        }
        t += 1;
    }
    proof {
        assert(views.subrange(t as int, views.len() as int) =~= Seq::<Seq<u64>>::empty());
        candidates.lemma_len();
    }
    let keys = candidates.keys();
    let wanted = if k * 10 < keys.len() { k * 10 } else { keys.len() };
    let wanted = if k < wanted { k } else { wanted };
    let mut r: Vec<u64> = Vec::new();
    let mut i: usize = 0;
    while i < wanted
        invariant
            wanted <= keys@.len(),
            i <= wanted,
            r@ == keys@.subrange(0, i as int),
        decreases wanted - i,
    {
        r.push(keys[i]);
        i += 1;
        assert(r@ =~= keys@.subrange(0, i as int));
    }
    proof {
        let cands = lsh_candidate_set(views, k);
        assert(cands == candidates@.dom());
        assert(keys@ == candidates.keys_seq());
        assert forall|a: int| 0 <= a < r@.len() implies cands.contains(#[trigger] r@[a]) by {
            candidates.lemma_entry(a);
        }
        assert forall|x: u64, a: int| #![trigger cands.contains(x), r@[a]] cands.contains(x) && !r@.contains(x) && 0 <= a < r@.len() implies r@[a] < x by {
            let p = candidates.lemma_key_position(x);
            if p < wanted {
                assert(r@[p] == x);
            }
        }
    }
    r
}

} // verus!
