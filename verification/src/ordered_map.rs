use vstd::prelude::*;

verus! {

/// A map from `u64` keys to values that keeps its entries in strictly
/// increasing key order, so that walking it yields the keys in the same
/// order as a `BTreeMap` would.
pub struct OrderedMap<V> {
    entries: Vec<(u64, V)>,
}

/// Keys strictly increasing along the sequence.
pub open spec fn strictly_increasing(s: Seq<u64>) -> bool {
    forall|i: int, j: int| 0 <= i < j < s.len() ==> s[i] < s[j]
}

/// Extending a prefix by one element adds that element to its set.
pub proof fn lemma_prefix_set_step<A>(s: Seq<A>, n: int)
    requires
        0 <= n < s.len(),
    ensures
        s.subrange(0, n + 1).to_set() == s.subrange(0, n).to_set().insert(s[n]),
{
    let a = s.subrange(0, n + 1);
    let b = s.subrange(0, n);
    assert forall|k: A| #[trigger] a.to_set().contains(k) == b.to_set().insert(s[n]).contains(k) by {
        if a.contains(k) {
            let j = choose|j: int| #![trigger a[j]] 0 <= j < a.len() && a[j] == k;
            if j < n {
                assert(b[j] == k);
            }
        }
        if b.contains(k) {
            let j = choose|j: int| #![trigger b[j]] 0 <= j < b.len() && b[j] == k;
            assert(a[j] == k);
        }
        if k == s[n] {
            assert(a[n] == k);
        }
    }
    assert(a.to_set() =~= b.to_set().insert(s[n]));
}

/// Dropping the first element of a suffix of a strictly increasing sequence
/// removes that element from its set.
pub proof fn lemma_suffix_set_step(s: Seq<u64>, n: int)
    requires
        0 <= n < s.len(),
        strictly_increasing(s),
    ensures
        s.subrange(n + 1, s.len() as int).to_set() == s.subrange(n, s.len() as int).to_set().remove(s[n]),
{
    let a = s.subrange(n + 1, s.len() as int);
    let b = s.subrange(n, s.len() as int);
    assert forall|k: u64| #[trigger] a.to_set().contains(k) == b.to_set().remove(s[n]).contains(k) by {
        if a.contains(k) {
            let j = choose|j: int| #![trigger a[j]] 0 <= j < a.len() && a[j] == k;
            assert(s[n + 1 + j] == k);
            assert(s[n] < s[n + 1 + j]);
            assert(b[j + 1] == k);
        }
        if b.contains(k) && k != s[n] {
            let j = choose|j: int| #![trigger b[j]] 0 <= j < b.len() && b[j] == k;
            assert(j != 0);
            assert(a[j - 1] == k);
        }
    }
    assert(a.to_set() =~= b.to_set().remove(s[n]));
}

/// In a strictly increasing sequence, an element is not in the prefix
/// before its own position.
pub proof fn lemma_not_in_prefix(s: Seq<u64>, n: int)
    requires
        0 <= n < s.len(),
        strictly_increasing(s),
    ensures
        !s.subrange(0, n).contains(s[n]),
{
    let b = s.subrange(0, n);
    if b.contains(s[n]) {
        let j = choose|j: int| #![trigger b[j]] 0 <= j < b.len() && b[j] == s[n];
        assert(s[j] < s[n]);
    }
}

/// For a strictly increasing sequence, dropping the last element removes
/// it from the set.
pub proof fn lemma_drop_last_set(s: Seq<u64>)
    requires
        s.len() > 0,
        strictly_increasing(s),
    ensures
        s.drop_last().to_set() == s.to_set().remove(s.last()),
{
    let d = s.drop_last();
    assert forall|k: u64| #[trigger] d.to_set().contains(k) == s.to_set().remove(s.last()).contains(k) by {
        if d.contains(k) {
            let j = choose|j: int| 0 <= j < d.len() && d[j] == k;
            assert(s[j] == k);
            assert(s[j] < s[s.len() - 1]);
        }
        if s.contains(k) && k != s.last() {
            let j = choose|j: int| 0 <= j < s.len() && s[j] == k;
            assert(j != s.len() - 1);
            assert(d[j] == k);
        }
    }
    assert(d.to_set() =~= s.to_set().remove(s.last()));
}

/// Two strictly increasing sequences with the same elements are equal.
pub proof fn lemma_sorted_same_set_equal(s: Seq<u64>, t: Seq<u64>)
    requires
        strictly_increasing(s),
        strictly_increasing(t),
        s.to_set() == t.to_set(),
    ensures
        s == t,
    decreases s.len(),
{
    if s.len() == 0 {
        if t.len() > 0 {
            assert(t.to_set().contains(t[0]));
        }
        assert(s =~= t);
    } else if t.len() == 0 {
        assert(s.to_set().contains(s[0]));
    } else {
        let a = s.last();
        let b = t.last();
        assert(s.to_set().contains(a));
        assert(t.to_set().contains(b));
        let j = choose|j: int| 0 <= j < t.len() && t[j] == a;
        let k = choose|k: int| 0 <= k < s.len() && s[k] == b;
        if j < t.len() - 1 {
            assert(t[j] < t[t.len() - 1]);
        }
        if k < s.len() - 1 {
            assert(s[k] < s[s.len() - 1]);
        }
        assert(a == b);
        lemma_drop_last_set(s);
        lemma_drop_last_set(t);
        lemma_sorted_same_set_equal(s.drop_last(), t.drop_last());
        assert(s =~= s.drop_last().push(a));
        assert(t =~= t.drop_last().push(b));
    }
}

/// Filtering a strictly increasing sequence keeps it strictly increasing
/// and keeps only its elements.
pub proof fn lemma_filter_increasing(s: Seq<u64>, p: spec_fn(u64) -> bool)
    requires
        strictly_increasing(s),
    ensures
        strictly_increasing(s.filter(p)),
        s.filter(p).no_duplicates(),
        s.filter(p).to_set().subset_of(s.to_set()),
    decreases s.len(),
{
    reveal_with_fuel(Seq::<_>::filter, 1);
    if s.len() > 0 {
        let d = s.drop_last();
        lemma_filter_increasing(d, p);
        let f = d.filter(p);
        assert forall|i: int| 0 <= i < f.len() implies #[trigger] f[i] < s.last() by {
            assert(f.to_set().contains(f[i]));
            assert(d.to_set().contains(f[i]));
            let j = choose|j: int| 0 <= j < d.len() && d[j] == f[i];
            assert(s[j] < s[s.len() - 1]);
        }
        assert(s.filter(p).to_set().subset_of(s.to_set())) by {
            assert forall|x: u64| s.filter(p).to_set().contains(x) implies s.to_set().contains(x) by {
                let k = choose|k: int| 0 <= k < s.filter(p).len() && s.filter(p)[k] == x;
                if k < f.len() {
                    assert(f.to_set().contains(x));
                    let j = choose|j: int| 0 <= j < d.len() && d[j] == x;
                    assert(s[j] == x);
                } else {
                    assert(x == s.last());
                    assert(s[s.len() - 1] == x);
                }
            }
        }
    }
}

/// Two well-formed maps with the same keys list them in the same order.
pub proof fn lemma_same_dom_same_keys<V, W>(a: &OrderedMap<V>, b: &OrderedMap<W>)
    requires
        a.wf(),
        b.wf(),
        a@.dom() == b@.dom(),
    ensures
        a.keys_seq() == b.keys_seq(),
{
    a.lemma_len();
    b.lemma_len();
    lemma_sorted_same_set_equal(a.keys_seq(), b.keys_seq());
}

impl<V> OrderedMap<V> {
    /// The entries, in key order.
    pub closed spec fn entries_seq(&self) -> Seq<(u64, V)> {
        self.entries@
    }

    /// The keys, in increasing order.
    pub open spec fn keys_seq(&self) -> Seq<u64> {
        self.entries_seq().map_values(|e: (u64, V)| e.0)
    }

    /// The value stored at position `i` of the key order.
    pub open spec fn value_seq(&self, i: int) -> V {
        self.entries_seq()[i].1
    }

    /// Well-formedness: keys strictly increasing.
    pub open spec fn wf(&self) -> bool {
        strictly_increasing(self.keys_seq())
    }

    /// The abstract map.
    pub open spec fn view(&self) -> Map<u64, V> {
        Map::new(
            |k: u64| self.keys_seq().contains(k),
            |k: u64| self.value_seq(self.keys_seq().index_of(k)),
        )
    }

    /// Number of entries.
    pub open spec fn spec_len(&self) -> nat {
        self.keys_seq().len()
    }

    /// The entry at position `i` of the key order maps its key to its value.
    pub proof fn lemma_entry(&self, i: int)
        requires
            self.wf(),
            0 <= i < self.keys_seq().len(),
        ensures
            self@.contains_key(self.keys_seq()[i]),
            self@[self.keys_seq()[i]] == self.value_seq(i),
            self.keys_seq().index_of(self.keys_seq()[i]) == i,
    {
        let k = self.keys_seq()[i];
        assert(self.keys_seq().contains(k));
        let j = self.keys_seq().index_of(k);
        assert(0 <= j < self.keys_seq().len() && self.keys_seq()[j] == k);
        if j < i {
            assert(self.keys_seq()[j] < self.keys_seq()[i]);
        } else if i < j {
            assert(self.keys_seq()[i] < self.keys_seq()[j]);
        }
    }

    /// Every key of the map sits at some position of the key order.
    pub proof fn lemma_key_position(&self, k: u64) -> (i: int)
        requires
            self.wf(),
            self@.contains_key(k),
        ensures
            0 <= i < self.keys_seq().len(),
            self.keys_seq()[i] == k,
            self@[k] == self.value_seq(i),
    {
        let i = self.keys_seq().index_of(k);
        self.lemma_entry(i);
        i
    }

    /// The domain of the map has exactly as many keys as there are entries.
    pub proof fn lemma_len(&self)
        requires
            self.wf(),
        ensures
            self@.dom() == self.keys_seq().to_set(),
            self@.dom().len() == self.spec_len(),
            self@.dom().finite(),
    {
        assert(self@.dom() =~= self.keys_seq().to_set());
        assert(self.keys_seq().no_duplicates()) by {
            assert forall|i: int, j: int|
                0 <= i < self.keys_seq().len() && 0 <= j < self.keys_seq().len() && i != j
                implies self.keys_seq()[i] != self.keys_seq()[j] by {
                if i < j {
                } else {
                }
            }
        }
        self.keys_seq().unique_seq_to_set();
    }

    /// An empty map.
    pub fn new() -> (m: Self)
        ensures
            m.wf(),
            m@ == Map::<u64, V>::empty(),
            m.keys_seq() == Seq::<u64>::empty(),
    {
        let m = OrderedMap { entries: Vec::new() };
        assert(m.keys_seq() =~= Seq::<u64>::empty());
        assert(m@ =~= Map::<u64, V>::empty());
        m
    }

    /// Number of entries.
    pub fn len(&self) -> (n: usize)
        requires
            self.wf(),
        ensures
            n == self.spec_len(),
            n == self@.dom().len(),
    {
        proof {
            self.lemma_len();
        }
        self.entries.len()
    }

    /// Whether the map holds no entry.
    pub fn is_empty(&self) -> (b: bool)
        requires
            self.wf(),
        ensures
            b == (self.spec_len() == 0),
            b == (self@.dom().len() == 0),
            b == (self@ == Map::<u64, V>::empty()),
    {
        proof {
            self.lemma_len();
            if self.spec_len() == 0 {
                assert(self@ =~= Map::<u64, V>::empty());
            } else {
                self.lemma_entry(0);
            }
        }
        self.entries.len() == 0
    }

    /// Key at position `i` of the key order.
    pub fn key_at(&self, i: usize) -> (k: u64)
        requires
            i < self.spec_len(),
        ensures
            k == self.keys_seq()[i as int],
    {
        self.entries[i].0
    }

    /// Value at position `i` of the key order.
    pub fn value_at(&self, i: usize) -> (v: &V)
        requires
            i < self.spec_len(),
        ensures
            *v == self.value_seq(i as int),
    {
        &self.entries[i].1
    }

    /// Position of the first key not below `k`, and whether it equals `k`.
    fn find(&self, k: u64) -> (r: (usize, bool))
        requires
            self.wf(),
        ensures
            r.0 <= self.spec_len(),
            forall|j: int| 0 <= j < r.0 ==> self.keys_seq()[j] < k,
            r.1 ==> r.0 < self.spec_len() && self.keys_seq()[r.0 as int] == k,
            !r.1 ==> (r.0 < self.spec_len() ==> self.keys_seq()[r.0 as int] > k),
    {
        let mut i: usize = 0;
        while i < self.entries.len()
            invariant
                i <= self.entries@.len(),
                self.wf(),
                forall|j: int| 0 <= j < i ==> self.keys_seq()[j] < k,
            decreases self.entries@.len() - i,
        {
            let key = self.entries[i].0;
            assert(key == self.keys_seq()[i as int]);
            if key == k {
                return (i, true);
            }
            if key > k {
                return (i, false);
            }
            i = i + 1;
        }
        (i, false)
    }

    /// Whether `k` is a key of the map.
    pub fn contains_key(&self, k: u64) -> (b: bool)
        requires
            self.wf(),
        ensures
            b == self@.contains_key(k),
    {
        let (i, found) = self.find(k);
        proof {
            if !found && self@.contains_key(k) {
                let p = self.lemma_key_position(k);
                if p < i {
                } else if p == i {
                } else {
                    assert(self.keys_seq()[i as int] < self.keys_seq()[p]);
                }
            }
        }
        found
    }

    /// The value stored under `k`, if any.
    pub fn get(&self, k: u64) -> (r: Option<&V>)
        requires
            self.wf(),
        ensures
            match r {
                Some(v) => self@.contains_key(k) && *v == self@[k],
                None => !self@.contains_key(k),
            },
    {
        let (i, found) = self.find(k);
        if found {
            proof {
                self.lemma_entry(i as int);
            }
            Some(&self.entries[i].1)
        } else {
            proof {
                if self@.contains_key(k) {
                    let p = self.lemma_key_position(k);
                    if p > i {
                        assert(self.keys_seq()[i as int] < self.keys_seq()[p]);
                    }
                }
            }
            None
        }
    }

    /// Stores `v` under `k`, handing back the value it replaces.
    pub fn insert(&mut self, k: u64, v: V) -> (r: Option<V>)
        requires
            old(self).wf(),
        ensures
            final(self).wf(),
            final(self)@ == old(self)@.insert(k, v),
            match r {
                Some(ov) => old(self)@.contains_key(k) && ov == old(self)@[k],
                None => !old(self)@.contains_key(k),
            },
            old(self)@.contains_key(k) ==> final(self).keys_seq() == old(self).keys_seq(),
    {
        let ghost old_map = self@;
        let ghost old_keys = self.keys_seq();
        let (i, found) = self.find(k);
        if found {
            proof {
                self.lemma_entry(i as int);
            }
            let (_, ov) = self.entries.remove(i);
            self.entries.insert(i, (k, v));
            assert(self.keys_seq() =~= old_keys);
            assert(self@ =~= old_map.insert(k, v)) by {
                assert forall|key: u64| #[trigger] self@.contains_key(key) == old_map.insert(k, v).contains_key(key) by {}
                assert forall|key: u64| self@.contains_key(key) implies #[trigger] self@[key] == old_map.insert(k, v)[key] by {
                    let p = self.lemma_key_position(key);
                    if key != k {
                        self.lemma_entry(p);
                    }
                }
            }
            Some(ov)
        } else {
            proof {
                if old_map.contains_key(k) {
                    let p = self.lemma_key_position(k);
                    if p > i {
                        assert(self.keys_seq()[i as int] < self.keys_seq()[p]);
                    }
                }
            }
            let ghost old_entries = self.entries@;
            self.entries.insert(i, (k, v));
            assert(self.entries@ == old_entries.insert(i as int, (k, v)));
            assert(self.keys_seq() =~= old_keys.insert(i as int, k));
            proof {
                assert forall|a: int, b: int| 0 <= a < b < self.keys_seq().len() implies self.keys_seq()[a] < self.keys_seq()[b] by {
                    if b < i {
                    } else if b == i {
                    } else if a < i {
                        assert(old_keys[a] < old_keys[b - 1] || a == b - 1 || old_keys[a] < k);
                    } else if a == i {
                        if b - 1 >= i && i < old_keys.len() {
                            assert(old_keys[i as int] > k);
                            if b - 1 > i {
                                assert(old_keys[i as int] < old_keys[b - 1]);
                            }
                        }
                    } else {
                    }
                }
                assert(self@ =~= old_map.insert(k, v)) by {
                    assert forall|key: u64| #[trigger] self@.contains_key(key) == old_map.insert(k, v).contains_key(key) by {
                        if key == k {
                            assert(self.keys_seq()[i as int] == k);
                            assert(self.keys_seq().contains(k));
                        }
                        if key != k && old_map.contains_key(key) {
                            let q = choose|q: int| 0 <= q < old_keys.len() && old_keys[q] == key;
                            if q < i {
                                assert(self.keys_seq()[q] == key);
                                assert(self.keys_seq().contains(key));
                            } else {
                                assert(self.keys_seq()[q + 1] == key);
                                assert(self.keys_seq().contains(key));
                            }
                        }
                        if self@.contains_key(key) && key != k {
                            let p = self.lemma_key_position(key);
                            if p < i {
                                assert(old_keys[p] == key);
                                assert(old_keys.contains(key));
                            } else if p > i {
                                assert(old_keys[p - 1] == key);
                                assert(old_keys.contains(key));
                            }
                        }
                    }
                    assert forall|key: u64| self@.contains_key(key) implies #[trigger] self@[key] == old_map.insert(k, v)[key] by {
                        let p = self.lemma_key_position(key);
                        if key != k {
                            assert(p != i);
                            if p < i {
                                assert(old_keys[p] == key);
                                assert(old_entries[p] == self.entries@[p]);
                                assert(old_map.contains_key(key)) by {
                                    assert(old_keys.contains(key));
                                }
                                self.old_index_lemma(old_keys, old_entries, key, p);
                            } else {
                                assert(old_keys[p - 1] == key);
                                assert(old_entries[p - 1] == self.entries@[p]);
                                self.old_index_lemma(old_keys, old_entries, key, p - 1);
                            }
                        }
                    }
                }
            }
            None
        }
    }

    /// Removes `k`, handing back the value it held.
    pub fn remove(&mut self, k: u64) -> (r: Option<V>)
        requires
            old(self).wf(),
        ensures
            final(self).wf(),
            final(self)@ == old(self)@.remove(k),
            match r {
                Some(ov) => old(self)@.contains_key(k) && ov == old(self)@[k],
                None => !old(self)@.contains_key(k),
            },
            !old(self)@.contains_key(k) ==> final(self).keys_seq() == old(self).keys_seq(),
    {
        let ghost old_map = self@;
        let ghost old_keys = self.keys_seq();
        let ghost old_entries = self.entries@;
        let (i, found) = self.find(k);
        if found {
            proof {
                self.lemma_entry(i as int);
            }
            let (_, ov) = self.entries.remove(i);
            assert(self.entries@ == old_entries.remove(i as int));
            assert(self.keys_seq() =~= old_keys.remove(i as int));
            proof {
                assert forall|a: int, b: int| 0 <= a < b < self.keys_seq().len() implies self.keys_seq()[a] < self.keys_seq()[b] by {
                    if a < i && b < i {
                    } else if a < i {
                        assert(old_keys[a] < old_keys[b + 1]);
                    } else {
                        assert(old_keys[a + 1] < old_keys[b + 1]);
                    }
                }
                assert(self@ =~= old_map.remove(k)) by {
                    assert forall|key: u64| #[trigger] self@.contains_key(key) == old_map.remove(k).contains_key(key) by {
                        if key != k && old_map.contains_key(key) {
                            let q = choose|q: int| 0 <= q < old_keys.len() && old_keys[q] == key;
                            if q < i {
                                assert(self.keys_seq()[q] == key);
                                assert(self.keys_seq().contains(key));
                            } else {
                                assert(q != i);
                                assert(self.keys_seq()[q - 1] == key);
                                assert(self.keys_seq().contains(key));
                            }
                        }
                        if self@.contains_key(key) {
                            let p = self.lemma_key_position(key);
                            if p < i {
                                assert(old_keys[p] == key);
                                assert(old_keys.contains(key));
                                assert(old_keys[p] < old_keys[i as int]);
                            } else {
                                assert(old_keys[p + 1] == key);
                                assert(old_keys.contains(key));
                                assert(old_keys[i as int] < old_keys[p + 1]);
                            }
                        }
                    }
                    assert forall|key: u64| self@.contains_key(key) implies #[trigger] self@[key] == old_map.remove(k)[key] by {
                        let p = self.lemma_key_position(key);
                        if p < i {
                            assert(old_keys[p] == key);
                            assert(old_entries[p] == self.entries@[p]);
                            assert(old_keys[p] < old_keys[i as int]);
                            self.old_index_lemma(old_keys, old_entries, key, p);
                        } else {
                            assert(old_keys[p + 1] == key);
                            assert(old_entries[p + 1] == self.entries@[p]);
                            assert(old_keys[i as int] < old_keys[p + 1]);
                            self.old_index_lemma(old_keys, old_entries, key, p + 1);
                        }
                    }
                }
            }
            Some(ov)
        } else {
            proof {
                if old_map.contains_key(k) {
                    let p = self.lemma_key_position(k);
                    if p > i {
                        assert(self.keys_seq()[i as int] < self.keys_seq()[p]);
                    }
                }
                assert(self@ =~= old_map.remove(k));
            }
            None
        }
    }

    /// The keys, in increasing order.
    pub fn keys(&self) -> (r: Vec<u64>)
        requires
            self.wf(),
        ensures
            r@ == self.keys_seq(),
    {
        let mut r: Vec<u64> = Vec::new();
        let mut i: usize = 0;
        while i < self.entries.len()
            invariant
                i <= self.entries@.len(),
                r@ == self.keys_seq().subrange(0, i as int),
            decreases self.entries@.len() - i,
        {
            r.push(self.entries[i].0);
            i = i + 1;
            assert(r@ =~= self.keys_seq().subrange(0, i as int));
        }
        assert(r@ =~= self.keys_seq());
        r
    }

    /// Helper: the value an old sorted key sequence gives `key` is the entry at `q`.
    proof fn old_index_lemma(&self, old_keys: Seq<u64>, old_entries: Seq<(u64, V)>, key: u64, q: int)
        requires
            strictly_increasing(old_keys),
            old_keys == old_entries.map_values(|e: (u64, V)| e.0),
            0 <= q < old_keys.len(),
            old_keys[q] == key,
        ensures
            old_keys.index_of(key) == q,
    {
        assert(old_keys.contains(key));
        let j = old_keys.index_of(key);
        if j < q {
            assert(old_keys[j] < old_keys[q]);
        } else if j > q {
            assert(old_keys[q] < old_keys[j]);
        }
    }
}

} // verus!
