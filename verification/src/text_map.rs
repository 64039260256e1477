//! A map keyed by texts that keeps its entries in the order of their keys,
//! compared character by character as `String` compares them.

use vstd::prelude::*;
use vstd::string::*;

verus! {

/// Whether text `a` sorts before text `b`: at the first position where
/// they differ `a` has the smaller character, or `a` is a proper prefix of
/// `b`.
pub open spec fn text_lt(a: Seq<char>, b: Seq<char>) -> bool {
    exists|k: int| #![trigger a.subrange(0, k), b.subrange(0, k)] text_lt_at(a, b, k)
}

/// `a` and `b` agree before position `k`, and `k` is where `a` sorts
/// before `b`.
pub open spec fn text_lt_at(a: Seq<char>, b: Seq<char>, k: int) -> bool {
    &&& 0 <= k <= a.len()
    &&& k <= b.len()
    &&& a.subrange(0, k) == b.subrange(0, k)
    &&& ((k == a.len() && k < b.len()) || (k < a.len() && k < b.len() && (a[k] as u32) < (b[k] as u32)))
}

/// No text sorts before itself.
pub proof fn lemma_text_lt_irreflexive(a: Seq<char>)
    ensures
        !text_lt(a, a),
{
}

/// Sorting before is transitive.
pub proof fn lemma_text_lt_transitive(a: Seq<char>, b: Seq<char>, c: Seq<char>)
    requires
        text_lt(a, b),
        text_lt(b, c),
    ensures
        text_lt(a, c),
{
    let k1 = choose|k: int| text_lt_at(a, b, k);
    let k2 = choose|k: int| text_lt_at(b, c, k);
    assert forall|j: int| 0 <= j < k1 implies a[j] == b[j] by {
        assert(a.subrange(0, k1)[j] == b.subrange(0, k1)[j]);
    }
    assert forall|j: int| 0 <= j < k2 implies b[j] == c[j] by {
        assert(b.subrange(0, k2)[j] == c.subrange(0, k2)[j]);
    }
    let k = if k1 < k2 { k1 } else { k2 };
    assert(a.subrange(0, k) =~= c.subrange(0, k));
    assert(text_lt_at(a, c, k));
}

/// Two texts that do not sort before each other are equal.
pub proof fn lemma_text_lt_antisymmetric(a: Seq<char>, b: Seq<char>)
    requires
        text_lt(a, b),
    ensures
        !text_lt(b, a),
        a != b,
{
    if text_lt(b, a) {
        lemma_text_lt_transitive(a, b, a);
    }
}

/// Compare two texts: negative when `a` sorts first, zero when equal,
/// positive when `b` sorts first.
pub fn compare_texts(a: &str, b: &str) -> (r: i8)
    ensures
        r < 0 <==> text_lt(a@, b@),
        r == 0 <==> a@ == b@,
        r > 0 <==> text_lt(b@, a@),
{
    let n = a.unicode_len();
    let m = b.unicode_len();
    let mut i: usize = 0;
    while i < n && i < m
        invariant
            n == a@.len(),
            m == b@.len(),
            i <= n,
            i <= m,
            a@.subrange(0, i as int) == b@.subrange(0, i as int),
        decreases n - i,
    {
        let ca = a.get_char(i);
        let cb = b.get_char(i);
        if (ca as u32) < (cb as u32) {
            assert(text_lt_at(a@, b@, i as int));
            proof {
                lemma_text_lt_antisymmetric(a@, b@);
            }
            return -1;
        }
        if (cb as u32) < (ca as u32) {
            assert(text_lt_at(b@, a@, i as int));
            proof {
                lemma_text_lt_antisymmetric(b@, a@);
            }
            return 1;
        }
        assert(ca == cb);
        assert(a@.subrange(0, i + 1) =~= a@.subrange(0, i as int).push(ca));
        assert(b@.subrange(0, i + 1) =~= b@.subrange(0, i as int).push(cb));
        i += 1;
    }
    if n < m {
        assert(text_lt_at(a@, b@, i as int)) by {
            assert(a@.subrange(0, i as int) =~= a@);
        }
        proof {
            lemma_text_lt_antisymmetric(a@, b@);
        }
        -1
    } else if m < n {
        assert(text_lt_at(b@, a@, i as int)) by {
            assert(b@.subrange(0, i as int) =~= b@);
        }
        proof {
            lemma_text_lt_antisymmetric(b@, a@);
        }
        1
    } else {
        assert(a@ =~= a@.subrange(0, i as int));
        assert(b@ =~= b@.subrange(0, i as int));
        proof {
            lemma_text_lt_irreflexive(a@);
        }
        0
    }
}

/// Keys strictly increasing along the sequence.
pub open spec fn texts_increasing(s: Seq<Seq<char>>) -> bool {
    forall|i: int, j: int| 0 <= i < j < s.len() ==> text_lt(s[i], s[j])
}

/// A map from texts to values that keeps its entries in increasing key
/// order, so that walking it yields the keys as a `BTreeMap` would.
pub struct TextMap<V> {
    entries: Vec<(String, V)>,
}

impl<V> TextMap<V> {
    /// The entries, in key order.
    pub closed spec fn entries_seq(&self) -> Seq<(String, V)> {
        self.entries@
    }

    /// The keys, in increasing order.
    pub open spec fn keys_seq(&self) -> Seq<Seq<char>> {
        self.entries_seq().map_values(|e: (String, V)| e.0@)
    }

    /// The value stored at position `i` of the key order.
    pub open spec fn value_seq(&self, i: int) -> V {
        self.entries_seq()[i].1
    }

    /// The values, in the order of their keys.
    pub open spec fn values_seq(&self) -> Seq<V> {
        self.entries_seq().map_values(|e: (String, V)| e.1)
    }

    /// The value list has one value per key, the one at each position.
    pub proof fn lemma_values(&self)
        ensures
            self.values_seq().len() == self.spec_len(),
            forall|i: int| 0 <= i < self.spec_len() ==> #[trigger] self.values_seq()[i] == self.value_seq(i),
    {
    }

    /// Well-formedness: keys strictly increasing.
    pub open spec fn wf(&self) -> bool {
        texts_increasing(self.keys_seq())
    }

    /// The abstract map.
    pub open spec fn view(&self) -> Map<Seq<char>, V> {
        Map::new(
            |k: Seq<char>| self.keys_seq().contains(k),
            |k: Seq<char>| self.value_seq(self.keys_seq().index_of(k)),
        )
    }

    /// Number of entries.
    pub open spec fn spec_len(&self) -> nat {
        self.keys_seq().len()
    }

    /// The entry at position `i` maps its key to its value.
    pub proof fn lemma_entry(&self, i: int)
        requires
            self.wf(),
            0 <= i < self.keys_seq().len(),
        ensures
            self@.contains_key(self.keys_seq()[i]),
            self@[self.keys_seq()[i]] == self.value_seq(i),
            self.keys_seq().index_of(self.keys_seq()[i]) == i,
    {
        let k = self.keys_seq()[i];
        assert(self.keys_seq().contains(k));
        let j = self.keys_seq().index_of(k);
        if j < i {
            lemma_text_lt_irreflexive(k);
        } else if i < j {
            lemma_text_lt_irreflexive(k);
        }
    }

    /// Every key of the map sits at some position of the key order.
    pub proof fn lemma_key_position(&self, k: Seq<char>) -> (i: int)
        requires
            self.wf(),
            self@.contains_key(k),
        ensures
            0 <= i < self.keys_seq().len(),
            self.keys_seq()[i] == k,
            self@[k] == self.value_seq(i),
    {
        let i = self.keys_seq().index_of(k);
        self.lemma_entry(i);
        i
    }

    /// The domain of the map has as many keys as there are entries.
    pub proof fn lemma_len(&self)
        requires
            self.wf(),
        ensures
            self@.dom() == self.keys_seq().to_set(),
            self@.dom().len() == self.spec_len(),
            self@.dom().finite(),
    {
        assert(self@.dom() =~= self.keys_seq().to_set());
        assert(self.keys_seq().no_duplicates()) by {
            assert forall|i: int, j: int|
                0 <= i < self.keys_seq().len() && 0 <= j < self.keys_seq().len() && i != j
                implies self.keys_seq()[i] != self.keys_seq()[j] by {
                if i < j {
                    lemma_text_lt_irreflexive(self.keys_seq()[i]);
                } else {
                    lemma_text_lt_irreflexive(self.keys_seq()[j]);
                }
            }
        }
        self.keys_seq().unique_seq_to_set();
    }

    /// An empty map.
    pub fn new() -> (m: Self)
        ensures
            m.wf(),
            m@ == Map::<Seq<char>, V>::empty(),
            m.keys_seq() == Seq::<Seq<char>>::empty(),
    {
        let m = TextMap { entries: Vec::new() };
        assert(m.keys_seq() =~= Seq::<Seq<char>>::empty());
        assert(m@ =~= Map::<Seq<char>, V>::empty());
        m
    }

    /// Number of entries.
    pub fn len(&self) -> (n: usize)
        requires
            self.wf(),
        ensures
            n == self.spec_len(),
            n == self@.dom().len(),
    {
        proof {
            self.lemma_len();
        }
        self.entries.len()
    }

    /// Key at position `i` of the key order.
    pub fn key_at(&self, i: usize) -> (k: &String)
        requires
            i < self.spec_len(),
        ensures
            k@ == self.keys_seq()[i as int],
    {
        &self.entries[i].0
    }

    /// Value at position `i` of the key order.
    pub fn value_at(&self, i: usize) -> (v: &V)
        requires
            i < self.spec_len(),
        ensures
            *v == self.value_seq(i as int),
    {
        &self.entries[i].1
    }

    /// Replace the value at position `i` of the key order.
    pub fn set_value_at(&mut self, i: usize, v: V)
        requires
            old(self).wf(),
            i < old(self).spec_len(),
        ensures
            final(self).wf(),
            final(self).keys_seq() == old(self).keys_seq(),
            final(self)@ == old(self)@.insert(old(self).keys_seq()[i as int], v),
            forall|j: int| 0 <= j < final(self).spec_len() && j != i ==> final(self).value_seq(j) == old(self).value_seq(j),
            final(self).value_seq(i as int) == v,
            final(self).values_seq() == old(self).values_seq().update(i as int, v),
    {
        let ghost old_map = self@;
        let ghost old_keys = self.keys_seq();
        let ghost k = old_keys[i as int];
        proof {
            self.lemma_entry(i as int);
        }
        let ghost old_values = self.values_seq();
        let (key, _) = self.entries.remove(i);
        self.entries.insert(i, (key, v));
        assert(self.keys_seq() =~= old_keys);
        assert(self.values_seq() =~= old_values.update(i as int, v));
        assert(self@ =~= old_map.insert(k, v)) by {
            assert forall|key: Seq<char>| self@.contains_key(key) implies #[trigger] self@[key] == old_map.insert(k, v)[key] by {
                let p = self.lemma_key_position(key);
                if key != k {
                    self.lemma_entry(p);
                } else {
                    self.lemma_entry(i as int);
                }
            }
        }
    }

    /// The value at position `i` of the key order, to be changed in place.
    pub fn value_mut_at(&mut self, i: usize) -> (v: &mut V)
        requires
            old(self).wf(),
            i < old(self).spec_len(),
        ensures
            *v == old(self).value_seq(i as int),
            final(self).entries_seq() == old(self).entries_seq().update(
                i as int,
                (old(self).entries_seq()[i as int].0, *final(v)),
            ),
    {
        let e = &mut self.entries[i];
        &mut e.1
    }

    /// After the value at position `i` changed to `x`, the keys stay and
    /// the key there maps to `x`.
    pub proof fn lemma_value_changed(old_map: &Self, new_map: &Self, i: int, x: V)
        requires
            old_map.wf(),
            0 <= i < old_map.spec_len(),
            new_map.entries_seq() == old_map.entries_seq().update(i, (old_map.entries_seq()[i].0, x)),
        ensures
            new_map.wf(),
            new_map.keys_seq() == old_map.keys_seq(),
            new_map@ == old_map@.insert(old_map.keys_seq()[i], x),
            new_map.value_seq(i) == x,
            forall|j: int| 0 <= j < new_map.spec_len() && j != i ==> new_map.value_seq(j) == old_map.value_seq(j),
            new_map.values_seq() == old_map.values_seq().update(i, x),
    {
        assert(new_map.values_seq() =~= old_map.values_seq().update(i, x));
        let k = old_map.keys_seq()[i];
        assert(new_map.keys_seq() =~= old_map.keys_seq());
        old_map.lemma_entry(i);
        assert(new_map@ =~= old_map@.insert(k, x)) by {
            assert forall|key: Seq<char>| new_map@.contains_key(key) implies #[trigger] new_map@[key] == old_map@.insert(k, x)[key] by {
                let p = new_map.lemma_key_position(key);
                if key != k {
                    old_map.lemma_entry(p);
                } else {
                    new_map.lemma_entry(i);
                }
            }
        }
    }

    /// Position of the first key not below `k`, and whether it equals `k`.
    fn find(&self, k: &str) -> (r: (usize, bool))
        requires
            self.wf(),
        ensures
            r.0 <= self.spec_len(),
            forall|j: int| 0 <= j < r.0 ==> text_lt(#[trigger] self.keys_seq()[j], k@),
            r.1 ==> r.0 < self.spec_len() && self.keys_seq()[r.0 as int] == k@,
            !r.1 ==> (r.0 < self.spec_len() ==> text_lt(k@, self.keys_seq()[r.0 as int])),
    {
        let mut i: usize = 0;
        while i < self.entries.len()
            invariant
                i <= self.entries@.len(),
                self.wf(),
                forall|j: int| 0 <= j < i ==> text_lt(#[trigger] self.keys_seq()[j], k@),
            decreases self.entries@.len() - i,
        {
            assert(self.entries@[i as int].0@ == self.keys_seq()[i as int]);
            let c = compare_texts(self.entries[i].0.as_str(), k);
            if c == 0 {
                return (i, true);
            }
            if c > 0 {
                return (i, false);
            }
            i = i + 1;
        }
        (i, false)
    }

    /// Proof that a key absent at the position `find` gave is absent.
    proof fn lemma_absent(&self, k: Seq<char>, i: int)
        requires
            self.wf(),
            0 <= i <= self.spec_len(),
            forall|j: int| 0 <= j < i ==> text_lt(#[trigger] self.keys_seq()[j], k),
            i < self.spec_len() ==> text_lt(k, self.keys_seq()[i]),
        ensures
            !self@.contains_key(k),
    {
        if self@.contains_key(k) {
            let p = self.lemma_key_position(k);
            if p < i {
                lemma_text_lt_irreflexive(k);
            } else if p == i {
                lemma_text_lt_irreflexive(k);
            } else {
                lemma_text_lt_antisymmetric(k, self.keys_seq()[i]);
            }
        }
    }

    /// Whether `k` is a key of the map.
    pub fn contains_key(&self, k: &str) -> (b: bool)
        requires
            self.wf(),
        ensures
            b == self@.contains_key(k@),
    {
        let (i, found) = self.find(k);
        proof {
            if found {
                self.lemma_entry(i as int);
            } else {
                self.lemma_absent(k@, i as int);
            }
        }
        found
    }

    /// Position of `k` in the key order, if it is a key.
    pub fn position(&self, k: &str) -> (r: Option<usize>)
        requires
            self.wf(),
        ensures
            match r {
                Some(i) => i < self.spec_len() && self.keys_seq()[i as int] == k@ && self@.contains_key(k@) && self@[k@]
                    == self.value_seq(i as int),
                None => !self@.contains_key(k@),
            },
    {
        let (i, found) = self.find(k);
        if found {
            proof {
                self.lemma_entry(i as int);
            }
            Some(i)
        } else {
            proof {
                self.lemma_absent(k@, i as int);
            }
            None
        }
    }

    /// The value stored under `k`, if any.
    pub fn get(&self, k: &str) -> (r: Option<&V>)
        requires
            self.wf(),
        ensures
            match r {
                Some(v) => self@.contains_key(k@) && *v == self@[k@],
                None => !self@.contains_key(k@),
            },
    {
        match self.position(k) {
            Some(i) => Some(&self.entries[i].1),
            None => None,
        }
    }

    /// Stores `v` under `k`, handing back the value it replaces.
    pub fn insert(&mut self, k: String, v: V) -> (r: Option<V>)
        requires
            old(self).wf(),
        ensures
            final(self).wf(),
            final(self)@ == old(self)@.insert(k@, v),
            match r {
                Some(ov) => old(self)@.contains_key(k@) && ov == old(self)@[k@],
                None => !old(self)@.contains_key(k@),
            },
            old(self)@.contains_key(k@) ==> final(self).keys_seq() == old(self).keys_seq(),
            !old(self)@.contains_key(k@) ==> exists|pos: int|
                0 <= pos <= old(self).spec_len() && final(self).values_seq() == old(self).values_seq().insert(pos, v),
    {
        let ghost old_map = self@;
        let ghost old_keys = self.keys_seq();
        let ghost old_values = self.values_seq();
        let ghost kv = k@;
        let (i, found) = self.find(k.as_str());
        if found {
            proof {
                self.lemma_entry(i as int);
            }
            let (_, ov) = self.entries.remove(i);
            self.entries.insert(i, (k, v));
            assert(self.keys_seq() =~= old_keys);
            assert(self@ =~= old_map.insert(kv, v)) by {
                assert forall|key: Seq<char>| self@.contains_key(key) implies #[trigger] self@[key] == old_map.insert(
                    kv,
                    v,
                )[key] by {
                    let p = self.lemma_key_position(key);
                    if key != kv {
                        self.lemma_entry(p);
                    } else {
                        self.lemma_entry(i as int);
                    }
                }
            }
            Some(ov)
        } else {
            proof {
                self.lemma_absent(kv, i as int);
            }
            let ghost old_entries = self.entries@;
            self.entries.insert(i, (k, v));
            assert(self.entries@ == old_entries.insert(i as int, (k, v)));
            assert(self.keys_seq() =~= old_keys.insert(i as int, kv));
            assert(self.values_seq() =~= old_values.insert(i as int, v));
            proof {
                assert forall|a: int, b: int| 0 <= a < b < self.keys_seq().len() implies text_lt(
                    self.keys_seq()[a],
                    self.keys_seq()[b],
                ) by {
                    if b < i {
                    } else if b == i {
                        assert(text_lt(old_keys[a], kv));
                    } else if a < i {
                        assert(text_lt(old_keys[a], kv));
                        assert(old_keys[i as int] == self.keys_seq()[i + 1]);
                        if b - 1 > i {
                            lemma_text_lt_transitive(kv, old_keys[i as int], old_keys[b - 1]);
                        }
                        lemma_text_lt_transitive(old_keys[a], kv, old_keys[b - 1]);
                    } else if a == i {
                        assert(text_lt(kv, old_keys[i as int]));
                        if b - 1 > i {
                            lemma_text_lt_transitive(kv, old_keys[i as int], old_keys[b - 1]);
                        }
                    } else {
                        assert(text_lt(old_keys[a - 1], old_keys[b - 1]));
                    }
                }
                assert(self@ =~= old_map.insert(kv, v)) by {
                    assert forall|key: Seq<char>| #[trigger] self@.contains_key(key) == old_map.insert(
                        kv,
                        v,
                    ).contains_key(key) by {
                        if key == kv {
                            assert(self.keys_seq()[i as int] == kv);
                            assert(self.keys_seq().contains(kv));
                        }
                        if key != kv && old_map.contains_key(key) {
                            let q = choose|q: int| 0 <= q < old_keys.len() && old_keys[q] == key;
                            if q < i {
                                assert(self.keys_seq()[q] == key);
                                assert(self.keys_seq().contains(key));
                            } else {
                                assert(self.keys_seq()[q + 1] == key);
                                assert(self.keys_seq().contains(key));
                            }
                        }
                        if self@.contains_key(key) && key != kv {
                            let p = self.lemma_key_position(key);
                            if p < i {
                                assert(old_keys[p] == key);
                                assert(old_keys.contains(key));
                            } else if p > i {
                                assert(old_keys[p - 1] == key);
                                assert(old_keys.contains(key));
                            }
                        }
                    }
                    assert forall|key: Seq<char>| self@.contains_key(key) implies #[trigger] self@[key] == old_map.insert(
                        kv,
                        v,
                    )[key] by {
                        let p = self.lemma_key_position(key);
                        if key != kv {
                            assert(p != i);
                            if p < i {
                                assert(old_keys[p] == key);
                                assert(old_entries[p] == self.entries@[p]);
                                assert(old_map.contains_key(key)) by {
                                    assert(old_keys.contains(key));
                                }
                                lemma_old_index(old_keys, key, p);
                            } else {
                                assert(old_keys[p - 1] == key);
                                assert(old_entries[p - 1] == self.entries@[p]);
                                lemma_old_index(old_keys, key, p - 1);
                            }
                        }
                    }
                }
            }
            None
        }
    }

    /// Removes `k`, handing back the value it held.
    pub fn remove(&mut self, k: &str) -> (r: Option<V>)
        requires
            old(self).wf(),
        ensures
            final(self).wf(),
            final(self)@ == old(self)@.remove(k@),
            match r {
                Some(ov) => old(self)@.contains_key(k@) && ov == old(self)@[k@],
                None => !old(self)@.contains_key(k@),
            },
            !old(self)@.contains_key(k@) ==> final(self).keys_seq() == old(self).keys_seq(),
            !old(self)@.contains_key(k@) ==> final(self).values_seq() == old(self).values_seq(),
            old(self)@.contains_key(k@) ==> exists|pos: int|
                0 <= pos < old(self).spec_len() && old(self).keys_seq()[pos] == k@ && final(self).values_seq()
                    == old(self).values_seq().remove(pos),
    {
        let ghost old_map = self@;
        let ghost old_keys = self.keys_seq();
        let ghost old_entries = self.entries@;
        let ghost old_values = self.values_seq();
        let ghost kv = k@;
        let (i, found) = self.find(k);
        if found {
            proof {
                self.lemma_entry(i as int);
            }
            let (_, ov) = self.entries.remove(i);
            assert(self.entries@ == old_entries.remove(i as int));
            assert(self.keys_seq() =~= old_keys.remove(i as int));
            assert(self.values_seq() =~= old_values.remove(i as int));
            proof {
                assert forall|a: int, b: int| 0 <= a < b < self.keys_seq().len() implies text_lt(
                    self.keys_seq()[a],
                    self.keys_seq()[b],
                ) by {
                    if a < i && b < i {
                    } else if a < i {
                        assert(text_lt(old_keys[a], old_keys[b + 1]));
                    } else {
                        assert(text_lt(old_keys[a + 1], old_keys[b + 1]));
                    }
                }
                assert(self@ =~= old_map.remove(kv)) by {
                    assert forall|key: Seq<char>| #[trigger] self@.contains_key(key) == old_map.remove(kv).contains_key(
                        key,
                    ) by {
                        if key != kv && old_map.contains_key(key) {
                            let q = choose|q: int| 0 <= q < old_keys.len() && old_keys[q] == key;
                            if q < i {
                                assert(self.keys_seq()[q] == key);
                                assert(self.keys_seq().contains(key));
                            } else {
                                assert(q != i);
                                assert(self.keys_seq()[q - 1] == key);
                                assert(self.keys_seq().contains(key));
                            }
                        }
                        if self@.contains_key(key) {
                            let p = self.lemma_key_position(key);
                            if p < i {
                                assert(old_keys[p] == key);
                                assert(old_keys.contains(key));
                                assert(text_lt(old_keys[p], old_keys[i as int]));
                                lemma_text_lt_antisymmetric(old_keys[p], old_keys[i as int]);
                            } else {
                                assert(old_keys[p + 1] == key);
                                assert(old_keys.contains(key));
                                assert(text_lt(old_keys[i as int], old_keys[p + 1]));
                                lemma_text_lt_antisymmetric(old_keys[i as int], old_keys[p + 1]);
                            }
                        }
                    }
                    assert forall|key: Seq<char>| self@.contains_key(key) implies #[trigger] self@[key] == old_map.remove(
                        kv,
                    )[key] by {
                        let p = self.lemma_key_position(key);
                        if p < i {
                            assert(old_keys[p] == key);
                            assert(old_entries[p] == self.entries@[p]);
                            lemma_old_index(old_keys, key, p);
                        } else {
                            assert(old_keys[p + 1] == key);
                            assert(old_entries[p + 1] == self.entries@[p]);
                            lemma_old_index(old_keys, key, p + 1);
                        }
                    }
                }
            }
            Some(ov)
        } else {
            proof {
                self.lemma_absent(kv, i as int);
                assert(self@ =~= old_map.remove(kv));
            }
            None
        }
    }
}

/// In a strictly increasing key sequence, a key's first position is the
/// position it was found at.
proof fn lemma_old_index(keys: Seq<Seq<char>>, key: Seq<char>, q: int)
    requires
        texts_increasing(keys),
        0 <= q < keys.len(),
        keys[q] == key,
    ensures
        keys.index_of(key) == q,
{
    assert(keys.contains(key));
    let j = keys.index_of(key);
    if j != q {
        lemma_text_lt_irreflexive(key);
    }
}

} // verus!
