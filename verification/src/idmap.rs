use vstd::prelude::*;

verus! {

/// Entries keyed by number, kept in increasing key order (the order of a
/// `BTreeMap`), each key once.
pub struct IdMap<V> {
    entries: Vec<(u64, V)>,
}

pub closed spec fn keys_increasing<V>(e: Seq<(u64, V)>) -> bool {
    forall|i: int, j: int| 0 <= i < j < e.len() ==> #[trigger] e[i].0 < #[trigger] e[j].0
}

spec fn id_index<V>(e: Seq<(u64, V)>, k: u64) -> int {
    choose|i: int| 0 <= i < e.len() && #[trigger] e[i].0 == k
}

pub closed spec fn entries_map<V>(e: Seq<(u64, V)>) -> Map<u64, V> {
    Map::new(
        |k: u64| exists|i: int| 0 <= i < e.len() && #[trigger] e[i].0 == k,
        |k: u64| e[id_index(e, k)].1,
    )
}

proof fn lemma_id_lookup<V>(e: Seq<(u64, V)>, i: int)
    requires
        keys_increasing(e),
        0 <= i < e.len(),
    ensures
        entries_map(e).contains_key(e[i].0),
        entries_map(e)[e[i].0] == e[i].1,
{
    let k = e[i].0;
    assert(entries_map(e).dom().contains(k));
    let j = id_index(e, k);
    if j < i {
        assert(e[j].0 < e[i].0);
    } else if j > i {
        assert(e[i].0 < e[j].0);
    }
    assert(j == i);
}

impl<V> View for IdMap<V> {
    type V = Map<u64, V>;

    closed spec fn view(&self) -> Map<u64, V> {
        entries_map(self.entries@)
    }
}

impl<V> IdMap<V> {
    #[verifier::type_invariant]
    closed spec fn ordered(&self) -> bool {
        keys_increasing(self.entries@)
    }

    /// An empty map.
    pub fn new() -> (r: Self)
        ensures
            r@ == Map::<u64, V>::empty(),
    {
        let r = IdMap { entries: Vec::new() };
        assert(r@ =~= Map::<u64, V>::empty());
        r
    }

    /// Whether the map has no entry.
    pub fn is_empty(&self) -> (r: bool)
        ensures
            r == (self@.dom() == Set::<u64>::empty()),
    {
        proof {
            use_type_invariant(self);
            if self.entries@.len() > 0 {
                lemma_id_lookup(self.entries@, 0);
            } else {
                assert(self@.dom() =~= Set::<u64>::empty());
            }
        }
        self.entries.len() == 0
    }

    /// The value of a key.
    pub fn get(&self, key: u64) -> (r: Option<&V>)
        ensures
            r == (if self@.contains_key(key) {
                Some(&self@[key])
            } else {
                None
            }),
    {
        proof {
            use_type_invariant(self);
        }
        let mut i: usize = 0;
        while i < self.entries.len()
            invariant
                keys_increasing(self.entries@),
                i <= self.entries@.len(),
                forall|k: int| 0 <= k < i ==> self.entries@[k].0 != key,
            decreases self.entries@.len() - i,
        {
            if self.entries[i].0 == key {
                proof {
                    lemma_id_lookup(self.entries@, i as int);
                }
                return Some(&self.entries[i].1);
            }
            i = i + 1;
        }
        proof {
            if self@.contains_key(key) {
                let k = id_index(self.entries@, key);
            }
        }
        None
    }

    /// The largest key.
    pub fn last_key(&self) -> (r: Option<u64>)
        ensures
            r is None <==> self@.dom() == Set::<u64>::empty(),
            r matches Some(k) ==> self@.contains_key(k) && forall|j: u64| #[trigger] self@.contains_key(j) ==> j <= k,
    {
        proof {
            use_type_invariant(self);
        }
        let n = self.entries.len();
        if n == 0 {
            assert(self@.dom() =~= Set::<u64>::empty());
            None
        } else {
            proof {
                lemma_id_lookup(self.entries@, n - 1);
                assert forall|j: u64| #[trigger] self@.contains_key(j) implies j <= self.entries@[n - 1].0 by {
                    let k = id_index(self.entries@, j);
                    if k < n - 1 {
                        assert(self.entries@[k].0 < self.entries@[n - 1].0);
                    }
                }
            }
            Some(self.entries[n - 1].0)
        }
    }

    /// The keys in increasing order.
    pub fn keys(&self) -> (r: Vec<u64>)
        ensures
            forall|i: int, j: int| 0 <= i < j < r@.len() ==> #[trigger] r@[i] < #[trigger] r@[j],
            forall|k: u64| #[trigger] self@.contains_key(k) <==> r@.contains(k),
    {
        proof {
            use_type_invariant(self);
        }
        let mut r: Vec<u64> = Vec::new();
        let mut i: usize = 0;
        while i < self.entries.len()
            invariant
                keys_increasing(self.entries@),
                i <= self.entries@.len(),
                r@.len() == i,
                forall|k: int| 0 <= k < i ==> #[trigger] r@[k] == self.entries@[k].0,
            decreases self.entries@.len() - i,
        {
            r.push(self.entries[i].0);
            i = i + 1;
        }
        proof {
            assert forall|a: int, b: int| 0 <= a < b < r@.len() implies #[trigger] r@[a] < #[trigger] r@[b] by {
                assert(self.entries@[a].0 < self.entries@[b].0);
            }
            assert forall|k: u64| #[trigger] self@.contains_key(k) <==> r@.contains(k) by {
                if self@.contains_key(k) {
                    let j = id_index(self.entries@, k);
                    assert(r@[j] == k);
                }
                if r@.contains(k) {
                    let j = choose|j: int| 0 <= j < r@.len() && r@[j] == k;
                    assert(self.entries@[j].0 == k);
                }
            }
        }
        r
    }

    /// Sets the value of a key, adding the key when it is new.
    pub fn insert(&mut self, key: u64, value: V)
        ensures
            final(self)@ == old(self)@.insert(key, value),
    {
        proof {
            use_type_invariant(&*self);
        }
        let ghost e = self.entries@;
        let mut p: usize = 0;
        while p < self.entries.len() && self.entries[p].0 < key
            invariant
                self.entries@ == e,
                p <= e.len(),
                forall|k: int| 0 <= k < p ==> #[trigger] e[k].0 < key,
            decreases e.len() - p,
        {
            p = p + 1;
        }
        let mut entries = Vec::new();
        std::mem::swap(&mut entries, &mut self.entries);
        if p < entries.len() && entries[p].0 == key {
            entries.set(p, (key, value));
            proof {
                let e2 = entries@;
                assert forall|a: int, b: int| 0 <= a < b < e2.len() implies #[trigger] e2[a].0 < #[trigger] e2[b].0 by {
                    assert(e[a].0 < e[b].0);
                }
                assert forall|k: u64| #[trigger] entries_map(e2).contains_key(k) == entries_map(e).insert(key, value).contains_key(k) by {
                    if entries_map(e).contains_key(k) {
                        let j = id_index(e, k);
                        assert(e2[j].0 == k);
                    }
                    if entries_map(e2).contains_key(k) {
                        let j = id_index(e2, k);
                        assert(e[j].0 == k);
                    }
                }
                assert forall|k: u64| #[trigger] entries_map(e2).contains_key(k) implies entries_map(e2)[k]
                    == entries_map(e).insert(key, value)[k] by {
                    let j = id_index(e2, k);
                    lemma_id_lookup(e2, j);
                    if j != p {
                        lemma_id_lookup(e, j);
                    }
                }
                assert(entries_map(e2) =~= entries_map(e).insert(key, value));
            }
        } else {
            entries.insert(p, (key, value));
            proof {
                let e2 = entries@;
                assert(e2 =~= e.insert(p as int, (key, value)));
                assert forall|a: int, b: int| 0 <= a < b < e2.len() implies #[trigger] e2[a].0 < #[trigger] e2[b].0 by {
                    if b < p {
                        assert(e[a].0 < e[b].0);
                    } else if b == p {
                    } else if a < p {
                        assert(e2[b] == e[b - 1]);
                        if b - 1 > p {
                            assert(e[p as int].0 < e[b - 1].0);
                        }
                    } else if a == p {
                        assert(e2[b] == e[b - 1]);
                        if b - 1 > p {
                            assert(e[p as int].0 < e[b - 1].0);
                        }
                    } else {
                        assert(e2[a] == e[a - 1]);
                        assert(e2[b] == e[b - 1]);
                    }
                }
                assert forall|k: u64| #[trigger] entries_map(e2).contains_key(k) == entries_map(e).insert(key, value).contains_key(k) by {
                    if entries_map(e).contains_key(k) {
                        let j = id_index(e, k);
                        if j < p {
                            assert(e2[j].0 == k);
                        } else {
                            assert(e2[j + 1].0 == k);
                        }
                    }
                    if k == key {
                        assert(e2[p as int].0 == k);
                    }
                    if entries_map(e2).contains_key(k) {
                        let j = id_index(e2, k);
                        if j < p {
                            assert(e[j].0 == k);
                        } else if j > p {
                            assert(e[j - 1].0 == k);
                        }
                    }
                }
                assert forall|k: u64| #[trigger] entries_map(e2).contains_key(k) implies entries_map(e2)[k]
                    == entries_map(e).insert(key, value)[k] by {
                    let j = id_index(e2, k);
                    lemma_id_lookup(e2, j);
                    if j < p {
                        lemma_id_lookup(e, j);
                    } else if j > p {
                        lemma_id_lookup(e, j - 1);
                        assert(e[j - 1].0 != key);
                    }
                }
                assert(entries_map(e2) =~= entries_map(e).insert(key, value));
            }
        }
        self.entries = entries;
    }

    /// Removes a key, returning its value.
    pub fn remove(&mut self, key: u64) -> (r: Option<V>)
        ensures
            final(self)@ == old(self)@.remove(key),
            r == (if old(self)@.contains_key(key) {
                Some(old(self)@[key])
            } else {
                None
            }),
    {
        proof {
            use_type_invariant(&*self);
        }
        let ghost e = self.entries@;
        let mut p: usize = 0;
        while p < self.entries.len() && self.entries[p].0 != key
            invariant
                self.entries@ == e,
                p <= e.len(),
                forall|k: int| 0 <= k < p ==> #[trigger] e[k].0 != key,
            decreases e.len() - p,
        {
            p = p + 1;
        }
        if p == self.entries.len() {
            proof {
                if entries_map(e).contains_key(key) {
                    let j = id_index(e, key);
                }
                assert(entries_map(e).remove(key) =~= entries_map(e));
            }
            return None;
        }
        proof {
            lemma_id_lookup(e, p as int);
        }
        let mut entries = Vec::new();
        std::mem::swap(&mut entries, &mut self.entries);
        let (_, value) = entries.remove(p);
        proof {
            let e2 = entries@;
            assert(e2 =~= e.remove(p as int));
            assert forall|a: int, b: int| 0 <= a < b < e2.len() implies #[trigger] e2[a].0 < #[trigger] e2[b].0 by {
                if b < p {
                    assert(e[a].0 < e[b].0);
                } else if a < p {
                    assert(e2[b] == e[b + 1]);
                    assert(e[a].0 < e[b + 1].0);
                } else {
                    assert(e2[a] == e[a + 1]);
                    assert(e2[b] == e[b + 1]);
                    assert(e[a + 1].0 < e[b + 1].0);
                }
            }
            assert forall|k: u64| #[trigger] entries_map(e2).contains_key(k) == entries_map(e).remove(key).contains_key(k) by {
                if entries_map(e).contains_key(k) && k != key {
                    let j = id_index(e, k);
                    if j < p {
                        assert(e2[j].0 == k);
                    } else {
                        assert(j != p);
                        assert(e2[j - 1].0 == k);
                    }
                }
                if entries_map(e2).contains_key(k) {
                    let j = id_index(e2, k);
                    if j < p {
                        assert(e[j].0 == k);
                        assert(e[j].0 < e[p as int].0);
                    } else {
                        assert(e[j + 1].0 == k);
                        assert(e[p as int].0 < e[j + 1].0);
                    }
                }
            }
            assert forall|k: u64| #[trigger] entries_map(e2).contains_key(k) implies entries_map(e2)[k]
                == entries_map(e).remove(key)[k] by {
                let j = id_index(e2, k);
                lemma_id_lookup(e2, j);
                if j < p {
                    lemma_id_lookup(e, j);
                } else {
                    lemma_id_lookup(e, j + 1);
                }
            }
            assert(entries_map(e2) =~= entries_map(e).remove(key));
        }
        self.entries = entries;
        Some(value)
    }

    /// Adds a value under a new key, one past the largest key in use (0 when
    /// there is none), and returns that key.
    pub fn insert_next(&mut self, value: V) -> (r: u64)
        requires
            forall|k: u64| #[trigger] old(self)@.contains_key(k) ==> k < u64::MAX,
        ensures
            !old(self)@.contains_key(r),
            forall|k: u64| #[trigger] old(self)@.contains_key(k) ==> k < r,
            old(self)@.dom() == Set::<u64>::empty() ==> r == 0,
            old(self)@.dom() != Set::<u64>::empty() ==> old(self)@.contains_key((r - 1) as u64),
            final(self)@ == old(self)@.insert(r, value),
    {
        let key = match self.last_key() {
            Some(k) => k + 1,
            None => 0,
        };
        self.insert(key, value);
        key
    }
}

} // verus!
