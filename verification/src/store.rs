//! A keyed table with at most one entry per two-part key, viewed in
//! specifications as a `Map`.  Two instances back the escrow core: the
//! asset ledger (balances keyed by owner and asset) and the record store
//! (open escrows keyed by maker and seed), each a deterministic key-value
//! store with create, read, update and delete.

use vstd::map::*;
use vstd::prelude::*;

verus! {

/// One entry of a table: a two-part key and the value stored under it.
pub struct Entry<V> {
    pub k1: u64,
    pub k2: u64,
    pub v: V,
}

/// The key of the entry at index `i`.
pub open spec fn key_at<V>(s: Seq<Entry<V>>, i: int) -> (u64, u64) {
    (s[i].k1, s[i].k2)
}

/// Whether some entry carries the key `k`.
pub open spec fn has_key<V>(s: Seq<Entry<V>>, k: (u64, u64)) -> bool {
    exists|i: int| 0 <= i < s.len() && key_at(s, i) == k
}

/// The index of an entry carrying the key `k`, when one exists.
pub open spec fn index_of_key<V>(s: Seq<Entry<V>>, k: (u64, u64)) -> int {
    choose|i: int| 0 <= i < s.len() && key_at(s, i) == k
}

/// No two entries share a key, so `index_of_key` is determined.
pub open spec fn unique_keys<V>(s: Seq<Entry<V>>) -> bool {
    forall|i: int, j: int| 0 <= i < j < s.len() ==> key_at(s, i) != key_at(s, j)
}

/// The entries read as a partial map from keys to values.
pub open spec fn table_map<V>(s: Seq<Entry<V>>) -> Map<(u64, u64), V> {
    Map::new(|k: (u64, u64)| has_key(s, k), |k: (u64, u64)| s[index_of_key(s, k)].v)
}

/// With unique keys, the entry at index `i` is what the map holds under
/// its key.
pub proof fn lemma_map_at<V>(s: Seq<Entry<V>>, i: int)
    requires
        unique_keys(s),
        0 <= i < s.len(),
    ensures
        table_map(s).contains_key(key_at(s, i)),
        table_map(s)[key_at(s, i)] == s[i].v,
{
    let k = key_at(s, i);
    assert(has_key(s, k));
    let j = index_of_key(s, k);
    assert(0 <= j < s.len() && key_at(s, j) == k);
    if i != j {
        assert(key_at(s, i) != key_at(s, j));
    }
}

/// A key carried by no entry is outside the map's domain.
pub proof fn lemma_map_absent<V>(s: Seq<Entry<V>>, k: (u64, u64))
    requires
        forall|i: int| 0 <= i < s.len() ==> key_at(s, i) != k,
    ensures
        !table_map(s).contains_key(k),
{
}

/// An association table from two-part keys to copyable values, with at
/// most one entry per key.
pub struct Table<V> {
    pub entries: Vec<Entry<V>>,
}

impl<V> View for Table<V> {
    type V = Map<(u64, u64), V>;

    open spec fn view(&self) -> Map<(u64, u64), V> {
        table_map(self.entries@)
    }
}

impl<V: Copy> Table<V> {
    /// Internal invariant: entry keys are pairwise distinct.
    pub open spec fn wf(self) -> bool {
        unique_keys(self.entries@)
    }

    /// An empty table.
    pub fn new() -> (t: Table<V>)
        ensures
            t.wf(),
            t@ == Map::<(u64, u64), V>::empty(),
    {
        let t = Table { entries: Vec::new() };
        proof {
            assert(t@ =~= Map::<(u64, u64), V>::empty());
        }
        t
    }

    /// The index of the entry carrying (k1, k2), if one exists.
    fn find(&self, k1: u64, k2: u64) -> (r: Option<usize>)
        ensures
            match r {
                Some(i) => i < self.entries@.len() && key_at(self.entries@, i as int) == (k1, k2),
                None => !has_key(self.entries@, (k1, k2)),
            },
    {
        let n = self.entries.len();
        let mut i: usize = 0;
        while i < n
            invariant
                i <= n,
                n == self.entries@.len(),
                forall|j: int| 0 <= j < i ==> key_at(self.entries@, j) != (k1, k2),
            decreases n - i,
        {
            let e = &self.entries[i];
            if e.k1 == k1 && e.k2 == k2 {
                return Some(i);
            }
            i = i + 1;
        }
        None
    }

    /// The value stored under (k1, k2), if any.
    pub fn get(&self, k1: u64, k2: u64) -> (r: Option<V>)
        requires
            self.wf(),
        ensures
            match r {
                Some(v) => self@.contains_key((k1, k2)) && self@[(k1, k2)] == v,
                None => !self@.contains_key((k1, k2)),
            },
    {
        match self.find(k1, k2) {
            Some(i) => {
                proof {
                    lemma_map_at(self.entries@, i as int);
                }
                Some(self.entries[i].v)
            },
            None => {
                proof {
                    lemma_map_absent(self.entries@, (k1, k2));
                }
                None
            },
        }
    }

    /// Stores `v` under (k1, k2), replacing any previous value.
    pub fn upsert(&mut self, k1: u64, k2: u64, v: V)
        requires
            old(self).wf(),
        ensures
            final(self).wf(),
            final(self)@ == old(self)@.insert((k1, k2), v),
    {
        let k = Ghost((k1, k2));
        match self.find(k1, k2) {
            Some(i) => {
                let ghost s = self.entries@;
                self.entries[i] = Entry { k1, k2, v };
                proof {
                    let t = self.entries@;
                    assert(forall|x: int| 0 <= x < t.len() ==> key_at(t, x) == key_at(s, x));
                    assert(unique_keys(t));
                    lemma_map_at(t, i as int);
                    assert forall|kk: (u64, u64)| #[trigger] table_map(s).contains_key(kk)
                        || table_map(t).contains_key(kk) implies table_map(s).contains_key(kk)
                        && table_map(t).contains_key(kk) && (kk != k@ ==> table_map(t)[kk]
                        == table_map(s)[kk]) by {
                        if has_key(s, kk) {
                            let j = index_of_key(s, kk);
                            lemma_map_at(s, j);
                            lemma_map_at(t, j);
                            if kk != k@ {
                                assert(j != i);
                            }
                        } else {
                            let j = index_of_key(t, kk);
                            lemma_map_at(t, j);
                            lemma_map_at(s, j);
                        }
                    }
                    assert(self@ =~= old(self)@.insert((k1, k2), v));
                }
            },
            None => {
                let ghost s = self.entries@;
                self.entries.push(Entry { k1, k2, v });
                proof {
                    let t = self.entries@;
                    let n = s.len() as int;
                    assert(key_at(t, n) == k@);
                    assert(forall|x: int| 0 <= x < n ==> key_at(t, x) == key_at(s, x));
                    assert forall|x: int, y: int| 0 <= x < y < t.len() implies key_at(t, x)
                        != key_at(t, y) by {
                        if y == n {
                            assert(key_at(t, x) == key_at(s, x));
                            assert(key_at(s, x) != k@);
                        }
                    }
                    lemma_map_at(t, n);
                    assert forall|kk: (u64, u64)| kk != k@ implies (table_map(s).contains_key(kk)
                        == table_map(t).contains_key(kk)) && (table_map(s).contains_key(kk)
                        ==> table_map(t)[kk] == table_map(s)[kk]) by {
                        if has_key(s, kk) {
                            let j = index_of_key(s, kk);
                            lemma_map_at(s, j);
                            lemma_map_at(t, j);
                        } else if has_key(t, kk) {
                            let j = index_of_key(t, kk);
                            assert(0 <= j < t.len() && key_at(t, j) == kk);
                            assert(j != n);
                            assert(key_at(s, j) == kk);
                            assert(has_key(s, kk));
                        }
                    }
                    assert(self@ =~= old(self)@.insert((k1, k2), v));
                }
            },
        }
    }

    /// Deletes the entry stored under (k1, k2).
    pub fn remove(&mut self, k1: u64, k2: u64)
        requires
            old(self).wf(),
            old(self)@.contains_key((k1, k2)),
        ensures
            final(self).wf(),
            final(self)@ == old(self)@.remove((k1, k2)),
    {
        let k = Ghost((k1, k2));
        proof {
            assert(has_key(self.entries@, k@));
        }
        let i = self.find(k1, k2).unwrap();
        let ghost s = self.entries@;
        self.entries.remove(i);
        proof {
            let t = self.entries@;
            let n = s.len() as int;
            assert(t.len() == n - 1);
            assert(forall|x: int| 0 <= x < i ==> t[x] == s[x]);
            assert(forall|x: int| i <= x < n - 1 ==> t[x] == s[x + 1]);
            assert forall|x: int, y: int| 0 <= x < y < t.len() implies key_at(t, x) != key_at(
                t,
                y,
            ) by {
                let sx: int = if x < i {
                    x
                } else {
                    x + 1
                };
                let sy: int = if y < i {
                    y
                } else {
                    y + 1
                };
                assert(key_at(t, x) == key_at(s, sx));
                assert(key_at(t, y) == key_at(s, sy));
            }
            assert forall|x: int| 0 <= x < t.len() implies key_at(t, x) != k@ by {
                let sx: int = if x < i {
                    x
                } else {
                    x + 1
                };
                assert(key_at(t, x) == key_at(s, sx));
                if key_at(s, sx) == k@ {
                    assert(key_at(s, i as int) == k@);
                    assert(sx != i);
                }
            }
            lemma_map_absent(t, k@);
            assert_maps_equal!(table_map(t), table_map(s).remove((k1, k2)), kk => {
                if kk != k@ {
                    if has_key(s, kk) {
                        let j = index_of_key(s, kk);
                        assert(0 <= j < n && key_at(s, j) == kk);
                        assert(j != i);
                        let tj: int = if j < i {
                            j
                        } else {
                            j - 1
                        };
                        assert(key_at(t, tj) == kk && t[tj].v == s[j].v);
                        lemma_map_at(s, j);
                        lemma_map_at(t, tj);
                    } else if has_key(t, kk) {
                        let j = index_of_key(t, kk);
                        assert(0 <= j < t.len() && key_at(t, j) == kk);
                        let sj: int = if j < i {
                            j
                        } else {
                            j + 1
                        };
                        assert(key_at(s, sj) == kk);
                        assert(has_key(s, kk));
                    }
                }
            });
            assert(self@ == old(self)@.remove((k1, k2)));
        }
    }
}

} // verus!
