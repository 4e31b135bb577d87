//! A keyed table: at most one row per key, kept in order of first insertion.
//! Writes are upserts, so writing the same row twice leaves one row.
use vstd::prelude::*;

use crate::text::{str_eq, views};

verus! {

pub struct Table<V> {
    rows: Vec<(String, V)>,
}

pub open spec fn key_of<V>(row: (String, V)) -> Seq<char> {
    row.0@
}

impl<V> Table<V> {
    /// No key is on two rows.
    pub closed spec fn wf(self) -> bool {
        forall|i: int, j: int|
            0 <= i < self.rows@.len() && 0 <= j < self.rows@.len() && #[trigger] key_of(self.rows@[i])
                == #[trigger] key_of(self.rows@[j]) ==> i == j
    }
}

impl<V: View> Table<V> {
    closed spec fn has(self, k: Seq<char>) -> bool {
        exists|i: int| 0 <= i < self.rows@.len() && key_of(self.rows@[i]) == k
    }

    closed spec fn index_of(self, k: Seq<char>) -> int {
        choose|i: int| 0 <= i < self.rows@.len() && key_of(self.rows@[i]) == k
    }

    closed spec fn map(self) -> Map<Seq<char>, V::V> {
        Map::new(|k: Seq<char>| self.has(k), |k: Seq<char>| self.rows@[self.index_of(k)].1@)
    }

    /// The number of rows.
    pub closed spec fn size(self) -> nat {
        self.rows@.len()
    }

    /// The place of `k` in the order of first insertion.
    pub closed spec fn position_of(self, k: Seq<char>) -> int {
        self.index_of(k)
    }
}

impl<V: View> View for Table<V> {
    type V = Map<Seq<char>, V::V>;

    closed spec fn view(&self) -> Map<Seq<char>, V::V> {
        self.map()
    }
}

impl<V: View> Table<V> {
    pub fn new() -> (r: Table<V>)
        ensures
            r.wf(),
            r@ == Map::<Seq<char>, V::V>::empty(),
            r.size() == 0,
    {
        let r = Table { rows: Vec::new() };
        assert(r@ =~= Map::<Seq<char>, V::V>::empty());
        r
    }

    proof fn lemma_index(&self, i: int)
        requires
            self.wf(),
            0 <= i < self.rows@.len(),
        ensures
            self@.contains_key(key_of(self.rows@[i])),
            self@[key_of(self.rows@[i])] == self.rows@[i].1@,
    {
        let k = key_of(self.rows@[i]);
        assert(self.has(k));
        let j = self.index_of(k);
        assert(key_of(self.rows@[j]) == key_of(self.rows@[i]));
    }

    fn find(&self, key: &str) -> (r: Option<usize>)
        requires
            self.wf(),
        ensures
            match r {
                Some(i) => i < self.rows@.len() && key_of(self.rows@[i as int]) == key@,
                None => !self@.contains_key(key@),
            },
    {
        let mut i: usize = 0;
        while i < self.rows.len()
            invariant
                i <= self.rows@.len(),
                forall|j: int| 0 <= j < i ==> key_of(self.rows@[j]) != key@,
            decreases self.rows@.len() - i,
        {
            if str_eq(self.rows[i].0.as_str(), key) {
                return Some(i);
            }
            i = i + 1;
        }
        None
    }

    /// The place of `key` in the order of first insertion, where it is
    /// stored.
    pub fn position(&self, key: &str) -> (r: Option<usize>)
        requires
            self.wf(),
        ensures
            match r {
                Some(i) => self@.contains_key(key@) && i == self.position_of(key@) && i < self.size(),
                None => !self@.contains_key(key@),
            },
    {
        match self.find(key) {
            Some(i) => {
                proof {
                    self.lemma_index(i as int);
                    let j = self.index_of(key@);
                    assert(key_of(self.rows@[j]) == key_of(self.rows@[i as int]));
                }
                Some(i)
            },
            None => None,
        }
    }

    /// The row under `key`.
    pub fn get(&self, key: &str) -> (r: Option<&V>)
        requires
            self.wf(),
        ensures
            match r {
                Some(v) => self@.contains_key(key@) && self@[key@] == v@,
                None => !self@.contains_key(key@),
            },
    {
        match self.find(key) {
            Some(i) => {
                proof {
                    self.lemma_index(i as int);
                }
                Some(&self.rows[i].1)
            },
            None => None,
        }
    }

    /// Writes `value` under `key`, in place of any row there.
    pub fn upsert(&mut self, key: String, value: V)
        requires
            old(self).wf(),
        ensures
            final(self).wf(),
            final(self)@ == old(self)@.insert(key@, value@),
            forall|q: Seq<char>|
                #[trigger] old(self)@.contains_key(q) ==> final(self).position_of(q) == old(self).position_of(q),
            final(self).size() == old(self).size() + if old(self)@.contains_key(key@) {
                0int
            } else {
                1int
            },
    {
        let ghost k = key@;
        let ghost v = value@;
        let ghost old_map = self@;
        let ghost old_rows = self.rows@;
        let ghost mut pos: int = 0;
        match self.find(key.as_str()) {
            Some(i) => {
                proof {
                    pos = i as int;
                }
                proof {
                    self.lemma_index(i as int);
                }
                self.rows.set(i, (key, value));
                assert forall|a: int, b: int|
                    0 <= a < self.rows@.len() && 0 <= b < self.rows@.len() && #[trigger] key_of(
                        self.rows@[a],
                    ) == #[trigger] key_of(self.rows@[b]) implies a == b by {
                    assert(key_of(self.rows@[a]) == if a == i {
                        k
                    } else {
                        key_of(old_rows[a])
                    });
                    assert(key_of(self.rows@[b]) == if b == i {
                        k
                    } else {
                        key_of(old_rows[b])
                    });
                    assert(key_of(old_rows[i as int]) == k);
                }
            },
            None => {
                assert(forall|j: int| 0 <= j < old_rows.len() ==> key_of(old_rows[j]) != k) by {
                    assert forall|j: int| 0 <= j < old_rows.len() implies key_of(old_rows[j]) != k by {
                        if key_of(old_rows[j]) == k {
                            assert(self.has(k));
                        }
                    }
                }
                self.rows.push((key, value));
                proof {
                    pos = old_rows.len() as int;
                }
                assert forall|a: int, b: int|
                    0 <= a < self.rows@.len() && 0 <= b < self.rows@.len() && #[trigger] key_of(
                        self.rows@[a],
                    ) == #[trigger] key_of(self.rows@[b]) implies a == b by {
                    if a < old_rows.len() {
                        assert(self.rows@[a] == old_rows[a]);
                    }
                    if b < old_rows.len() {
                        assert(self.rows@[b] == old_rows[b]);
                    }
                }
            },
        }
        assert(self.wf());
        proof {
            assert forall|q: Seq<char>| #[trigger]
                self@.contains_key(q) == old_map.insert(k, v).contains_key(q) by {
                if q != k && old_map.contains_key(q) {
                    let j = choose|j: int| 0 <= j < old_rows.len() && key_of(old_rows[j]) == q;
                    assert(key_of(self.rows@[j]) == q);
                    assert(self.has(q));
                }
                if self.has(q) && q != k {
                    let j = choose|j: int| 0 <= j < self.rows@.len() && key_of(self.rows@[j]) == q;
                    assert(key_of(old_rows[j]) == q);
                    assert(old_map.contains_key(q));
                }
                if q == k {
                    assert(key_of(self.rows@[pos]) == k);
                    assert(self.has(k));
                }
            }
            assert forall|q: Seq<char>| #[trigger] self@.contains_key(q) implies self@[q] == old_map.insert(
                k,
                v,
            )[q] by {
                let j = self.index_of(q);
                if q == k {
                    assert(self.rows@[j].1@ == v);
                } else {
                    assert(key_of(old_rows[j]) == q);
                    self.lemma_index(j);
                }
            }
            assert(self@ =~= old_map.insert(k, v));
            assert forall|q: Seq<char>| #[trigger] old_map.contains_key(q) implies self.position_of(q)
                == old(self).position_of(q) by {
                let j0 = old(self).index_of(q);
                assert(0 <= j0 < old_rows.len() && key_of(old_rows[j0]) == q);
                assert(key_of(self.rows@[j0]) == q);
                let j1 = self.index_of(q);
                assert(key_of(self.rows@[j1]) == q);
            }
        }
    }

    /// Writes `value` under `key` where no row is there yet; `true` when it
    /// did.
    pub fn insert_if_absent(&mut self, key: String, value: V) -> (r: bool)
        requires
            old(self).wf(),
        ensures
            final(self).wf(),
            r == !old(self)@.contains_key(key@),
            final(self)@ == if r {
                old(self)@.insert(key@, value@)
            } else {
                old(self)@
            },
    {
        if self.find(key.as_str()).is_some() {
            return false;
        }
        self.upsert(key, value);
        true
    }

    /// Every key, each once, in order of first insertion.
    pub fn keys(&self) -> (r: Vec<String>)
        requires
            self.wf(),
        ensures
            views(r@).no_duplicates(),
            forall|k: Seq<char>| #[trigger] views(r@).contains(k) <==> self@.contains_key(k),
    {
        let mut out: Vec<String> = Vec::new();
        let mut i: usize = 0;
        while i < self.rows.len()
            invariant
                i <= self.rows@.len(),
                views(out@) == self.rows@.take(i as int).map_values(|r: (String, V)| key_of(r)),
                forall|a: int, b: int|
                    0 <= a < self.rows@.len() && 0 <= b < self.rows@.len() && #[trigger] key_of(
                        self.rows@[a],
                    ) == #[trigger] key_of(self.rows@[b]) ==> a == b,
            decreases self.rows@.len() - i,
        {
            let ghost before = out@;
            let k = self.rows[i].0.clone();
            out.push(k);
            assert(views(out@) =~= views(before).push(k@));
            i = i + 1;
            assert(views(out@) =~= self.rows@.take(i as int).map_values(|r: (String, V)| key_of(r)));
        }
        let ghost ks = views(out@);
        assert(self.rows@.take(self.rows@.len() as int) =~= self.rows@);
        assert(ks.no_duplicates()) by {
            assert forall|a: int, b: int| 0 <= a < ks.len() && 0 <= b < ks.len() && a != b implies ks[a]
                != ks[b] by {
                assert(ks[a] == key_of(self.rows@[a]));
                assert(ks[b] == key_of(self.rows@[b]));
            }
        }
        assert forall|k: Seq<char>| #[trigger] ks.contains(k) <==> self@.contains_key(k) by {
            if ks.contains(k) {
                let a = choose|a: int| 0 <= a < ks.len() && ks[a] == k;
                assert(key_of(self.rows@[a]) == k);
                assert(self.has(k));
            }
            if self@.contains_key(k) {
                let a = choose|a: int| 0 <= a < self.rows@.len() && key_of(self.rows@[a]) == k;
                assert(ks[a] == k);
            }
        }
        out
    }
}

/// A table keyed by a pair of strings, with the same upsert semantics.
pub struct PairTable<V> {
    rows: Vec<((String, String), V)>,
}

pub open spec fn pair_key_of<V>(row: ((String, String), V)) -> (Seq<char>, Seq<char>) {
    (row.0.0@, row.0.1@)
}

impl<V> PairTable<V> {
    /// No key is on two rows.
    pub closed spec fn wf(self) -> bool {
        forall|i: int, j: int|
            0 <= i < self.rows@.len() && 0 <= j < self.rows@.len() && #[trigger] pair_key_of(self.rows@[i])
                == #[trigger] pair_key_of(self.rows@[j]) ==> i == j
    }
}

impl<V: View> PairTable<V> {
    closed spec fn has(self, k: (Seq<char>, Seq<char>)) -> bool {
        exists|i: int| 0 <= i < self.rows@.len() && pair_key_of(self.rows@[i]) == k
    }

    closed spec fn index_of(self, k: (Seq<char>, Seq<char>)) -> int {
        choose|i: int| 0 <= i < self.rows@.len() && pair_key_of(self.rows@[i]) == k
    }

    closed spec fn map(self) -> Map<(Seq<char>, Seq<char>), V::V> {
        Map::new(|k: (Seq<char>, Seq<char>)| self.has(k), |k: (Seq<char>, Seq<char>)| self.rows@[self.index_of(k)].1@)
    }

    /// The number of rows.
    pub closed spec fn size(self) -> nat {
        self.rows@.len()
    }
}

impl<V: View> View for PairTable<V> {
    type V = Map<(Seq<char>, Seq<char>), V::V>;

    closed spec fn view(&self) -> Map<(Seq<char>, Seq<char>), V::V> {
        self.map()
    }
}

impl<V: View> PairTable<V> {
    pub fn new() -> (r: PairTable<V>)
        ensures
            r.wf(),
            r@ == Map::<(Seq<char>, Seq<char>), V::V>::empty(),
            r.size() == 0,
    {
        let r = PairTable { rows: Vec::new() };
        assert(r@ =~= Map::<(Seq<char>, Seq<char>), V::V>::empty());
        r
    }

    proof fn lemma_index(&self, i: int)
        requires
            self.wf(),
            0 <= i < self.rows@.len(),
        ensures
            self@.contains_key(pair_key_of(self.rows@[i])),
            self@[pair_key_of(self.rows@[i])] == self.rows@[i].1@,
    {
        let k = pair_key_of(self.rows@[i]);
        assert(self.has(k));
        let j = self.index_of(k);
        assert(pair_key_of(self.rows@[j]) == pair_key_of(self.rows@[i]));
    }

    fn find(&self, a: &str, b: &str) -> (r: Option<usize>)
        requires
            self.wf(),
        ensures
            match r {
                Some(i) => i < self.rows@.len() && pair_key_of(self.rows@[i as int]) == (a@, b@),
                None => !self@.contains_key((a@, b@)),
            },
    {
        let mut i: usize = 0;
        while i < self.rows.len()
            invariant
                i <= self.rows@.len(),
                forall|j: int| 0 <= j < i ==> pair_key_of(self.rows@[j]) != (a@, b@),
            decreases self.rows@.len() - i,
        {
            if str_eq(self.rows[i].0.0.as_str(), a) && str_eq(self.rows[i].0.1.as_str(), b) {
                return Some(i);
            }
            i = i + 1;
        }
        None
    }

    /// The row under `(a, b)`.
    pub fn get(&self, a: &str, b: &str) -> (r: Option<&V>)
        requires
            self.wf(),
        ensures
            match r {
                Some(v) => self@.contains_key((a@, b@)) && self@[(a@, b@)] == v@,
                None => !self@.contains_key((a@, b@)),
            },
    {
        match self.find(a, b) {
            Some(i) => {
                proof {
                    self.lemma_index(i as int);
                }
                Some(&self.rows[i].1)
            },
            None => None,
        }
    }

    /// Writes `value` under `(a, b)`, in place of any row there.
    pub fn upsert(&mut self, a: String, b: String, value: V)
        requires
            old(self).wf(),
        ensures
            final(self).wf(),
            final(self)@ == old(self)@.insert((a@, b@), value@),
            final(self).size() == old(self).size() + if old(self)@.contains_key((a@, b@)) {
                0int
            } else {
                1int
            },
    {
        let ghost k = (a@, b@);
        let ghost v = value@;
        let ghost old_map = self@;
        let ghost old_rows = self.rows@;
        let ghost mut pos: int = 0;
        match self.find(a.as_str(), b.as_str()) {
            Some(i) => {
                proof {
                    pos = i as int;
                }
                proof {
                    self.lemma_index(i as int);
                }
                self.rows.set(i, ((a, b), value));
                assert forall|x: int, y: int|
                    0 <= x < self.rows@.len() && 0 <= y < self.rows@.len() && #[trigger] pair_key_of(
                        self.rows@[x],
                    ) == #[trigger] pair_key_of(self.rows@[y]) implies x == y by {
                    assert(pair_key_of(self.rows@[x]) == if x == i {
                        k
                    } else {
                        pair_key_of(old_rows[x])
                    });
                    assert(pair_key_of(self.rows@[y]) == if y == i {
                        k
                    } else {
                        pair_key_of(old_rows[y])
                    });
                    assert(pair_key_of(old_rows[i as int]) == k);
                }
            },
            None => {
                assert(forall|j: int| 0 <= j < old_rows.len() ==> pair_key_of(old_rows[j]) != k) by {
                    assert forall|j: int| 0 <= j < old_rows.len() implies pair_key_of(old_rows[j]) != k by {
                        if pair_key_of(old_rows[j]) == k {
                            assert(self.has(k));
                        }
                    }
                }
                self.rows.push(((a, b), value));
                proof {
                    pos = old_rows.len() as int;
                }
                assert forall|x: int, y: int|
                    0 <= x < self.rows@.len() && 0 <= y < self.rows@.len() && #[trigger] pair_key_of(
                        self.rows@[x],
                    ) == #[trigger] pair_key_of(self.rows@[y]) implies x == y by {
                    if x < old_rows.len() {
                        assert(self.rows@[x] == old_rows[x]);
                    }
                    if y < old_rows.len() {
                        assert(self.rows@[y] == old_rows[y]);
                    }
                }
            },
        }
        assert(self.wf());
        proof {
            assert forall|q: (Seq<char>, Seq<char>)| #[trigger]
                self@.contains_key(q) == old_map.insert(k, v).contains_key(q) by {
                if q != k && old_map.contains_key(q) {
                    let j = choose|j: int| 0 <= j < old_rows.len() && pair_key_of(old_rows[j]) == q;
                    assert(pair_key_of(self.rows@[j]) == q);
                    assert(self.has(q));
                }
                if self.has(q) && q != k {
                    let j = choose|j: int| 0 <= j < self.rows@.len() && pair_key_of(self.rows@[j]) == q;
                    assert(pair_key_of(old_rows[j]) == q);
                    assert(old_map.contains_key(q));
                }
                if q == k {
                    assert(pair_key_of(self.rows@[pos]) == k);
                    assert(self.has(k));
                }
            }
            assert forall|q: (Seq<char>, Seq<char>)| #[trigger] self@.contains_key(q) implies self@[q] == old_map.insert(
                k,
                v,
            )[q] by {
                let j = self.index_of(q);
                if q == k {
                    assert(self.rows@[j].1@ == v);
                } else {
                    assert(pair_key_of(old_rows[j]) == q);
                    self.lemma_index(j);
                }
            }
            assert(self@ =~= old_map.insert(k, v));
        }
    }
}

} // verus!
