//! A collection of the key/value store: byte-string keys, each present at
//! most once, viewed as a finite map.
use vstd::prelude::*;

use crate::text::bytes_eq;

verus! {

pub struct Table<V> {
    entries: Vec<(Vec<u8>, V)>,
}

impl<V> Table<V> {
    /// The key of the `i`-th stored entry.
    pub closed spec fn key_at(&self, i: int) -> Seq<u8> {
        self.entries@[i].0@
    }

    pub closed spec fn wf(&self) -> bool {
        forall|i: int, j: int|
            0 <= i < j < self.entries@.len() ==> #[trigger] self.key_at(i) != #[trigger] self.key_at(j)
    }

    /// The stored pairs as a map.
    pub closed spec fn view(&self) -> Map<Seq<u8>, V> {
        Map::new(
            |k: Seq<u8>| exists|i: int| 0 <= i < self.entries@.len() && self.key_at(i) == k,
            |k: Seq<u8>|
                self.entries@[choose|i: int| 0 <= i < self.entries@.len() && self.key_at(i) == k].1,
        )
    }

    proof fn lemma_view_at(&self, i: int)
        requires
            self.wf(),
            0 <= i < self.entries@.len(),
        ensures
            self.view().contains_key(self.key_at(i)),
            self.view()[self.key_at(i)] == self.entries@[i].1,
    {
        let k = self.key_at(i);
        assert(exists|j: int| 0 <= j < self.entries@.len() && self.key_at(j) == k);
        let j = choose|j: int| 0 <= j < self.entries@.len() && self.key_at(j) == k;
        if i < j {
            assert(self.key_at(i) != self.key_at(j));
        } else if j < i {
            assert(self.key_at(j) != self.key_at(i));
        }
    }

    pub fn new() -> (t: Self)
        ensures
            t.wf(),
            t.view() == Map::<Seq<u8>, V>::empty(),
    {
        let t = Table { entries: Vec::new() };
        assert(t.view() =~= Map::<Seq<u8>, V>::empty());
        t
    }

    fn find(&self, key: &[u8]) -> (r: Option<usize>)
        requires
            self.wf(),
        ensures
            match r {
                Some(i) => i < self.entries@.len() && self.key_at(i as int) == key@,
                None => !self.view().contains_key(key@),
            },
    {
        let mut i: usize = 0;
        while i < self.entries.len()
            invariant
                i <= self.entries@.len(),
                forall|j: int| 0 <= j < i ==> self.key_at(j) != key@,
            decreases self.entries@.len() - i,
        {
            if bytes_eq(self.entries[i].0.as_slice(), key) {
                return Some(i);
            }
            i = i + 1;
        }
        None
    }

    pub fn get(&self, key: &[u8]) -> (r: Option<&V>)
        requires
            self.wf(),
        ensures
            match r {
                Some(v) => self.view().contains_key(key@) && self.view()[key@] == *v,
                None => !self.view().contains_key(key@),
            },
    {
        match self.find(key) {
            Some(i) => {
                proof {
                    self.lemma_view_at(i as int);
                }
                Some(&self.entries[i].1)
            },
            None => None,
        }
    }

    pub fn contains(&self, key: &[u8]) -> (r: bool)
        requires
            self.wf(),
        ensures
            r == self.view().contains_key(key@),
    {
        match self.find(key) {
            Some(i) => {
                proof {
                    self.lemma_view_at(i as int);
                }
                true
            },
            None => false,
        }
    }

    /// Stores `value` under `key`, replacing what was there.
    pub fn insert(&mut self, key: &[u8], value: V)
        requires
            old(self).wf(),
        ensures
            final(self).wf(),
            final(self).view() == old(self).view().insert(key@, value),
    {
        let ghost pre = self.view();
        let ghost n: int = old(self).entries@.len() as int;
        let ghost idx: int;
        match self.find(key) {
            Some(i) => {
                let k = self.entries[i].0.as_slice();
                let kc = crate::text::copy_bytes(k);
                self.entries.set(i, (kc, value));
                proof {
                    idx = i as int;
                }
            },
            None => {
                self.entries.push((crate::text::copy_bytes(key), value));
                proof {
                    idx = n;
                }
            },
        }
        assert(self.key_at(idx) == key@ && self.entries@[idx].1 == value);
        assert(forall|j: int| 0 <= j < self.entries@.len() && j != idx ==> self.entries@[j] == old(self).entries@[j]);
        assert(forall|j: int| 0 <= j < self.entries@.len() && j != idx ==> self.key_at(j) == old(self).key_at(j));
        assert(idx < n ==> old(self).key_at(idx) == key@);
        assert(self.wf()) by {
            assert forall|a: int, b: int| 0 <= a < b < self.entries@.len() implies #[trigger] self.key_at(a)
                != #[trigger] self.key_at(b) by {
                if a != idx && b != idx {
                    assert(old(self).key_at(a) != old(self).key_at(b));
                } else if idx == n {
                    let o = if a == idx { b } else { a };
                    assert(old(self).key_at(o) == old(self).key_at(o));
                    assert(pre.contains_key(old(self).key_at(o)));
                } else {
                    assert(old(self).key_at(a) != old(self).key_at(b));
                }
            }
        }
        assert(self.view() =~= pre.insert(key@, value)) by {
            assert forall|k: Seq<u8>| #[trigger] self.view().contains_key(k) == pre.insert(key@, value).contains_key(k) by {
                if self.view().contains_key(k) {
                    let j = choose|j: int| 0 <= j < self.entries@.len() && self.key_at(j) == k;
                    if j != idx {
                        assert(0 <= j < old(self).entries@.len() && old(self).key_at(j) == k);
                    }
                }
                if pre.contains_key(k) && k != key@ {
                    let j = choose|j: int| 0 <= j < old(self).entries@.len() && old(self).key_at(j) == k;
                    assert(0 <= j < self.entries@.len() && self.key_at(j) == k);
                }
                if k == key@ {
                    assert(0 <= idx < self.entries@.len() && self.key_at(idx) == k);
                }
            }
            assert forall|k: Seq<u8>| #[trigger] self.view().contains_key(k) implies self.view()[k] == pre.insert(key@, value)[k] by {
                let j = choose|j: int| 0 <= j < self.entries@.len() && self.key_at(j) == k;
                self.lemma_view_at(j);
                if j != idx {
                    old(self).lemma_view_at(j);
                } else {
                    self.lemma_view_at(idx);
                }
            }
        }
    }

    /// Removes whatever is stored under `key`.
    pub fn remove(&mut self, key: &[u8])
        requires
            old(self).wf(),
        ensures
            final(self).wf(),
            final(self).view() == old(self).view().remove(key@),
    {
        let ghost pre = self.view();
        match self.find(key) {
            Some(i) => {
                let _ = self.entries.swap_remove(i);
                assert(self.wf()) by {
                    assert forall|a: int, b: int| 0 <= a < b < self.entries@.len() implies #[trigger] self.key_at(a)
                        != #[trigger] self.key_at(b) by {
                        let oa = if a == i { old(self).entries@.len() - 1 } else { a };
                        let ob = if b == i { old(self).entries@.len() - 1 } else { b };
                        assert(self.key_at(a) == old(self).key_at(oa));
                        assert(self.key_at(b) == old(self).key_at(ob));
                        if oa < ob {
                            assert(old(self).key_at(oa) != old(self).key_at(ob));
                        } else {
                            assert(old(self).key_at(ob) != old(self).key_at(oa));
                        }
                    }
                }
                assert(self.view() =~= pre.remove(key@)) by {
                    assert forall|k: Seq<u8>| #[trigger] self.view().contains_key(k) == pre.remove(key@).contains_key(k) by {
                        if self.view().contains_key(k) {
                            let j = choose|j: int| 0 <= j < self.entries@.len() && self.key_at(j) == k;
                            let oj = if j == i { old(self).entries@.len() - 1 } else { j };
                            assert(old(self).key_at(oj) == k);
                            if oj != i {
                                if oj < i {
                                    assert(old(self).key_at(oj) != old(self).key_at(i as int));
                                } else {
                                    assert(old(self).key_at(i as int) != old(self).key_at(oj));
                                }
                            }
                        }
                        if pre.contains_key(k) && k != key@ {
                            let j = choose|j: int| 0 <= j < old(self).entries@.len() && old(self).key_at(j) == k;
                            let nj = if j == old(self).entries@.len() - 1 { i as int } else { j };
                            assert(j != i);
                            assert(self.key_at(nj) == k);
                        }
                    }
                    assert forall|k: Seq<u8>| #[trigger] self.view().contains_key(k) implies self.view()[k] == pre.remove(key@)[k] by {
                        let j = choose|j: int| 0 <= j < self.entries@.len() && self.key_at(j) == k;
                        let oj = if j == i { old(self).entries@.len() - 1 } else { j };
                        self.lemma_view_at(j);
                        old(self).lemma_view_at(oj);
                    }
                }
            },
            None => {
                assert(self.view() =~= pre.remove(key@));
            },
        }
    }
}

} // verus!
