//! A small association map from string keys to values, with a
//! `Map<Seq<char>, V>` view.  It backs the pinned-entry table, the
//! weak-reference table and the decoding-guards table of the asset cache.

use vstd::prelude::*;

verus! {

/// Whether some entry of `s` has key view `k`.
pub open spec fn has_skey<V>(s: Seq<(String, V)>, k: Seq<char>) -> bool {
    exists|i: int| 0 <= i < s.len() && s[i].0@ == k
}

/// The position of the entry with key view `k`.
pub open spec fn skey_index<V>(s: Seq<(String, V)>, k: Seq<char>) -> int {
    choose|i: int| 0 <= i < s.len() && s[i].0@ == k
}

/// No two entries share a key view.
pub open spec fn distinct_skeys<V>(s: Seq<(String, V)>) -> bool {
    forall|i: int, j: int| 0 <= i < j < s.len() ==> s[i].0@ != s[j].0@
}

/// When the key views are distinct, the position of a key is unique.
proof fn lemma_skey_unique<V>(s: Seq<(String, V)>, k: Seq<char>, i: int)
    requires
        distinct_skeys(s),
        0 <= i < s.len(),
        s[i].0@ == k,
    ensures
        has_skey(s, k),
        skey_index(s, k) == i,
{
    assert(has_skey(s, k));
    let j = skey_index(s, k);
    assert(0 <= j < s.len() && s[j].0@ == k);
}

/// A map from string keys to values.
pub struct KeyMap<V> {
    entries: Vec<(String, V)>,
}

impl<V> KeyMap<V> {
    /// The mathematical map this container holds.
    pub closed spec fn view(&self) -> Map<Seq<char>, V> {
        Map::new(
            |k: Seq<char>| has_skey(self.entries@, k),
            |k: Seq<char>| self.entries@[skey_index(self.entries@, k)].1,
        )
    }

    /// Key views are distinct.
    pub closed spec fn wf(&self) -> bool {
        distinct_skeys(self.entries@)
    }

    proof fn lemma_index_unique(&self, k: Seq<char>, i: int)
        requires
            self.wf(),
            0 <= i < self.entries@.len(),
            self.entries@[i].0@ == k,
        ensures
            has_skey(self.entries@, k),
            skey_index(self.entries@, k) == i,
            self@.dom().contains(k),
            self@[k] == self.entries@[i].1,
    {
        assert(has_skey(self.entries@, k));
        let j = skey_index(self.entries@, k);
        assert(0 <= j < self.entries@.len() && self.entries@[j].0@ == k);
    }

    pub fn new() -> (r: KeyMap<V>)
        ensures
            r.wf(),
            r@ == Map::<Seq<char>, V>::empty(),
    {
        let r = KeyMap { entries: Vec::new() };
        proof {
            assert(r@ =~= Map::<Seq<char>, V>::empty());
        }
        r
    }

    /// The slot of `key`, if any.
    fn find_index(&self, key: &String) -> (r: Option<usize>)
        requires
            self.wf(),
        ensures
            match r {
                Some(i) => 0 <= i < self.entries@.len() && self.entries@[i as int].0@ == key@
                    && self@.dom().contains(key@) && self@[key@] == self.entries@[i as int].1,
                None => !self@.dom().contains(key@),
            },
    {
        let mut i: usize = 0;
        while i < self.entries.len()
            invariant
                self.wf(),
                0 <= i <= self.entries@.len(),
                forall|j: int| 0 <= j < i ==> self.entries@[j].0@ != key@,
            decreases self.entries@.len() - i,
        {
            if self.entries[i].0.eq(key) {
                proof {
                    self.lemma_index_unique(key@, i as int);
                }
                return Some(i);
            }
            i = i + 1;
        }
        proof {
            if self@.dom().contains(key@) {
                let j = skey_index(self.entries@, key@);
            }
        }
        None
    }

    /// Look a key up.
    pub fn get(&self, key: &String) -> (r: Option<&V>)
        requires
            self.wf(),
        ensures
            match r {
                Some(v) => self@.dom().contains(key@) && *v == self@[key@],
                None => !self@.dom().contains(key@),
            },
    {
        match self.find_index(key) {
            Some(i) => Some(&self.entries[i].1),
            None => None,
        }
    }

    /// Whether a key is present.
    pub fn contains_key(&self, key: &String) -> (r: bool)
        requires
            self.wf(),
        ensures
            r == self@.dom().contains(key@),
    {
        match self.find_index(key) {
            Some(_) => true,
            None => false,
        }
    }

    /// Insert a binding, returning the value it replaces, if any.
    pub fn insert(&mut self, key: String, value: V) -> (r: Option<V>)
        requires
            old(self).wf(),
        ensures
            final(self).wf(),
            final(self)@ == old(self)@.insert(key@, value),
            match r {
                Some(v) => old(self)@.dom().contains(key@) && v == old(self)@[key@],
                None => !old(self)@.dom().contains(key@),
            },
    {
        let ret = self.remove(&key);
        let ghost mid = self.entries@;
        let ghost midmap = self@;
        proof {
            assert(!has_skey(mid, key@)) by {
                if has_skey(mid, key@) {
                    assert(midmap.dom().contains(key@));
                }
            }
        }
        self.entries.push((key, value));
        proof {
            let s = self.entries@;
            let n = s.len() - 1;
            assert forall|i: int, j: int| 0 <= i < j < s.len() implies s[i].0@ != s[j].0@ by {
                if j == n {
                    assert(s[i] == mid[i]);
                    if s[i].0@ == key@ {
                        assert(has_skey(mid, key@));
                    }
                }
            }
            assert forall|k: Seq<char>| true implies #[trigger] self@.dom().contains(k)
                == old(self)@.insert(key@, value).dom().contains(k) && (self@.dom().contains(k)
                ==> self@[k] == old(self)@.insert(key@, value)[k]) by {
                if k == key@ {
                    lemma_skey_unique(s, k, n);
                } else {
                    if has_skey(mid, k) {
                        let i = skey_index(mid, k);
                        assert(mid[i] == s[i]);
                        lemma_skey_unique(s, k, i);
                        lemma_skey_unique(mid, k, i);
                        assert(self@.dom().contains(k));
                        assert(self@[k] == s[i].1);
                        assert(midmap.dom().contains(k));
                        assert(midmap[k] == mid[i].1);
                        assert(old(self)@.dom().contains(k));
                        assert(midmap[k] == old(self)@[k]);
                    } else {
                        assert(!has_skey(s, k)) by {
                            if has_skey(s, k) {
                                let i = skey_index(s, k);
                                if i < n {
                                    assert(s[i] == mid[i]);
                                    assert(has_skey(mid, k));
                                }
                            }
                        }
                        assert(!midmap.dom().contains(k));
                    }
                }
            }
            assert(self@ =~= old(self)@.insert(key@, value));
        }
        ret
    }

    /// Remove a binding, returning its value, if any.
    pub fn remove(&mut self, key: &String) -> (r: Option<V>)
        requires
            old(self).wf(),
        ensures
            final(self).wf(),
            final(self)@ == old(self)@.remove(key@),
            match r {
                Some(v) => old(self)@.dom().contains(key@) && v == old(self)@[key@],
                None => !old(self)@.dom().contains(key@) && *final(self) == *old(self),
            },
    {
        let found = self.find_index(key);
        match found {
            None => {
                proof {
                    assert(self@ =~= old(self)@.remove(key@));
                }
                None
            },
            Some(i) => {
                let ghost s = self.entries@;
                let entry = self.entries.remove(i);
                proof {
                    let t = self.entries@;
                    assert(t =~= s.subrange(0, i as int) + s.subrange(
                        i as int + 1,
                        s.len() as int,
                    ));
                    assert forall|p: int, q: int|
                        0 <= p < q < t.len() implies t[p].0@ != t[q].0@ by {
                        let p0 = if p < i as int { p } else { p + 1 };
                        let q0 = if q < i as int { q } else { q + 1 };
                        assert(t[p] == s[p0] && t[q] == s[q0]);
                    }
                    assert forall|k: Seq<char>| true implies #[trigger] has_skey(t, k) == (
                    has_skey(s, k) && k != key@) && (has_skey(t, k) ==> t[skey_index(t, k)]
                        == s[skey_index(s, k)]) by {
                        if has_skey(t, k) {
                            let p = skey_index(t, k);
                            let p0 = if p < i as int { p } else { p + 1 };
                            assert(t[p] == s[p0]);
                            self.lemma_index_unique(k, p);
                            if k == key@ {
                                assert(s[p0].0@ == s[i as int].0@);
                                assert(false);
                            }
                            let q0 = skey_index(s, k);
                            assert(0 <= q0 < s.len() && s[q0].0@ == k);
                            if q0 != p0 {
                                assert(s[q0].0@ == s[p0].0@);
                                assert(false);
                            }
                        }
                        if has_skey(s, k) && k != key@ {
                            let p0 = skey_index(s, k);
                            assert(p0 != i as int);
                            let p = if p0 < i as int { p0 } else { p0 - 1 };
                            assert(t[p] == s[p0]);
                            assert(has_skey(t, k));
                        }
                    }
                    assert(self@ =~= old(self)@.remove(key@));
                }
                Some(entry.1)
            },
        }
    }
}

} // verus!
