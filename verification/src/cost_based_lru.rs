//! A [`CostBasedLru`] is an LRU cache which uses the cost of the items in the
//! cache to decide when to evict.
//!
//! Entries are kept in a vector ordered from most recently used to least
//! recently used; eviction removes entries from the back until the total cost
//! is within the budget.  The keys may not die immediately on eviction; only
//! the value should be large.

use crate::handles::arc_clone;
use std::sync::Arc;
use vstd::prelude::*;

verus! {

/// Keys of a [`CostBasedLru`]: values with a mathematical view and an
/// executable equality test that decides view equality.
pub trait LruKey: View + Sized {
    /// Decide whether two keys have the same view.
    fn key_eq(&self, other: &Self) -> (r: bool)
        ensures
            r == (self@ == other@),
    ;

    /// Produce a key with the same view.
    fn key_clone(&self) -> (r: Self)
        ensures
            r@ == self@,
    ;
}

impl LruKey for u64 {
    fn key_eq(&self, other: &Self) -> (r: bool) {
        *self == *other
    }

    fn key_clone(&self) -> (r: Self) {
        *self
    }
}

impl LruKey for String {
    fn key_eq(&self, other: &Self) -> (r: bool) {
        self.eq(other)
    }

    fn key_clone(&self) -> (r: Self) {
        self.clone()
    }
}

/// One record of the cache model: a key view, the shared item, and its cost.
pub ghost struct LruRecord<KV, V> {
    pub key: KV,
    pub item: V,
    pub cost: u64,
}

/// Total cost of a sequence of records.
pub open spec fn sum_costs<KV, V>(s: Seq<LruRecord<KV, V>>) -> int
    decreases s.len(),
{
    if s.len() == 0 {
        0
    } else {
        sum_costs(s.drop_last()) + s.last().cost
    }
}

/// Whether some record of `s` has key `k`.
pub open spec fn has_key<KV, V>(s: Seq<LruRecord<KV, V>>, k: KV) -> bool {
    exists|i: int| 0 <= i < s.len() && s[i].key == k
}

/// The position of the record with key `k` (meaningful when the keys of `s`
/// are distinct and `has_key(s, k)` holds).
pub open spec fn key_index<KV, V>(s: Seq<LruRecord<KV, V>>, k: KV) -> int {
    choose|i: int| 0 <= i < s.len() && s[i].key == k
}

/// The record with key `k`.
pub open spec fn record_of<KV, V>(s: Seq<LruRecord<KV, V>>, k: KV) -> LruRecord<KV, V> {
    s[key_index(s, k)]
}

/// No two records share a key.
pub open spec fn distinct_keys<KV, V>(s: Seq<LruRecord<KV, V>>) -> bool {
    forall|i: int, j: int| 0 <= i < j < s.len() ==> s[i].key != s[j].key
}

/// `s` without the record keyed `k`, if any.
pub open spec fn drop_key<KV, V>(s: Seq<LruRecord<KV, V>>, k: KV) -> Seq<LruRecord<KV, V>> {
    if has_key(s, k) {
        s.remove(key_index(s, k))
    } else {
        s
    }
}

/// Eviction: drop records from the back until the total cost is at most `max`.
pub open spec fn evict_records<KV, V>(s: Seq<LruRecord<KV, V>>, max: u64) -> Seq<LruRecord<KV, V>>
    decreases s.len(),
{
    if s.len() == 0 || sum_costs(s) <= max {
        s
    } else {
        evict_records(s.drop_last(), max)
    }
}

/// Every record costs exactly one.
pub open spec fn unit_costs<KV, V>(s: Seq<LruRecord<KV, V>>) -> bool {
    forall|i: int| 0 <= i < s.len() ==> s[i].cost == 1
}

/// The sum over a single record is its cost.
pub proof fn lemma_sum_singleton<KV, V>(r: LruRecord<KV, V>)
    ensures
        sum_costs(seq![r]) == r.cost,
{
    assert(seq![r].drop_last() =~= Seq::<LruRecord<KV, V>>::empty());
    assert(sum_costs(Seq::<LruRecord<KV, V>>::empty()) == 0);
}

/// A sum of record costs is never negative.
pub proof fn lemma_sum_nonneg<KV, V>(s: Seq<LruRecord<KV, V>>)
    ensures
        sum_costs(s) >= 0,
    decreases s.len(),
{
    if s.len() > 0 {
        lemma_sum_nonneg(s.drop_last());
    }
}

/// Summing distributes over concatenation.
pub proof fn lemma_sum_concat<KV, V>(a: Seq<LruRecord<KV, V>>, b: Seq<LruRecord<KV, V>>)
    ensures
        sum_costs(a + b) == sum_costs(a) + sum_costs(b),
    decreases b.len(),
{
    if b.len() == 0 {
        assert(a + b =~= a);
    } else {
        assert((a + b).drop_last() =~= a + b.drop_last());
        lemma_sum_concat(a, b.drop_last());
    }
}

/// The cost of a removed record leaves the sum.
pub proof fn lemma_sum_remove<KV, V>(s: Seq<LruRecord<KV, V>>, i: int)
    requires
        0 <= i < s.len(),
    ensures
        sum_costs(s.remove(i)) == sum_costs(s) - s[i].cost,
{
    let front = s.subrange(0, i);
    let back = s.subrange(i + 1, s.len() as int);
    assert(s.remove(i) =~= front + back);
    assert(s =~= front + (seq![s[i]] + back));
    lemma_sum_concat(front, back);
    lemma_sum_concat(front, seq![s[i]] + back);
    lemma_sum_concat(seq![s[i]], back);
    lemma_sum_singleton(s[i]);
}

/// When the keys are distinct, the position of a key is unique.
pub proof fn lemma_key_index_unique<KV, V>(s: Seq<LruRecord<KV, V>>, k: KV, i: int)
    requires
        distinct_keys(s),
        0 <= i < s.len(),
        s[i].key == k,
    ensures
        has_key(s, k),
        key_index(s, k) == i,
{
    assert(has_key(s, k));
    let j = key_index(s, k);
    assert(0 <= j < s.len() && s[j].key == k);
    if i < j {
        assert(s[i].key != s[j].key);
    } else if j < i {
        assert(s[j].key != s[i].key);
    }
}

/// Removing a key leaves the other keys distinct, and leaves no record with it.
pub proof fn lemma_drop_key_removes<KV, V>(s: Seq<LruRecord<KV, V>>, k: KV)
    requires
        distinct_keys(s),
    ensures
        distinct_keys(drop_key(s, k)),
        !has_key(drop_key(s, k), k),
        sum_costs(drop_key(s, k)) <= sum_costs(s),
        forall|j: KV| j != k ==> has_key(drop_key(s, k), j) == has_key(s, j),
{
    if has_key(s, k) {
        let i = key_index(s, k);
        let t = s.remove(i);
        assert(t =~= s.subrange(0, i) + s.subrange(i + 1, s.len() as int));
        assert forall|p: int, q: int| 0 <= p < q < t.len() implies t[p].key != t[q].key by {
            let p0 = if p < i { p } else { p + 1 };
            let q0 = if q < i { q } else { q + 1 };
            assert(t[p] == s[p0] && t[q] == s[q0]);
        }
        assert forall|p: int| 0 <= p < t.len() implies t[p].key != k by {
            let p0 = if p < i { p } else { p + 1 };
            assert(t[p] == s[p0]);
            if p0 != i {
                lemma_key_index_unique(s, k, i);
                if s[p0].key == k {
                    lemma_key_index_unique(s, k, p0);
                }
            }
        }
        lemma_sum_remove(s, i);
        lemma_sum_nonneg(s);
        assert forall|j: KV| j != k implies has_key(t, j) == has_key(s, j) by {
            if has_key(t, j) {
                let p = choose|p: int| 0 <= p < t.len() && t[p].key == j;
                let p0 = if p < i { p } else { p + 1 };
                assert(s[p0] == t[p]);
                assert(has_key(s, j));
            }
            if has_key(s, j) {
                let p0 = choose|p0: int| 0 <= p0 < s.len() && s[p0].key == j;
                let p = if p0 < i { p0 } else { p0 - 1 };
                assert(t[p] == s[p0]);
                assert(has_key(t, j));
            }
        }
    }
}

/// What survives eviction is a prefix of the input, its cost fits the budget,
/// and every longer prefix would exceed the budget: entries leave strictly
/// from the back.
pub proof fn lemma_evict_is_prefix<KV, V>(s: Seq<LruRecord<KV, V>>, max: u64)
    ensures
        evict_records(s, max).is_prefix_of(s),
        sum_costs(evict_records(s, max)) <= max,
        forall|j: int|
            evict_records(s, max).len() < j <= s.len() ==> sum_costs(s.take(j)) > max,
    decreases s.len(),
{
    if s.len() == 0 || sum_costs(s) <= max {
        assert(evict_records(s, max) =~= s.take(s.len() as int));
    } else {
        lemma_evict_is_prefix(s.drop_last(), max);
        assert(evict_records(s, max).is_prefix_of(s.drop_last()));
        assert(s.drop_last().is_prefix_of(s));
        assert forall|j: int|
            evict_records(s, max).len() < j <= s.len() implies sum_costs(s.take(j)) > max by {
            if j == s.len() {
                assert(s.take(j) =~= s);
            } else {
                assert(s.take(j) =~= s.drop_last().take(j));
            }
        }
    }
}

/// Under unit costs the sum of costs is the length.
pub proof fn lemma_unit_sum_is_len<KV, V>(s: Seq<LruRecord<KV, V>>)
    requires
        unit_costs(s),
    ensures
        sum_costs(s) == s.len(),
    decreases s.len(),
{
    if s.len() > 0 {
        assert(unit_costs(s.drop_last()));
        lemma_unit_sum_is_len(s.drop_last());
    }
}

/// Equivalence with a count-bounded LRU: when every record costs one,
/// eviction against a budget of `n` truncates the sequence to its first `n`
/// records, exactly as a classical LRU of capacity `n` would.
pub proof fn lemma_unit_cost_evict_is_take<KV, V>(s: Seq<LruRecord<KV, V>>, n: u64)
    requires
        unit_costs(s),
    ensures
        evict_records(s, n) == if s.len() <= n {
            s
        } else {
            s.take(n as int)
        },
    decreases s.len(),
{
    lemma_unit_sum_is_len(s);
    if s.len() > n {
        assert(unit_costs(s.drop_last()));
        lemma_unit_cost_evict_is_take(s.drop_last(), n);
        if s.len() - 1 <= n {
            assert(s.drop_last() =~= s.take(n as int));
        } else {
            assert(s.drop_last().take(n as int) =~= s.take(n as int));
        }
    }
}

/// Equivalence with a count-bounded LRU, per insertion: inserting key `k`
/// with a unit cost into a unit-cost cache of budget `n` yields the first `n`
/// records of the classical transition "remove `k`, then push `(k, v)` to the
/// front".
pub proof fn lemma_unit_insert_equiv<KV, V>(
    s: Seq<LruRecord<KV, V>>,
    rec: LruRecord<KV, V>,
    n: u64,
)
    requires
        distinct_keys(s),
        unit_costs(s),
        rec.cost == 1,
    ensures
        evict_records(seq![rec] + drop_key(s, rec.key), n) == if 1 + drop_key(s, rec.key).len()
            <= n {
            seq![rec] + drop_key(s, rec.key)
        } else {
            (seq![rec] + drop_key(s, rec.key)).take(n as int)
        },
{
    let t = seq![rec] + drop_key(s, rec.key);
    assert(unit_costs(drop_key(s, rec.key))) by {
        if has_key(s, rec.key) {
            let i = key_index(s, rec.key);
            assert forall|p: int| 0 <= p < s.remove(i).len() implies s.remove(i)[p].cost == 1 by {
                let p0 = if p < i { p } else { p + 1 };
                assert(s.remove(i) =~= s.subrange(0, i) + s.subrange(i + 1, s.len() as int));
                assert(s.remove(i)[p] == s[p0]);
            }
        }
    }
    assert(unit_costs(t));
    lemma_unit_cost_evict_is_take(t, n);
}

/// After an insertion whose cost fits the budget, the inserted record is the
/// most recent entry and survives the eviction pass.
pub proof fn lemma_insert_head<KV, V>(s: Seq<LruRecord<KV, V>>, rec: LruRecord<KV, V>, max: u64)
    requires
        rec.cost <= max,
    ensures
        evict_records(seq![rec] + s, max).len() > 0,
        evict_records(seq![rec] + s, max).first() == rec,
    decreases s.len(),
{
    let t = seq![rec] + s;
    if t.len() == 0 || sum_costs(t) <= max {
    } else {
        if s.len() == 0 {
            assert(t =~= seq![rec]);
            lemma_sum_singleton(rec);
        } else {
            assert(t.drop_last() =~= seq![rec] + s.drop_last());
            lemma_insert_head(s.drop_last(), rec, max);
        }
    }
}

/// An occupied slot of the cache.
struct CacheEntry<K, V> {
    key: K,
    item: Arc<V>,
    cost: u64,
}

/// An LRU map whose eviction is driven by a total cost budget rather than an
/// entry count.
pub struct CostBasedLru<K: LruKey, V> {
    /// Occupied entries, most recently used first.
    entries: Vec<CacheEntry<K, V>>,
    /// At what cost do we start evicting?
    max_cost: u64,
    /// Current cost of the items in the cache.
    current_cost: u64,
}

impl<K: LruKey, V> CostBasedLru<K, V> {
    /// The model of the cache: its records, most recently used first.
    pub closed spec fn view(&self) -> Seq<LruRecord<K::V, V>> {
        Seq::new(
            self.entries@.len(),
            |i: int|
                LruRecord {
                    key: self.entries@[i].key@,
                    item: *self.entries@[i].item,
                    cost: self.entries@[i].cost,
                },
        )
    }

    /// The cost budget the cache was created with.
    pub closed spec fn spec_max_cost(&self) -> u64 {
        self.max_cost
    }

    /// The recorded total cost of the occupied entries.
    pub closed spec fn spec_current_cost(&self) -> u64 {
        self.current_cost
    }

    /// Well-formedness: keys are distinct, the recorded total cost is the sum
    /// over the occupied entries, and it is within the budget.
    pub open spec fn wf(&self) -> bool {
        &&& self.wf_core()
        &&& sum_costs(self@) <= self.spec_max_cost()
    }

    /// Distinct keys and an accurate cost counter; the budget may be
    /// transiently exceeded in the middle of an insertion.
    pub open spec fn wf_core(&self) -> bool {
        &&& distinct_keys(self@)
        &&& self.spec_current_cost() == sum_costs(self@)
    }

    pub fn new(max_cost: u64) -> (r: CostBasedLru<K, V>)
        ensures
            r.wf(),
            r@ == Seq::<LruRecord<K::V, V>>::empty(),
            r.spec_max_cost() == max_cost,
    {
        let r = CostBasedLru { entries: Vec::new(), max_cost, current_cost: 0 };
        proof {
            assert(r@ =~= Seq::<LruRecord<K::V, V>>::empty());
        }
        r
    }

    /// The slot of `key`, scanning most recent first.
    fn find_index(&self, key: &K) -> (r: Option<usize>)
        requires
            self.wf(),
        ensures
            match r {
                Some(i) => has_key(self@, key@) && 0 <= i < self@.len() && self@[i as int].key
                    == key@ && key_index(self@, key@) == i as int,
                None => !has_key(self@, key@),
            },
    {
        let mut i: usize = 0;
        while i < self.entries.len()
            invariant
                self.wf(),
                0 <= i <= self@.len(),
                forall|j: int| 0 <= j < i ==> self@[j].key != key@,
            decreases self@.len() - i,
        {
            if self.entries[i].key.key_eq(key) {
                proof {
                    lemma_key_index_unique(self@, key@, i as int);
                }
                return Some(i);
            }
            i = i + 1;
        }
        None
    }

    /// Entirely unlink an occupied index from the recency order, handing its
    /// entry back.  Used as a precursor step to lots of things such as
    /// patching up the head.
    fn unlink_index(&mut self, index: usize) -> (r: CacheEntry<K, V>)
        requires
            distinct_keys(old(self)@),
            index < old(self)@.len(),
        ensures
            final(self)@ == old(self)@.remove(index as int),
            distinct_keys(final(self)@),
            r.key@ == old(self)@[index as int].key,
            *r.item == old(self)@[index as int].item,
            r.cost == old(self)@[index as int].cost,
            final(self).spec_max_cost() == old(self).spec_max_cost(),
            final(self).spec_current_cost() == old(self).spec_current_cost(),
    {
        let entry = self.entries.remove(index);
        proof {
            let s = old(self)@;
            let t = s.remove(index as int);
            assert(final(self)@ =~= t);
            assert forall|p: int, q: int| 0 <= p < q < t.len() implies t[p].key != t[q].key by {
                let p0 = if p < index as int {
                    p
                } else {
                    p + 1
                };
                let q0 = if q < index as int {
                    q
                } else {
                    q + 1
                };
                assert(t =~= s.subrange(0, index as int) + s.subrange(
                    index as int + 1,
                    s.len() as int,
                ));
                assert(t[p] == s[p0] && t[q] == s[q0]);
            }
        }
        entry
    }

    /// Given the index of an occupied entry, make it the most recent item.
    fn make_most_recent(&mut self, index: usize)
        requires
            old(self).wf_core(),
            index < old(self)@.len(),
        ensures
            final(self)@ == seq![old(self)@[index as int]] + old(self)@.remove(index as int),
            final(self).wf_core(),
            final(self).spec_max_cost() == old(self).spec_max_cost(),
            final(self).spec_current_cost() == old(self).spec_current_cost(),
    {
        let entry = self.unlink_index(index);
        self.entries.insert(0, entry);
        proof {
            let s = old(self)@;
            let expected = seq![s[index as int]] + s.remove(index as int);
            assert(final(self)@ =~= expected);
            lemma_sum_remove(s, index as int);
            lemma_sum_concat(seq![s[index as int]], s.remove(index as int));
            lemma_sum_singleton(s[index as int]);
            assert forall|p: int, q: int|
                0 <= p < q < expected.len() implies expected[p].key != expected[q].key by {
                let p0 = if p == 0 {
                    index as int
                } else if p <= index {
                    p - 1
                } else {
                    p
                };
                let q0 = if q <= index {
                    q - 1
                } else {
                    q
                };
                assert(expected[p] == s[p0] && expected[q] == s[q0]);
            }
        }
    }

    /// Find an item, marking it as the most recently used.
    pub fn get(&mut self, key: &K) -> (r: Option<Arc<V>>)
        requires
            old(self).wf(),
        ensures
            final(self).wf(),
            final(self).spec_max_cost() == old(self).spec_max_cost(),
            final(self).spec_current_cost() == sum_costs(final(self)@),
            match r {
                Some(v) => has_key(old(self)@, key@) && v == record_of(old(self)@, key@).item
                    && final(self)@ == seq![record_of(old(self)@, key@)] + drop_key(
                    old(self)@,
                    key@,
                ),
                None => !has_key(old(self)@, key@) && *final(self) == *old(self),
            },
    {
        let ind = match self.find_index(key) {
            Some(i) => i,
            None => {
                return None;
            },
        };
        proof {
            lemma_sum_remove(old(self)@, ind as int);
            lemma_sum_concat(
                seq![old(self)@[ind as int]],
                old(self)@.remove(ind as int),
            );
        }
        self.make_most_recent(ind);
        proof {
            assert(self@[0] == old(self)@[ind as int]);
            assert(self@[0].item == *self.entries@[0].item);
        }
        Some(arc_clone(&self.entries[0].item))
    }

    /// Make a specific index of the map become empty, returning its item.
    fn become_empty(&mut self, index: usize) -> (r: Arc<V>)
        requires
            old(self).wf_core(),
            index < old(self)@.len(),
        ensures
            final(self)@ == old(self)@.remove(index as int),
            r == old(self)@[index as int].item,
            final(self).wf_core(),
            final(self).spec_max_cost() == old(self).spec_max_cost(),
            final(self).spec_current_cost() == old(self).spec_current_cost() - old(
                self,
            )@[index as int].cost,
    {
        proof {
            lemma_sum_remove(old(self)@, index as int);
            lemma_sum_nonneg(old(self)@.remove(index as int));
        }
        let entry = self.unlink_index(index);
        self.current_cost = self.current_cost - entry.cost;
        entry.item
    }

    /// Remove an item from the cache, returning it.
    pub fn remove(&mut self, key: &K) -> (r: Option<Arc<V>>)
        requires
            old(self).wf(),
        ensures
            final(self).wf(),
            final(self).spec_max_cost() == old(self).spec_max_cost(),
            final(self).spec_current_cost() == sum_costs(final(self)@),
            final(self)@ == drop_key(old(self)@, key@),
            match r {
                Some(v) => has_key(old(self)@, key@) && v == record_of(old(self)@, key@).item,
                None => !has_key(old(self)@, key@) && *final(self) == *old(self),
            },
    {
        proof {
            lemma_drop_key_removes(old(self)@, key@);
        }
        match self.find_index(key) {
            None => None,
            Some(i) => {
                proof {
                    lemma_sum_remove(old(self)@, i as int);
                    lemma_sum_nonneg(old(self)@.remove(i as int));
                }
                Some(self.become_empty(i))
            },
        }
    }

    /// Run a cache eviction if required.
    fn maybe_evict(&mut self)
        requires
            old(self).wf_core(),
        ensures
            final(self).wf(),
            final(self)@ == evict_records(old(self)@, old(self).spec_max_cost()),
            final(self).spec_max_cost() == old(self).spec_max_cost(),
            final(self).spec_current_cost() == sum_costs(final(self)@),
    {
        while self.current_cost > self.max_cost
            invariant
                self.wf_core(),
                self.spec_max_cost() == old(self).spec_max_cost(),
                evict_records(self@, self.spec_max_cost()) == evict_records(
                    old(self)@,
                    old(self).spec_max_cost(),
                ),
            decreases self@.len(),
        {
            proof {
                if self@.len() == 0 {
                    assert(sum_costs(self@) == 0);
                }
                assert(self@.drop_last() =~= self@.remove(self@.len() - 1));
            }
            let last = self.entries.len() - 1;
            self.become_empty(last);
        }
    }

    /// Add an entry to the cache.  Return the old entry if this key was
    /// already present.
    pub fn insert(&mut self, key: K, value: V, cost: u64) -> (r: Option<Arc<V>>)
        requires
            old(self).wf(),
            sum_costs(old(self)@) + cost <= u64::MAX,
        ensures
            final(self).wf(),
            final(self).spec_max_cost() == old(self).spec_max_cost(),
            final(self).spec_current_cost() == sum_costs(final(self)@),
            final(self)@ == evict_records(
                seq![LruRecord { key: key@, item: value, cost }] + drop_key(old(self)@, key@),
                old(self).spec_max_cost(),
            ),
            match r {
                Some(v) => has_key(old(self)@, key@) && v == record_of(old(self)@, key@).item,
                None => !has_key(old(self)@, key@),
            },
    {
        proof {
            lemma_drop_key_removes(old(self)@, key@);
        }
        let ret = self.remove(&key);
        let ghost mid = self@;
        let item = Arc::new(value);
        self.entries.insert(0, CacheEntry { key, item, cost });
        proof {
            let pushed = seq![LruRecord { key: key@, item: value, cost }] + mid;
            assert(self@ =~= pushed);
            lemma_sum_concat(seq![LruRecord { key: key@, item: value, cost }], mid);
            lemma_sum_singleton(LruRecord { key: key@, item: value, cost });
            lemma_sum_nonneg(mid);
            assert forall|p: int, q: int|
                0 <= p < q < pushed.len() implies pushed[p].key != pushed[q].key by {
                if p == 0 {
                    assert(pushed[q] == mid[q - 1]);
                    assert(!has_key(mid, key@));
                } else {
                    assert(pushed[p] == mid[p - 1] && pushed[q] == mid[q - 1]);
                }
            }
        }
        self.current_cost = self.current_cost + cost;
        self.maybe_evict();
        ret
    }

    /// The entries in most-recently-used order.
    pub fn iter(&self) -> (r: Vec<(K, Arc<V>)>)
        requires
            self.wf(),
        ensures
            r@.len() == self@.len(),
            forall|i: int|
                0 <= i < r@.len() ==> r@[i].0@ == self@[i].key && r@[i].1 == self@[i].item,
    {
        let mut out: Vec<(K, Arc<V>)> = Vec::new();
        let mut i: usize = 0;
        while i < self.entries.len()
            invariant
                self.wf(),
                0 <= i <= self@.len(),
                out@.len() == i,
                forall|j: int|
                    0 <= j < i ==> out@[j].0@ == self@[j].key && out@[j].1 == self@[j].item,
            decreases self@.len() - i,
        {
            out.push((self.entries[i].key.key_clone(), arc_clone(&self.entries[i].item)));
            i = i + 1;
        }
        out
    }

    /// The recorded total cost of the entries.
    pub fn current_cost(&self) -> (r: u64)
        ensures
            r == self.spec_current_cost(),
    {
        self.current_cost
    }

    /// The budget the cache was created with.
    pub fn max_cost(&self) -> (r: u64)
        ensures
            r == self.spec_max_cost(),
    {
        self.max_cost
    }
}

} // verus!
