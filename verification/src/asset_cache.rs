//! The [`AssetCache`] drives a [`Vfs`], producing an output type from an input
//! type with 2 levels of caching.
//!
//! Typically, the [`Vfs`] is a file-backed implementation, and the output type
//! is something like a decoded image or audio buffer.
//!
//! The cache caches at two points:
//!
//! - First, at the level of reading bytes into an in-memory buffer.
//! - Second, the actual decoded objects themselves.
//!
//! Any asset which is so critical that it must never be unloaded may be pinned
//! with [`AssetCache::cache_always`], at which point it may only be removed
//! with [`AssetCache::remove`].

use crate::cost_based_lru::{
    drop_key, evict_records, has_key, lemma_insert_head, lemma_key_index_unique, record_of,
    CostBasedLru, LruRecord,
};
use crate::handles::{arc_clone, arc_value, WeakHandle};
use crate::key_map::KeyMap;
use crate::traits::{Decoder, Vfs, VfsReader};
use std::sync::Arc;
use vstd::prelude::*;

verus! {

/// Configuration of an [`AssetCache`].
#[derive(Debug)]
pub struct AssetCacheConfig {
    /// Maximum cost of the bytes cache in bytes.
    pub max_bytes_cost: u64,
    /// Maximum cost of the decoded cache in bytes.
    pub max_decoded_cost: u64,
    /// Point at which we will stop caching bytes.
    pub max_single_object_bytes_cost: u64,
    /// Point at which we will avoid caching decoded objects.
    pub max_single_object_decoded_cost: u64,
}

/// A sane configuration: each single-object threshold fits inside the
/// capacity of its tier, so that a freshly admitted entry is never evicted by
/// its own insertion, and the sums cannot overflow the cost counters.
pub open spec fn config_wf(c: AssetCacheConfig) -> bool {
    &&& c.max_single_object_bytes_cost <= c.max_bytes_cost
    &&& c.max_single_object_decoded_cost <= c.max_decoded_cost
    &&& c.max_bytes_cost + c.max_single_object_bytes_cost <= u64::MAX
    &&& c.max_decoded_cost + c.max_single_object_decoded_cost <= u64::MAX
}

/// Error returned by [`AssetCacheConfigBuilder::build`] when a field was
/// never set.
#[derive(Debug)]
pub struct AssetCacheConfigBuilderError;

/// Builder for [`AssetCacheConfig`]; building fails while any field is
/// unset.
pub struct AssetCacheConfigBuilder {
    max_bytes_cost: Option<u64>,
    max_decoded_cost: Option<u64>,
    max_single_object_bytes_cost: Option<u64>,
    max_single_object_decoded_cost: Option<u64>,
}

impl Default for AssetCacheConfigBuilder {
    fn default() -> (r: Self)
        ensures
            r.spec_fields() == (
                None::<u64>,
                None::<u64>,
                None::<u64>,
                None::<u64>,
            ),
    {
        AssetCacheConfigBuilder {
            max_bytes_cost: None,
            max_decoded_cost: None,
            max_single_object_bytes_cost: None,
            max_single_object_decoded_cost: None,
        }
    }
}

impl AssetCacheConfigBuilder {
    /// The four optional fields, in declaration order.
    pub closed spec fn spec_fields(&self) -> (
        Option<u64>,
        Option<u64>,
        Option<u64>,
        Option<u64>,
    ) {
        (
            self.max_bytes_cost,
            self.max_decoded_cost,
            self.max_single_object_bytes_cost,
            self.max_single_object_decoded_cost,
        )
    }

    pub fn max_bytes_cost(self, value: u64) -> (r: Self)
        ensures
            r.spec_fields() == (
                Some(value),
                self.spec_fields().1,
                self.spec_fields().2,
                self.spec_fields().3,
            ),
    {
        AssetCacheConfigBuilder { max_bytes_cost: Some(value), ..self }
    }

    pub fn max_decoded_cost(self, value: u64) -> (r: Self)
        ensures
            r.spec_fields() == (
                self.spec_fields().0,
                Some(value),
                self.spec_fields().2,
                self.spec_fields().3,
            ),
    {
        AssetCacheConfigBuilder { max_decoded_cost: Some(value), ..self }
    }

    pub fn max_single_object_bytes_cost(self, value: u64) -> (r: Self)
        ensures
            r.spec_fields() == (
                self.spec_fields().0,
                self.spec_fields().1,
                Some(value),
                self.spec_fields().3,
            ),
    {
        AssetCacheConfigBuilder { max_single_object_bytes_cost: Some(value), ..self }
    }

    pub fn max_single_object_decoded_cost(self, value: u64) -> (r: Self)
        ensures
            r.spec_fields() == (
                self.spec_fields().0,
                self.spec_fields().1,
                self.spec_fields().2,
                Some(value),
            ),
    {
        AssetCacheConfigBuilder { max_single_object_decoded_cost: Some(value), ..self }
    }

    /// Produce the configuration; fails if and only if some field is unset.
    pub fn build(&self) -> (r: Result<AssetCacheConfig, AssetCacheConfigBuilderError>)
        ensures
            match r {
                Ok(c) => {
                    &&& self.spec_fields().0 == Some(c.max_bytes_cost)
                    &&& self.spec_fields().1 == Some(c.max_decoded_cost)
                    &&& self.spec_fields().2 == Some(c.max_single_object_bytes_cost)
                    &&& self.spec_fields().3 == Some(c.max_single_object_decoded_cost)
                },
                Err(_) => self.spec_fields().0 is None || self.spec_fields().1 is None
                    || self.spec_fields().2 is None || self.spec_fields().3 is None,
            },
    {
        match (
            self.max_bytes_cost,
            self.max_decoded_cost,
            self.max_single_object_bytes_cost,
            self.max_single_object_decoded_cost,
        ) {
            (Some(a), Some(b), Some(c), Some(d)) => Ok(
                AssetCacheConfig {
                    max_bytes_cost: a,
                    max_decoded_cost: b,
                    max_single_object_bytes_cost: c,
                    max_single_object_decoded_cost: d,
                },
            ),
            _ => Err(AssetCacheConfigBuilderError),
        }
    }
}

/// Errors surfaced to callers of [`AssetCache::get`]: either the virtual
/// filesystem failed to open or read the key, or the decoder rejected its
/// bytes.
#[derive(Debug)]
pub enum CacheError<DecoderError> {
    Vfs(std::io::Error),
    Decoder(DecoderError),
}

/// A two-tier cost-bounded cache from string keys to decoded objects.
pub struct AssetCache<VfsImpl: Vfs, DecoderImpl: Decoder> {
    config: AssetCacheConfig,
    pinned_entries: KeyMap<Arc<DecoderImpl::Output>>,
    /// Raw bytes read from the VFS, cached up to `max_bytes_cost`.
    pub bytes_cache: CostBasedLru<String, Vec<u8>>,
    /// Decoded objects, cached up to `max_decoded_cost`.
    pub decoded_cache: CostBasedLru<String, DecoderImpl::Output>,
    /// Keys whose decoding has been entered; under concurrent use each would
    /// carry a per-key token stopping other threads from decoding the same
    /// content.
    decoding_guards: KeyMap<()>,
    /// After eviction, we can still give the item back if something external
    /// kept it around; do so unless the user explicitly deleted it.
    weak_refs: KeyMap<WeakHandle<DecoderImpl::Output>>,
    vfs: VfsImpl,
    decoder: DecoderImpl,
}

impl<VfsImpl: Vfs, DecoderImpl: Decoder> AssetCache<VfsImpl, DecoderImpl> {
    /// The configuration the cache was built with.
    pub closed spec fn spec_config(&self) -> AssetCacheConfig {
        self.config
    }

    /// The pinned entries, by value.
    pub closed spec fn spec_pinned(&self) -> Map<Seq<char>, DecoderImpl::Output> {
        self.pinned_entries@.map_values(|a: Arc<DecoderImpl::Output>| arc_value(&a))
    }

    /// The decoded LRU records, most recent first.
    pub closed spec fn spec_decoded(&self) -> Seq<LruRecord<Seq<char>, DecoderImpl::Output>> {
        self.decoded_cache@
    }

    /// The bytes LRU records, most recent first.
    pub closed spec fn spec_bytes(&self) -> Seq<LruRecord<Seq<char>, Vec<u8>>> {
        self.bytes_cache@
    }

    /// The values the weak table observes, per key.
    pub closed spec fn spec_weak(&self) -> Map<Seq<char>, DecoderImpl::Output> {
        self.weak_refs@.map_values(|w: WeakHandle<DecoderImpl::Output>| w.spec_target())
    }

    /// The keys whose decoding guard exists.
    pub closed spec fn spec_guards(&self) -> Set<Seq<char>> {
        self.decoding_guards@.dom()
    }

    /// Well-formedness of the whole cache.
    pub closed spec fn wf(&self) -> bool {
        &&& self.pinned_entries.wf()
        &&& self.bytes_cache.wf()
        &&& self.decoded_cache.wf()
        &&& self.decoding_guards.wf()
        &&& self.weak_refs.wf()
        &&& self.bytes_cache.spec_max_cost() == self.config.max_bytes_cost
        &&& self.decoded_cache.spec_max_cost() == self.config.max_decoded_cost
        &&& config_wf(self.config)
    }

    /// The value a cache hit for `key` would produce on state `pre`: the
    /// pinned value first, else the decoded LRU entry, else the value the
    /// weak table observes.
    pub open spec fn found_value(
        pre: Self,
        key: Seq<char>,
        v: DecoderImpl::Output,
    ) -> bool {
        if pre.spec_pinned().dom().contains(key) {
            v == pre.spec_pinned()[key]
        } else if has_key(pre.spec_decoded(), key) {
            v == record_of(pre.spec_decoded(), key).item
        } else {
            pre.spec_weak().dom().contains(key) && v == pre.spec_weak()[key]
        }
    }

    /// All tiers except the decoded LRU are unchanged, and the decoded LRU
    /// either kept its records or promoted `key` to the front.
    pub open spec fn same_up_to_promotion(pre: Self, post: Self, key: Seq<char>) -> bool {
        &&& post.spec_config() == pre.spec_config()
        &&& post.spec_pinned() == pre.spec_pinned()
        &&& post.spec_bytes() == pre.spec_bytes()
        &&& post.spec_weak() == pre.spec_weak()
        &&& post.spec_guards() == pre.spec_guards()
        &&& (post.spec_decoded() == pre.spec_decoded() || (has_key(pre.spec_decoded(), key)
            && post.spec_decoded() == seq![record_of(pre.spec_decoded(), key)] + drop_key(
            pre.spec_decoded(),
            key,
        )))
    }

    /// The bytes LRU was left alone, promoted at `key`, or refilled at `key`
    /// with some buffer read from the VFS; other keys change only by
    /// eviction from the back.
    pub open spec fn bytes_touched_only_at(pre: Self, post: Self, key: Seq<char>) -> bool {
        ||| post.spec_bytes() == pre.spec_bytes()
        ||| (has_key(pre.spec_bytes(), key) && post.spec_bytes() == seq![record_of(
            pre.spec_bytes(),
            key,
        )] + drop_key(pre.spec_bytes(), key))
        ||| (exists|b: Vec<u8>, c: u64|
            post.spec_bytes() == evict_records(
                seq![LruRecord { key, item: b, cost: c }] + drop_key(pre.spec_bytes(), key),
                pre.spec_config().max_bytes_cost,
            ))
    }

    /// The decoded LRU was left alone, promoted at `key`, or extended at
    /// `key` with the value `v` under some cost within the single-object
    /// threshold.
    pub open spec fn decoded_touched_only_at(
        pre: Self,
        post: Self,
        key: Seq<char>,
        v: DecoderImpl::Output,
    ) -> bool {
        ||| post.spec_decoded() == pre.spec_decoded()
        ||| (has_key(pre.spec_decoded(), key) && post.spec_decoded() == seq![record_of(
            pre.spec_decoded(),
            key,
        )] + drop_key(pre.spec_decoded(), key))
        ||| (!has_key(pre.spec_decoded(), key) && exists|c: u64|
            c <= pre.spec_config().max_single_object_decoded_cost && post.spec_decoded()
                == evict_records(
                seq![LruRecord { key, item: v, cost: c }] + pre.spec_decoded(),
                pre.spec_config().max_decoded_cost,
            ))
    }

    pub fn new(vfs: VfsImpl, decoder: DecoderImpl, config: AssetCacheConfig) -> (r: Self)
        requires
            config_wf(config),
        ensures
            r.wf(),
            r.spec_config() == config,
            r.spec_pinned() == Map::<Seq<char>, DecoderImpl::Output>::empty(),
            r.spec_decoded() == Seq::<LruRecord<Seq<char>, DecoderImpl::Output>>::empty(),
            r.spec_bytes() == Seq::<LruRecord<Seq<char>, Vec<u8>>>::empty(),
            r.spec_weak() == Map::<Seq<char>, DecoderImpl::Output>::empty(),
            r.spec_guards() == Set::<Seq<char>>::empty(),
    {
        let r = AssetCache {
            decoder,
            vfs,
            bytes_cache: CostBasedLru::new(config.max_bytes_cost),
            decoded_cache: CostBasedLru::new(config.max_decoded_cost),
            decoding_guards: KeyMap::new(),
            pinned_entries: KeyMap::new(),
            weak_refs: KeyMap::new(),
            config,
        };
        proof {
            assert(r.spec_pinned() =~= Map::<Seq<char>, DecoderImpl::Output>::empty());
            assert(r.spec_weak() =~= Map::<Seq<char>, DecoderImpl::Output>::empty());
            assert(r.spec_guards() =~= Set::<Seq<char>>::empty());
        }
        r
    }

    /// Find an item in the cache, returning `None` if it isn't currently
    /// cached.  A hit in the decoded LRU promotes the entry; nothing else
    /// changes.
    pub fn search_for_item(&mut self, key: &str) -> (r: Option<Arc<DecoderImpl::Output>>)
        requires
            old(self).wf(),
        ensures
            final(self).wf(),
            Self::same_up_to_promotion(*old(self), *final(self), key@),
            match r {
                Some(v) => Self::found_value(*old(self), key@, arc_value(&v)),
                None => !old(self).spec_pinned().dom().contains(key@) && !has_key(
                    old(self).spec_decoded(),
                    key@,
                ) && final(self).spec_decoded() == old(self).spec_decoded(),
            },
    {
        let owned: String = key.to_owned();
        let pinned = self.pinned_entries.get(&owned);
        if let Some(x) = pinned {
            return Some(arc_clone(x));
        }
        let from_decoded = self.decoded_cache.get(&owned);
        if let Some(x) = from_decoded {
            return Some(x);
        }
        match self.weak_refs.get(&owned) {
            Some(w) => {
                let up = w.upgrade();
                proof {
                    match up {
                        Some(ref a) => {
                            assert(self.spec_weak().dom().contains(key@));
                            assert(self.spec_weak()[key@] == arc_value(a));
                        },
                        None => {},
                    }
                }
                up
            },
            None => None,
        }
    }

    /// Record `value` under `key`: install it in the decoded LRU when its
    /// cost allows, and publish a weak handle to it either way.  Returns the
    /// shared handle for the caller.
    fn publish_decoded(&mut self, key: &str, value: DecoderImpl::Output, cost: u64) -> (r: Arc<
        DecoderImpl::Output,
    >)
        requires
            old(self).wf(),
            !has_key(old(self).spec_decoded(), key@),
        ensures
            final(self).wf(),
            arc_value(&r) == value,
            final(self).spec_config() == old(self).spec_config(),
            final(self).spec_pinned() == old(self).spec_pinned(),
            final(self).spec_bytes() == old(self).spec_bytes(),
            final(self).spec_guards() == old(self).spec_guards(),
            final(self).spec_weak() == old(self).spec_weak().insert(key@, value),
            cost <= old(self).spec_config().max_single_object_decoded_cost ==> final(self).spec_decoded() == evict_records(
                seq![LruRecord { key: key@, item: value, cost }] + old(self).spec_decoded(),
                old(self).spec_config().max_decoded_cost,
            ),
            cost > old(self).spec_config().max_single_object_decoded_cost ==> final(self).spec_decoded() == old(self).spec_decoded(),
            has_key(final(self).spec_decoded(), key@) ==> record_of(
                final(self).spec_decoded(),
                key@,
            ).item == value,
    {
        let res: Arc<DecoderImpl::Output> = if cost
            <= self.config.max_single_object_decoded_cost {
            let ghost pre = self.decoded_cache@;
            proof {
                crate::cost_based_lru::lemma_sum_nonneg(pre);
            }
            self.decoded_cache.insert(key.to_owned(), value, cost);
            proof {
                let rec = LruRecord { key: key@, item: value, cost };
                assert(drop_key(pre, key@) == pre);
                lemma_insert_head(pre, rec, self.config.max_decoded_cost);
                let t = self.decoded_cache@;
                assert(t[0] == rec);
                assert(has_key(t, key@));
                lemma_key_index_unique(t, key@, 0);
            }
            let owned: String = key.to_owned();
            let got = self.decoded_cache.get(&owned);
            match got {
                Some(x) => {
                    proof {
                        let t = old(self).decoded_cache@;
                        let rec = LruRecord { key: key@, item: value, cost };
                        let u = evict_records(
                            seq![rec] + t,
                            self.config.max_decoded_cost,
                        );
                        assert(seq![u[0]] + u.remove(0) =~= u);
                    }
                    x
                },
                None => vstd::pervasive::unreached(),
            }
        } else {
            Arc::new(value)
        };
        let weak = WeakHandle::downgrade(&res);
        self.weak_refs.insert(key.to_owned(), weak);
        proof {
            assert(final(self).spec_weak() =~= old(self).spec_weak().insert(key@, value));
        }
        res
    }

    /// Decode an item for the cache, assuming we definitely know it isn't
    /// present and are holding the guard necessary to stop other threads from
    /// attempting to do so in parallel.
    ///
    /// This is hard to break up into smaller functions, unfortunately.
    fn find_or_decode_postchecked(&mut self, key: &str) -> (r: Result<
        Arc<DecoderImpl::Output>,
        CacheError<DecoderImpl::Error>,
    >)
        requires
            old(self).wf(),
        ensures
            final(self).wf(),
            final(self).spec_config() == old(self).spec_config(),
            final(self).spec_pinned() == old(self).spec_pinned(),
            final(self).spec_guards() == old(self).spec_guards(),
            match r {
                Ok(v) => {
                    &&& (old(self).spec_pinned().dom().contains(key@) ==> arc_value(&v) == old(self).spec_pinned()[key@])
                    &&& (!old(self).spec_pinned().dom().contains(key@) && has_key(
                        old(self).spec_decoded(),
                        key@,
                    ) ==> arc_value(&v) == record_of(old(self).spec_decoded(), key@).item)
                    &&& (Self::found_value(*old(self), key@, arc_value(&v)) || final(self).spec_weak() == old(self).spec_weak().insert(key@, arc_value(&v)))
                    &&& (has_key(final(self).spec_decoded(), key@) && !has_key(
                        old(self).spec_decoded(),
                        key@,
                    ) ==> record_of(final(self).spec_decoded(), key@).item == arc_value(&v))
                    &&& (final(self).spec_weak() == old(self).spec_weak() || final(self).spec_weak() == old(self).spec_weak().insert(key@, arc_value(&v)))
                    &&& Self::decoded_touched_only_at(*old(self), *final(self), key@, arc_value(&v))
                    &&& Self::bytes_touched_only_at(*old(self), *final(self), key@)
                },
                Err(_) => {
                    &&& Self::bytes_touched_only_at(*old(self), *final(self), key@)
                    &&& !old(self).spec_pinned().dom().contains(key@)
                    &&& !has_key(old(self).spec_decoded(), key@)
                    &&& final(self).spec_decoded() == old(self).spec_decoded()
                    &&& final(self).spec_weak() == old(self).spec_weak()
                },
            },
    {
        // First, if we can find the item, return it immediately.
        let found = self.search_for_item(key);
        if let Some(x) = found {
            return Ok(x);
        }
        // If we can get the size of the item, and it is less than the single
        // object limit, we cache a vec of bytes.  Otherwise, we feed the
        // reader into the decoder directly.
        let mut bytes_reader = match self.vfs.open(key) {
            Ok(r) => r,
            Err(e) => {
                return Err(CacheError::Vfs(e));
            },
        };
        // A reader that cannot report its size is treated as too big for the
        // bytes cache and streamed straight to the decoder.
        let mut cacheable_size: Option<u64> = None;
        match bytes_reader.get_size() {
            Ok(size) => {
                if size <= self.config.max_single_object_bytes_cost {
                    cacheable_size = Some(size);
                }
            },
            Err(_) => {},
        }
        let decoded_result: Result<DecoderImpl::Output, DecoderImpl::Error> = match
            cacheable_size {
            Some(size) => {
                let owned: String = key.to_owned();
                let maybe_cached_bytes = self.bytes_cache.get(&owned);
                match maybe_cached_bytes {
                    Some(x) => self.decoder.decode_bytes((&*x).as_slice()),
                    None => {
                        // Read to a vec, insert that vec, then read from the
                        // vec.
                        match bytes_reader.read_all() {
                            Err(e) => {
                                return Err(CacheError::Vfs(e));
                            },
                            Ok(dest) => {
                                let ghost prebytes = self.bytes_cache@;
                                proof {
                                    crate::cost_based_lru::lemma_sum_nonneg(prebytes);
                                }
                                self.bytes_cache.insert(owned.clone(), dest, size);
                                proof {
                                    let rec = LruRecord { key: key@, item: dest, cost: size };
                                    assert(drop_key(prebytes, key@) == prebytes);
                                    lemma_insert_head(
                                        prebytes,
                                        rec,
                                        self.config.max_bytes_cost,
                                    );
                                    let t = self.bytes_cache@;
                                    assert(t[0] == rec);
                                    assert(has_key(t, key@));
                                    lemma_key_index_unique(t, key@, 0);
                                }
                                let will_use = match self.bytes_cache.get(&owned) {
                                    Some(x) => x,
                                    None => vstd::pervasive::unreached(),
                                };
                                proof {
                                    let rec = LruRecord { key: key@, item: dest, cost: size };
                                    let t = evict_records(
                                        seq![rec] + prebytes,
                                        self.config.max_bytes_cost,
                                    );
                                    assert(seq![t[0]] + t.remove(0) =~= t);
                                    assert(prebytes == old(self).spec_bytes());
                                    assert(self.spec_bytes() == evict_records(
                                        seq![rec] + drop_key(old(self).spec_bytes(), key@),
                                        old(self).spec_config().max_bytes_cost,
                                    ));
                                }
                                self.decoder.decode_bytes((&*will_use).as_slice())
                            },
                        }
                    },
                }
            },
            None => {
                // The object was too big, or we couldn't get the size; in
                // this case, we feed the vfs directly to the decoder.
                self.decoder.decode(bytes_reader)
            },
        };
        let decoded = match decoded_result {
            Ok(d) => d,
            Err(e) => {
                return Err(CacheError::Decoder(e));
            },
        };
        let cost = match self.decoder.estimate_cost(&decoded) {
            Ok(c) => c,
            Err(e) => {
                return Err(CacheError::Decoder(e));
            },
        };
        let res = self.publish_decoded(key, decoded, cost);
        proof {
            if cost <= self.config.max_single_object_decoded_cost {
                assert(self.spec_decoded() == evict_records(
                    seq![LruRecord { key: key@, item: arc_value(&res), cost }] + old(self).spec_decoded(),
                    old(self).spec_config().max_decoded_cost,
                ));
            }
        }
        Ok(res)
    }

    /// Find or decode an item from the cache.
    fn find_or_decode(&mut self, key: &str) -> (r: Result<
        Arc<DecoderImpl::Output>,
        CacheError<DecoderImpl::Error>,
    >)
        requires
            old(self).wf(),
        ensures
            final(self).wf(),
            final(self).spec_config() == old(self).spec_config(),
            final(self).spec_pinned() == old(self).spec_pinned(),
            final(self).spec_guards() == old(self).spec_guards() || final(self).spec_guards()
                == old(self).spec_guards().insert(key@),
            match r {
                Ok(v) => {
                    &&& (old(self).spec_pinned().dom().contains(key@) ==> arc_value(&v) == old(self).spec_pinned()[key@])
                    &&& (!old(self).spec_pinned().dom().contains(key@) && has_key(
                        old(self).spec_decoded(),
                        key@,
                    ) ==> arc_value(&v) == record_of(old(self).spec_decoded(), key@).item)
                    &&& (Self::found_value(*old(self), key@, arc_value(&v)) || final(self).spec_weak() == old(self).spec_weak().insert(key@, arc_value(&v)))
                    &&& (has_key(final(self).spec_decoded(), key@) && !has_key(
                        old(self).spec_decoded(),
                        key@,
                    ) ==> record_of(final(self).spec_decoded(), key@).item == arc_value(&v))
                    &&& (final(self).spec_weak() == old(self).spec_weak() || final(self).spec_weak() == old(self).spec_weak().insert(key@, arc_value(&v)))
                    &&& Self::decoded_touched_only_at(*old(self), *final(self), key@, arc_value(&v))
                    &&& Self::bytes_touched_only_at(*old(self), *final(self), key@)
                },
                Err(_) => {
                    &&& Self::bytes_touched_only_at(*old(self), *final(self), key@)
                    &&& !old(self).spec_pinned().dom().contains(key@)
                    &&& !has_key(old(self).spec_decoded(), key@)
                    &&& final(self).spec_decoded() == old(self).spec_decoded()
                    &&& final(self).spec_weak() == old(self).spec_weak()
                },
            },
    {
        let found = self.search_for_item(key);
        if let Some(x) = found {
            return Ok(x);
        }
        // Stop any other threads from trying to decode this item, and make
        // them wait on this thread to finish.  In this sequential core the
        // guard set only records that the key's decode has been entered; a
        // concurrent wrapper locks the per-key token it maintains alongside.
        let owned: String = key.to_owned();
        if !self.decoding_guards.contains_key(&owned) {
            self.decoding_guards.insert(owned, ());
        }
        self.find_or_decode_postchecked(key)
    }

    /// Get an item from the cache, decoding if the item isn't present.
    ///
    /// A pinned entry is always returned as is; an entry in the decoded LRU
    /// is returned and promoted; a live weak entry is revived; otherwise the
    /// VFS and decoder run, and on success the fresh value is published in
    /// the weak table (and, cost permitting, the decoded LRU).
    pub fn get(&mut self, key: &str) -> (r: Result<
        Arc<DecoderImpl::Output>,
        CacheError<DecoderImpl::Error>,
    >)
        requires
            old(self).wf(),
        ensures
            final(self).wf(),
            final(self).spec_config() == old(self).spec_config(),
            final(self).spec_pinned() == old(self).spec_pinned(),
            final(self).spec_guards() == old(self).spec_guards() || final(self).spec_guards()
                == old(self).spec_guards().insert(key@),
            match r {
                Ok(v) => {
                    &&& (old(self).spec_pinned().dom().contains(key@) ==> arc_value(&v) == old(self).spec_pinned()[key@])
                    &&& (!old(self).spec_pinned().dom().contains(key@) && has_key(
                        old(self).spec_decoded(),
                        key@,
                    ) ==> arc_value(&v) == record_of(old(self).spec_decoded(), key@).item)
                    &&& (Self::found_value(*old(self), key@, arc_value(&v)) || final(self).spec_weak() == old(self).spec_weak().insert(key@, arc_value(&v)))
                    &&& (has_key(final(self).spec_decoded(), key@) && !has_key(
                        old(self).spec_decoded(),
                        key@,
                    ) ==> record_of(final(self).spec_decoded(), key@).item == arc_value(&v))
                    &&& (final(self).spec_weak() == old(self).spec_weak() || final(self).spec_weak() == old(self).spec_weak().insert(key@, arc_value(&v)))
                    &&& Self::decoded_touched_only_at(*old(self), *final(self), key@, arc_value(&v))
                    &&& Self::bytes_touched_only_at(*old(self), *final(self), key@)
                },
                Err(_) => {
                    &&& Self::bytes_touched_only_at(*old(self), *final(self), key@)
                    &&& !old(self).spec_pinned().dom().contains(key@)
                    &&& !has_key(old(self).spec_decoded(), key@)
                    &&& final(self).spec_decoded() == old(self).spec_decoded()
                    &&& final(self).spec_weak() == old(self).spec_weak()
                },
            },
    {
        self.find_or_decode(key)
    }

    /// Pin an item, so that it is always present in the cache.
    pub fn cache_always(&mut self, key: String, value: Arc<DecoderImpl::Output>)
        requires
            old(self).wf(),
        ensures
            final(self).wf(),
            final(self).spec_config() == old(self).spec_config(),
            final(self).spec_pinned() == old(self).spec_pinned().insert(
                key@,
                arc_value(&value),
            ),
            final(self).spec_weak() == old(self).spec_weak().insert(key@, arc_value(&value)),
            final(self).spec_decoded() == old(self).spec_decoded(),
            final(self).spec_bytes() == old(self).spec_bytes(),
            final(self).spec_guards() == old(self).spec_guards(),
    {
        let weak = WeakHandle::downgrade(&value);
        let ghost v = arc_value(&value);
        self.pinned_entries.insert(key.clone(), value);
        self.weak_refs.insert(key, weak);
        proof {
            assert(final(self).spec_pinned() =~= old(self).spec_pinned().insert(key@, v));
            assert(final(self).spec_weak() =~= old(self).spec_weak().insert(key@, v));
        }
    }

    /// Remove an item from the cache: every tier forgets the key, including
    /// the weak table, so a later lookup cannot revive the old value.
    pub fn remove(&mut self, key: &str)
        requires
            old(self).wf(),
        ensures
            final(self).wf(),
            final(self).spec_config() == old(self).spec_config(),
            final(self).spec_pinned() == old(self).spec_pinned().remove(key@),
            final(self).spec_decoded() == drop_key(old(self).spec_decoded(), key@),
            final(self).spec_bytes() == drop_key(old(self).spec_bytes(), key@),
            final(self).spec_weak() == old(self).spec_weak().remove(key@),
            final(self).spec_guards() == old(self).spec_guards().remove(key@),
    {
        let owned: String = key.to_owned();
        self.pinned_entries.remove(&owned);
        self.bytes_cache.remove(&owned);
        self.decoding_guards.remove(&owned);
        self.decoded_cache.remove(&owned);
        self.weak_refs.remove(&owned);
        proof {
            assert(final(self).spec_pinned() =~= old(self).spec_pinned().remove(key@));
            assert(final(self).spec_weak() =~= old(self).spec_weak().remove(key@));
            assert(final(self).spec_guards() =~= old(self).spec_guards().remove(key@));
        }
    }

    /// Whether the weak table currently holds an entry for `key`.
    pub fn has_weak(&self, key: &str) -> (r: bool)
        requires
            self.wf(),
        ensures
            r == self.spec_weak().dom().contains(key@),
    {
        let owned: String = key.to_owned();
        self.weak_refs.contains_key(&owned)
    }
}

} // verus!
