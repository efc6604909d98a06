//! Cost-bounded LRU caching for small numbers of large decoded objects.
//!
//! The crate offers two layers:
//!
//! - [`CostBasedLru`] is an LRU map in which every entry carries a caller-chosen
//!   cost; once the total cost exceeds a budget, least-recently-used entries are
//!   evicted until the total is back under the budget.
//! - [`AssetCache`] composes two such LRUs (raw bytes and decoded objects) with a
//!   pinned-entry table and a weak-reference recovery table, and drives a
//!   caller-supplied virtual filesystem and decoder to resolve string keys into
//!   shared handles on decoded values.

mod asset_cache;
mod cost_based_lru;
pub mod estimate_cost;
pub mod filesystem_vfs;
mod handles;
mod key_map;
pub mod lru_entry;
mod traits;
pub mod vfs;

pub use asset_cache::{
    config_wf, AssetCache, AssetCacheConfig, AssetCacheConfigBuilder, AssetCacheConfigBuilderError,
    CacheError,
};
pub use cost_based_lru::{
    distinct_keys, drop_key, evict_records, has_key, key_index, lemma_evict_is_prefix,
    lemma_insert_head, lemma_unit_cost_evict_is_take, lemma_unit_insert_equiv, record_of,
    sum_costs, unit_costs, CostBasedLru, LruKey, LruRecord,
};
pub use estimate_cost::EstimateCost;
pub use filesystem_vfs::{within_root, FilesystemVfs, VfsPathError};
pub use handles::{arc_value, WeakHandle};
pub use key_map::KeyMap;
pub use lru_entry::LruEntry;
pub use traits::{ByteReader, Decoder, Vfs, VfsReader};
