//! Tests of the asset cache against an in-memory VFS and an identity
//! decoder, mirroring the concrete end-to-end scenarios of the crate.

use std::collections::HashMap;
use std::io::Error as IoError;
use std::sync::{Arc, Mutex};

use asset_lru::{AssetCache, AssetCacheConfigBuilder, CacheError, Decoder, Vfs, VfsReader};

/// A VFS wrapping a `HashMap` for testing.  It counts how many times a
/// reader's contents were actually read, so tests can tell a bytes-cache hit
/// from a fresh read.
struct HashMapVfs {
    map: Mutex<HashMap<String, Vec<u8>>>,
    reads: Arc<Mutex<u32>>,
}

struct TestReader {
    data: Vec<u8>,
    consumed: bool,
    reads: Arc<Mutex<u32>>,
}

impl VfsReader for TestReader {
    fn get_size(&self) -> Result<u64, IoError> {
        Ok(self.data.len() as u64)
    }

    fn read_all(&mut self) -> Result<Vec<u8>, IoError> {
        *self.reads.lock().unwrap() += 1;
        if self.consumed {
            Ok(Vec::new())
        } else {
            self.consumed = true;
            Ok(self.data.clone())
        }
    }
}

impl Vfs for HashMapVfs {
    type Reader = TestReader;

    fn open(&self, key: &str) -> Result<TestReader, IoError> {
        let data = self
            .map
            .lock()
            .unwrap()
            .get(key)
            .ok_or_else(|| IoError::new(std::io::ErrorKind::NotFound, "Entry not found"))?
            .clone();
        Ok(TestReader { data, consumed: false, reads: self.reads.clone() })
    }
}

impl HashMapVfs {
    fn new() -> HashMapVfs {
        HashMapVfs { map: Mutex::new(HashMap::new()), reads: Arc::new(Mutex::new(0)) }
    }

    fn insert(&self, key: &str, value: Vec<u8>) -> Option<Vec<u8>> {
        self.map.lock().unwrap().insert(key.to_string(), value)
    }

    fn read_count(&self) -> u32 {
        *self.reads.lock().unwrap()
    }
}

/// Identity decoder: the decoded object is the text itself, and its cost is
/// its length in bytes.  It counts its invocations.
struct HashMapDecoder {
    decodes: Arc<Mutex<u32>>,
}

impl HashMapDecoder {
    fn new() -> HashMapDecoder {
        HashMapDecoder { decodes: Arc::new(Mutex::new(0)) }
    }
}

impl Decoder for HashMapDecoder {
    type Output = String;
    type Error = IoError;

    fn decode<R: VfsReader>(&self, mut reader: R) -> Result<String, IoError> {
        *self.decodes.lock().unwrap() += 1;
        let bytes = reader.read_all()?;
        String::from_utf8(bytes)
            .map_err(|_| IoError::new(std::io::ErrorKind::InvalidData, "not utf8"))
    }

    fn estimate_cost(&self, item: &String) -> Result<u64, IoError> {
        Ok(item.len() as u64)
    }
}

fn build_cache() -> (
    Arc<HashMapVfs>,
    Arc<Mutex<u32>>,
    AssetCache<Arc<HashMapVfs>, HashMapDecoder>,
) {
    let cfg = AssetCacheConfigBuilder::default()
        .max_bytes_cost(50)
        .max_single_object_bytes_cost(10)
        .max_decoded_cost(60)
        .max_single_object_decoded_cost(12)
        .build()
        .expect("Should build");
    let vfs = Arc::new(HashMapVfs::new());
    let decoder = HashMapDecoder::new();
    let decodes = decoder.decodes.clone();
    (vfs.clone(), decodes, AssetCache::new(vfs, decoder, cfg))
}

// Test some basic common cache operations.
#[test]
fn basic_ops() {
    let (vfs, _decodes, mut cache) = build_cache();
    vfs.insert("a", "abc".into());
    vfs.insert("b", "def".into());

    assert_eq!(&*cache.get("a").unwrap(), "abc");
    assert_eq!(&*cache.get("b").unwrap(), "def");

    // We should find these keys.
    cache.search_for_item("a").expect("Should find the key");
    cache.search_for_item("b").expect("Should find the item");

    cache.remove("b");
    assert!(cache.search_for_item("b").is_none());
    cache.search_for_item("a").expect("Key should be found");
}

#[test]
fn test_single_object_limits() {
    let (vfs, _decodes, mut cache) = build_cache();

    const SMALL: &str = "small";
    const NO_CACHE_BYTES: &str = "no_cache_bytes";
    const MAX_BYTES: &str = "max_bytes";
    const MAX_DECODED: &str = "max_decoded";
    const NO_CACHE: &str = "no_cache";

    vfs.insert(SMALL, "abc".into());
    vfs.insert(MAX_BYTES, "abcdefghij".into());
    // Big enough that decoding it won't cache the bytes.
    vfs.insert(NO_CACHE_BYTES, "abcdefghijk".into());
    // Largest object we'll cache.
    vfs.insert(MAX_DECODED, "abcdefghijkl".into());
    // Big enough that we don't cache it.
    vfs.insert(NO_CACHE, "abcdefghijklm".into());

    // Load up the cache.
    for i in &[SMALL, MAX_BYTES, MAX_DECODED, NO_CACHE, NO_CACHE_BYTES] {
        cache.get(i).expect("Should decode fine");
    }

    // All but NO_CACHE should be findable.
    assert_eq!(&*cache.search_for_item(SMALL).unwrap(), "abc");
    assert_eq!(&*cache.search_for_item(MAX_BYTES).unwrap(), "abcdefghij");
    assert_eq!(
        &*cache.search_for_item(MAX_DECODED).unwrap(),
        "abcdefghijkl"
    );
    assert_eq!(
        &*cache.search_for_item(NO_CACHE_BYTES).unwrap(),
        "abcdefghijk"
    );
    assert!(cache.search_for_item(NO_CACHE).is_none());
}

/// If we cache objects which are otherwise too large for the cache, or if an
/// object is purged, we can still get the objects via our internal cache of
/// weak references.
#[test]
fn test_weak_recovery() {
    let (vfs, _decodes, mut cache) = build_cache();

    // insert a bunch of keys, holding onto the arcs.
    let mut arcs = vec![];
    for i in 0..100 {
        let key = format!("{}", i);
        let val = format!("{}", i);
        vfs.insert(&key, val.into());
        arcs.push(cache.get(&key).unwrap());
    }

    // Let's verify that key "1" isn't in any of the places we expect it to
    // be.
    assert!(cache.bytes_cache.get(&"1".to_string()).is_none());
    assert!(cache.decoded_cache.get(&"1".to_string()).is_none());
    // But it should be in the weak map.
    assert!(cache.has_weak("1"));

    // And looking for it should find it.
    assert_eq!(&*cache.get("1").unwrap(), "1");

    // If we drop our arcs, we can't find it anymore.
    arcs.clear();
    assert!(cache.search_for_item("1").is_none());

    // If we put a really big item in, then it doesn't cache.  But holding
    // onto the arc will let us get it back anyway.
    vfs.insert("big", "abcdefghijklmnopqrstuvwxyz".into());
    let sref = cache.get("big");
    assert!(cache.bytes_cache.get(&"big".to_string()).is_none());
    assert!(cache.decoded_cache.get(&"big".to_string()).is_none());
    assert_eq!(&*cache.get("big").unwrap(), "abcdefghijklmnopqrstuvwxyz");
    // But droping sref makes it go away.
    std::mem::drop(sref);
    assert!(cache.search_for_item("big").is_none());
}

#[test]
fn removed_key_is_redecoded_from_the_vfs() {
    let (vfs, decodes, mut cache) = build_cache();
    vfs.insert("b", "def".into());
    assert_eq!(&*cache.get("b").unwrap(), "def");
    assert_eq!(*decodes.lock().unwrap(), 1);

    // Hold a handle across the removal: the weak table was expunged, so the
    // next lookup must not revive the old value through it.
    let held = cache.get("b").unwrap();
    cache.remove("b");
    assert!(!cache.has_weak("b"));
    assert_eq!(&*cache.get("b").unwrap(), "def");
    // That lookup went back to the VFS and decoded afresh.
    assert_eq!(*decodes.lock().unwrap(), 2);
    drop(held);
}

#[test]
fn pinned_entry_dominates_until_removed() {
    let (vfs, decodes, mut cache) = build_cache();
    vfs.insert("k", "from-vfs".into());
    cache.cache_always("k".to_string(), Arc::new("pinned".to_string()));

    // Every lookup returns the pinned value, without touching the decoder.
    assert_eq!(&*cache.get("k").unwrap(), "pinned");
    assert_eq!(&*cache.get("k").unwrap(), "pinned");
    assert_eq!(*decodes.lock().unwrap(), 0);

    // After removal the cache falls back to the VFS.
    cache.remove("k");
    assert_eq!(&*cache.get("k").unwrap(), "from-vfs");
    assert_eq!(*decodes.lock().unwrap(), 1);
}

#[test]
fn bytes_cache_serves_redecodes_without_rereading() {
    let cfg = AssetCacheConfigBuilder::default()
        .max_bytes_cost(100)
        .max_single_object_bytes_cost(10)
        .max_decoded_cost(5)
        .max_single_object_decoded_cost(5)
        .build()
        .expect("Should build");
    let vfs = Arc::new(HashMapVfs::new());
    let mut cache = AssetCache::new(vfs.clone(), HashMapDecoder::new(), cfg);

    vfs.insert("x", "one".into());
    vfs.insert("y", "two".into());

    assert_eq!(&*cache.get("x").unwrap(), "one");
    assert_eq!(vfs.read_count(), 1);
    // "y" evicts "x" from the tiny decoded tier, but the bytes stay cached.
    assert_eq!(&*cache.get("y").unwrap(), "two");
    assert!(cache.decoded_cache.get(&"x".to_string()).is_none());

    // Re-decoding "x" uses the cached bytes: no further reader consumption.
    assert_eq!(&*cache.get("x").unwrap(), "one");
    assert_eq!(vfs.read_count(), 2);
}

#[test]
fn missing_key_is_a_vfs_error() {
    let (_vfs, _decodes, mut cache) = build_cache();
    match cache.get("absent") {
        Err(CacheError::Vfs(e)) => {
            assert_eq!(e.kind(), std::io::ErrorKind::NotFound);
        }
        _ => panic!("expected a vfs error"),
    }
}

#[test]
fn undecodable_bytes_are_a_decoder_error_and_do_not_poison() {
    let (vfs, _decodes, mut cache) = build_cache();
    // Eleven invalid bytes: over the single-object bytes threshold, so the
    // raw bytes are not retained either.
    vfs.insert("bad", vec![0xff; 11]);
    match cache.get("bad") {
        Err(CacheError::Decoder(_)) => {}
        _ => panic!("expected a decoder error"),
    }
    // A failed decode does not poison the key: once the underlying condition
    // changes, the same key decodes fine.
    vfs.insert("bad", "good".into());
    assert_eq!(&*cache.get("bad").unwrap(), "good");
}

#[test]
fn builder_requires_every_field() {
    assert!(AssetCacheConfigBuilder::default().build().is_err());
    assert!(AssetCacheConfigBuilder::default()
        .max_bytes_cost(1)
        .max_decoded_cost(2)
        .max_single_object_bytes_cost(1)
        .build()
        .is_err());
    let cfg = AssetCacheConfigBuilder::default()
        .max_bytes_cost(1)
        .max_decoded_cost(2)
        .max_single_object_bytes_cost(1)
        .max_single_object_decoded_cost(2)
        .build()
        .expect("Should build");
    assert_eq!(cfg.max_bytes_cost, 1);
    assert_eq!(cfg.max_decoded_cost, 2);
    assert_eq!(cfg.max_single_object_bytes_cost, 1);
    assert_eq!(cfg.max_single_object_decoded_cost, 2);
}

#[test]
fn decode_bytes_default_reads_the_slice() {
    let decoder = HashMapDecoder::new();
    let out = decoder.decode_bytes("xyz".as_bytes()).unwrap();
    assert_eq!(out, "xyz");
    assert_eq!(*decoder.decodes.lock().unwrap(), 1);
}
