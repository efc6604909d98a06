//! Tests of the cost-based LRU container.

use asset_lru::CostBasedLru;

// We know everything else works, including complex linked lists for eviction,
// but let's still check what happens without a cost of zero.
#[test]
fn test_eviction() {
    let mut cache = CostBasedLru::<u64, u64>::new(10);
    cache.insert(1, 1, 1);
    cache.insert(2, 2, 2);
    cache.insert(3, 3, 3);
    cache.insert(4, 4, 4);
    cache.insert(5, 5, 5);

    let state = cache
        .iter()
        .into_iter()
        .map(|x| (x.0, *x.1))
        .collect::<Vec<(u64, u64)>>();
    assert_eq!(state, vec![(5, 5), (4, 4)]);
}

/// A classical count-bounded LRU, used as the reference model: with every
/// cost set to one, the cost-based cache must behave exactly like it.
struct BoundedLru {
    entries: Vec<(u64, u64)>,
    capacity: usize,
}

impl BoundedLru {
    fn new(capacity: usize) -> BoundedLru {
        BoundedLru { entries: Vec::new(), capacity }
    }

    fn get(&mut self, key: u64) -> Option<u64> {
        let pos = self.entries.iter().position(|e| e.0 == key)?;
        let entry = self.entries.remove(pos);
        let value = entry.1;
        self.entries.insert(0, entry);
        Some(value)
    }

    fn put(&mut self, key: u64, value: u64) -> Option<u64> {
        let old = if let Some(pos) = self.entries.iter().position(|e| e.0 == key) {
            Some(self.entries.remove(pos).1)
        } else {
            None
        };
        self.entries.insert(0, (key, value));
        self.entries.truncate(self.capacity);
        old
    }

    fn remove(&mut self, key: u64) -> Option<u64> {
        let pos = self.entries.iter().position(|e| e.0 == key)?;
        Some(self.entries.remove(pos).1)
    }

    fn state(&self) -> Vec<(u64, u64)> {
        self.entries.clone()
    }
}

#[test]
fn unit_cost_matches_bounded_lru() {
    // A fixed, deterministic command tape mixing hits, misses, overwrites and
    // deletions over a small key space, so eviction happens often.
    let commands: Vec<(u8, u64, u64)> = (0u64..400)
        .map(|i| {
            let op = (i * 7 + i / 5) % 10;
            let key = (i * 13 + 3) % 9;
            let value = i * 31 + 1;
            if op < 4 {
                (0, key, value) // put
            } else if op < 8 {
                (1, key, 0) // get
            } else {
                (2, key, 0) // remove
            }
        })
        .collect();

    let mut reference = BoundedLru::new(4);
    let mut ours = CostBasedLru::<u64, u64>::new(4);

    for (op, key, value) in commands {
        match op {
            0 => {
                let left = reference.put(key, value);
                let right = ours.insert(key, value, 1).map(|a| *a);
                assert_eq!(left, right);
            }
            1 => {
                let left = reference.get(key);
                let right = ours.get(&key).map(|a| *a);
                assert_eq!(left, right);
            }
            _ => {
                let left = reference.remove(key);
                let right = ours.remove(&key).map(|a| *a);
                assert_eq!(left, right);
            }
        }
        let ours_state: Vec<(u64, u64)> = ours
            .iter()
            .into_iter()
            .map(|x| (x.0, *x.1))
            .collect();
        assert_eq!(reference.state(), ours_state);
        assert_eq!(ours.current_cost(), ours_state.len() as u64);
    }
}

#[test]
fn cost_counter_tracks_occupied_entries() {
    let mut cache = CostBasedLru::<u64, u64>::new(10);
    assert_eq!(cache.current_cost(), 0);
    cache.insert(1, 10, 3);
    assert_eq!(cache.current_cost(), 3);
    cache.insert(2, 20, 4);
    assert_eq!(cache.current_cost(), 7);
    // Overwriting a key replaces its cost.
    cache.insert(1, 11, 2);
    assert_eq!(cache.current_cost(), 6);
    // Eviction brings the total back under the budget.
    cache.insert(3, 30, 9);
    assert!(cache.current_cost() <= cache.max_cost());
    assert_eq!(cache.current_cost(), 9);
    cache.remove(&3);
    assert_eq!(cache.current_cost(), 0);
}

#[test]
fn mru_iteration_order() {
    let mut cache = CostBasedLru::<u64, u64>::new(100);
    cache.insert(1, 10, 1);
    cache.insert(2, 20, 1);
    cache.insert(3, 30, 1);
    let state: Vec<u64> = cache.iter().into_iter().map(|x| x.0).collect();
    assert_eq!(state, vec![3, 2, 1]);

    // A hit promotes the entry to the front.
    assert_eq!(cache.get(&1).map(|a| *a), Some(10));
    let state: Vec<u64> = cache.iter().into_iter().map(|x| x.0).collect();
    assert_eq!(state, vec![1, 3, 2]);

    // An insert places the new entry at the front.
    cache.insert(4, 40, 1);
    let state: Vec<u64> = cache.iter().into_iter().map(|x| x.0).collect();
    assert_eq!(state, vec![4, 1, 3, 2]);
}

#[test]
fn eviction_removes_tail_first() {
    let mut cache = CostBasedLru::<u64, u64>::new(3);
    cache.insert(1, 10, 1);
    cache.insert(2, 20, 1);
    cache.insert(3, 30, 1);
    // Promote the oldest entry; now 2 is the least recently used.
    cache.get(&1);
    cache.insert(4, 40, 1);
    let state: Vec<u64> = cache.iter().into_iter().map(|x| x.0).collect();
    assert_eq!(state, vec![4, 1, 3]);
    assert!(cache.get(&2).is_none());
    // 1 was saved from eviction by the promotion.
    assert_eq!(cache.get(&1).map(|a| *a), Some(10));
}

#[test]
fn string_keys_work() {
    let mut cache = CostBasedLru::<String, u64>::new(5);
    cache.insert("alpha".to_string(), 1, 2);
    cache.insert("beta".to_string(), 2, 2);
    assert_eq!(cache.get(&"alpha".to_string()).map(|a| *a), Some(1));
    cache.insert("gamma".to_string(), 3, 2);
    // "beta" was the least recently used entry and the budget is 5.
    assert!(cache.get(&"beta".to_string()).is_none());
    assert_eq!(cache.get(&"gamma".to_string()).map(|a| *a), Some(3));
}

#[test]
fn oversized_entry_evicts_everything() {
    let mut cache = CostBasedLru::<u64, u64>::new(10);
    cache.insert(1, 10, 5);
    // A single entry above the budget cannot stay; the container converges
    // within the same call, evicting the fresh entry too.
    cache.insert(2, 20, 11);
    assert_eq!(cache.current_cost(), 0);
    assert!(cache.get(&1).is_none());
    assert!(cache.get(&2).is_none());
    assert_eq!(cache.iter().len(), 0);
}
