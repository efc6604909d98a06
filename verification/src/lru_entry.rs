//! An internal LRU cell, which holds an item and records when it was last
//! used.

use crate::handles::arc_clone;
use std::sync::Arc;
use vstd::prelude::*;

verus! {

/// Declaration of `std::time::Instant`; `vstd` gives it no specification, and
/// the cell only stores such values.
#[verifier::external_type_specification]
#[verifier::external_body]
pub struct ExInstant(std::time::Instant);

/// Relies on `std::time::Instant::now`.  Nothing is promised of the returned
/// point in time.
#[verifier::external_body]
fn instant_now() -> std::time::Instant {
    std::time::Instant::now()
}

/// A cell holding a shared item together with the instant it was last read.
pub struct LruEntry<T> {
    item: Arc<T>,
    last_used: std::time::Instant,
}

impl<T> LruEntry<T> {
    /// The item the cell holds.
    pub closed spec fn spec_item(&self) -> T {
        *self.item
    }

    pub fn new(item: T) -> (r: LruEntry<T>)
        ensures
            r.spec_item() == item,
    {
        LruEntry { item: Arc::new(item), last_used: instant_now() }
    }

    /// Read the item, making it used and returning a reference to the
    /// contents.
    pub fn get(&mut self) -> (r: Arc<T>)
        ensures
            *r == old(self).spec_item(),
            final(self).spec_item() == old(self).spec_item(),
    {
        self.last_used = instant_now();
        arc_clone(&self.item)
    }
}

} // verus!
