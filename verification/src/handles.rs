//! Trusted wrappers around the standard library's shared and weak handles.
//!
//! The cache stores its values behind `std::sync::Arc` and publishes weak
//! handles so that evicted values which are still alive elsewhere can be
//! revived.  `vstd` gives no specification for cloning, downgrading or
//! upgrading such handles, so the few calls the crate needs are gathered here
//! behind contracts.

use std::sync::Arc;
use vstd::prelude::*;

verus! {

/// Relies on `std::sync::Arc::clone`: the returned handle points at the same
/// value as the argument.
#[verifier::external_body]
pub(crate) fn arc_clone<T>(a: &Arc<T>) -> (r: Arc<T>)
    ensures
        r == *a,
{
    Arc::clone(a)
}

/// Opaque holder of a `std::sync::Weak`, which Verus cannot model directly.
#[verifier::external_body]
#[verifier::reject_recursive_types(T)]
struct WeakInner<T>(std::sync::Weak<T>);

/// A non-owning observer of a shared value.  It remembers, as a ghost fact,
/// the value of the shared handle it was created from; an upgrade can fail,
/// but when it succeeds it yields that value and no other.
#[verifier::reject_recursive_types(T)]
pub struct WeakHandle<T> {
    inner: WeakInner<T>,
    target: Ghost<T>,
}

/// The value behind a shared handle.
pub open spec fn arc_value<T>(a: &Arc<T>) -> T {
    **a
}

/// Relies on `std::sync::Arc::downgrade`.  The resulting observer is kept
/// next to a ghost copy of the observed value; nothing is stated here, since
/// the observer itself is opaque.
#[verifier::external_body]
fn weak_inner_downgrade<T>(a: &Arc<T>) -> WeakInner<T> {
    WeakInner(Arc::downgrade(a))
}

impl<T> WeakHandle<T> {
    /// The value of the shared handle this weak handle was created from.
    pub closed spec fn spec_target(&self) -> T {
        self.target@
    }

    /// Create a weak handle observing the value behind `a`.
    pub fn downgrade(a: &Arc<T>) -> (w: WeakHandle<T>)
        ensures
            w.spec_target() == **a,
    {
        let ghost t = arc_value(a);
        WeakHandle { inner: weak_inner_downgrade(a), target: Ghost(t) }
    }

    /// Relies on `std::sync::Weak::upgrade`: it returns a strong handle only
    /// while the allocation is still alive, and then a handle to the same
    /// allocation the weak handle was created from — the one [`Self::downgrade`],
    /// the sole constructor of this type, recorded as `spec_target`.  Whether
    /// the upgrade succeeds depends on the strong count at run time, so
    /// nothing more is promised.
    #[verifier::external_body]
    pub fn upgrade(&self) -> (r: Option<Arc<T>>)
        ensures
            r matches Some(a) ==> *a == self.spec_target(),
    {
        self.inner.0.upgrade()
    }
}

} // verus!
