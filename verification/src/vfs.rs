//! An alternative [`Vfs`] abstraction in which each implementation chooses
//! its own error type, readers are closed explicitly, and a reader may report
//! that its size is unknown.

use vstd::prelude::*;

verus! {

/// Convert string keys to readers over bytes.
pub trait Vfs: Sized {
    type Reader: VfsReader;

    type Error;

    /// Open a file.
    fn open(&self, key: &str) -> Result<Self::Reader, Self::Error>;
}

/// A reader returned from this revision of the [`Vfs`].
pub trait VfsReader: Sized {
    type Error;

    /// Will always be called by the cache when this object is no longer
    /// needed.
    fn close(self) -> Result<(), Self::Error>;

    /// If possible, return the size of this object once read.
    ///
    /// Only objects which can return their size are eligible for caching
    /// their encoded representations in memory.
    fn get_size(&self) -> Result<Option<u64>, Self::Error>;
}

} // verus!
