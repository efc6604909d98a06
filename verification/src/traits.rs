//! The [`Vfs`] trait is responsible for converting string keys to byte
//! readers.
//!
//! The cache caches the bytes representation from whatever the [`Vfs`]
//! returns, then uses a [`Decoder`] on it when needed to get the actual
//! object.

use vstd::prelude::*;
use vstd::slice::slice_to_vec;

verus! {

/// Declaration of `std::io::Error`, the error type of the virtual-filesystem
/// interfaces.  `vstd` gives it no specification; the cache only carries such
/// values through to its caller.
#[verifier::external_type_specification]
#[verifier::external_body]
pub struct ExIoError(std::io::Error);

/// "open" a "file" and return a [`VfsReader`] over it.
///
/// This is the first step of the decoding process, and is used to get from a
/// string key to a reader over some bytes to pass to the [`Decoder`].
/// Implementations are supplied by the user of the cache, so nothing is
/// assumed of their behaviour.
pub trait Vfs: Sized {
    type Reader: VfsReader;

    /// Open a file.
    fn open(&self, key: &str) -> Result<Self::Reader, std::io::Error>;
}

/// A reader returned from the VFS.
///
/// Readers should handle closing in their drop implementations.
pub trait VfsReader: Sized {
    /// Return the size of this object once read.
    ///
    /// This function should try to be as inexpensive as possible.  A reader
    /// that cannot report a size returns an error, and the cache then streams
    /// it to the decoder without caching its bytes.
    fn get_size(&self) -> Result<u64, std::io::Error>;

    /// Read the remaining bytes to the end.
    fn read_all(&mut self) -> Result<Vec<u8>, std::io::Error>;
}

/// A `Decoder` knows how to get from a reader to a decoded representation in
/// memory.
///
/// Implementations are supplied by the user of the cache, so nothing is
/// assumed of their behaviour: the cache's contracts only fix what it does
/// with whatever values a decoder returns.
pub trait Decoder: Sized {
    type Output;

    type Error;

    /// Decode a reader into an output value.
    fn decode<R: VfsReader>(&self, reader: R) -> Result<Self::Output, Self::Error>;

    /// Estimate the cost of a decoded item, usually the in-memory size.
    fn estimate_cost(&self, item: &Self::Output) -> Result<u64, Self::Error>;

    /// Sometimes it is possible for the cache to directly provide bytes.
    /// Implement this optional method to take advantage of that case.
    ///
    /// By default this just forwards to the `decode` function over a reader
    /// on the slice.
    fn decode_bytes(&self, bytes: &[u8]) -> Result<Self::Output, Self::Error> {
        self.decode(ByteReader::new(bytes))
    }
}

/// A [`VfsReader`] over a borrowed byte slice, used to feed already-cached
/// bytes to a decoder.
pub struct ByteReader<'a> {
    bytes: &'a [u8],
    consumed: bool,
}

impl<'a> ByteReader<'a> {
    pub fn new(bytes: &'a [u8]) -> ByteReader<'a> {
        ByteReader { bytes, consumed: false }
    }
}

impl<'a> VfsReader for ByteReader<'a> {
    fn get_size(&self) -> Result<u64, std::io::Error> {
        Ok(self.bytes.len() as u64)
    }

    fn read_all(&mut self) -> Result<Vec<u8>, std::io::Error> {
        if self.consumed {
            Ok(Vec::new())
        } else {
            self.consumed = true;
            Ok(slice_to_vec(self.bytes))
        }
    }
}

impl<T: Vfs> Vfs for std::sync::Arc<T> {
    type Reader = T::Reader;

    fn open(&self, key: &str) -> Result<Self::Reader, std::io::Error> {
        (**self).open(key)
    }
}

} // verus!
