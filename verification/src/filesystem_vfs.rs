//! A VFS which is backed by a given root directory.
//!
//! This handles the rather tricky path cases around Windows and Linux
//! differences, and makes it so that you can and should use keys like `/b/c`
//! (behavior with `\` is undefined).  Additionally, it makes a best effort to
//! disallow a user to use relative paths to escape the root directory,
//! primarily as a measure to detect bugs.
//!
//! [`FilesystemVfs::resolve`] performs the path normalization and the escape
//! guard; actually opening the resolved file is I/O and lives with the
//! embedding application.

use vstd::prelude::*;
use vstd::utf8::encode_utf8;

verus! {

/// Why a key could not be resolved below the root.
#[derive(Debug)]
pub enum VfsPathError {
    /// The key does not form a relative path.
    NotRelative,
    /// The normalized path escapes the root directory.
    OutsideRoot,
}

/// What a resolved path looks like when it stays inside the root: it is the
/// root itself, or it extends the root at a forward-slash boundary.
pub open spec fn within_root(path: Seq<u8>, root: Seq<u8>) -> bool {
    ||| path == root
    ||| (path.len() > root.len() && path.subrange(0, root.len() as int) == root && ((root.len()
        > 0 && root.last() == 47u8) || path[root.len() as int] == 47u8))
}

/// Relies on `relative_path::RelativePathBuf::from_path` and
/// `RelativePath::to_logical_path`: the key is reinterpreted as a logical
/// relative path (`.` and `..` components resolved lexically) and joined onto
/// the root.  The exact string depends on the platform's path rules, so
/// nothing is stated of the value; the caller checks it before use.
#[verifier::external_body]
fn logical_join(root: &String, key: &str) -> Option<String> {
    let rel = relative_path::RelativePathBuf::from_path(std::path::Path::new(key)).ok()?;
    let joined = rel.to_logical_path(root.as_str());
    joined.into_os_string().into_string().ok()
}

/// Whether `path` stays within `root`, byte for byte.
fn bytes_within_root(path: &[u8], root: &[u8]) -> (r: bool)
    ensures
        r == within_root(path@, root@),
{
    let n = root.len();
    let m = path.len();
    if m < n {
        return false;
    }
    let mut i: usize = 0;
    while i < n
        invariant
            0 <= i <= n,
            n == root@.len(),
            m == path@.len(),
            m >= n,
            forall|j: int| 0 <= j < i ==> path@[j] == root@[j],
        decreases n - i,
    {
        if path[i] != root[i] {
            proof {
                assert(path@[i as int] != root@[i as int]);
                assert(path@ != root@);
                if path@.subrange(0, n as int) == root@ {
                    assert(path@.subrange(0, n as int)[i as int] == path@[i as int]);
                }
            }
            return false;
        }
        i = i + 1;
    }
    proof {
        assert(path@.subrange(0, n as int) =~= root@);
    }
    if m == n {
        proof {
            assert(path@ =~= root@);
        }
        true
    } else {
        if n > 0 && root[n - 1] == 47u8 {
            true
        } else {
            path[n] == 47u8
        }
    }
}

/// A VFS rooted at a directory, with an escape guard on resolved paths.
#[derive(Debug)]
pub struct FilesystemVfs {
    root_path: String,
}

impl FilesystemVfs {
    /// The root directory, as the character sequence it was created from.
    pub closed spec fn spec_root(&self) -> Seq<char> {
        self.root_path@
    }

    pub fn new(root_path: &str) -> (r: Result<FilesystemVfs, VfsPathError>)
        ensures
            r matches Ok(v) && v.spec_root() == root_path@,
    {
        Ok(FilesystemVfs { root_path: root_path.to_owned() })
    }

    /// Run the path-resolution logic of the VFS: normalize the key as a
    /// logical relative path, join it onto the root, and reject any result
    /// that does not stay inside the root directory.
    pub fn resolve(&self, key: &str) -> (r: Result<String, VfsPathError>)
        ensures
            r matches Ok(p) ==> within_root(encode_utf8(p@), encode_utf8(self.spec_root())),
    {
        let joined = logical_join(&self.root_path, key);
        match joined {
            None => Err(VfsPathError::NotRelative),
            Some(p) => {
                if bytes_within_root(p.as_str().as_bytes(), self.root_path.as_str().as_bytes()) {
                    Ok(p)
                } else {
                    Err(VfsPathError::OutsideRoot)
                }
            },
        }
    }
}

} // verus!
