//! The layout of the filesystem-backed content-addressed blob store: bytes
//! keyed by SHA-256 live under `<root>/blobs/<hash>`. Reading and writing
//! the files is the caller's.

use vstd::prelude::*;
use crate::text::{owned, join_path, path_join};

verus! {

/// A filesystem-backed content-addressed store rooted at `root`.
#[derive(Debug, Clone)]
pub struct FsArtifactStore {
    root: String,
}

impl FsArtifactStore {
    /// The store's root directory.
    pub closed spec fn root(&self) -> Seq<char> {
        self.root@
    }

    /// A store rooted at `root`.
    pub fn new(root: &str) -> (r: Self)
        ensures
            r.root() == root@,
    {
        FsArtifactStore { root: owned(root) }
    }

    /// Where the blob with content hash `hash` is stored: `<root>/blobs/<hash>`.
    pub fn blob_path(&self, hash: &str) -> (r: String)
        ensures
            r@ == path_join(path_join(self.root(), "blobs"@), hash@),
    {
        let blobs = join_path(self.root.as_str(), "blobs");
        join_path(blobs.as_str(), hash)
    }
}

} // verus!
