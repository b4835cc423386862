//! The hot-reloadable holder of the current secrets snapshot. A reload
//! validates the new file first and swaps the snapshot only when it is
//! valid: a malformed reload keeps the previous snapshot. Reading the file
//! and sharing the holder between tasks are the caller's.

use vstd::prelude::*;
use crate::proto::error::{is_error, QwanCode, QwanResult};
use crate::vault::snapshot::{
    names_ordered, rejected, rejection_message, valid_table, SecretSnapshot, SecretsFile,
};
use crate::text::owned;

verus! {

/// The current snapshot of the secrets file at `path`.
pub struct VaultWatcher {
    path: String,
    snap: SecretSnapshot,
}

impl VaultWatcher {
    /// The watched file.
    pub closed spec fn watched(&self) -> Seq<char> {
        self.path@
    }

    /// The snapshot in force.
    pub closed spec fn current(&self) -> SecretSnapshot {
        self.snap
    }

    /// Start watching `path` with the snapshot of `file`; refused, as
    /// `SecretSnapshot::from_file` refuses it, when `file` is not valid.
    pub fn load(path: &str, file: SecretsFile) -> (r: QwanResult<Self>)
        requires
            names_ordered(file.real@),
        ensures
            r is Ok <==> valid_table(file.real@, file.rewrite@),
            r matches Ok(w) ==> w.watched() == path@ && w.current().real@ == file.real@
                && w.current().rewrite@ == file.rewrite@ && w.current().wf(),
            r matches Err(e) ==> exists|k: int|
                0 <= k < file.rewrite@.len() && rejected(file.real@, file.rewrite@, k) && (forall|
                    j: int,
                | 0 <= j < k ==> !#[trigger] rejected(file.real@, file.rewrite@, j)) && is_error(
                    e,
                    QwanCode::InvalidArg,
                    rejection_message(file.real@, file.rewrite@, k),
                ),
    {
        match SecretSnapshot::from_file(file) {
            Ok(snap) => Ok(VaultWatcher { path: owned(path), snap }),
            Err(e) => Err(e),
        }
    }

    /// The snapshot in force.
    pub fn snapshot(&self) -> (r: &SecretSnapshot)
        ensures
            *r == self.current(),
    {
        &self.snap
    }

    /// The watched file.
    pub fn path(&self) -> (r: &str)
        ensures
            r@ == self.watched(),
    {
        self.path.as_str()
    }

    /// Swap in the snapshot of a freshly read `file` when it is valid; when
    /// it is not, report why and keep the snapshot in force.
    pub fn reload(&mut self, file: SecretsFile) -> (r: QwanResult<()>)
        requires
            old(self).current().wf(),
            names_ordered(file.real@),
        ensures
            final(self).watched() == old(self).watched(),
            final(self).current().wf(),
            r is Ok <==> valid_table(file.real@, file.rewrite@),
            r is Ok ==> final(self).current().real@ == file.real@ && final(self).current().rewrite@
                == file.rewrite@,
            r is Err ==> final(self).current() == old(self).current(),
            r matches Err(e) ==> exists|k: int|
                0 <= k < file.rewrite@.len() && rejected(file.real@, file.rewrite@, k) && (forall|
                    j: int,
                | 0 <= j < k ==> !#[trigger] rejected(file.real@, file.rewrite@, j)) && is_error(
                    e,
                    QwanCode::InvalidArg,
                    rejection_message(file.real@, file.rewrite@, k),
                ),
    {
        match SecretSnapshot::from_file(file) {
            Ok(snap) => {
                self.snap = snap;
                Ok(())
            },
            Err(e) => Err(e),
        }
    }
}

/// Whatever sequence of reloads is attempted, the snapshot in force always
/// validates: a loaded watcher starts valid and a reload only swaps in a
/// valid snapshot.
pub proof fn lemma_reload_keeps_valid(before: SecretSnapshot, file: SecretsFile, ok: bool, after: SecretSnapshot)
    requires
        before.wf(),
        names_ordered(file.real@),
        ok <==> valid_table(file.real@, file.rewrite@),
        ok ==> after.real@ == file.real@ && after.rewrite@ == file.rewrite@,
        !ok ==> after == before,
    ensures
        after.wf(),
{
}

} // verus!
