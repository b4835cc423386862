//! The host secret vault: the secrets-file snapshot and the global
//! search-and-replace rewriter that swaps dummy strings for real secrets.

pub mod snapshot;
pub mod rewriter;
pub mod watcher;
