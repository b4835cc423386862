//! Verified core of the qwanban host/guest system: wire types, the case
//! state machine, admission control and case bookkeeping, the secret
//! rewriter and its hot-reloaded snapshot, the proxy allowlist and pipeline,
//! model routing, artifact indexing, clipping and report rendering, the
//! broker's case registry, the guest's breadcrumb table and tool answers,
//! GUID parsing and the in-memory Hyper-V driver, and the stub loader's
//! bootstrap protocol.

pub mod text;
pub mod proto;
pub mod vault;
pub mod proxy;
pub mod orchestration;
pub mod inference;
pub mod artifacts;
pub mod broker;
pub mod guest;
pub mod stub;
pub mod hyperv;
