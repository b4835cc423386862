//! The intercepting HTTPS proxy's decision logic: the host allowlist and
//! the request pipeline (allowlist, method policy, search-and-replace).

pub mod allowlist;
pub mod pipeline;
