//! Host configuration: image registry, resource caps, proxy allowlist and
//! inference routes. The secrets file is owned by the vault, not here.

use vstd::prelude::*;
use crate::proto::broker::GuestOs;

verus! {

/// Top-level host configuration.
#[derive(Debug, Clone)]
pub struct HostConfig {
    pub images: Vec<ImageEntry>,
    pub defaults: ResourceDefaults,
    pub proxy: ProxyConfig,
    pub inference: InferenceConfig,
}

/// A registered base image, by file path.
#[derive(Debug, Clone)]
pub struct ImageEntry {
    pub name: String,
    pub os: GuestOs,
    pub path: String,
    pub caps: ResourceCaps,
}

/// Per-image resource defaults.
#[derive(Debug, Clone, Default)]
pub struct ResourceDefaults {
    pub vcpu: u32,
    pub memory_mb: u64,
    pub disk_gb: u64,
    pub max_runtime_s: u64,
    pub max_concurrent_cases: u32,
}

/// Default virtual CPU count.
pub fn default_vcpu() -> (r: u32)
    ensures
        r == 4,
{
    4
}

/// Default memory size in MiB.
pub fn default_memory_mb() -> (r: u64)
    ensures
        r == 8192,
{
    8192
}

/// Default disk size in GiB.
pub fn default_disk_gb() -> (r: u64)
    ensures
        r == 64,
{
    64
}

/// Default maximum case runtime in seconds.
pub fn default_max_runtime_s() -> (r: u64)
    ensures
        r == 2700,
{
    2700
}

/// Default number of cases that may run at once.
pub fn default_max_concurrent_cases() -> (r: u32)
    ensures
        r == 3,
{
    3
}

/// Per-case resource caps (overriding the defaults).
#[derive(Debug, Clone, Default)]
pub struct ResourceCaps {
    pub vcpu: Option<u32>,
    pub memory_mb: Option<u64>,
    pub disk_gb: Option<u64>,
    pub max_runtime_s: Option<u64>,
}

/// The proxy's listen address and host allowlist.
#[derive(Debug, Clone, Default)]
pub struct ProxyConfig {
    pub listen: String,
    pub hosts: Vec<HostRule>,
}

/// One configured allowlist rule.
#[derive(Debug, Clone)]
pub struct HostRule {
    pub host: Option<String>,
    pub host_suffix: Option<String>,
    pub allow_methods: Vec<String>,
}

/// Inference routing configuration.
#[derive(Debug, Clone, Default)]
pub struct InferenceConfig {
    pub lmstudio_url: String,
    pub routes: Vec<InferenceRoute>,
}

/// One model route.
#[derive(Debug, Clone)]
pub struct InferenceRoute {
    pub model: String,
    pub target: RouteTarget,
    /// Cloud provider base URL (cloud routes only).
    pub base_url: Option<String>,
}

/// Where a model is served.
#[derive(Debug, Clone, Copy, PartialEq, Eq, Structural)]
pub enum RouteTarget {
    Lmstudio,
    Cloud,
}

} // verus!
