//! The per-case manifest written into the guest. It carries only dummy keys
//! and the case token; real keys never appear in it.

use vstd::prelude::*;
use std::collections::BTreeMap;
use crate::proto::id::{CaseId, JobId};
use crate::text::owned;

verus! {

/// The per-case manifest.
#[derive(Debug, Clone)]
pub struct Manifest {
    pub schema: String,
    pub job_id: JobId,
    pub case_id: CaseId,
    pub kind: JobKind,
    pub task: TaskPayload,
    pub repo: RepoSpec,
    pub broker: BrokerEndpoint,
    pub auth: AuthSpec,
    pub inference: InferenceSpec,
    pub proxy: ProxySpec,
    pub agent: AgentSpec,
    pub capture: CaptureSpec,
    pub limits: LimitsSpec,
}

/// The kind of job a case runs.
#[derive(Debug, Clone, Copy, PartialEq, Eq, Structural)]
pub enum JobKind {
    ScriptedQa,
    BugFix,
}

/// The task text: a QA script for scripted QA, a bug report for a bug fix.
#[derive(Debug, Clone)]
pub struct TaskPayload {
    pub script_text: Option<String>,
    pub report_text: Option<String>,
    pub note: Option<String>,
}

/// Where the code under test comes from.
#[derive(Debug, Clone)]
pub struct RepoSpec {
    pub url: String,
    pub ref_: String,
    pub checkout_path: String,
}

/// The broker the guest talks to, pinned by certificate key hash.
#[derive(Debug, Clone)]
pub struct BrokerEndpoint {
    pub endpoint: String,
    pub cert_spki_sha256: String,
}

/// Where the case token is written in the guest.
#[derive(Debug, Clone)]
pub struct AuthSpec {
    pub case_token_file: String,
}

/// Inference settings handed to the guest.
#[derive(Debug, Clone)]
pub struct InferenceSpec {
    pub base_url: String,
    pub dummy_key: String,
    pub allowed_models: Vec<String>,
}

/// The intercepting proxy the guest must use.
#[derive(Debug, Clone)]
pub struct ProxySpec {
    pub https_proxy: String,
    pub ca_fpr_sha256: String,
}

/// The agent: files plus a command.
#[derive(Debug, Clone)]
pub struct AgentSpec {
    pub files: Vec<AgentFile>,
    pub launch: AgentLaunch,
}

/// One file of the agent, copied into the guest.
#[derive(Debug, Clone)]
pub struct AgentFile {
    pub src: String,
    pub dest: String,
    pub mode: String,
}

/// The agent's launch command.
#[derive(Debug, Clone)]
pub struct AgentLaunch {
    pub shell: String,
    pub command: String,
    pub cwd: String,
    pub env: BTreeMap<String, String>,
}

/// Screen capture settings.
#[derive(Debug, Clone)]
pub struct CaptureSpec {
    pub fps: u32,
    pub segment_seconds: u32,
    pub encode_where: EncodeWhere,
}

/// Where captured video is encoded.
#[derive(Debug, Clone, Copy, PartialEq, Eq, Structural)]
pub enum EncodeWhere {
    Guest,
    Host,
}

/// Case limits.
#[derive(Debug, Clone)]
pub struct LimitsSpec {
    pub max_runtime_s: u64,
}

/// Default file mode of an agent file.
pub fn default_mode() -> (r: String)
    ensures
        r@ == "0755"@,
{
    owned("0755")
}

/// Default capture frame rate.
pub fn default_fps() -> (r: u32)
    ensures
        r == 5,
{
    5
}

/// Default capture segment length in seconds.
pub fn default_segment_seconds() -> (r: u32)
    ensures
        r == 4,
{
    4
}

/// Default place to encode video.
pub fn default_encode_where() -> (r: EncodeWhere)
    ensures
        r == EncodeWhere::Guest,
{
    EncodeWhere::Guest
}

} // verus!
