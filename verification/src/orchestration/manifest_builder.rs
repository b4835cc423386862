//! Builds the per-case manifest from a job spec and the endpoints the
//! orchestrator resolved.

use vstd::prelude::*;
use crate::orchestration::job::{JobSpec, JobKind};
use crate::proto::id::{CaseId, JobId};
use crate::proto::manifest::{
    Manifest, JobKind as ManifestJobKind, TaskPayload, RepoSpec, BrokerEndpoint, AuthSpec,
    InferenceSpec, ProxySpec, AgentSpec, CaptureSpec, EncodeWhere, LimitsSpec,
};
use crate::text::{copy_opt, owned};

verus! {

/// Inputs the orchestrator resolves before building the manifest.
pub struct ManifestInputs<'a> {
    pub job_id: JobId,
    pub case_id: CaseId,
    pub spec: &'a JobSpec,
    pub broker_endpoint: String,
    pub broker_cert_spki: String,
    pub inference_base_url: String,
    pub proxy_url: String,
    pub proxy_ca_fpr: String,
    pub allowed_models: Vec<String>,
    pub agent: AgentSpec,
    pub limits: LimitsSpec,
}

/// Build the manifest: the task text goes to `script_text` for scripted QA
/// and to `report_text` for a bug fix; fixed values fill the schema, the
/// checkout path, the token file, the dummy key and the capture settings;
/// the rest is taken from the inputs.
pub fn build(input: ManifestInputs<'_>) -> (m: Manifest)
    ensures
        m.schema@ == "qwan.manifest/v1"@,
        m.job_id == input.job_id,
        m.case_id == input.case_id,
        input.spec.kind == JobKind::ScriptedQa ==> m.kind == ManifestJobKind::ScriptedQa
            && m.task.script_text == Some(input.spec.task_text) && m.task.report_text is None,
        input.spec.kind == JobKind::BugFix ==> m.kind == ManifestJobKind::BugFix
            && m.task.report_text == Some(input.spec.task_text) && m.task.script_text is None,
        m.task.note == input.spec.note,
        m.repo.url@ == Seq::<char>::empty(),
        m.repo.ref_ == input.spec.git_ref,
        m.repo.checkout_path@ == "/work/app"@,
        m.broker.endpoint == input.broker_endpoint,
        m.broker.cert_spki_sha256 == input.broker_cert_spki,
        m.auth.case_token_file@ == "/qwan/case.token"@,
        m.inference.base_url == input.inference_base_url,
        m.inference.dummy_key@ == "DUMMY"@,
        m.inference.allowed_models == input.allowed_models,
        m.proxy.https_proxy == input.proxy_url,
        m.proxy.ca_fpr_sha256 == input.proxy_ca_fpr,
        m.agent == input.agent,
        m.capture.fps == 5,
        m.capture.segment_seconds == 4,
        m.capture.encode_where == EncodeWhere::Guest,
        m.limits == input.limits,
{
    let job = input.spec;
    let (script_text, report_text) = match job.kind {
        JobKind::ScriptedQa => (Some(job.task_text.clone()), None),
        JobKind::BugFix => (None, Some(job.task_text.clone())),
    };
    let kind = match job.kind {
        JobKind::ScriptedQa => ManifestJobKind::ScriptedQa,
        JobKind::BugFix => ManifestJobKind::BugFix,
    };
    Manifest {
        schema: owned("qwan.manifest/v1"),
        job_id: input.job_id,
        case_id: input.case_id,
        kind,
        task: TaskPayload { script_text, report_text, note: copy_opt(&job.note) },
        repo: RepoSpec {
            url: String::new(),
            ref_: job.git_ref.clone(),
            checkout_path: owned("/work/app"),
        },
        broker: BrokerEndpoint {
            endpoint: input.broker_endpoint,
            cert_spki_sha256: input.broker_cert_spki,
        },
        auth: AuthSpec { case_token_file: owned("/qwan/case.token") },
        inference: InferenceSpec {
            base_url: input.inference_base_url,
            dummy_key: owned("DUMMY"),
            allowed_models: input.allowed_models,
        },
        proxy: ProxySpec { https_proxy: input.proxy_url, ca_fpr_sha256: input.proxy_ca_fpr },
        agent: input.agent,
        capture: CaptureSpec { fps: 5, segment_seconds: 4, encode_where: EncodeWhere::Guest },
        limits: input.limits,
    }
}

} // verus!
