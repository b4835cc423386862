//! Job submission types.

use vstd::prelude::*;
use crate::proto::broker::CaseOutcome;
use crate::proto::id::{CaseId, JobId};
use crate::proto::config::ResourceCaps;

verus! {

/// A submitted job.
#[derive(Debug, Clone)]
pub struct JobSpec {
    pub kind: JobKind,
    /// Image registry name (resolved to a file path on the host).
    pub base_image: String,
    pub git_ref: String,
    /// For scripted QA: the QA script. For a bug fix: the bug report text.
    pub task_text: String,
    pub note: Option<String>,
    pub caps: Option<ResourceCaps>,
}

/// The kind of job.
#[derive(Debug, Clone, Copy, PartialEq, Eq, Structural)]
pub enum JobKind {
    ScriptedQa,
    BugFix,
}

/// A handle returned by submission.
#[derive(Debug, Clone)]
pub struct JobHandle {
    pub job_id: JobId,
    pub case_id: CaseId,
}

/// The outcome of a finished job.
#[derive(Debug, Clone)]
pub struct JobOutcome {
    pub job_id: JobId,
    pub case_id: CaseId,
    pub result: CaseOutcome,
    pub summary: String,
    pub report_url: String,
    pub pr_url: Option<String>,
}

} // verus!
