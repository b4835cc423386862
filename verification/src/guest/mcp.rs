//! The answers of the qwan MCP tools (breadcrumb, clip, request
//! intervention, request OS migration, finish), given what the sink behind
//! each tool returned. Calling the sinks is the server's; these functions
//! decide what the agent is told.

use vstd::prelude::*;
use crate::proto::broker::{CaseOutcome, CaseResult};
use crate::proto::clip::ClipAsset;
use crate::proto::error::{display_of, QwanResult};
use crate::proto::id::CaseId;
use crate::proto::transcript::Breadcrumb;
use crate::text::owned;

verus! {

/// What a qwan MCP tool answers.
#[derive(Debug, Clone)]
pub enum ToolResponse {
    Breadcrumb { id: String, timeline_ns: i64 },
    Clip { clip_id: String, web_url: String },
    Handoff { accepted: bool },
    Finish { accepted: bool },
    Error { message: String },
}

/// The error answer carrying `message`.
pub open spec fn is_error_response(r: ToolResponse, message: Seq<char>) -> bool {
    r matches ToolResponse::Error { message: m } && m@ == message
}

/// The breadcrumb tool's answer: the new breadcrumb's id and timeline
/// point, or the sink's error text.
pub fn breadcrumb_response(emitted: QwanResult<Breadcrumb>) -> (r: ToolResponse)
    ensures
        match emitted {
            Ok(b) => r matches ToolResponse::Breadcrumb { id, timeline_ns } && id@
                == b.breadcrumb_id.0@ && timeline_ns == b.timeline_ns,
            Err(e) => is_error_response(r, display_of(e)),
        },
{
    match emitted {
        Ok(b) => ToolResponse::Breadcrumb { id: owned(b.breadcrumb_id.as_str()), timeline_ns: b.timeline_ns },
        Err(e) => ToolResponse::Error { message: e.to_display_string() },
    }
}

/// The clip tool's answer: the clip's id and web URL, or the sink's error
/// text.
pub fn clip_response(made: QwanResult<ClipAsset>) -> (r: ToolResponse)
    ensures
        match made {
            Ok(a) => r matches ToolResponse::Clip { clip_id, web_url } && clip_id@ == a.clip_id.0@
                && web_url == a.web_url,
            Err(e) => is_error_response(r, display_of(e)),
        },
{
    match made {
        Ok(a) => ToolResponse::Clip { clip_id: owned(a.clip_id.as_str()), web_url: a.web_url },
        Err(e) => ToolResponse::Error { message: e.to_display_string() },
    }
}

/// The handoff tools' answer (intervention and OS migration): accepted
/// when the handoff sink took the request, its error text when it refused,
/// and an error when no handoff sink is wired (`None`).
pub fn handoff_response(sent: Option<QwanResult<()>>) -> (r: ToolResponse)
    ensures
        match sent {
            None => is_error_response(r, "no handoff sink wired"@),
            Some(Ok(())) => r == (ToolResponse::Handoff { accepted: true }),
            Some(Err(e)) => is_error_response(r, display_of(e)),
        },
{
    match sent {
        None => ToolResponse::Error { message: owned("no handoff sink wired") },
        Some(Ok(())) => ToolResponse::Handoff { accepted: true },
        Some(Err(e)) => ToolResponse::Error { message: e.to_display_string() },
    }
}

/// The finish tool's answer: accepted when the finish sink took the
/// result, its error text when it refused, and an error when no finish
/// sink is wired (`None`).
pub fn finish_response(sent: Option<QwanResult<()>>) -> (r: ToolResponse)
    ensures
        match sent {
            None => is_error_response(r, "no finish sink wired"@),
            Some(Ok(())) => r == (ToolResponse::Finish { accepted: true }),
            Some(Err(e)) => is_error_response(r, display_of(e)),
        },
{
    match sent {
        None => ToolResponse::Error { message: owned("no finish sink wired") },
        Some(Ok(())) => ToolResponse::Finish { accepted: true },
        Some(Err(e)) => ToolResponse::Error { message: e.to_display_string() },
    }
}

/// The case result the finish tool hands its sink. The guest does not know
/// its case id here, so it is left empty for the broker to fill in.
pub fn finish_result(outcome: CaseOutcome, summary: String, pr_url: Option<String>) -> (r:
    CaseResult)
    ensures
        r.case_id.0@ == Seq::<char>::empty(),
        r.result == outcome,
        r.summary == summary,
        r.pr_url == pr_url,
{
    proof {
        reveal_strlit("");
    }
    CaseResult { case_id: CaseId::from_str_inner(""), result: outcome, summary, pr_url }
}

} // verus!
