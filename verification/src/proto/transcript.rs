//! Breadcrumb and transcript types. The guest authors both the transcript
//! and the video off one clock, so a breadcrumb's `timeline_ns` indexes the
//! video exactly.

use vstd::prelude::*;
use crate::proto::id::{BreadcrumbId, CaseId, InputEventId};
use crate::proto::timeline::TimelineNs;

verus! {

/// A point in the case timeline the agent wants to jump to or clip from.
#[derive(Debug, Clone)]
pub struct Breadcrumb {
    pub breadcrumb_id: BreadcrumbId,
    pub case_id: CaseId,
    pub kind: BreadcrumbKind,
    pub label: String,
    pub timeline_ns: TimelineNs,
    pub detail: Option<String>,
}

/// Input to a breadcrumb emit (the id and timeline point are assigned by the sink).
#[derive(Debug, Clone)]
pub struct BreadcrumbIn {
    pub kind: BreadcrumbKind,
    pub label: String,
    pub detail: Option<String>,
}

/// What a breadcrumb marks.
#[derive(Debug, Clone, Copy, PartialEq, Eq, Structural)]
pub enum BreadcrumbKind {
    StepBegin,
    StepEnd,
    Assertion,
    Action,
    Note,
    Bug,
    Fix,
    Error,
}

/// A reference to a breadcrumb, used by the clip tool.
#[derive(Debug, Clone)]
pub enum BreadcrumbRef {
    /// By id.
    Id(BreadcrumbId),
    /// "latest" | "first" | an offset like "+5s"/"-3s" relative to another ref.
    Relative(String),
}

/// One entry in the ordered transcript stream; every entry carries `timeline_ns`.
#[derive(Debug, Clone)]
pub enum TranscriptEntry {
    Breadcrumb(Breadcrumb),
    ToolIo { case_id: CaseId, event_id: InputEventId, timeline_ns: TimelineNs, summary: String },
    Log { case_id: CaseId, timeline_ns: TimelineNs, level: LogLevel, message: String },
}

/// Severity of a log entry.
#[derive(Debug, Clone, Copy, PartialEq, Eq, Structural)]
pub enum LogLevel {
    Trace,
    Debug,
    Info,
    Warn,
    Error,
}

} // verus!
