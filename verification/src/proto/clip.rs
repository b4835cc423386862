//! Clip request and asset types. Clips are cut from the stored recording
//! between two breadcrumb timeline points.

use vstd::prelude::*;
use crate::proto::id::{CaseId, ClipId};
use crate::proto::transcript::BreadcrumbRef;

verus! {

/// Input to the clip tool.
#[derive(Debug, Clone)]
pub struct ClipRequest {
    pub case_id: CaseId,
    pub from: BreadcrumbRef,
    pub to: BreadcrumbRef,
    pub label: String,
}

/// A produced clip asset.
#[derive(Debug, Clone)]
pub struct ClipAsset {
    pub clip_id: ClipId,
    pub case_id: CaseId,
    pub label: String,
    pub start_ns: i64,
    pub end_ns: i64,
    pub bytes_hash: String,
    pub bytes_len: u64,
    /// Web URL for linking from PRs and reports.
    pub web_url: String,
}

} // verus!
