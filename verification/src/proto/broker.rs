//! Broker request and response types: the logical message shapes guests
//! and the host exchange.

use vstd::prelude::*;
use crate::proto::id::{CaseId, JobId};
use crate::proto::timeline::TimelineOffsetNs;
use crate::proto::transcript::TranscriptEntry;
use crate::proto::video::VideoSegment;
use crate::proto::clip::ClipAsset;
use crate::proto::manifest::Manifest;
use crate::proto::config::ResourceCaps;

verus! {

/// Open a case: the guest gets a case token, the allowed models and an offset.
#[derive(Debug, Clone)]
pub struct OpenCaseReq {
    pub case_id: CaseId,
    pub job_id: JobId,
    pub manifest: Manifest,
    pub resource_caps: ResourceCaps,
}

/// Reply to opening a case.
#[derive(Debug, Clone)]
pub struct OpenCaseResp {
    pub case_token: String,
    pub allowed_models: Vec<String>,
    /// Presentation-only offset (0 for a normal case).
    pub timeline_offset_ns: TimelineOffsetNs,
}

/// The guest registers once its agent is up.
#[derive(Debug, Clone)]
pub struct RegisterReq {
    pub case_id: CaseId,
    pub case_token: String,
    pub guest_info: GuestInfo,
}

/// Reply to registration.
#[derive(Debug, Clone)]
pub struct RegisterResp {
    pub case_id: CaseId,
    pub timeline_offset_ns: TimelineOffsetNs,
}

/// What the guest reports about itself.
#[derive(Debug, Clone)]
pub struct GuestInfo {
    pub os: GuestOs,
    pub arch: String,
    pub screen_w: u32,
    pub screen_h: u32,
    pub qwan_agent_version: String,
}

/// Guest operating systems.
#[derive(Debug, Clone, Copy, PartialEq, Eq, Structural)]
pub enum GuestOs {
    Windows,
    Linux,
}

/// A heartbeat from the guest.
#[derive(Debug, Clone)]
pub struct HeartbeatReq {
    pub case_id: CaseId,
    pub status: CaseStatus,
    pub capture_health: CaptureHealth,
    pub queue_depths: QueueDepths,
}

/// Reply to a heartbeat: directives for the guest.
#[derive(Debug, Clone)]
pub struct HeartbeatResp {
    pub directives: Vec<Directive>,
}

/// A case's status as the guest reports it.
#[derive(Debug, Clone, Copy, PartialEq, Eq, Structural)]
pub enum CaseStatus {
    Booting,
    QwanAgentPushed,
    ClineAgentReady,
    Running,
    InterventionRequested,
    OsMigration,
    Completed,
    Failed,
    Error,
}

/// Health of the capture pipeline.
#[derive(Debug, Clone)]
pub struct CaptureHealth {
    /// Observed frame rate, as the bit pattern of its 32-bit IEEE-754 value.
    pub fps_observed_bits: u32,
    pub dropped_frames: u64,
    pub encoder_ok: bool,
}

/// Depths of the guest's upload queues.
#[derive(Debug, Clone, Default)]
pub struct QueueDepths {
    pub transcript: u32,
    pub video: u32,
}

/// Directives the host sends the guest.
#[derive(Debug, Clone)]
pub enum Directive {
    /// Ask the agent to wrap up.
    SoftStop,
    /// Kill the VM shortly.
    HardStop { after_s: u32 },
    /// OS migration requested by the agent.
    MigrateOs { to: GuestOs },
    /// Resume after an intervention hold.
    Resume,
}

/// Streaming ingest items the guest pushes to the broker.
#[derive(Debug, Clone)]
pub enum IngestItem {
    Transcript(TranscriptEntry),
    VideoSegment(VideoSegment),
    ClipAsset(ClipAsset),
}

/// Final result of a case.
#[derive(Debug, Clone)]
pub struct CaseResult {
    pub case_id: CaseId,
    pub result: CaseOutcome,
    pub summary: String,
    pub pr_url: Option<String>,
}

/// How a case ended.
#[derive(Debug, Clone, Copy, PartialEq, Eq, Structural)]
pub enum CaseOutcome {
    Pass,
    Fail,
    Fixed,
    Unreproducible,
    Error,
}

} // verus!
