//! Video segment types. Segments are uploaded by the guest; the host indexes
//! them by `timeline_ns` range for clipping and playback.

use vstd::prelude::*;
use crate::proto::id::{CaseId, VideoSegmentId};
use crate::proto::timeline::TimelineNs;

verus! {

/// One uploaded video segment covering `[start_ns, end_ns)`.
#[derive(Debug, Clone)]
pub struct VideoSegment {
    pub segment_id: VideoSegmentId,
    pub case_id: CaseId,
    pub index: u32,
    /// Inclusive start on the case timeline.
    pub start_ns: TimelineNs,
    /// Exclusive end on the case timeline.
    pub end_ns: TimelineNs,
    pub codec: VideoCodec,
    pub width: u32,
    pub height: u32,
    /// The frame rate, as the bit pattern of its 32-bit IEEE-754 value.
    pub fps_bits: u32,
    pub bytes_hash: String,
    pub bytes_len: u64,
}

/// Video codecs.
#[derive(Debug, Clone, Copy, PartialEq, Eq, Structural)]
pub enum VideoCodec {
    H264,
    Av1,
    Vp9,
}

/// Screenshot pull format for the computer-use backend.
#[derive(Debug, Clone, Copy, PartialEq, Eq, Structural)]
pub enum ImgFmt {
    Png,
    Jpeg,
}

} // verus!
