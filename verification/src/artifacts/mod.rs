//! Content-addressed store layout, segment and transcript indices, clip
//! cutting and the read-only report page.

pub mod store;
pub mod fs_store;
pub mod transcript_index;
pub mod index;
pub mod clip_cutter;
pub mod web_report;
