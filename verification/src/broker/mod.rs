//! The host-side broker guests call for mediated operations: the case
//! registry (the case-token binding) and where ingested artifacts are filed.

pub mod case_registry;
pub mod artifact_sink;

pub use case_registry::{CaseRecord, CaseRegistry};
pub use artifact_sink::{ArtifactIngestSink, IngestTarget};
