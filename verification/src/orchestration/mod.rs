//! Orchestration core: the case state machine, admission control, the job
//! types, manifest building and the orchestrator's case table.

pub mod state;
pub mod scheduler;
pub mod job;
pub mod manifest_builder;
pub mod orchestrator;
