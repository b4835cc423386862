//! Inference route resolution and model allowlist enforcement.

pub mod routing;
