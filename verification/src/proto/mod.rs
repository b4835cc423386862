//! Shared wire types, identifiers, the timeline model and the canonical
//! error model.

pub mod id;
pub mod error;
pub mod timeline;
pub mod transcript;
pub mod video;
pub mod clip;
pub mod input;
pub mod manifest;
pub mod config;
pub mod broker;
