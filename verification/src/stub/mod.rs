//! The stub loader baked into every base image: the bootstrap protocol's
//! frames and the decisions of its serve loop (HELLO, AUTH, then the
//! command loop of agent pushes, file writes and the launch).

pub mod protocol;
pub mod serve;

pub use protocol::{is_ok, Frame, FrameKind, Hello, Launch, PushAgent, WriteFile};
pub use serve::{LaunchPlan, ServeAction, ServeConfig, ServeEvent, ServeOutcome, ServePhase};
