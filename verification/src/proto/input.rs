//! Input-injection types shared by the computer-use executor.

use vstd::prelude::*;
use crate::proto::id::InputEventId;
use crate::proto::timeline::TimelineNs;

verus! {

/// Mouse buttons.
#[derive(Debug, Clone, Copy, PartialEq, Eq, Structural)]
pub enum Button {
    Left,
    Right,
    Middle,
}

/// Mouse button actions.
#[derive(Debug, Clone, Copy, PartialEq, Eq, Structural)]
pub enum BtnAction {
    Down,
    Up,
    Click,
    DoubleClick,
    TripleClick,
}

/// Scroll directions.
#[derive(Debug, Clone, Copy, PartialEq, Eq, Structural)]
pub enum ScrollDir {
    Up,
    Down,
    Left,
    Right,
}

/// Acknowledgement of one injected input event.
#[derive(Debug, Clone)]
pub struct InputAck {
    pub event_id: InputEventId,
    pub injected_ts: TimelineNs,
    pub ok: bool,
}

/// The tool result the executor returns to the agent loop.
#[derive(Debug, Clone)]
pub struct ToolResult {
    pub image_base64: Option<String>,
    pub text: Option<String>,
    pub error: Option<String>,
}

/// A scaled display resolution advertised to the model.
#[derive(Debug, Clone, Copy, PartialEq, Eq, Structural)]
pub struct Resolution {
    pub width: u32,
    pub height: u32,
}

} // verus!
