//! The bootstrap protocol frames, exchanged length-prefixed over one
//! bidirectional byte stream.

use std::collections::BTreeMap;
use vstd::prelude::*;
use crate::proto::broker::GuestOs;

verus! {

/// The kinds of frame.
#[derive(Debug, Clone, Copy, PartialEq, Eq, Structural)]
pub enum FrameKind {
    Hello,
    Auth,
    PushAgent,
    WriteFile,
    Launch,
    Ack,
    Stream,
    Exit,
    Error,
}

/// The host's greeting.
#[derive(Debug, Clone)]
pub struct Hello {
    pub stub_version: u32,
    pub os: GuestOs,
    pub arch: String,
}

/// Announces an agent binary of `len` bytes whose SHA-256 is `sha256`.
#[derive(Debug, Clone)]
pub struct PushAgent {
    pub sha256: String,
    pub len: u64,
}

/// Announces a file of `len` bytes to write at `path` with `mode`.
#[derive(Debug, Clone)]
pub struct WriteFile {
    pub path: String,
    pub mode: String,
    pub len: u64,
}

/// The command to launch, its shell, working directory and environment.
#[derive(Debug, Clone)]
pub struct Launch {
    pub command: String,
    pub shell: String,
    pub cwd: String,
    pub env: BTreeMap<String, String>,
}

/// A decoded protocol frame.
#[derive(Debug, Clone)]
pub enum Frame {
    Hello(Hello),
    Auth { case_bootstrap_secret: String },
    PushAgent(PushAgent),
    WriteFile(WriteFile),
    Launch(Launch),
    Ack { ok: bool, detail: String },
    Stream { fd: u8, bytes: Vec<u8> },
    Exit { code: i32 },
    Error { message: String },
}

/// Is `ack` a positive acknowledgement?
pub fn is_ok(ack: &Frame) -> (r: bool)
    ensures
        r <==> ack matches Frame::Ack { ok: true, .. },
{
    match ack {
        Frame::Ack { ok, .. } => *ok,
        _ => false,
    }
}

} // verus!
