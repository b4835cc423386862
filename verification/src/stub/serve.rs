//! The decisions of the stub's serve loop. One session runs HELLO, then
//! AUTH, then a command loop (agent push, file write, launch) until the
//! launched child exits or the host goes away. Reading and writing frames,
//! the files and the child process are the caller's: it feeds each thing
//! that happened to `ServePhase::step` and performs the action it gets back.

use vstd::prelude::*;
use crate::artifacts::store::{content_hash, hex_bytes, sha256_of};
use crate::stub::protocol::{Frame, Launch, PushAgent, WriteFile};
use crate::text::{
    dec, is_absolute_path, join_path_styled, owned, push_str, push_u64, str_eq, styled_join, PathStyle,
};

verus! {

/// What a session is configured with.
#[derive(Debug, Clone)]
pub struct ServeConfig {
    /// Where the agent and relative files are written.
    pub work_dir: String,
    /// The secret the host must present in AUTH.
    pub case_bootstrap_secret: String,
    /// The stub version the host must announce in HELLO.
    pub expected_stub_version: u32,
    /// The path conventions of the guest the stub runs on: they decide
    /// which paths are absolute and how relative ones join `work_dir`.
    pub path_style: PathStyle,
}

/// How a session ended.
#[derive(Debug, Clone, Copy, PartialEq, Eq, Structural)]
pub enum ServeOutcome {
    ChildExited(i32),
    HostClosed,
    AuthRejected,
    VersionMismatch { got: u32, want: u32 },
}

/// Where a session stands.
#[derive(Debug, Clone)]
pub enum ServePhase {
    /// Waiting for the host's HELLO.
    AwaitHello,
    /// Waiting for AUTH.
    AwaitAuth,
    /// Waiting for the next command.
    AwaitCommand,
    /// Waiting for the agent bytes announced with this digest.
    AwaitAgentPayload { sha256: String },
    /// Waiting for the bytes of the file announced at `path` with `mode`.
    AwaitFilePayload { path: String, mode: String },
    /// The child runs; its output is being relayed.
    Relaying,
    /// The session ended with this outcome.
    Done(ServeOutcome),
    /// The session ended on a stream error, which the caller returns.
    Failed,
}

/// What happened since the last step.
#[derive(Debug)]
pub enum ServeEvent {
    /// A frame was read.
    Frame(Frame),
    /// The stream ended before a whole frame was read.
    Eof,
    /// Reading failed otherwise.
    ReadFailed,
    /// The announced payload was read.
    Payload(Vec<u8>),
    /// The launched child exited with this code.
    ChildExited(i32),
}

/// What the caller does next.
#[derive(Debug)]
pub enum ServeAction {
    /// Nothing; read the next frame (unless the session is over).
    Nothing,
    /// Send `frame`; when `must_succeed`, a failed write ends the session
    /// with that error, otherwise it is ignored.
    Send { frame: Frame, must_succeed: bool },
    /// Send an error frame `unexpected frame: <frame in debug form>`,
    /// ignoring a failed write.
    RejectUnexpected(Frame),
    /// Read a payload of this many bytes.
    ReadPayload(u64),
    /// Write the agent `bytes` to `path` (failure ends the session), mark
    /// it executable where the OS has modes (failure ignored), then send
    /// `ack` (failure ends the session).
    StoreAgent { path: String, bytes: Vec<u8>, ack: Frame },
    /// Create `path`'s parent directories (failure ignored), write `bytes`
    /// to `path` (failure ends the session), set `mode` where the OS has
    /// modes and a mode was given (failure ignored), then send `ack`
    /// (failure ends the session).
    StoreFile { path: String, mode: Option<u32>, bytes: Vec<u8>, ack: Frame },
    /// Send `ack` (failure ends the session), then run `launch` and relay
    /// its output as stream frames until it exits.
    Launch { launch: Launch, ack: Frame },
    /// End the session with the read error.
    FailRead,
}

/// The text of the error sent for a HELLO with the wrong stub version.
pub open spec fn version_mismatch_message(got: u32, want: u32) -> Seq<char> {
    "stub_version mismatch: got "@ + dec(got as nat) + " want "@ + dec(want as nat)
}

/// `a` sends an acknowledgement with this flag and detail.
pub open spec fn sends_ack(a: ServeAction, ok: bool, detail: Seq<char>, must: bool) -> bool {
    a matches ServeAction::Send { frame: Frame::Ack { ok: o, detail: d }, must_succeed: m } && o
        == ok && d@ == detail && m == must
}

/// `f` is an acknowledgement with this flag and detail.
pub open spec fn is_ack(f: Frame, ok: bool, detail: Seq<char>) -> bool {
    f matches Frame::Ack { ok: o, detail: d } && o == ok && d@ == detail
}

/// `s` without all of its leading `"0o"` prefixes.
pub open spec fn trim_octal_prefix(s: Seq<char>) -> Seq<char>
    decreases s.len(),
{
    if s.len() >= 2 && s[0] == '0' && s[1] == 'o' {
        trim_octal_prefix(s.subrange(2, s.len() as int))
    } else {
        s
    }
}

/// Every character of `s` is an octal digit.
pub open spec fn all_octal(s: Seq<char>) -> bool {
    forall|i: int| 0 <= i < s.len() ==> '0' <= #[trigger] s[i] <= '7'
}

/// The value of a string of octal digits.
pub open spec fn octal_value(s: Seq<char>) -> nat
    decreases s.len(),
{
    if s.len() == 0 {
        0
    } else {
        8 * octal_value(s.drop_last()) + (s.last() as nat - '0' as nat) as nat
    }
}

/// Base-8 parsing of a 32-bit unsigned number as std's `from_str_radix`
/// does it: one optional leading `+`, then at least one octal digit, and a
/// value that fits.
pub open spec fn parse_octal_u32(s: Seq<char>) -> Option<u32> {
    let d = if s.len() > 0 && s[0] == '+' { s.drop_first() } else { s };
    if d.len() == 0 || !all_octal(d) || octal_value(d) > u32::MAX {
        None
    } else {
        Some(octal_value(d) as u32)
    }
}

/// The permission bits a file's mode text asks for: the text without its
/// leading `0o` prefixes, read in base 8.
pub open spec fn mode_bits(mode: Seq<char>) -> Option<u32> {
    parse_octal_u32(trim_octal_prefix(mode))
}

proof fn lemma_octal_prefix_le(s: Seq<char>, i: int)
    requires
        0 <= i <= s.len(),
    ensures
        octal_value(s.subrange(0, i)) <= octal_value(s),
    decreases s.len() - i,
{
    if i < s.len() {
        lemma_octal_prefix_le(s, i + 1);
        assert(s.subrange(0, i + 1).drop_last() =~= s.subrange(0, i));
    } else {
        assert(s.subrange(0, i) =~= s);
    }
}

/// The mode bits a file's mode text asks for (see `mode_bits`).
pub fn file_mode(mode: &str) -> (r: Option<u32>)
    ensures
        r == mode_bits(mode@),
{
    let n = mode.unicode_len();
    let mut start: usize = 0;
    assert(mode@.subrange(0, n as int) =~= mode@);
    while n - start >= 2 && mode.get_char(start) == '0' && mode.get_char(start + 1) == 'o'
        invariant
            start <= n,
            n == mode@.len(),
            trim_octal_prefix(mode@) == trim_octal_prefix(mode@.subrange(start as int, n as int)),
        decreases n - start,
    {
        let ghost rest = mode@.subrange(start as int, n as int);
        assert(rest.subrange(2, rest.len() as int) =~= mode@.subrange(start + 2, n as int));
        start = start + 2;
    }
    let ghost t = mode@.subrange(start as int, n as int);
    assert(trim_octal_prefix(t) == t);
    if start < n && mode.get_char(start) == '+' {
        start = start + 1;
    }
    let ghost d = mode@.subrange(start as int, n as int);
    assert(d =~= (if t.len() > 0 && t[0] == '+' { t.drop_first() } else { t }));
    if start == n {
        return None;
    }
    assert(mode_bits(mode@) == (if !all_octal(d) || octal_value(d) > u32::MAX {
        None
    } else {
        Some(octal_value(d) as u32)
    }));
    let mut acc: u32 = 0;
    let mut i: usize = start;
    while i < n
        invariant
            start <= i <= n,
            n == mode@.len(),
            d == mode@.subrange(start as int, n as int),
            d.len() > 0,
            mode_bits(mode@) == (if !all_octal(d) || octal_value(d) > u32::MAX {
                None
            } else {
                Some(octal_value(d) as u32)
            }),
            all_octal(mode@.subrange(start as int, i as int)),
            acc == octal_value(mode@.subrange(start as int, i as int)),
        decreases n - i,
    {
        let c = mode.get_char(i);
        let ghost pre = mode@.subrange(start as int, i as int);
        let ghost next = mode@.subrange(start as int, i + 1);
        assert(next.drop_last() =~= pre);
        assert(next.last() == c);
        if c < '0' || c > '7' {
            assert(d[i - start] == c);
            return None;
        }
        let digit: u32 = (c as u32) - ('0' as u32);
        if acc > (u32::MAX - digit) / 8 {
            proof {
                assert(octal_value(next) == 8 * acc + digit);
                assert(octal_value(next) > u32::MAX);
                assert(next =~= d.subrange(0, (i + 1 - start) as int));
                lemma_octal_prefix_le(d, (i + 1 - start) as int);
            }
            return None;
        }
        acc = acc * 8 + digit;
        assert forall|k: int| 0 <= k < next.len() implies '0' <= #[trigger] next[k] <= '7' by {
            if k < pre.len() {
                assert(next[k] == pre[k]);
            }
        }
        i = i + 1;
    }
    assert(d =~= mode@.subrange(start as int, i as int));
    Some(acc)
}

/// The program, arguments and working directory a launch runs with:
/// `cmd` and `powershell` get `/C <command>`, every other shell
/// `-c <command>`; the launch's directory when it is given and exists,
/// otherwise the work directory.
pub struct LaunchPlan {
    pub program: String,
    pub args: Vec<String>,
    pub cwd: String,
}

/// The flag that passes a command to `shell`.
pub open spec fn command_flag(shell: Seq<char>) -> Seq<char> {
    if shell == "cmd"@ || shell == "powershell"@ {
        "/C"@
    } else {
        "-c"@
    }
}

/// How to run `l`, given whether its working directory exists.
pub fn launch_plan(l: &Launch, work_dir: &str, cwd_exists: bool) -> (r: LaunchPlan)
    ensures
        r.program@ == l.shell@,
        r.args@.len() == 2,
        r.args@[0]@ == command_flag(l.shell@),
        r.args@[1]@ == l.command@,
        r.cwd@ == (if l.cwd@.len() == 0 || !cwd_exists {
            work_dir@
        } else {
            l.cwd@
        }),
{
    proof {
        reveal_strlit("cmd");
        reveal_strlit("powershell");
        reveal_strlit("/C");
        reveal_strlit("-c");
    }
    let flag = if str_eq(l.shell.as_str(), "cmd") || str_eq(l.shell.as_str(), "powershell") {
        owned("/C")
    } else {
        owned("-c")
    };
    let mut args: Vec<String> = Vec::new();
    args.push(flag);
    args.push(l.command.clone());
    let cwd = if l.cwd.as_str().is_empty() || !cwd_exists {
        owned(work_dir)
    } else {
        l.cwd.clone()
    };
    LaunchPlan { program: l.shell.clone(), args, cwd }
}

/// The step a session in `phase` takes on `event` under `cfg`: `r` is the
/// next phase and the caller's action.
pub open spec fn step_spec(
    cfg: ServeConfig,
    phase: ServePhase,
    event: ServeEvent,
    r: (ServePhase, ServeAction),
) -> bool {
    match phase {
        ServePhase::AwaitHello => match event {
            ServeEvent::Frame(Frame::Hello(h)) => if h.stub_version
                != cfg.expected_stub_version {
                &&& r.0 == ServePhase::Done(
                    ServeOutcome::VersionMismatch {
                        got: h.stub_version,
                        want: cfg.expected_stub_version,
                    },
                )
                &&& r.1 matches ServeAction::Send {
                    frame: Frame::Error { message },
                    must_succeed: false,
                }
                &&& message@ == version_mismatch_message(
                    h.stub_version,
                    cfg.expected_stub_version,
                )
            } else {
                r.0 is AwaitAuth && r.1 is Nothing
            },
            ServeEvent::Frame(_) => {
                &&& r.0 == ServePhase::Done(ServeOutcome::HostClosed)
                &&& r.1 matches ServeAction::Send {
                    frame: Frame::Error { message },
                    must_succeed: false,
                }
                &&& message@ == "expected HELLO"@
            },
            ServeEvent::Eof => r.0 == ServePhase::Done(ServeOutcome::HostClosed)
                && r.1 is Nothing,
            ServeEvent::ReadFailed => r.0 is Failed && r.1 is FailRead,
            _ => r.0 is AwaitHello && r.1 is Nothing,
        },
        ServePhase::AwaitAuth => match event {
            ServeEvent::Frame(f) => if f matches Frame::Auth { case_bootstrap_secret: s }
                && s@ == cfg.case_bootstrap_secret@ {
                r.0 is AwaitCommand && sends_ack(r.1, true, "authed"@, true)
            } else {
                r.0 == ServePhase::Done(ServeOutcome::AuthRejected) && sends_ack(
                    r.1,
                    false,
                    "bad secret"@,
                    true,
                )
            },
            ServeEvent::Eof | ServeEvent::ReadFailed => r.0 is Failed && r.1 is FailRead,
            _ => r.0 is AwaitAuth && r.1 is Nothing,
        },
        ServePhase::AwaitCommand => match event {
            ServeEvent::Frame(Frame::PushAgent(p)) => r.0 == (ServePhase::AwaitAgentPayload {
                sha256: p.sha256,
            }) && r.1 == ServeAction::ReadPayload(p.len),
            ServeEvent::Frame(Frame::WriteFile(w)) => r.0 == (ServePhase::AwaitFilePayload {
                path: w.path,
                mode: w.mode,
            }) && r.1 == ServeAction::ReadPayload(w.len),
            ServeEvent::Frame(Frame::Launch(l)) => {
                &&& r.0 is Relaying
                &&& r.1 matches ServeAction::Launch { launch, ack }
                &&& launch == l
                &&& is_ack(ack, true, "launched"@)
            },
            ServeEvent::Frame(Frame::Error { .. }) => r.0 == ServePhase::Done(
                ServeOutcome::HostClosed,
            ) && r.1 is Nothing,
            ServeEvent::Frame(f) => r.0 is AwaitCommand && r.1 == ServeAction::RejectUnexpected(f),
            ServeEvent::Eof => r.0 == ServePhase::Done(ServeOutcome::HostClosed) && r.1 is Nothing,
            ServeEvent::ReadFailed => r.0 is Failed && r.1 is FailRead,
            _ => r.0 is AwaitCommand && r.1 is Nothing,
        },
        ServePhase::AwaitAgentPayload { sha256 } => match event {
            ServeEvent::Payload(bytes) => r.0 is AwaitCommand && if hex_bytes(
                sha256_of(bytes@),
            ) != sha256@ {
                sends_ack(r.1, false, "hash_mismatch"@, true)
            } else {
                &&& r.1 matches ServeAction::StoreAgent { path, bytes: b, ack }
                &&& path@ == styled_join(cfg.path_style, cfg.work_dir@, "qwan-guest"@)
                &&& b == bytes
                &&& is_ack(ack, true, sha256@)
            },
            ServeEvent::Eof | ServeEvent::ReadFailed => r.0 is Failed && r.1 is FailRead,
            _ => r.0 == (ServePhase::AwaitAgentPayload { sha256 }) && r.1 is Nothing,
        },
        ServePhase::AwaitFilePayload { path, mode } => match event {
            ServeEvent::Payload(bytes) => {
                &&& r.0 is AwaitCommand
                &&& r.1 matches ServeAction::StoreFile { path: p, mode: m, bytes: b, ack }
                &&& p@ == styled_join(cfg.path_style, cfg.work_dir@, path@)
                &&& m == mode_bits(mode@)
                &&& b == bytes
                &&& is_ack(ack, true, path@)
            },
            ServeEvent::Eof | ServeEvent::ReadFailed => r.0 is Failed && r.1 is FailRead,
            _ => r.0 == (ServePhase::AwaitFilePayload { path, mode }) && r.1 is Nothing,
        },
        ServePhase::Relaying => match event {
            ServeEvent::ChildExited(code) => {
                &&& r.0 == ServePhase::Done(ServeOutcome::ChildExited(code))
                &&& r.1 matches ServeAction::Send {
                    frame: Frame::Exit { code: c },
                    must_succeed: true,
                }
                &&& c == code
            },
            ServeEvent::ReadFailed => r.0 is Failed && r.1 is FailRead,
            _ => r.0 is Relaying && r.1 is Nothing,
        },
        ServePhase::Done(o) => r.0 == ServePhase::Done(o) && r.1 is Nothing,
        ServePhase::Failed => r.0 is Failed && r.1 is Nothing,
    }
}

impl ServePhase {
    /// The next phase of a session in this phase, and what the caller does,
    /// given what happened.
    pub fn step(self, cfg: &ServeConfig, event: ServeEvent) -> (r: (ServePhase, ServeAction))
        ensures
            step_spec(*cfg, self, event, r),
    {
        proof {
            reveal_strlit("expected HELLO");
            reveal_strlit("authed");
            reveal_strlit("bad secret");
            reveal_strlit("launched");
            reveal_strlit("hash_mismatch");
            reveal_strlit("stub_version mismatch: got ");
            reveal_strlit(" want ");
        }
        match self {
            ServePhase::AwaitHello => match event {
                ServeEvent::Frame(Frame::Hello(h)) => {
                    if h.stub_version != cfg.expected_stub_version {
                        let mut message = owned("stub_version mismatch: got ");
                        push_u64(&mut message, h.stub_version as u64);
                        push_str(&mut message, " want ");
                        push_u64(&mut message, cfg.expected_stub_version as u64);
                        (
                            ServePhase::Done(
                                ServeOutcome::VersionMismatch {
                                    got: h.stub_version,
                                    want: cfg.expected_stub_version,
                                },
                            ),
                            ServeAction::Send { frame: Frame::Error { message }, must_succeed: false },
                        )
                    } else {
                        (ServePhase::AwaitAuth, ServeAction::Nothing)
                    }
                },
                ServeEvent::Frame(_) => (
                    ServePhase::Done(ServeOutcome::HostClosed),
                    ServeAction::Send {
                        frame: Frame::Error { message: owned("expected HELLO") },
                        must_succeed: false,
                    },
                ),
                ServeEvent::Eof => (ServePhase::Done(ServeOutcome::HostClosed), ServeAction::Nothing),
                ServeEvent::ReadFailed => (ServePhase::Failed, ServeAction::FailRead),
                _ => (ServePhase::AwaitHello, ServeAction::Nothing),
            },
            ServePhase::AwaitAuth => match event {
                ServeEvent::Frame(f) => {
                    let authed = match &f {
                        Frame::Auth { case_bootstrap_secret } => str_eq(
                            case_bootstrap_secret.as_str(),
                            cfg.case_bootstrap_secret.as_str(),
                        ),
                        _ => false,
                    };
                    if authed {
                        (
                            ServePhase::AwaitCommand,
                            ServeAction::Send {
                                frame: Frame::Ack { ok: true, detail: owned("authed") },
                                must_succeed: true,
                            },
                        )
                    } else {
                        (
                            ServePhase::Done(ServeOutcome::AuthRejected),
                            ServeAction::Send {
                                frame: Frame::Ack { ok: false, detail: owned("bad secret") },
                                must_succeed: true,
                            },
                        )
                    }
                },
                ServeEvent::Eof | ServeEvent::ReadFailed => (ServePhase::Failed, ServeAction::FailRead),
                _ => (ServePhase::AwaitAuth, ServeAction::Nothing),
            },
            ServePhase::AwaitCommand => match event {
                ServeEvent::Frame(Frame::PushAgent(p)) => {
                    let len = p.len;
                    (ServePhase::AwaitAgentPayload { sha256: p.sha256 }, ServeAction::ReadPayload(len))
                },
                ServeEvent::Frame(Frame::WriteFile(w)) => {
                    let len = w.len;
                    (
                        ServePhase::AwaitFilePayload { path: w.path, mode: w.mode },
                        ServeAction::ReadPayload(len),
                    )
                },
                ServeEvent::Frame(Frame::Launch(l)) => (
                    ServePhase::Relaying,
                    ServeAction::Launch {
                        launch: l,
                        ack: Frame::Ack { ok: true, detail: owned("launched") },
                    },
                ),
                ServeEvent::Frame(Frame::Error { .. }) => (
                    ServePhase::Done(ServeOutcome::HostClosed),
                    ServeAction::Nothing,
                ),
                ServeEvent::Frame(f) => (ServePhase::AwaitCommand, ServeAction::RejectUnexpected(f)),
                ServeEvent::Eof => (ServePhase::Done(ServeOutcome::HostClosed), ServeAction::Nothing),
                ServeEvent::ReadFailed => (ServePhase::Failed, ServeAction::FailRead),
                _ => (ServePhase::AwaitCommand, ServeAction::Nothing),
            },
            ServePhase::AwaitAgentPayload { sha256 } => match event {
                ServeEvent::Payload(bytes) => {
                    let hash = content_hash(bytes.as_slice());
                    if !str_eq(hash.as_str(), sha256.as_str()) {
                        (
                            ServePhase::AwaitCommand,
                            ServeAction::Send {
                                frame: Frame::Ack { ok: false, detail: owned("hash_mismatch") },
                                must_succeed: true,
                            },
                        )
                    } else {
                        let path = join_path_styled(cfg.path_style, cfg.work_dir.as_str(), "qwan-guest");
                        (
                            ServePhase::AwaitCommand,
                            ServeAction::StoreAgent {
                                path,
                                bytes,
                                ack: Frame::Ack { ok: true, detail: hash },
                            },
                        )
                    }
                },
                ServeEvent::Eof | ServeEvent::ReadFailed => (ServePhase::Failed, ServeAction::FailRead),
                _ => (ServePhase::AwaitAgentPayload { sha256 }, ServeAction::Nothing),
            },
            ServePhase::AwaitFilePayload { path, mode } => match event {
                ServeEvent::Payload(bytes) => {
                    let dest = join_path_styled(cfg.path_style, cfg.work_dir.as_str(), path.as_str());
                    let bits = file_mode(mode.as_str());
                    (
                        ServePhase::AwaitCommand,
                        ServeAction::StoreFile {
                            path: dest,
                            mode: bits,
                            bytes,
                            ack: Frame::Ack { ok: true, detail: path },
                        },
                    )
                },
                ServeEvent::Eof | ServeEvent::ReadFailed => (ServePhase::Failed, ServeAction::FailRead),
                _ => (ServePhase::AwaitFilePayload { path, mode }, ServeAction::Nothing),
            },
            ServePhase::Relaying => match event {
                ServeEvent::ChildExited(code) => (
                    ServePhase::Done(ServeOutcome::ChildExited(code)),
                    ServeAction::Send { frame: Frame::Exit { code }, must_succeed: true },
                ),
                ServeEvent::ReadFailed => (ServePhase::Failed, ServeAction::FailRead),
                _ => (ServePhase::Relaying, ServeAction::Nothing),
            },
            ServePhase::Done(o) => (ServePhase::Done(o), ServeAction::Nothing),
            ServePhase::Failed => (ServePhase::Failed, ServeAction::Nothing),
        }
    }
}

/// Nothing is written, and no command is launched, before the host has
/// authenticated: from HELLO and AUTH the session only moves on to the
/// command loop on an AUTH frame carrying the configured secret.
pub proof fn lemma_no_command_before_auth(
    cfg: ServeConfig,
    phase: ServePhase,
    event: ServeEvent,
    r: (ServePhase, ServeAction),
)
    requires
        step_spec(cfg, phase, event, r),
        phase is AwaitHello || phase is AwaitAuth,
    ensures
        !(r.1 is StoreAgent || r.1 is StoreFile || r.1 is Launch || r.1 is ReadPayload),
        r.0 is AwaitCommand ==> (phase is AwaitAuth && (event matches ServeEvent::Frame(
            Frame::Auth { case_bootstrap_secret: s },
        ) && s@ == cfg.case_bootstrap_secret@)),
{
}

/// The agent is only ever stored when its bytes hash to the announced
/// SHA-256, and then under `<work_dir>/qwan-guest`.
pub proof fn lemma_agent_stored_only_on_hash_match(
    cfg: ServeConfig,
    phase: ServePhase,
    event: ServeEvent,
    r: (ServePhase, ServeAction),
)
    requires
        step_spec(cfg, phase, event, r),
        r.1 is StoreAgent,
    ensures
        ({
            &&& phase matches ServePhase::AwaitAgentPayload { sha256 }
            &&& event matches ServeEvent::Payload(bytes)
            &&& hex_bytes(sha256_of(bytes@)) == sha256@
            &&& r.1->StoreAgent_bytes == bytes
            &&& r.1->StoreAgent_path@ == styled_join(cfg.path_style, cfg.work_dir@, "qwan-guest"@)
        }),
{
}

/// A file sent with an absolute path is written exactly there; only a
/// relative path is placed under `work_dir`.
pub proof fn lemma_absolute_file_path_kept(
    cfg: ServeConfig,
    phase: ServePhase,
    event: ServeEvent,
    r: (ServePhase, ServeAction),
)
    requires
        step_spec(cfg, phase, event, r),
        r.1 is StoreFile,
        phase matches ServePhase::AwaitFilePayload { path, .. } && is_absolute_path(
            cfg.path_style,
            path@,
        ),
    ensures
        phase matches ServePhase::AwaitFilePayload { path, .. } && r.1->StoreFile_path@ == path@,
{
}

/// The child's exit code is passed on unchanged: when the launched child
/// exits with `code` while relaying, the session's outcome records that
/// code and the one `Exit` frame sent to the host carries it too.
pub proof fn lemma_exit_code_relayed(
    cfg: ServeConfig,
    code: i32,
    r: (ServePhase, ServeAction),
)
    requires
        step_spec(cfg, ServePhase::Relaying, ServeEvent::ChildExited(code), r),
    ensures
        r.0 == ServePhase::Done(ServeOutcome::ChildExited(code)),
        r.1 matches ServeAction::Send { frame: Frame::Exit { code: sent }, must_succeed: true }
            && sent == code,
{
}

/// Two runs whose children exit differently end differently, and tell the
/// host different codes.
pub proof fn lemma_exit_codes_kept_apart(
    cfg: ServeConfig,
    c1: i32,
    c2: i32,
    r1: (ServePhase, ServeAction),
    r2: (ServePhase, ServeAction),
)
    requires
        step_spec(cfg, ServePhase::Relaying, ServeEvent::ChildExited(c1), r1),
        step_spec(cfg, ServePhase::Relaying, ServeEvent::ChildExited(c2), r2),
        c1 != c2,
    ensures
        r1.0 != r2.0,
        r1.1 != r2.1,
{
}

/// A finished session stays finished: nothing happens after it ended.
pub proof fn lemma_finished_absorbs(
    cfg: ServeConfig,
    phase: ServePhase,
    event: ServeEvent,
    r: (ServePhase, ServeAction),
)
    requires
        step_spec(cfg, phase, event, r),
        phase is Done || phase is Failed,
    ensures
        r.0 == phase,
        r.1 is Nothing,
{
}

} // verus!
