use qwanban::artifacts::store::content_hash;
use qwanban::proto::broker::GuestOs;
use qwanban::stub::protocol::{is_ok, Frame, Hello, Launch, PushAgent, WriteFile};
use qwanban::text::{join_path_windows, PathStyle};
use qwanban::stub::serve::{file_mode, launch_plan, ServeAction, ServeConfig, ServeEvent, ServeOutcome, ServePhase};

fn cfg() -> ServeConfig {
    ServeConfig {
        work_dir: "/work".into(),
        case_bootstrap_secret: "bootstrap-secret".into(),
        expected_stub_version: 1,
        path_style: PathStyle::Unix,
    }
}

fn hello(v: u32) -> ServeEvent {
    ServeEvent::Frame(Frame::Hello(Hello { stub_version: v, os: GuestOs::Linux, arch: "x86_64".into() }))
}

fn authed() -> ServePhase {
    let c = cfg();
    let (p, _) = ServePhase::AwaitHello.step(&c, hello(1));
    let (p, a) = p.step(&c, ServeEvent::Frame(Frame::Auth { case_bootstrap_secret: "bootstrap-secret".into() }));
    match a {
        ServeAction::Send { frame, must_succeed: true } => assert!(is_ok(&frame)),
        _ => panic!("expected an ack"),
    }
    p
}

#[test]
fn auth_rejects_bad_secret() {
    let c = cfg();
    let (p, _) = ServePhase::AwaitHello.step(&c, hello(1));
    let (p, a) = p.step(&c, ServeEvent::Frame(Frame::Auth { case_bootstrap_secret: "WRONG".into() }));
    match a {
        ServeAction::Send { frame, .. } => assert!(!is_ok(&frame)),
        _ => panic!("expected an ack"),
    }
    assert!(matches!(p, ServePhase::Done(ServeOutcome::AuthRejected)));
}

#[test]
fn version_mismatch_rejected() {
    let c = cfg();
    let (p, a) = ServePhase::AwaitHello.step(&c, hello(99));
    assert!(matches!(p, ServePhase::Done(ServeOutcome::VersionMismatch { got: 99, want: 1 })));
    match a {
        ServeAction::Send { frame: Frame::Error { message }, must_succeed: false } => {
            assert_eq!(message, "stub_version mismatch: got 99 want 1")
        }
        _ => panic!("expected an error frame"),
    }
}

#[test]
fn non_hello_first_frame_closes() {
    let c = cfg();
    let (p, a) = ServePhase::AwaitHello.step(&c, ServeEvent::Frame(Frame::Exit { code: 0 }));
    assert!(matches!(p, ServePhase::Done(ServeOutcome::HostClosed)));
    assert!(matches!(a, ServeAction::Send { frame: Frame::Error { ref message }, .. } if message == "expected HELLO"));
    let (p, _) = ServePhase::AwaitHello.step(&c, ServeEvent::Eof);
    assert!(matches!(p, ServePhase::Done(ServeOutcome::HostClosed)));
}

#[test]
fn push_agent_correct_hash_acks() {
    let c = cfg();
    let agent: &[u8] = b"#!/bin/sh\necho hi\n";
    let hash = content_hash(agent);
    let (p, a) = authed().step(&c, ServeEvent::Frame(Frame::PushAgent(PushAgent { sha256: hash.clone(), len: agent.len() as u64 })));
    assert!(matches!(a, ServeAction::ReadPayload(n) if n == agent.len() as u64));
    let (p, a) = p.step(&c, ServeEvent::Payload(agent.to_vec()));
    assert!(matches!(p, ServePhase::AwaitCommand));
    match a {
        ServeAction::StoreAgent { path, bytes, ack } => {
            assert_eq!(path, "/work/qwan-guest");
            assert_eq!(bytes, agent);
            assert!(is_ok(&ack));
            assert!(matches!(ack, Frame::Ack { ref detail, .. } if *detail == hash));
        }
        _ => panic!("expected the agent to be stored"),
    }
}

#[test]
fn push_agent_wrong_hash_acks_mismatch() {
    let c = cfg();
    let agent: &[u8] = b"agent bytes";
    let (p, _) = authed().step(&c, ServeEvent::Frame(Frame::PushAgent(PushAgent { sha256: "deadbeef".into(), len: agent.len() as u64 })));
    let (p, a) = p.step(&c, ServeEvent::Payload(agent.to_vec()));
    assert!(matches!(p, ServePhase::AwaitCommand));
    match a {
        ServeAction::Send { frame, must_succeed: true } => {
            assert!(!is_ok(&frame));
            assert!(matches!(frame, Frame::Ack { ref detail, .. } if detail == "hash_mismatch"));
        }
        _ => panic!("expected a refusal"),
    }
}

#[test]
fn write_file_writes_to_disk() {
    let c = cfg();
    let content: &[u8] = b"{\"manifest\":\"v1\"}";
    let (p, _) = authed().step(&c, ServeEvent::Frame(Frame::WriteFile(WriteFile { path: "case-config.json".into(), mode: "0644".into(), len: content.len() as u64 })));
    let (_, a) = p.step(&c, ServeEvent::Payload(content.to_vec()));
    match a {
        ServeAction::StoreFile { path, mode, bytes, ack } => {
            assert_eq!(path, "/work/case-config.json");
            assert_eq!(mode, Some(0o644));
            assert_eq!(bytes, content);
            assert!(matches!(ack, Frame::Ack { ok: true, ref detail } if detail == "case-config.json"));
        }
        _ => panic!("expected the file to be stored"),
    }
}

#[test]
fn launch_relays_stdout_and_exit() {
    let c = cfg();
    let l = Launch { command: "echo hello".into(), shell: "sh".into(), cwd: "".into(), env: Default::default() };
    let (p, a) = authed().step(&c, ServeEvent::Frame(Frame::Launch(l)));
    assert!(matches!(p, ServePhase::Relaying));
    match a {
        ServeAction::Launch { launch, ack } => {
            assert!(is_ok(&ack));
            let plan = launch_plan(&launch, "/work", false);
            assert_eq!(plan.program, "sh");
            assert_eq!(plan.args, vec!["-c".to_string(), "echo hello".to_string()]);
            assert_eq!(plan.cwd, "/work");
        }
        _ => panic!("expected a launch"),
    }
    let (p, a) = p.step(&c, ServeEvent::ChildExited(0));
    assert!(matches!(p, ServePhase::Done(ServeOutcome::ChildExited(0))));
    assert!(matches!(a, ServeAction::Send { frame: Frame::Exit { code: 0 }, must_succeed: true }));
}

#[test]
fn unexpected_frame_is_rejected_and_loop_continues() {
    let c = cfg();
    let (p, a) = authed().step(&c, ServeEvent::Frame(Frame::Exit { code: 3 }));
    assert!(matches!(p, ServePhase::AwaitCommand));
    assert!(matches!(a, ServeAction::RejectUnexpected(Frame::Exit { code: 3 })));
    let (p, _) = p.step(&c, ServeEvent::Frame(Frame::Error { message: "bye".into() }));
    assert!(matches!(p, ServePhase::Done(ServeOutcome::HostClosed)));
}

#[test]
fn read_errors_end_the_session() {
    let c = cfg();
    let (p, a) = ServePhase::AwaitAuth.step(&c, ServeEvent::Eof);
    assert!(matches!(p, ServePhase::Failed));
    assert!(matches!(a, ServeAction::FailRead));
    let (p, _) = authed().step(&c, ServeEvent::Eof);
    assert!(matches!(p, ServePhase::Done(ServeOutcome::HostClosed)));
}

#[test]
fn file_modes_parse_like_octal_text() {
    assert_eq!(file_mode("0644"), Some(0o644));
    assert_eq!(file_mode("0o755"), Some(0o755));
    assert_eq!(file_mode("0o0o700"), Some(0o700));
    assert_eq!(file_mode("+17"), Some(0o17));
    assert_eq!(file_mode("8"), None);
    assert_eq!(file_mode(""), None);
    assert_eq!(file_mode("+"), None);
    assert_eq!(file_mode("77777777777"), None);
    assert_eq!(file_mode("37777777777"), Some(u32::MAX));
}

#[test]
fn windows_shells_use_slash_c_and_existing_cwd() {
    let l = Launch { command: "dir".into(), shell: "cmd".into(), cwd: "C:\\x".into(), env: Default::default() };
    let plan = launch_plan(&l, "/work", true);
    assert_eq!(plan.args[0], "/C");
    assert_eq!(plan.cwd, "C:\\x");
    assert_eq!(launch_plan(&l, "/work", false).cwd, "/work");
}

fn stored_file_path(c: &ServeConfig, path: &str) -> String {
    let (p, _) = ServePhase::AwaitCommand.step(
        c,
        ServeEvent::Frame(Frame::WriteFile(WriteFile { path: path.into(), mode: "0644".into(), len: 1 })),
    );
    match p.step(c, ServeEvent::Payload(b"x".to_vec())).1 {
        ServeAction::StoreFile { path, .. } => path,
        _ => panic!("expected the file to be stored"),
    }
}

#[test]
fn absolute_file_paths_are_kept_on_each_platform() {
    let unix = cfg();
    assert_eq!(stored_file_path(&unix, "/etc/app.conf"), "/etc/app.conf");
    assert_eq!(stored_file_path(&unix, "sub/app.conf"), "/work/sub/app.conf");
    let win = ServeConfig { work_dir: "C:\\work".into(), path_style: PathStyle::Windows, ..cfg() };
    assert_eq!(stored_file_path(&win, "D:\\data\\app.conf"), "D:\\data\\app.conf");
    assert_eq!(stored_file_path(&win, "\\\\srv\\share\\f"), "\\\\srv\\share\\f");
    assert_eq!(stored_file_path(&win, "sub\\app.conf"), "C:\\work\\sub\\app.conf");
    assert_eq!(stored_file_path(&win, "\\tmp\\x"), "C:\\tmp\\x");
}

#[test]
fn windows_join_follows_drive_and_separator_rules() {
    assert_eq!(join_path_windows("C:\\work", "a\\b"), "C:\\work\\a\\b");
    assert_eq!(join_path_windows("C:\\work\\", "a"), "C:\\work\\a");
    assert_eq!(join_path_windows("C:\\work/", "a"), "C:\\work/a");
    assert_eq!(join_path_windows("C:", "a"), "C:a");
    assert_eq!(join_path_windows("", "a"), "a");
    assert_eq!(join_path_windows("C:\\work", "D:x"), "D:x");
    assert_eq!(join_path_windows("C:\\work", "/x"), "C:/x");
    assert_eq!(join_path_windows("work", "\\x"), "\\x");
    assert_eq!(join_path_windows("C:\\work", "//srv/share"), "//srv/share");
}
