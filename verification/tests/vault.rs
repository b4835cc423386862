use qwanban::proto::error::QwanCode;
use qwanban::vault::rewriter::Rewriter;
use qwanban::vault::snapshot::{RewriteEntry, SecretSnapshot, SecretsFile};
use qwanban::vault::watcher::VaultWatcher;

fn snap() -> SecretSnapshot {
    SecretSnapshot {
        real: vec![("gh".into(), "ghp_REAL".into()), ("oi".into(), "sk-REAL".into())],
        rewrite: vec![
            RewriteEntry { search: "ghp_qwanDUMMY01".into(), replace: "gh".into() },
            RewriteEntry { search: "sk-qwanDUMMY7c".into(), replace: "oi".into() },
        ],
    }
}

#[test]
fn swaps_dummy_in_bearer_header() {
    let s = snap();
    let r = Rewriter::new(&s);
    let input = b"Authorization: Bearer ghp_qwanDUMMY01";
    let res = r.rewrite(input);
    assert_eq!(res.bytes, b"Authorization: Bearer ghp_REAL".to_vec());
    assert_eq!(res.matched, vec![0]);
}

#[test]
fn swaps_dummy_in_basic_auth() {
    let s = snap();
    let r = Rewriter::new(&s);
    let input = b"Basic base64(x-access-token:ghp_qwanDUMMY01)";
    let res = r.rewrite(input);
    assert!(res.bytes.windows(8).any(|w| w == b"ghp_REAL"));
}

#[test]
fn swaps_two_distinct_dummies_in_one_request() {
    let s = snap();
    let r = Rewriter::new(&s);
    let input = b"token1=ghp_qwanDUMMY01&token2=sk-qwanDUMMY7c";
    let res = r.rewrite(input);
    assert_eq!(res.matched, vec![0, 1]);
    assert!(res.bytes.windows(8).any(|w| w == b"ghp_REAL"));
    assert!(res.bytes.windows(7).any(|w| w == b"sk-REAL"));
}

#[test]
fn no_dummy_passes_through_verbatim() {
    let s = snap();
    let r = Rewriter::new(&s);
    let input = b"GET / HTTP/1.1\r\nHost: api.github.com\r\n\r\n";
    let res = r.rewrite(input);
    assert_eq!(res.bytes, input);
    assert!(res.matched.is_empty());
}

#[test]
fn partial_dummy_not_matched() {
    let s = snap();
    let r = Rewriter::new(&s);
    let input = b"Bearer ghp_qwanDUMMY0";
    let res = r.rewrite(input);
    assert!(res.matched.is_empty());
    assert_eq!(res.bytes, input);
}

#[test]
fn repeated_dummy_is_reported_once_per_occurrence_and_detected() {
    let s = snap();
    let r = Rewriter::new(&s);
    let res = r.rewrite(b"ghp_qwanDUMMY01 ghp_qwanDUMMY01");
    assert_eq!(res.bytes, b"ghp_REAL ghp_REAL".to_vec());
    assert_eq!(res.matched, vec![0, 0]);
    assert!(r.contains_any_dummy(b"xx sk-qwanDUMMY7c"));
    assert!(!r.contains_any_dummy(b"sk-qwanDUMMY"));
}

#[test]
fn parse_and_validate_ok() {
    let f = SecretsFile {
        real: vec![("github_token".into(), "ghp_REAL".into()), ("openai_key".into(), "sk-REAL".into())],
        rewrite: vec![
            RewriteEntry { search: "ghp_qwanDUMMY01".into(), replace: "github_token".into() },
            RewriteEntry { search: "sk-qwanDUMMY7c".into(), replace: "openai_key".into() },
        ],
    };
    let snap = SecretSnapshot::from_file(f).unwrap();
    assert_eq!(snap.secret("github_token").unwrap().as_str(), "ghp_REAL");
    assert_eq!(snap.rewrite.len(), 2);
}

#[test]
fn rejects_unresolved_replace() {
    let f = SecretsFile {
        real: Default::default(),
        rewrite: vec![RewriteEntry { search: "x".into(), replace: "missing".into() }],
    };
    assert!(SecretSnapshot::from_file(f).is_err());
}

#[test]
fn rejects_duplicate_search() {
    let real = vec![("k".to_string(), "v".to_string())];
    let f = SecretsFile {
        real,
        rewrite: vec![
            RewriteEntry { search: "dup".into(), replace: "k".into() },
            RewriteEntry { search: "dup".into(), replace: "k".into() },
        ],
    };
    assert!(SecretSnapshot::from_file(f).is_err());
}

#[test]
fn rejection_messages_name_the_entry() {
    let f = SecretsFile {
        real: vec![],
        rewrite: vec![RewriteEntry { search: "x".into(), replace: "missing".into() }],
    };
    let e = SecretSnapshot::from_file(f).unwrap_err();
    assert_eq!(e.code(), QwanCode::InvalidArg);
    assert_eq!(e.message(), "rewrite 'x' -> unknown real secret 'missing'");
    let f = SecretsFile {
        real: vec![("k".into(), "v".into())],
        rewrite: vec![
            RewriteEntry { search: "dup".into(), replace: "k".into() },
            RewriteEntry { search: "dup".into(), replace: "k".into() },
        ],
    };
    assert_eq!(SecretSnapshot::from_file(f).unwrap_err().message(), "duplicate dummy search string: 'dup'");
}

fn file(value: &str) -> SecretsFile {
    SecretsFile {
        real: vec![("k".into(), value.into())],
        rewrite: vec![RewriteEntry { search: "d".into(), replace: "k".into() }],
    }
}

#[test]
fn reload_picks_up_new_value() {
    let mut w = VaultWatcher::load("/etc/qwan/secrets.toml", file("OLD")).unwrap();
    assert_eq!(w.snapshot().secret("k").unwrap().as_str(), "OLD");
    w.reload(file("NEW")).unwrap();
    assert_eq!(w.snapshot().secret("k").unwrap().as_str(), "NEW");
    assert_eq!(w.path(), "/etc/qwan/secrets.toml");
}

#[test]
fn malformed_reload_keeps_previous() {
    let mut w = VaultWatcher::load("secrets.toml", file("OLD")).unwrap();
    let bad = SecretsFile {
        real: vec![],
        rewrite: vec![RewriteEntry { search: "d".into(), replace: "missing".into() }],
    };
    let err = w.reload(bad).unwrap_err();
    assert_eq!(err.code(), QwanCode::InvalidArg);
    assert_eq!(err.message(), "rewrite 'd' -> unknown real secret 'missing'");
    assert_eq!(w.snapshot().secret("k").unwrap().as_str(), "OLD");
}

#[test]
fn validate_and_unknown_secret() {
    let s = snap();
    assert!(s.validate().is_ok());
    assert!(s.secret("missing").is_none());
}

#[test]
fn scan_with_an_empty_dummy_ends_only_where_it_never_matches_first() {
    let s = SecretSnapshot {
        real: vec![("k".into(), "V".into())],
        rewrite: vec![
            RewriteEntry { search: "ab".into(), replace: "k".into() },
            RewriteEntry { search: "".into(), replace: "k".into() },
        ],
    };
    let r = Rewriter::new(&s);
    assert!(r.scan_terminates(b""));
    assert!(r.scan_terminates(b"abab"));
    assert!(!r.scan_terminates(b"abx"));
    let res = r.rewrite(b"abab");
    assert_eq!(res.bytes, b"VV".to_vec());
    assert_eq!(res.matched, vec![0, 0]);
    let res = r.rewrite(b"");
    assert!(res.bytes.is_empty());
    assert!(snap_terminates_everywhere());
}

fn snap_terminates_everywhere() -> bool {
    let s = snap();
    let r = Rewriter::new(&s);
    r.scan_terminates(b"anything at all ghp_qwanDUMMY01")
}

#[test]
fn every_stored_name_looks_up_its_own_value() {
    let f = SecretsFile {
        real: vec![
            ("a".into(), "1".into()),
            ("ab".into(), "2".into()),
            ("b".into(), "3".into()),
        ],
        rewrite: vec![],
    };
    let snap = SecretSnapshot::from_file(f).unwrap();
    assert_eq!(snap.secret("a").unwrap().as_str(), "1");
    assert_eq!(snap.secret("ab").unwrap().as_str(), "2");
    assert_eq!(snap.secret("b").unwrap().as_str(), "3");
    assert!(snap.secret("c").is_none());
}
