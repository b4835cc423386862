use qwanban::proto::error::{QwanCode, QwanError};
use qwanban::proto::id::CaseId;
use qwanban::proxy::allowlist::{Allowlist, HostMatch, HostRule};
use qwanban::proxy::pipeline::{
    audit_record, block_error, finish_forward, run_pipeline, ProxyDecision, ProxyRequest,
};
use qwanban::vault::rewriter::Rewriter;
use qwanban::vault::snapshot::{RewriteEntry, SecretSnapshot};

fn al_two() -> Allowlist {
    Allowlist {
        rules: vec![
            HostRule {
                match_: HostMatch::Exact("api.github.com".into()),
                allow_methods: vec!["GET".into(), "POST".into()],
            },
            HostRule {
                match_: HostMatch::Suffix("blob.core.windows.net".into()),
                allow_methods: vec!["GET".into()],
            },
        ],
    }
}

#[test]
fn exact_beats_suffix() {
    let a = al_two();
    assert!(a.is_allowed("api.github.com", "GET"));
    assert!(!a.is_allowed("api.github.com", "DELETE"));
}

#[test]
fn suffix_matches_subdomains() {
    let a = al_two();
    assert!(a.is_allowed("foo.blob.core.windows.net", "GET"));
    assert!(!a.is_allowed("foo.blob.core.windows.net", "POST"));
}

#[test]
fn unknown_host_denied() {
    let a = al_two();
    assert!(!a.is_allowed("evil.example.com", "GET"));
}

#[test]
fn exact_rule_wins_over_a_matching_suffix_rule() {
    let a = Allowlist {
        rules: vec![
            HostRule { match_: HostMatch::Suffix("github.com".into()), allow_methods: vec!["DELETE".into()] },
            HostRule { match_: HostMatch::Exact("api.github.com".into()), allow_methods: vec!["GET".into()] },
        ],
    };
    assert!(a.is_allowed("api.github.com", "get"));
    assert!(!a.is_allowed("api.github.com", "DELETE"));
    assert!(a.is_allowed("www.github.com", "DELETE"));
}

#[test]
fn longest_suffix_wins_and_empty_method_list_allows_all() {
    let a = Allowlist {
        rules: vec![
            HostRule { match_: HostMatch::Suffix("example.com".into()), allow_methods: vec!["GET".into()] },
            HostRule { match_: HostMatch::Suffix("api.example.com".into()), allow_methods: vec![] },
        ],
    };
    assert!(a.is_allowed("x.api.example.com", "PATCH"));
    assert!(!a.is_allowed("x.example.com", "PATCH"));
    match a.match_rule("x.api.example.com").unwrap().match_ {
        HostMatch::Suffix(ref s) => assert_eq!(s, "api.example.com"),
        _ => panic!("expected the longer suffix rule"),
    }
    assert!(a.match_rule("example.org").is_none());
}

fn snap() -> SecretSnapshot {
    SecretSnapshot {
        real: vec![("gh".into(), "ghp_REAL".into()), ("oi".into(), "sk-REAL".into())],
        rewrite: vec![
            RewriteEntry { search: "ghp_DUMMY".into(), replace: "gh".into() },
            RewriteEntry { search: "sk_DUMMY".into(), replace: "oi".into() },
        ],
    }
}

fn al() -> Allowlist {
    Allowlist {
        rules: vec![HostRule {
            match_: HostMatch::Exact("api.github.com".into()),
            allow_methods: vec!["GET".into(), "POST".into()],
        }],
    }
}

fn req(host: &str, method: &str, headers: &[u8], url: &[u8], body: &[u8]) -> ProxyRequest {
    ProxyRequest {
        case_id: CaseId::from_str_inner("c1"),
        host: host.into(),
        method: method.into(),
        path: "/".into(),
        headers: headers.to_vec(),
        url: url.to_vec(),
        body: body.to_vec(),
    }
}

#[test]
fn block_unknown_host() {
    let s = snap();
    let r = Rewriter::new(&s);
    let d = run_pipeline(&al(), &r, &req("evil.com", "GET", b"", b"", b""));
    assert!(matches!(d, ProxyDecision::Block { status: 403, .. }));
}

#[test]
fn block_method_not_allowed() {
    let s = snap();
    let r = Rewriter::new(&s);
    let d = run_pipeline(&al(), &r, &req("api.github.com", "DELETE", b"", b"", b""));
    assert!(matches!(d, ProxyDecision::Block { status: 403, .. }));
}

#[test]
fn block_reason_names_method_and_host() {
    let s = snap();
    let r = Rewriter::new(&s);
    match run_pipeline(&al(), &r, &req("evil.com", "GET", b"", b"", b"")) {
        ProxyDecision::Block { reason, .. } => {
            assert_eq!(reason, "blocked host/method: GET evil.com");
            let e = block_error(&reason);
            assert_eq!(e.code(), QwanCode::PermissionDenied);
        }
        _ => panic!("expected Block"),
    }
}

#[test]
fn allow_with_dummy_swapped_in_bearer_header() {
    let s = snap();
    let r = Rewriter::new(&s);
    let d = run_pipeline(
        &al(),
        &r,
        &req("api.github.com", "GET", b"Authorization: Bearer ghp_DUMMY", b"", b""),
    );
    match d {
        ProxyDecision::Allow { headers, matched, .. } => {
            assert!(headers.windows(8).any(|w| w == b"ghp_REAL"));
            assert_eq!(matched, vec![0]);
        }
        _ => panic!("expected Allow"),
    }
}

#[test]
fn allow_passthrough_when_no_dummy() {
    let s = snap();
    let r = Rewriter::new(&s);
    let d = run_pipeline(
        &al(),
        &r,
        &req("api.github.com", "GET", b"Accept: application/json", b"/repos", b""),
    );
    match d {
        ProxyDecision::Allow { headers, url, matched, .. } => {
            assert_eq!(headers, b"Accept: application/json");
            assert_eq!(url, b"/repos");
            assert!(matched.is_empty());
        }
        _ => panic!("expected Allow"),
    }
}

#[test]
fn allow_juggles_two_distinct_dummies() {
    let s = snap();
    let r = Rewriter::new(&s);
    let d = run_pipeline(
        &al(),
        &r,
        &req(
            "api.github.com",
            "POST",
            b"Authorization: Bearer ghp_DUMMY",
            b"",
            b"{\"key\":\"sk_DUMMY\"}",
        ),
    );
    match d {
        ProxyDecision::Allow { headers, body, matched, .. } => {
            assert!(headers.windows(8).any(|w| w == b"ghp_REAL"));
            assert!(body.windows(7).any(|w| w == b"sk-REAL"));
            assert_eq!(matched, vec![0, 1]);
        }
        _ => panic!("expected Allow"),
    }
}

#[test]
fn audit_records_blocks_and_forwards() {
    let s = snap();
    let r = Rewriter::new(&s);
    let q = req("api.github.com", "GET", b"Authorization: Bearer ghp_DUMMY", b"/x", b"");
    let d = run_pipeline(&al(), &r, &q);
    let a = audit_record(&q, &d, 7);
    assert_eq!(a.status, 200);
    assert_eq!(a.bytes_up, ("Authorization: Bearer ghp_REAL".len() + 2) as u64);
    assert_eq!(a.bytes_down, 7);
    assert_eq!(a.matched_dummies, vec![0]);
    let q2 = req("evil.com", "GET", b"", b"", b"");
    let d2 = run_pipeline(&al(), &r, &q2);
    let b = audit_record(&q2, &d2, 99);
    assert_eq!(b.status, 403);
    assert_eq!(b.bytes_up, 0);
    assert_eq!(b.bytes_down, 0);
    assert!(b.matched_dummies.is_empty());
    assert_eq!(b.host, "evil.com");
}

#[test]
fn failed_forward_is_audited_once_with_its_error_status() {
    let s = snap();
    let r = Rewriter::new(&s);
    let q = req("api.github.com", "POST", b"Authorization: Bearer ghp_DUMMY", b"/x", b"{}");
    let d = run_pipeline(&al(), &r, &q);
    let (ok_rec, ok_answer) = finish_forward(&q, &d, Ok(b"hello".to_vec()));
    assert_eq!(ok_rec.status, 200);
    assert_eq!(ok_rec.bytes_down, 5);
    assert_eq!(ok_rec.bytes_up, ("Authorization: Bearer ghp_REAL".len() + 2 + 2) as u64);
    assert_eq!(ok_rec.matched_dummies, vec![0]);
    assert_eq!(ok_answer.unwrap(), b"hello".to_vec());

    let failure = QwanError::new(QwanCode::Upstream, "connection reset");
    let (err_rec, err_answer) = finish_forward(&q, &d, Err(failure));
    assert_eq!(err_rec.status, 502);
    assert_eq!(err_rec.bytes_down, 0);
    assert_eq!(err_rec.bytes_up, ("Authorization: Bearer ghp_REAL".len() + 2 + 2) as u64);
    assert_eq!(err_rec.matched_dummies, vec![0]);
    assert_eq!(err_rec.method, "POST");
    let e = err_answer.unwrap_err();
    assert_eq!(e.code(), QwanCode::Upstream);
    assert_eq!(e.message(), "connection reset");
}
