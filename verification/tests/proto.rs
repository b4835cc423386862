use qwanban::proto::error::{internal, invalid_arg, not_found, QwanCode, QwanError};
use qwanban::proto::id::{CaseId, JobId};
use qwanban::proto::timeline::Timeline;

#[test]
fn http_status_mapping_is_sensible() {
    assert_eq!(QwanCode::Unauthenticated.http_status(), 401);
    assert_eq!(QwanCode::PermissionDenied.http_status(), 403);
    assert_eq!(QwanCode::ResourceExhausted.http_status(), 429);
    assert_eq!(QwanCode::InvalidArg.http_status(), 400);
}

#[test]
fn http_status_of_every_code() {
    assert_eq!(QwanCode::FailedPrecondition.http_status(), 400);
    assert_eq!(QwanCode::NotFound.http_status(), 404);
    assert_eq!(QwanCode::AlreadyExists.http_status(), 409);
    assert_eq!(QwanCode::Unavailable.http_status(), 503);
    assert_eq!(QwanCode::DeadlineExceeded.http_status(), 504);
    assert_eq!(QwanCode::Internal.http_status(), 502);
    assert_eq!(QwanCode::Upstream.http_status(), 502);
}

#[test]
fn with_case_attaches_case_id() {
    let e = QwanError::new(QwanCode::NotFound, "nope").with_case(CaseId::from_str_inner("case_x"));
    match e {
        QwanError::Structured { case_id, .. } => {
            assert_eq!(case_id.unwrap().as_str(), "case_x");
        }
        _ => panic!(),
    }
}

#[test]
fn wrapped_errors_are_internal_and_keep_their_text() {
    let e = QwanError::Other("boom".into()).with_case(CaseId::from_str_inner("c"));
    assert_eq!(e.code(), QwanCode::Internal);
    assert_eq!(e.message(), "boom");
    assert_eq!(e.to_display_string(), "boom");
}

#[test]
fn convenience_constructors() {
    assert_eq!(invalid_arg("a").code(), QwanCode::InvalidArg);
    assert_eq!(not_found("b").code(), QwanCode::NotFound);
    let e = internal("c");
    assert_eq!(e.code(), QwanCode::Internal);
    assert_eq!(e.to_display_string(), "Internal: c");
}

#[test]
fn timeline_starts_near_zero() {
    let t = Timeline::start();
    // within a millisecond of zero
    assert!(t.now() < 1_000_000, "t0 should be ~0");
}

#[test]
fn timeline_never_reads_negative_or_backwards() {
    let t = Timeline::start();
    let a = t.now();
    let b = t.now();
    assert!(a >= 0);
    assert!(b >= a);
}

#[test]
fn ids_carry_their_text() {
    let j = JobId::from_str_inner("job_1");
    assert_eq!(j.as_str(), "job_1");
    assert_eq!(j.duplicate(), j);
    assert_eq!(qwanban::proto::id::short_random_suffix(0xab, 3), "0000000000ab0003");
}
