use qwanban::guest::breadcrumbs::BreadcrumbTable;
use qwanban::guest::mcp::{breadcrumb_response, clip_response, finish_response, finish_result, handoff_response, ToolResponse};
use qwanban::proto::broker::CaseOutcome;
use qwanban::proto::error::{QwanCode, QwanError};
use qwanban::proto::id::{BreadcrumbId, CaseId, ClipId};
use qwanban::proto::transcript::{BreadcrumbIn, BreadcrumbKind};

fn table() -> BreadcrumbTable {
    BreadcrumbTable::new(CaseId::from_str_inner("c1"))
}

#[test]
fn emit_assigns_sequential_ids_and_resolves() {
    let mut t = table();
    let b1 = t
        .emit(BreadcrumbIn { kind: BreadcrumbKind::StepBegin, label: "s1".into(), detail: None })
        .unwrap();
    let b2 = t
        .emit(BreadcrumbIn { kind: BreadcrumbKind::StepEnd, label: "s1".into(), detail: Some("d".into()) })
        .unwrap();
    assert_eq!(b1.breadcrumb_id.as_str(), "bc_0");
    assert_eq!(b2.breadcrumb_id.as_str(), "bc_1");
    assert_eq!(b2.case_id.as_str(), "c1");
    assert_eq!(b2.detail.as_deref(), Some("d"));
    assert!(b2.timeline_ns >= b1.timeline_ns);
    assert_eq!(t.resolve(&b1.breadcrumb_id), Some(b1.timeline_ns));
    assert_eq!(t.resolve(&b2.breadcrumb_id), Some(b2.timeline_ns));
    assert_eq!(t.resolve(&BreadcrumbId("bc_9".into())), None);
}

#[test]
fn make_clip_carries_range_and_label() {
    let t = table();
    let a = t.make_clip(ClipId::from_str_inner("clip_7"), 0, 1000, "repro".into()).unwrap();
    assert_eq!(a.clip_id.as_str(), "clip_7");
    assert_eq!(a.case_id.as_str(), "c1");
    assert_eq!((a.start_ns, a.end_ns), (0, 1000));
    assert_eq!(a.label, "repro");
    assert_eq!(a.bytes_len, 0);
}

#[test]
fn breadcrumb_tool_emits_and_returns_id() {
    let mut t = table();
    let resp = breadcrumb_response(t.emit(BreadcrumbIn {
        kind: BreadcrumbKind::StepBegin,
        label: "step1".into(),
        detail: None,
    }));
    match resp {
        ToolResponse::Breadcrumb { id, .. } => assert_eq!(id, "bc_0"),
        _ => panic!("expected a breadcrumb"),
    }
}

#[test]
fn clip_tool_returns_clip_id() {
    let t = table();
    let resp = clip_response(t.make_clip(ClipId::from_str_inner("clip_1"), 0, 1000, "repro".into()));
    assert!(matches!(resp, ToolResponse::Clip { ref clip_id, .. } if clip_id == "clip_1"));
}

#[test]
fn handoff_without_sink_errors() {
    match handoff_response(None) {
        ToolResponse::Error { message } => assert_eq!(message, "no handoff sink wired"),
        _ => panic!("expected an error"),
    }
}

#[test]
fn handoff_with_sink_accepted() {
    assert!(matches!(handoff_response(Some(Ok(()))), ToolResponse::Handoff { accepted: true }));
    let refused = handoff_response(Some(Err(QwanError::new(QwanCode::Unavailable, "busy"))));
    assert!(matches!(refused, ToolResponse::Error { ref message } if message == "Unavailable: busy"));
}

#[test]
fn finish_with_sink_accepted() {
    let result = finish_result(CaseOutcome::Pass, "done".into(), None);
    assert_eq!(result.case_id.as_str(), "");
    assert_eq!(result.result, CaseOutcome::Pass);
    assert_eq!(result.summary, "done");
    assert!(matches!(finish_response(Some(Ok(()))), ToolResponse::Finish { accepted: true }));
    assert!(matches!(finish_response(None), ToolResponse::Error { ref message } if message == "no finish sink wired"));
}
