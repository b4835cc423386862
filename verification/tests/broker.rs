use std::sync::Arc;
use qwanban::broker::artifact_sink::{ArtifactIngestSink, IngestTarget};
use qwanban::broker::case_registry::CaseRegistry;
use qwanban::proto::broker::{CaseStatus, IngestItem};
use qwanban::proto::clip::ClipAsset;
use qwanban::proto::error::QwanCode;
use qwanban::proto::id::{BreadcrumbId, CaseId, ClipId, VideoSegmentId};
use qwanban::proto::transcript::{Breadcrumb, BreadcrumbKind, TranscriptEntry};
use qwanban::proto::video::{VideoCodec, VideoSegment};

#[test]
fn verify_rejects_bad_token() {
    let mut r = CaseRegistry::new();
    let c = CaseId::from_str_inner("case_1");
    r.open(c.clone(), "tok".into());
    assert!(r.verify(&c, "tok").is_ok());
    let err = r.verify(&c, "wrong").unwrap_err();
    assert_eq!(err.code(), QwanCode::Unauthenticated);
}

#[test]
fn verify_rejects_unknown_case() {
    let r = CaseRegistry::new();
    let c = CaseId::from_str_inner("nope");
    let err = r.verify(&c, "tok").unwrap_err();
    assert_eq!(err.code(), QwanCode::NotFound);
}

#[test]
fn registry_messages_reopen_status_and_close() {
    let mut r = CaseRegistry::new();
    let c = CaseId::from_str_inner("c1");
    assert_eq!(r.verify(&c, "t").unwrap_err().message(), "unknown case c1");
    r.open(c.clone(), "t1".into());
    r.open(CaseId::from_str_inner("c2"), "t2".into());
    assert_eq!(r.live_count(), 2);
    r.open(c.clone(), "t3".into());
    assert_eq!(r.live_count(), 2);
    assert_eq!(r.verify(&c, "t1").unwrap_err().message(), "bad case_token");
    assert!(r.verify(&c, "t3").is_ok());
    r.set_status(&c, CaseStatus::Running);
    assert!(r.verify(&c, "t3").is_ok());
    r.set_status(&CaseId::from_str_inner("ghost"), CaseStatus::Running);
    assert_eq!(r.live_count(), 2);
    r.close(&c);
    assert_eq!(r.live_count(), 1);
    assert_eq!(r.verify(&c, "t3").unwrap_err().code(), QwanCode::NotFound);
    r.close(&c);
    assert_eq!(r.live_count(), 1);
}

fn sink() -> ArtifactIngestSink {
    ArtifactIngestSink::new(Arc::new(CaseRegistry::new()), "/data")
}

#[test]
fn transcript_routed_to_transcript_log() {
    let c = CaseId::from_str_inner("c1");
    let entry = TranscriptEntry::Breadcrumb(Breadcrumb {
        breadcrumb_id: BreadcrumbId("bc_0".into()),
        case_id: c,
        kind: BreadcrumbKind::StepBegin,
        label: "step1".into(),
        timeline_ns: 42,
        detail: None,
    });
    assert!(matches!(sink().ingest_target(&IngestItem::Transcript(entry)), IngestTarget::Transcript));
}

#[test]
fn video_segment_routed_to_meta_json() {
    let seg = VideoSegment {
        segment_id: VideoSegmentId("seg_0".into()),
        case_id: CaseId::from_str_inner("c1"),
        index: 7,
        start_ns: 0,
        end_ns: 4_000_000_000,
        codec: VideoCodec::H264,
        width: 1280,
        height: 720,
        fps_bits: 5.0f32.to_bits(),
        bytes_hash: "h0".into(),
        bytes_len: 1000,
    };
    match sink().ingest_target(&IngestItem::VideoSegment(seg)) {
        IngestTarget::File { dir, path } => {
            assert_eq!(dir, "/data/cases/c1/video");
            assert_eq!(path, "/data/cases/c1/video/seg-000007.json");
        }
        _ => panic!("expected a file"),
    }
}

#[test]
fn clip_asset_routed_to_clips_dir() {
    let asset = ClipAsset {
        clip_id: ClipId::from_str_inner("clip_1"),
        case_id: CaseId::from_str_inner("c1"),
        label: "repro".into(),
        start_ns: 0,
        end_ns: 1000,
        bytes_hash: "h".into(),
        bytes_len: 10,
        web_url: "/clips/clip_1".into(),
    };
    match sink().ingest_target(&IngestItem::ClipAsset(asset)) {
        IngestTarget::File { dir, path } => {
            assert_eq!(dir, "/data/cases/c1/clips");
            assert_eq!(path, "/data/cases/c1/clips/clip_1.json");
        }
        _ => panic!("expected a file"),
    }
}
