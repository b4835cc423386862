use qwanban::artifacts::clip_cutter::ClipCutter;
use qwanban::artifacts::fs_store::FsArtifactStore;
use qwanban::artifacts::index::SegmentIndex;
use qwanban::artifacts::store::{content_hash, hex_encode};
use qwanban::artifacts::transcript_index::TranscriptIndex;
use qwanban::artifacts::web_report::{html_escape, render_page, StubWebReport};
use qwanban::proto::error::QwanCode;
use qwanban::proto::id::{BreadcrumbId, CaseId, ClipId, InputEventId, VideoSegmentId};
use qwanban::proto::transcript::{Breadcrumb, BreadcrumbKind, LogLevel, TranscriptEntry};
use qwanban::proto::video::{VideoCodec, VideoSegment};

fn seg(case: &CaseId, idx: u32, start: i64, end: i64) -> VideoSegment {
    VideoSegment {
        segment_id: VideoSegmentId(format!("seg_{idx}")),
        case_id: case.clone(),
        index: idx,
        start_ns: start,
        end_ns: end,
        codec: VideoCodec::H264,
        width: 1280,
        height: 720,
        fps_bits: 5.0f32.to_bits(),
        bytes_hash: "h".into(),
        bytes_len: 0,
    }
}

#[test]
fn finds_segment_covering_point() {
    let mut idx = SegmentIndex::new();
    let c = CaseId::from_str_inner("c1");
    idx.append(seg(&c, 0, 0, 4_000_000_000));
    idx.append(seg(&c, 1, 4_000_000_000, 8_000_000_000));
    let s = idx.segment_at(&c, 5_000_000_000).unwrap();
    assert_eq!(s.index, 1);
}

#[test]
fn segments_in_range() {
    let mut idx = SegmentIndex::new();
    let c = CaseId::from_str_inner("c1");
    idx.append(seg(&c, 0, 0, 4_000_000_000));
    idx.append(seg(&c, 1, 4_000_000_000, 8_000_000_000));
    idx.append(seg(&c, 2, 8_000_000_000, 12_000_000_000));
    // [3s, 9s] overlaps all three (seg2 starts at 8s < 9s)
    let v = idx.segments_in(&c, 3_000_000_000, 9_000_000_000);
    assert_eq!(v.len(), 3);
    // a tighter range [3s, 7s] overlaps only the first two
    let v = idx.segments_in(&c, 3_000_000_000, 7_000_000_000);
    assert_eq!(v.len(), 2);
}

#[test]
fn segment_lookup_ignores_other_cases_and_gaps() {
    let mut idx = SegmentIndex::new();
    let c1 = CaseId::from_str_inner("c1");
    let c2 = CaseId::from_str_inner("c2");
    idx.append(seg(&c1, 0, 0, 10));
    idx.append(seg(&c2, 0, 10, 20));
    assert!(idx.segment_at(&c1, 15).is_none());
    assert!(idx.segment_at(&c1, 10).is_none());
    assert_eq!(idx.segment_at(&c2, 10).unwrap().case_id.as_str(), "c2");
    assert_eq!(idx.segments_in(&c2, 0, 10).len(), 0);
}

#[test]
fn content_hash_is_deterministic() {
    let a = content_hash(b"hello");
    let b = content_hash(b"hello");
    assert_eq!(a, b);
    assert_eq!(a.len(), 64);
    // different content -> different hash
    assert_ne!(a, content_hash(b"world"));
}

#[test]
fn content_hash_of_known_inputs() {
    assert_eq!(
        content_hash(b""),
        "e3b0c44298fc1c149afbf4c8996fb92427ae41e4649b934ca495991b7852b855"
    );
    assert_eq!(
        content_hash(b"hello"),
        "2cf24dba5fb0a30e26e83b2ac5b9e29e1b161e5c1fa7425e73043362938b9824"
    );
}

#[test]
fn hex_encode_pads_each_byte() {
    assert_eq!(hex_encode(&[0x00, 0x0f, 0xa0, 0xff]), "000fa0ff");
    assert_eq!(hex_encode(&[]), "");
}

#[test]
fn blob_lives_under_blobs_dir() {
    let s = FsArtifactStore::new("/store");
    assert_eq!(s.blob_path("abc"), "/store/blobs/abc");
    let t = FsArtifactStore::new("/store/");
    assert_eq!(t.blob_path("abc"), "/store/blobs/abc");
}

fn bc(case: &CaseId, label: &str, ts: i64, kind: BreadcrumbKind) -> TranscriptEntry {
    TranscriptEntry::Breadcrumb(Breadcrumb {
        breadcrumb_id: BreadcrumbId("b1".into()),
        case_id: case.clone(),
        kind,
        label: label.into(),
        timeline_ns: ts,
        detail: None,
    })
}

#[test]
fn range_returns_half_open_slice_in_order() {
    let c = CaseId::from_str_inner("c1");
    let entries = vec![
        bc(&c, "a", 0, BreadcrumbKind::StepBegin),
        TranscriptEntry::Log { case_id: c.clone(), timeline_ns: 5, level: LogLevel::Info, message: "m".into() },
        TranscriptEntry::ToolIo {
            case_id: c.clone(),
            event_id: InputEventId("e".into()),
            timeline_ns: 10,
            summary: "s".into(),
        },
        bc(&c, "d", 3, BreadcrumbKind::StepEnd),
    ];
    let r = TranscriptIndex::range(&entries, 3, 10);
    assert_eq!(r.len(), 2);
    assert_eq!(TranscriptIndex::timeline_ns_of(&r[0]), 5);
    assert_eq!(TranscriptIndex::timeline_ns_of(&r[1]), 3);
}

#[test]
fn transcript_log_layout() {
    let ti = TranscriptIndex::new("/data");
    let c = CaseId::from_str_inner("c1");
    assert_eq!(ti.case_dir(&c), "/data/cases/c1");
    assert_eq!(ti.log_path(&c), "/data/cases/c1/transcript.log");
    let e = bc(&c, "x", 1, BreadcrumbKind::Note);
    assert_eq!(TranscriptIndex::case_of(&e).as_str(), "c1");
}

#[test]
fn render_contains_breadcrumb_labels() {
    let c = CaseId::from_str_inner("c1");
    let html = render_page(&c, &[bc(&c, "repro the crash", 123, BreadcrumbKind::Bug)], &[]);
    assert!(html.contains("repro the crash"));
    assert!(html.contains("case c1"));
    assert!(html.contains("[bug] repro the crash (t=123ns)"));
}

#[test]
fn render_escapes_html() {
    let c = CaseId::from_str_inner("c1");
    let html = render_page(&c, &[bc(&c, "<script>x</script>", 0, BreadcrumbKind::Note)], &[]);
    assert!(!html.contains("<script>x</script>"));
    assert!(html.contains("&lt;script&gt;"));
}

#[test]
fn html_escape_replaces_markup_characters() {
    assert_eq!(html_escape("a<b>&\"c\""), "a&lt;b&gt;&amp;&quot;c&quot;");
    assert_eq!(html_escape("plain"), "plain");
}

#[test]
fn render_lists_clips_and_keeps_only_json_sidecars() {
    let c = CaseId::from_str_inner("c1");
    let names = StubWebReport::clip_names(&["a.json".to_string(), "b.mp4".to_string(), "c.json".to_string()]);
    assert_eq!(names, vec!["a.json".to_string(), "c.json".to_string()]);
    let html = render_page(&c, &[], &names);
    assert!(html.contains("<li><a href=\"clips/a.json\">a.json</a></li>"));
    assert!(!html.contains("b.mp4"));
    let wr = StubWebReport::new("/r", TranscriptIndex::new("/r"));
    assert_eq!(wr.clip_dir(&c), "/r/cases/c1/clips");
}

fn cutter() -> ClipCutter {
    let mut idx = SegmentIndex::new();
    let c = CaseId::from_str_inner("c1");
    let mut s0 = seg(&c, 0, 0, 4_000);
    s0.bytes_hash = "h0".into();
    s0.bytes_len = 10;
    let mut s1 = seg(&c, 1, 4_000, 8_000);
    s1.bytes_hash = "h1".into();
    s1.bytes_len = 20;
    idx.append(s0);
    idx.append(s1);
    ClipCutter::new("/root", idx)
}

#[test]
fn cut_references_overlapping_segments() {
    let cc = cutter();
    let c = CaseId::from_str_inner("c1");
    let res = cc.cut(&c, &ClipId::from_str_inner("clip_1"), 1_000, 5_000, "repro".into()).unwrap();
    assert_eq!(res.source_segments.len(), 2);
    assert_eq!(res.asset.bytes_len, 30);
    assert_eq!(res.asset.bytes_hash, "h0+h1");
    assert_eq!(res.asset.web_url, "/jobs/_/cases/c1/clips/clip_1");
    assert_eq!(res.asset.start_ns, 1_000);
    assert_eq!(res.asset.end_ns, 5_000);
    assert_eq!(
        cc.clip_sidecar_path(&c, &ClipId::from_str_inner("clip_1")),
        "/root/cases/c1/clips/clip_1.json"
    );
}

#[test]
fn cut_errors() {
    let cc = cutter();
    let c = CaseId::from_str_inner("c1");
    let e = cc.cut(&c, &ClipId::from_str_inner("k"), 5, 5, "x".into()).unwrap_err();
    assert_eq!(e.code(), QwanCode::InvalidArg);
    let e = cc.cut(&c, &ClipId::from_str_inner("k"), 9_000, 10_000, "x".into()).unwrap_err();
    assert_eq!(e.code(), QwanCode::NotFound);
    assert_eq!(e.message(), "no video segments cover [9000,10000] for case c1");
}

#[test]
fn stored_clip_is_reused() {
    let cc = cutter();
    let c = CaseId::from_str_inner("c1");
    let stored = cc.cut(&c, &ClipId::from_str_inner("clip_1"), 1_000, 5_000, "first".into()).unwrap().asset;
    let again = cc
        .cut_or_reuse(&c, &ClipId::from_str_inner("clip_1"), 1_000, 2_000, "second".into(), Some(stored))
        .unwrap();
    assert_eq!(again.asset.label, "first");
    assert_eq!(again.asset.end_ns, 5_000);
    assert_eq!(again.source_segments.len(), 1);
    let e = cc.cut_or_reuse(&c, &ClipId::from_str_inner("k"), 2, 1, "x".into(), None).unwrap_err();
    assert_eq!(e.code(), QwanCode::InvalidArg);
}

#[test]
fn reused_clip_survives_a_range_with_no_segments() {
    let cc = cutter();
    let c = CaseId::from_str_inner("c1");
    let first = cc.cut(&c, &ClipId::from_str_inner("clip_2"), 1_000, 5_000, "first".into()).unwrap();
    let again = cc
        .cut_or_reuse(&c, &ClipId::from_str_inner("clip_2"), 9_000, 10_000, "other".into(), Some(first.asset.clone()))
        .unwrap();
    assert_eq!(again.asset.label, first.asset.label);
    assert_eq!(again.asset.start_ns, first.asset.start_ns);
    assert_eq!(again.asset.end_ns, first.asset.end_ns);
    assert_eq!(again.asset.bytes_len, first.asset.bytes_len);
    assert_eq!(again.asset.bytes_hash, first.asset.bytes_hash);
    assert_eq!(again.asset.web_url, first.asset.web_url);
    assert!(again.source_segments.is_empty());
}
