//! Clip cutting: a labelled clip between two timeline points references the
//! segments overlapping that range. No video is remuxed; the asset records
//! the source segments so the player can play the range. Writing and
//! re-reading the clip's sidecar file (which makes cutting idempotent by
//! clip id) is the caller's.

use vstd::prelude::*;
use crate::artifacts::index::{SegmentIndex, overlapping};
use crate::proto::clip::ClipAsset;
use crate::proto::error::{QwanCode, QwanResult, is_error, invalid_arg, not_found};
use crate::proto::id::{CaseId, ClipId};
use crate::proto::timeline::TimelineNs;
use crate::proto::video::VideoSegment;
use crate::text::{owned, push_str, push_i64, dec_int, join_path, path_join};

verus! {

/// A cut clip and the segments it references.
#[derive(Debug, Clone)]
pub struct ClipCutResult {
    pub asset: ClipAsset,
    pub source_segments: Vec<VideoSegment>,
}

/// Cuts clips from the recorded segments; clip sidecars live under `root`.
pub struct ClipCutter {
    root: String,
    segments: SegmentIndex,
}

/// Total byte length of segments.
pub open spec fn total_len(s: Seq<VideoSegment>) -> int
    decreases s.len(),
{
    if s.len() == 0 {
        0
    } else {
        total_len(s.drop_last()) + s.last().bytes_len
    }
}

/// The segments' content hashes joined with `+`.
pub open spec fn joined_hashes(s: Seq<VideoSegment>) -> Seq<char>
    decreases s.len(),
{
    if s.len() == 0 {
        Seq::empty()
    } else if s.len() == 1 {
        s[0].bytes_hash@
    } else {
        joined_hashes(s.drop_last()) + "+"@ + s.last().bytes_hash@
    }
}

/// The web URL of a clip.
pub open spec fn clip_url(case_id: CaseId, clip_id: ClipId) -> Seq<char> {
    "/jobs/_/cases/"@ + case_id.0@ + "/clips/"@ + clip_id.0@
}

/// The message when no segment covers the range.
pub open spec fn uncovered_message(from: TimelineNs, to: TimelineNs, case_id: CaseId) -> Seq<
    char,
> {
    "no video segments cover ["@ + dec_int(from as int) + ","@ + dec_int(to as int)
        + "] for case "@ + case_id.0@
}

impl ClipCutter {
    /// The sidecar root.
    pub closed spec fn root(&self) -> Seq<char> {
        self.root@
    }

    /// The segments clips are cut from.
    pub closed spec fn index(&self) -> SegmentIndex {
        self.segments
    }

    /// A cutter storing sidecars under `root`, cutting from `segments`.
    pub fn new(root: &str, segments: SegmentIndex) -> (r: Self)
        ensures
            r.root() == root@,
            r.index() == segments,
    {
        ClipCutter { root: owned(root), segments }
    }

    /// The index clips are cut from.
    pub fn segments(&self) -> (r: &SegmentIndex)
        ensures
            *r == self.index(),
    {
        &self.segments
    }

    /// The clip's sidecar file: `<root>/cases/<case>/clips/<clip>.json`.
    pub fn clip_sidecar_path(&self, case_id: &CaseId, clip_id: &ClipId) -> (r: String)
        ensures
            r@ == path_join(
                path_join(path_join(path_join(self.root(), "cases"@), case_id.0@), "clips"@),
                clip_id.0@ + ".json"@,
            ),
    {
        let a = join_path(self.root.as_str(), "cases");
        let b = join_path(a.as_str(), case_id.as_str());
        let c = join_path(b.as_str(), "clips");
        let mut name = owned(clip_id.as_str());
        push_str(&mut name, ".json");
        join_path(c.as_str(), name.as_str())
    }

    /// Cut a clip, reusing the asset stored in the clip's sidecar when there
    /// is one (`stored`, as read back by the caller): a bad range is refused
    /// with `InvalidArg` first; a stored asset is returned with the segments
    /// now overlapping the range; otherwise the clip is cut as `cut` does.
    pub fn cut_or_reuse(
        &self,
        case_id: &CaseId,
        clip_id: &ClipId,
        from_ns: TimelineNs,
        to_ns: TimelineNs,
        label: String,
        stored: Option<ClipAsset>,
    ) -> (r: QwanResult<ClipCutResult>)
        requires
            stored is None ==> total_len(overlapping(self.index().segments(), *case_id, from_ns, to_ns))
                <= u64::MAX,
        ensures
            to_ns <= from_ns ==> (r matches Err(e) && is_error(
                e,
                QwanCode::InvalidArg,
                "to_ns must be > from_ns"@,
            )),
            to_ns > from_ns && stored is Some ==> (r matches Ok(res) && res.asset == stored->0
                && res.source_segments@ == overlapping(
                self.index().segments(),
                *case_id,
                from_ns,
                to_ns,
            )),
            to_ns > from_ns && stored is None && overlapping(self.index().segments(), *case_id, from_ns, to_ns).len()
                == 0 ==> (r matches Err(e) && is_error(
                e,
                QwanCode::NotFound,
                uncovered_message(from_ns, to_ns, *case_id),
            )),
            to_ns > from_ns && stored is None && overlapping(self.index().segments(), *case_id, from_ns, to_ns).len()
                > 0 ==> (r matches Ok(res) && {
                let segs = overlapping(self.index().segments(), *case_id, from_ns, to_ns);
                &&& res.source_segments@ == segs
                &&& res.asset.clip_id == *clip_id
                &&& res.asset.case_id == *case_id
                &&& res.asset.label == label
                &&& res.asset.start_ns == from_ns
                &&& res.asset.end_ns == to_ns
                &&& res.asset.bytes_len == total_len(segs)
                &&& res.asset.bytes_hash@ == joined_hashes(segs)
                &&& res.asset.web_url@ == clip_url(*case_id, *clip_id)
            }),
    {
        if to_ns <= from_ns {
            return Err(invalid_arg("to_ns must be > from_ns"));
        }
        match stored {
            Some(asset) => {
                let source_segments = self.segments.segments_in(case_id, from_ns, to_ns);
                Ok(ClipCutResult { asset, source_segments })
            },
            None => self.cut(case_id, clip_id, from_ns, to_ns, label),
        }
    }

    /// Cut a clip over `[from_ns, to_ns]`: refused with `InvalidArg` unless
    /// `to_ns > from_ns`, with `NotFound` when no segment of the case
    /// overlaps the range; otherwise the asset sums the overlapping segments'
    /// lengths, joins their hashes with `+` and links the clip's web page.
    pub fn cut(
        &self,
        case_id: &CaseId,
        clip_id: &ClipId,
        from_ns: TimelineNs,
        to_ns: TimelineNs,
        label: String,
    ) -> (r: QwanResult<ClipCutResult>)
        requires
            total_len(overlapping(self.index().segments(), *case_id, from_ns, to_ns))
                <= u64::MAX,
        ensures
            to_ns <= from_ns ==> (r matches Err(e) && is_error(
                e,
                QwanCode::InvalidArg,
                "to_ns must be > from_ns"@,
            )),
            to_ns > from_ns && overlapping(self.index().segments(), *case_id, from_ns, to_ns).len()
                == 0 ==> (r matches Err(e) && is_error(
                e,
                QwanCode::NotFound,
                uncovered_message(from_ns, to_ns, *case_id),
            )),
            to_ns > from_ns && overlapping(self.index().segments(), *case_id, from_ns, to_ns).len()
                > 0 ==> (r matches Ok(res) && {
                let segs = overlapping(self.index().segments(), *case_id, from_ns, to_ns);
                &&& res.source_segments@ == segs
                &&& res.asset.clip_id == *clip_id
                &&& res.asset.case_id == *case_id
                &&& res.asset.label == label
                &&& res.asset.start_ns == from_ns
                &&& res.asset.end_ns == to_ns
                &&& res.asset.bytes_len == total_len(segs)
                &&& res.asset.bytes_hash@ == joined_hashes(segs)
                &&& res.asset.web_url@ == clip_url(*case_id, *clip_id)
            }),
    {
        if to_ns <= from_ns {
            return Err(invalid_arg("to_ns must be > from_ns"));
        }
        let source_segments = self.segments.segments_in(case_id, from_ns, to_ns);
        if source_segments.len() == 0 {
            let mut m = owned("no video segments cover [");
            push_i64(&mut m, from_ns);
            push_str(&mut m, ",");
            push_i64(&mut m, to_ns);
            push_str(&mut m, "] for case ");
            push_str(&mut m, case_id.as_str());
            return Err(not_found(m.as_str()));
        }
        let ghost segs = source_segments@;
        let mut bytes_len: u64 = 0;
        let mut bytes_hash = String::new();
        let mut i: usize = 0;
        assert(segs.take(0) =~= Seq::<VideoSegment>::empty());
        while i < source_segments.len()
            invariant
                segs == source_segments@,
                total_len(segs) <= u64::MAX,
                i <= segs.len(),
                bytes_len == total_len(segs.take(i as int)),
                bytes_hash@ == joined_hashes(segs.take(i as int)),
            decreases source_segments.len() - i,
        {
            let s = &source_segments[i];
            let ghost t = segs.take(i + 1);
            assert(t.drop_last() =~= segs.take(i as int));
            assert(t.last() == segs[i as int]);
            proof {
                lemma_total_prefix(segs, i as int + 1);
            }
            bytes_len = bytes_len + s.bytes_len;
            if i > 0 {
                push_str(&mut bytes_hash, "+");
            } else {
                assert(t.len() == 1 && t[0] == s);
            }
            push_str(&mut bytes_hash, s.bytes_hash.as_str());
            i = i + 1;
        }
        assert(segs.take(segs.len() as int) =~= segs);
        let mut web_url = owned("/jobs/_/cases/");
        push_str(&mut web_url, case_id.as_str());
        push_str(&mut web_url, "/clips/");
        push_str(&mut web_url, clip_id.as_str());
        let asset = ClipAsset {
            clip_id: clip_id.duplicate(),
            case_id: case_id.duplicate(),
            label,
            start_ns: from_ns,
            end_ns: to_ns,
            bytes_hash,
            bytes_len,
            web_url,
        };
        Ok(ClipCutResult { asset, source_segments })
    }
}

/// A prefix of segments is no longer than all of them.
proof fn lemma_total_prefix(s: Seq<VideoSegment>, n: int)
    requires
        0 <= n <= s.len(),
    ensures
        total_len(s.take(n)) <= total_len(s),
    decreases s.len() - n,
{
    if n < s.len() {
        lemma_total_prefix(s, n + 1);
        assert(s.take(n + 1).drop_last() =~= s.take(n));
    } else {
        assert(s.take(n) =~= s);
    }
}

} // verus!
