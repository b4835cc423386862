//! Segment index: maps timeline ranges to stored video segments, so a
//! breadcrumb (timeline point) resolves to the segments covering it for
//! playback and clip cutting. Segments are kept in arrival order; each
//! case's segments are those of its id, in that order.

use vstd::prelude::*;
use crate::proto::id::CaseId;
use crate::proto::timeline::TimelineNs;
use crate::proto::video::VideoSegment;
use crate::text::str_eq;

verus! {

/// The segment index.
#[derive(Debug, Default)]
pub struct SegmentIndex {
    segments: Vec<VideoSegment>,
}

/// Segment `s` belongs to case `c`.
pub open spec fn of_case(s: VideoSegment, c: CaseId) -> bool {
    s.case_id.0@ == c.0@
}

/// Segment `s` covers timeline point `t` (`[start, end)`).
pub open spec fn covers(s: VideoSegment, t: TimelineNs) -> bool {
    s.start_ns <= t && t < s.end_ns
}

/// Segment `s` overlaps the range `[from, to]`.
pub open spec fn overlaps(s: VideoSegment, from: TimelineNs, to: TimelineNs) -> bool {
    s.start_ns < to && s.end_ns > from
}

/// The segments of case `c` in `s` that overlap `[from, to]`, in order.
pub open spec fn overlapping(s: Seq<VideoSegment>, c: CaseId, from: TimelineNs, to: TimelineNs) -> Seq<
    VideoSegment,
>
    decreases s.len(),
{
    if s.len() == 0 {
        s
    } else {
        let rest = overlapping(s.drop_last(), c, from, to);
        if of_case(s.last(), c) && overlaps(s.last(), from, to) {
            rest.push(s.last())
        } else {
            rest
        }
    }
}

/// A copy of a video segment.
pub fn copy_segment(s: &VideoSegment) -> (r: VideoSegment)
    ensures
        r == *s,
{
    VideoSegment {
        segment_id: s.segment_id.duplicate(),
        case_id: s.case_id.duplicate(),
        index: s.index,
        start_ns: s.start_ns,
        end_ns: s.end_ns,
        codec: s.codec,
        width: s.width,
        height: s.height,
        fps_bits: s.fps_bits,
        bytes_hash: s.bytes_hash.clone(),
        bytes_len: s.bytes_len,
    }
}

impl SegmentIndex {
    /// All segments, in arrival order.
    pub closed spec fn segments(&self) -> Seq<VideoSegment> {
        self.segments@
    }

    /// An empty index.
    pub fn new() -> (r: Self)
        ensures
            r.segments() == Seq::<VideoSegment>::empty(),
    {
        SegmentIndex { segments: Vec::new() }
    }

    /// Record a segment.
    pub fn append(&mut self, seg: VideoSegment)
        ensures
            final(self).segments() == old(self).segments().push(seg),
    {
        self.segments.push(seg);
    }

    /// The first segment of the case (in arrival order) covering `timeline_ns`.
    pub fn segment_at(&self, case_id: &CaseId, timeline_ns: TimelineNs) -> (r: Option<VideoSegment>)
        ensures
            match r {
                Some(s) => exists|i: int|
                    0 <= i < self.segments().len() && s == self.segments()[i] && of_case(s, *case_id)
                        && covers(s, timeline_ns) && forall|j: int|
                        0 <= j < i ==> !(of_case(#[trigger] self.segments()[j], *case_id) && covers(
                            self.segments()[j],
                            timeline_ns,
                        )),
                None => forall|j: int|
                    0 <= j < self.segments().len() ==> !(of_case(
                        #[trigger] self.segments()[j],
                        *case_id,
                    ) && covers(self.segments()[j], timeline_ns)),
            },
    {
        let mut i: usize = 0;
        while i < self.segments.len()
            invariant
                i <= self.segments@.len(),
                forall|j: int|
                    0 <= j < i ==> !(of_case(#[trigger] self.segments@[j], *case_id) && covers(
                        self.segments@[j],
                        timeline_ns,
                    )),
            decreases self.segments.len() - i,
        {
            let s = &self.segments[i];
            if str_eq(s.case_id.as_str(), case_id.as_str()) && timeline_ns >= s.start_ns
                && timeline_ns < s.end_ns {
                let c = copy_segment(s);
                assert(c == self.segments@[i as int]);
                assert(of_case(c, *case_id) && covers(c, timeline_ns));
                assert(forall|j: int|
                    0 <= j < i ==> !(of_case(#[trigger] self.segments()[j], *case_id) && covers(
                        self.segments()[j],
                        timeline_ns,
                    )));
                assert(0 <= i < self.segments().len() && c == self.segments()[i as int]);
                return Some(c);
            }
            i = i + 1;
        }
        None
    }

    /// The segments of the case overlapping `[from, to]`, in arrival order.
    pub fn segments_in(&self, case_id: &CaseId, from: TimelineNs, to: TimelineNs) -> (r: Vec<
        VideoSegment,
    >)
        ensures
            r@ == overlapping(self.segments(), *case_id, from, to),
    {
        let ghost all = self.segments@;
        let mut out: Vec<VideoSegment> = Vec::new();
        let mut i: usize = 0;
        assert(all.take(0) =~= Seq::<VideoSegment>::empty());
        while i < self.segments.len()
            invariant
                all == self.segments@,
                i <= all.len(),
                out@ == overlapping(all.take(i as int), *case_id, from, to),
            decreases self.segments.len() - i,
        {
            let s = &self.segments[i];
            let ghost t = all.take(i + 1);
            assert(t.drop_last() =~= all.take(i as int));
            assert(t.last() == all[i as int]);
            if str_eq(s.case_id.as_str(), case_id.as_str()) && s.start_ns < to && s.end_ns > from {
                out.push(copy_segment(s));
            }
            i = i + 1;
        }
        assert(all.take(all.len() as int) =~= all);
        out
    }
}

} // verus!
