//! The per-case transcript log layout and its timeline-range query. Each
//! case's log is `<root>/cases/<case>/transcript.log`, one serialized entry
//! per line; reading and appending the file is the caller's.

use vstd::prelude::*;
use crate::proto::id::CaseId;
use crate::proto::timeline::TimelineNs;
use crate::proto::transcript::{Breadcrumb, TranscriptEntry};
use crate::text::{copy_opt, owned, join_path, path_join};

verus! {

/// The transcript log store rooted at `root`.
pub struct TranscriptIndex {
    root: String,
}

/// The timeline point of an entry.
pub open spec fn entry_time(e: TranscriptEntry) -> TimelineNs {
    match e {
        TranscriptEntry::Breadcrumb(b) => b.timeline_ns,
        TranscriptEntry::ToolIo { timeline_ns, .. } => timeline_ns,
        TranscriptEntry::Log { timeline_ns, .. } => timeline_ns,
    }
}

/// The case an entry belongs to.
pub open spec fn entry_case(e: TranscriptEntry) -> CaseId {
    match e {
        TranscriptEntry::Breadcrumb(b) => b.case_id,
        TranscriptEntry::ToolIo { case_id, .. } => case_id,
        TranscriptEntry::Log { case_id, .. } => case_id,
    }
}

/// The entries of `s` whose timeline point lies in `[from, to)`, in order.
pub open spec fn in_range(s: Seq<TranscriptEntry>, from: TimelineNs, to: TimelineNs) -> Seq<
    TranscriptEntry,
>
    decreases s.len(),
{
    if s.len() == 0 {
        s
    } else {
        let rest = in_range(s.drop_last(), from, to);
        let t = entry_time(s.last());
        if from <= t && t < to {
            rest.push(s.last())
        } else {
            rest
        }
    }
}

/// A copy of a transcript entry.
pub fn copy_entry(e: &TranscriptEntry) -> (r: TranscriptEntry)
    ensures
        r == *e,
{
    match e {
        TranscriptEntry::Breadcrumb(b) => TranscriptEntry::Breadcrumb(Breadcrumb {
            breadcrumb_id: b.breadcrumb_id.duplicate(),
            case_id: b.case_id.duplicate(),
            kind: b.kind,
            label: b.label.clone(),
            timeline_ns: b.timeline_ns,
            detail: copy_opt(&b.detail),
        }),
        TranscriptEntry::ToolIo { case_id, event_id, timeline_ns, summary } => TranscriptEntry::ToolIo {
            case_id: case_id.duplicate(),
            event_id: event_id.duplicate(),
            timeline_ns: *timeline_ns,
            summary: summary.clone(),
        },
        TranscriptEntry::Log { case_id, timeline_ns, level, message } => TranscriptEntry::Log {
            case_id: case_id.duplicate(),
            timeline_ns: *timeline_ns,
            level: *level,
            message: message.clone(),
        },
    }
}

impl TranscriptIndex {
    /// The store's root directory.
    pub closed spec fn root(&self) -> Seq<char> {
        self.root@
    }

    /// A transcript store rooted at `root`.
    pub fn new(root: &str) -> (r: Self)
        ensures
            r.root() == root@,
    {
        TranscriptIndex { root: owned(root) }
    }

    /// The case's directory: `<root>/cases/<case>`.
    pub fn case_dir(&self, case_id: &CaseId) -> (r: String)
        ensures
            r@ == path_join(path_join(self.root(), "cases"@), case_id.0@),
    {
        let cases = join_path(self.root.as_str(), "cases");
        join_path(cases.as_str(), case_id.as_str())
    }

    /// The case's log file: `<root>/cases/<case>/transcript.log`.
    pub fn log_path(&self, case_id: &CaseId) -> (r: String)
        ensures
            r@ == path_join(
                path_join(path_join(self.root(), "cases"@), case_id.0@),
                "transcript.log"@,
            ),
    {
        let dir = self.case_dir(case_id);
        join_path(dir.as_str(), "transcript.log")
    }

    /// The timeline point of an entry.
    pub fn timeline_ns_of(e: &TranscriptEntry) -> (r: TimelineNs)
        ensures
            r == entry_time(*e),
    {
        match e {
            TranscriptEntry::Breadcrumb(b) => b.timeline_ns,
            TranscriptEntry::ToolIo { timeline_ns, .. } => *timeline_ns,
            TranscriptEntry::Log { timeline_ns, .. } => *timeline_ns,
        }
    }

    /// The case an entry belongs to (whose log it is appended to).
    pub fn case_of(e: &TranscriptEntry) -> (r: &CaseId)
        ensures
            *r == entry_case(*e),
    {
        match e {
            TranscriptEntry::Breadcrumb(b) => &b.case_id,
            TranscriptEntry::ToolIo { case_id, .. } => case_id,
            TranscriptEntry::Log { case_id, .. } => case_id,
        }
    }

    /// The entries, from a case's log read in order, whose timeline point
    /// lies in `[from, to)`.
    pub fn range(entries: &[TranscriptEntry], from: TimelineNs, to: TimelineNs) -> (r: Vec<
        TranscriptEntry,
    >)
        ensures
            r@ == in_range(entries@, from, to),
    {
        let mut out: Vec<TranscriptEntry> = Vec::new();
        let mut i: usize = 0;
        assert(entries@.take(0) =~= Seq::<TranscriptEntry>::empty());
        while i < entries.len()
            invariant
                i <= entries@.len(),
                out@ == in_range(entries@.take(i as int), from, to),
            decreases entries.len() - i,
        {
            let e = &entries[i];
            let ghost t = entries@.take(i + 1);
            assert(t.drop_last() =~= entries@.take(i as int));
            assert(t.last() == entries@[i as int]);
            let ts = Self::timeline_ns_of(e);
            if from <= ts && ts < to {
                out.push(copy_entry(e));
            }
            i = i + 1;
        }
        assert(entries@.take(entries@.len() as int) =~= entries@);
        out
    }
}

} // verus!
