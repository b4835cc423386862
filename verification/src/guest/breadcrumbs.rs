//! The breadcrumb table: assigns ids `bc_0`, `bc_1`, ... in emission order,
//! stamps each breadcrumb from the case timeline, and remembers
//! `{breadcrumb id -> timeline_ns}` for clip resolution.

use vstd::prelude::*;
use crate::proto::clip::ClipAsset;
use crate::proto::error::QwanResult;
use crate::proto::id::{BreadcrumbId, CaseId, ClipId};
use crate::proto::timeline::{Timeline, TimelineNs};
use crate::proto::transcript::{Breadcrumb, BreadcrumbIn};
use crate::text::{dec, owned, push_u64, str_eq};

verus! {

/// The id given to the `n`-th breadcrumb of a table (counting from 0).
pub open spec fn breadcrumb_id_text(n: nat) -> Seq<char> {
    "bc_"@ + dec(n)
}

/// The timeline point recorded last for `id` in `table` (later entries win).
pub open spec fn latest(table: Seq<(Seq<char>, TimelineNs)>, id: Seq<char>) -> Option<TimelineNs>
    decreases table.len(),
{
    if table.len() == 0 {
        None
    } else if table.last().0 == id {
        Some(table.last().1)
    } else {
        latest(table.drop_last(), id)
    }
}

/// In-memory breadcrumb bookkeeping for one case.
pub struct BreadcrumbTable {
    case_id: CaseId,
    timeline: Timeline,
    next: u64,
    table: Vec<(BreadcrumbId, TimelineNs)>,
}

impl BreadcrumbTable {
    /// The case the table belongs to.
    pub closed spec fn case(&self) -> CaseId {
        self.case_id
    }

    /// How many breadcrumbs have been emitted (the number in the next id).
    pub closed spec fn next_index(&self) -> nat {
        self.next as nat
    }

    /// The recorded `(id, timeline_ns)` pairs in emission order.
    pub closed spec fn entries(&self) -> Seq<(Seq<char>, TimelineNs)> {
        self.table@.map_values(|e: (BreadcrumbId, TimelineNs)| (e.0.0@, e.1))
    }

    /// An empty table for `case_id`, its timeline started now.
    pub fn new(case_id: CaseId) -> (r: Self)
        ensures
            r.case() == case_id,
            r.next_index() == 0,
            r.entries() == Seq::<(Seq<char>, TimelineNs)>::empty(),
    {
        let r = BreadcrumbTable { case_id, timeline: Timeline::start(), next: 0, table: Vec::new() };
        assert(r.entries() =~= Seq::<(Seq<char>, TimelineNs)>::empty());
        r
    }

    /// How many breadcrumbs have been emitted.
    pub fn emitted(&self) -> (r: u64)
        ensures
            r == self.next_index(),
    {
        self.next
    }

    /// Emit a breadcrumb: it gets the next id and the current timeline
    /// point, which is also recorded for the id. The timeline point is
    /// whatever the clock reads.
    pub fn emit(&mut self, b: BreadcrumbIn) -> (r: QwanResult<Breadcrumb>)
        requires
            old(self).next_index() < u64::MAX,
        ensures
            r is Ok,
            r->Ok_0.breadcrumb_id.0@ == breadcrumb_id_text(old(self).next_index()),
            r->Ok_0.case_id == old(self).case(),
            r->Ok_0.kind == b.kind,
            r->Ok_0.label == b.label,
            r->Ok_0.detail == b.detail,
            final(self).case() == old(self).case(),
            final(self).next_index() == old(self).next_index() + 1,
            final(self).entries() == old(self).entries().push(
                (r->Ok_0.breadcrumb_id.0@, r->Ok_0.timeline_ns),
            ),
    {
        let mut text = owned("bc_");
        push_u64(&mut text, self.next);
        proof {
            reveal_strlit("bc_");
        }
        let id = BreadcrumbId(text);
        self.next = self.next + 1;
        let ts = self.timeline.now();
        let ghost before = self.table@;
        self.table.push((id.duplicate(), ts));
        assert(self.entries() =~= old(self).entries().push((id.0@, ts)));
        Ok(Breadcrumb {
            breadcrumb_id: id,
            case_id: self.case_id.duplicate(),
            kind: b.kind,
            label: b.label,
            timeline_ns: ts,
            detail: b.detail,
        })
    }

    /// The timeline point recorded for `id`, if it was emitted here.
    pub fn resolve(&self, id: &BreadcrumbId) -> (r: Option<TimelineNs>)
        ensures
            r == latest(self.entries(), id.0@),
    {
        let mut i: usize = self.table.len();
        assert(self.entries().subrange(0, i as int) =~= self.entries());
        while i > 0
            invariant
                i <= self.table@.len(),
                latest(self.entries(), id.0@) == latest(self.entries().subrange(0, i as int), id.0@),
            decreases i,
        {
            let ghost pre = self.entries().subrange(0, i as int);
            assert(pre.drop_last() =~= self.entries().subrange(0, i - 1));
            if str_eq(self.table[i - 1].0.as_str(), id.as_str()) {
                return Some(self.table[i - 1].1);
            }
            i = i - 1;
        }
        None
    }

    /// A clip of this case between two timeline points, under `clip_id`.
    /// The asset is a placeholder: no bytes are cut here.
    pub fn make_clip(&self, clip_id: ClipId, from_ts: TimelineNs, to_ts: TimelineNs, label: String)
        -> (r: QwanResult<ClipAsset>)
        ensures
            r is Ok,
            r->Ok_0.clip_id == clip_id,
            r->Ok_0.case_id == self.case(),
            r->Ok_0.label == label,
            r->Ok_0.start_ns == from_ts,
            r->Ok_0.end_ns == to_ts,
            r->Ok_0.bytes_hash@ == "todo"@,
            r->Ok_0.bytes_len == 0,
            r->Ok_0.web_url@ == "todo"@,
    {
        Ok(ClipAsset {
            clip_id,
            case_id: self.case_id.duplicate(),
            label,
            start_ns: from_ts,
            end_ns: to_ts,
            bytes_hash: owned("todo"),
            bytes_len: 0,
            web_url: owned("todo"),
        })
    }
}

/// A breadcrumb just emitted resolves to the timeline point it was stamped
/// with.
pub proof fn lemma_emit_then_resolve(
    table: Seq<(Seq<char>, TimelineNs)>,
    id: Seq<char>,
    ts: TimelineNs,
)
    ensures
        latest(table.push((id, ts)), id) == Some(ts),
{
    assert(table.push((id, ts)).last() == (id, ts));
}

/// Emitting a breadcrumb does not change what other ids resolve to.
pub proof fn lemma_emit_keeps_others(
    table: Seq<(Seq<char>, TimelineNs)>,
    id: Seq<char>,
    ts: TimelineNs,
    other: Seq<char>,
)
    requires
        other != id,
    ensures
        latest(table.push((id, ts)), other) == latest(table, other),
{
    assert(table.push((id, ts)).drop_last() =~= table);
}

} // verus!
