//! Case registry: the open cases and their case tokens (the auth binding).
//! Each case id occurs at most once; the registry reads as a finite map from
//! case id to (token, status).

use vstd::prelude::*;
use crate::proto::broker::CaseStatus;
use crate::proto::error::{is_error, not_found, QwanCode, QwanError, QwanResult};
use crate::proto::id::CaseId;
use crate::text::{owned, push_str, str_eq};

verus! {

/// One open case.
#[derive(Debug, Clone)]
pub struct CaseRecord {
    pub case_id: CaseId,
    pub case_token: String,
    pub status: CaseStatus,
}

/// The ids of a sequence of records, in order.
pub open spec fn ids_of(s: Seq<CaseRecord>) -> Seq<Seq<char>> {
    s.map_values(|r: CaseRecord| r.case_id.0@)
}

/// What the registry knows of one case: its token and its status.
pub open spec fn entry_of(r: CaseRecord) -> (Seq<char>, CaseStatus) {
    (r.case_token@, r.status)
}

/// The map a sequence of records with distinct ids stands for.
pub open spec fn map_of(s: Seq<CaseRecord>) -> Map<Seq<char>, (Seq<char>, CaseStatus)> {
    Map::new(
        |k: Seq<char>| ids_of(s).contains(k),
        |k: Seq<char>| entry_of(s[ids_of(s).index_of(k)]),
    )
}

/// The message of the error for a case id the registry does not hold.
pub open spec fn unknown_case_message(id: Seq<char>) -> Seq<char> {
    "unknown case "@ + id
}

/// The message of the error for a token that does not match.
pub open spec fn bad_token_message() -> Seq<char> {
    "bad case_token"@
}

/// Open cases keyed by case id.
pub struct CaseRegistry {
    cases: Vec<CaseRecord>,
}

proof fn lemma_index_of_unique(s: Seq<Seq<char>>, i: int)
    requires
        s.no_duplicates(),
        0 <= i < s.len(),
    ensures
        s.index_of(s[i]) == i,
{
    let j = s.index_of(s[i]);
    assert(s.contains(s[i]));
    assert(s[j] == s[i]);
}

impl CaseRegistry {
    /// The registry as a map from case id to (token, status).
    pub closed spec fn view(&self) -> Map<Seq<char>, (Seq<char>, CaseStatus)> {
        map_of(self.cases@)
    }

    /// No case id occurs twice.
    #[verifier::type_invariant]
    spec fn wf(&self) -> bool {
        ids_of(self.cases@).no_duplicates()
    }

    /// An empty registry.
    pub fn new() -> (r: Self)
        ensures
            r@ == Map::<Seq<char>, (Seq<char>, CaseStatus)>::empty(),
    {
        let r = CaseRegistry { cases: Vec::new() };
        assert(r@ =~= Map::<Seq<char>, (Seq<char>, CaseStatus)>::empty());
        r
    }

    /// The position of the record for `id`, if there is one.
    fn position(&self, id: &CaseId) -> (r: Option<usize>)
        ensures
            match r {
                Some(i) => i < self.cases@.len() && self.cases@[i as int].case_id.0@ == id.0@
                    && ids_of(self.cases@).index_of(id.0@) == i && self@.dom().contains(id.0@)
                    && self@[id.0@] == entry_of(self.cases@[i as int]),
                None => !self@.dom().contains(id.0@),
            },
    {
        proof {
            use_type_invariant(self);
        }
        let mut i: usize = 0;
        while i < self.cases.len()
            invariant
                i <= self.cases@.len(),
                self.wf(),
                forall|j: int| 0 <= j < i ==> self.cases@[j].case_id.0@ != id.0@,
            decreases self.cases.len() - i,
        {
            if str_eq(self.cases[i].case_id.as_str(), id.as_str()) {
                proof {
                    lemma_index_of_unique(ids_of(self.cases@), i as int);
                    assert(ids_of(self.cases@)[i as int] == id.0@);
                }
                return Some(i);
            }
            i = i + 1;
        }
        proof {
            if ids_of(self.cases@).contains(id.0@) {
                let j = choose|j: int| 0 <= j < ids_of(self.cases@).len() && ids_of(self.cases@)[j] == id.0@;
                assert(self.cases@[j].case_id.0@ == id.0@);
            }
        }
        None
    }

    /// Open (or re-open) `case_id` under `case_token`, with status `Booting`.
    pub fn open(&mut self, case_id: CaseId, case_token: String)
        ensures
            final(self)@ == old(self)@.insert(case_id.0@, (case_token@, CaseStatus::Booting)),
    {
        proof {
            use_type_invariant(&*self);
        }
        let rec = CaseRecord { case_id, case_token, status: CaseStatus::Booting };
        let ghost g = rec;
        let pos = self.position(&rec.case_id);
        let mut cases: Vec<CaseRecord> = Vec::new();
        std::mem::swap(&mut cases, &mut self.cases);
        let ghost before = cases@;
        match pos {
            Some(i) => {
                cases.set(i, rec);
                proof {
                    lemma_map_update(before, i as int, g);
                }
            },
            None => {
                cases.push(rec);
                proof {
                    lemma_map_push(before, g);
                }
            },
        }
        self.cases = cases;
    }
}

impl CaseRegistry {
    /// Check that `case_token` is the token `case_id` was opened under:
    /// `NotFound` for a case the registry does not hold, `Unauthenticated`
    /// for a token that does not match.
    pub fn verify(&self, case_id: &CaseId, case_token: &str) -> (r: QwanResult<()>)
        ensures
            !self@.dom().contains(case_id.0@) ==> r is Err && is_error(
                r->Err_0,
                QwanCode::NotFound,
                unknown_case_message(case_id.0@),
            ),
            self@.dom().contains(case_id.0@) && self@[case_id.0@].0 != case_token@ ==> r is Err
                && is_error(r->Err_0, QwanCode::Unauthenticated, bad_token_message()),
            self@.dom().contains(case_id.0@) && self@[case_id.0@].0 == case_token@ ==> r is Ok,
    {
        match self.position(case_id) {
            None => {
                let mut msg = owned("unknown case ");
                push_str(&mut msg, case_id.as_str());
                proof {
                    reveal_strlit("unknown case ");
                }
                Err(not_found(msg.as_str()))
            },
            Some(i) => {
                if !str_eq(self.cases[i].case_token.as_str(), case_token) {
                    return Err(QwanError::new(QwanCode::Unauthenticated, "bad case_token"));
                }
                Ok(())
            },
        }
    }

    /// Record `status` for `case_id`; a case the registry does not hold is
    /// left alone.
    pub fn set_status(&mut self, case_id: &CaseId, status: CaseStatus)
        ensures
            old(self)@.dom().contains(case_id.0@) ==> final(self)@ == old(self)@.insert(
                case_id.0@,
                (old(self)@[case_id.0@].0, status),
            ),
            !old(self)@.dom().contains(case_id.0@) ==> final(self)@ == old(self)@,
    {
        proof {
            use_type_invariant(&*self);
        }
        if let Some(i) = self.position(case_id) {
            let old_rec = &self.cases[i];
            let rec = CaseRecord {
                case_id: old_rec.case_id.duplicate(),
                case_token: old_rec.case_token.clone(),
                status,
            };
            let ghost g = rec;
            let mut cases: Vec<CaseRecord> = Vec::new();
            std::mem::swap(&mut cases, &mut self.cases);
            let ghost before = cases@;
            cases.set(i, rec);
            proof {
                lemma_map_update(before, i as int, g);
            }
            self.cases = cases;
        }
    }

    /// Forget `case_id`.
    pub fn close(&mut self, case_id: &CaseId)
        ensures
            final(self)@ == old(self)@.remove(case_id.0@),
    {
        proof {
            use_type_invariant(&*self);
        }
        match self.position(case_id) {
            Some(i) => {
                let mut cases: Vec<CaseRecord> = Vec::new();
                std::mem::swap(&mut cases, &mut self.cases);
                let ghost before = cases@;
                cases.remove(i);
                proof {
                    lemma_map_remove(before, i as int);
                }
                self.cases = cases;
            },
            None => {
                assert(self@ =~= self@.remove(case_id.0@));
            },
        }
    }

    /// How many cases are open (truncated to 32 bits).
    pub fn live_count(&self) -> (r: u32)
        ensures
            r == self@.dom().len() as u32,
    {
        proof {
            use_type_invariant(self);
            ids_of(self.cases@).unique_seq_to_set();
            assert(self@.dom() =~= ids_of(self.cases@).to_set());
        }
        self.cases.len() as u32
    }
}

impl Default for CaseRegistry {
    fn default() -> (r: Self)
        ensures
            r@ == Map::<Seq<char>, (Seq<char>, CaseStatus)>::empty(),
    {
        Self::new()
    }
}

/// A case opened under a token verifies with exactly that token (any other
/// token is refused as unauthenticated) and is unknown again once closed.
pub proof fn lemma_open_verify_close(
    reg: Map<Seq<char>, (Seq<char>, CaseStatus)>,
    id: Seq<char>,
    token: Seq<char>,
    other: Seq<char>,
)
    requires
        other != token,
    ensures
        reg.insert(id, (token, CaseStatus::Booting)).dom().contains(id),
        reg.insert(id, (token, CaseStatus::Booting))[id].0 == token,
        reg.insert(id, (token, CaseStatus::Booting))[id].0 != other,
        !reg.insert(id, (token, CaseStatus::Booting)).remove(id).dom().contains(id),
{
}

/// Recording a status never changes which cases are open nor their tokens.
pub proof fn lemma_status_keeps_tokens(
    reg: Map<Seq<char>, (Seq<char>, CaseStatus)>,
    id: Seq<char>,
    status: CaseStatus,
)
    requires
        reg.dom().contains(id),
    ensures
        reg.insert(id, (reg[id].0, status)).dom() == reg.dom(),
        forall|k: Seq<char>| #[trigger] reg.dom().contains(k) ==> reg.insert(
            id,
            (reg[id].0, status),
        )[k].0 == reg[k].0,
{
    assert(reg.insert(id, (reg[id].0, status)).dom() =~= reg.dom());
}

/// Opening a case that is not open yet adds one to the live count; closing
/// an open case takes one away.
pub proof fn lemma_live_count_open_close(
    reg: Map<Seq<char>, (Seq<char>, CaseStatus)>,
    id: Seq<char>,
    token: Seq<char>,
)
    requires
        reg.dom().finite(),
    ensures
        !reg.dom().contains(id) ==> reg.insert(id, (token, CaseStatus::Booting)).dom().len()
            == reg.dom().len() + 1,
        reg.dom().contains(id) ==> reg.remove(id).dom().len() == reg.dom().len() - 1,
{
}

/// Replacing the record at `i` by one with the same id replaces that id's
/// entry in the map.
proof fn lemma_map_update(before: Seq<CaseRecord>, i: int, r: CaseRecord)
    requires
        ids_of(before).no_duplicates(),
        0 <= i < before.len(),
        r.case_id.0@ == before[i].case_id.0@,
    ensures
        ids_of(before.update(i, r)).no_duplicates(),
        map_of(before.update(i, r)) == map_of(before).insert(r.case_id.0@, entry_of(r)),
{
    let s = before.update(i, r);
    assert(ids_of(s) =~= ids_of(before));
    assert(ids_of(before)[i] == r.case_id.0@);
    let m = map_of(before).insert(r.case_id.0@, entry_of(r));
    assert forall|k: Seq<char>| #[trigger] map_of(s).dom().contains(k) implies map_of(s)[k]
        == m[k] by {
        let j = ids_of(s).index_of(k);
        assert(0 <= j < s.len() && ids_of(s)[j] == k);
        if k == r.case_id.0@ {
            lemma_index_of_unique(ids_of(s), i);
        } else {
            assert(j != i);
            assert(s[j] == before[j]);
        }
    }
    assert(map_of(s) =~= m);
}

/// Appending a record whose id is new adds that id to the map.
proof fn lemma_map_push(before: Seq<CaseRecord>, r: CaseRecord)
    requires
        ids_of(before).no_duplicates(),
        !ids_of(before).contains(r.case_id.0@),
    ensures
        ids_of(before.push(r)).no_duplicates(),
        map_of(before.push(r)) == map_of(before).insert(r.case_id.0@, entry_of(r)),
{
    let s = before.push(r);
    let n = before.len() as int;
    assert(ids_of(s) =~= ids_of(before).push(r.case_id.0@));
    assert forall|a: int, b: int|
        0 <= a < ids_of(s).len() && 0 <= b < ids_of(s).len() && a != b implies ids_of(s)[a]
        != ids_of(s)[b] by {
        if b == n {
            assert(ids_of(before)[a] == ids_of(s)[a]);
        } else if a == n {
            assert(ids_of(before)[b] == ids_of(s)[b]);
        }
    }
    let m = map_of(before).insert(r.case_id.0@, entry_of(r));
    assert forall|k: Seq<char>| #[trigger] map_of(s).dom().contains(k) implies map_of(s)[k]
        == m[k] by {
        let j = ids_of(s).index_of(k);
        assert(0 <= j < s.len() && ids_of(s)[j] == k);
        if j == n {
        } else {
            assert(ids_of(before)[j] == k);
            let j2 = ids_of(before).index_of(k);
            assert(0 <= j2 < before.len() && ids_of(before)[j2] == k);
            assert(j2 == j);
        }
    }
    assert forall|k: Seq<char>| #[trigger] m.dom().contains(k) implies map_of(s).dom().contains(
        k,
    ) by {
        if k != r.case_id.0@ {
            let j = ids_of(before).index_of(k);
            assert(ids_of(s)[j] == k);
        } else {
            assert(ids_of(s)[n] == k);
        }
    }
    assert(map_of(s) =~= m);
}

/// Removing the record at `i` removes its id from the map.
proof fn lemma_map_remove(before: Seq<CaseRecord>, i: int)
    requires
        ids_of(before).no_duplicates(),
        0 <= i < before.len(),
    ensures
        ids_of(before.remove(i)).no_duplicates(),
        map_of(before.remove(i)) == map_of(before).remove(before[i].case_id.0@),
{
    let s = before.remove(i);
    let key = before[i].case_id.0@;
    assert(ids_of(s) =~= ids_of(before).remove(i));
    assert forall|a: int, b: int|
        0 <= a < ids_of(s).len() && 0 <= b < ids_of(s).len() && a != b implies ids_of(s)[a]
        != ids_of(s)[b] by {
        let a2 = if a < i { a } else { a + 1 };
        let b2 = if b < i { b } else { b + 1 };
        assert(ids_of(s)[a] == ids_of(before)[a2]);
        assert(ids_of(s)[b] == ids_of(before)[b2]);
    }
    let m = map_of(before).remove(key);
    assert forall|k: Seq<char>| #[trigger] map_of(s).dom().contains(k) implies m.dom().contains(k)
        && map_of(s)[k] == m[k] by {
        let j = ids_of(s).index_of(k);
        assert(0 <= j < s.len() && ids_of(s)[j] == k);
        let j2 = if j < i { j } else { j + 1 };
        assert(ids_of(before)[j2] == k);
        assert(j2 != i);
        assert(ids_of(before)[i] == key);
        assert(k != key);
        let j3 = ids_of(before).index_of(k);
        assert(0 <= j3 < before.len() && ids_of(before)[j3] == k);
        assert(j3 == j2);
        assert(s[j] == before[j2]);
    }
    assert forall|k: Seq<char>| #[trigger] m.dom().contains(k) implies map_of(s).dom().contains(
        k,
    ) by {
        let j = ids_of(before).index_of(k);
        assert(0 <= j < before.len() && ids_of(before)[j] == k);
        assert(j != i);
        let j2 = if j < i { j } else { j - 1 };
        assert(ids_of(s)[j2] == k);
    }
    assert(map_of(s) =~= m);
}

} // verus!
