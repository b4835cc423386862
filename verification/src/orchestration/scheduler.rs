//! Admission scheduler. Hard cap, reject immediately, no queue: a case is
//! admitted only while fewer than `max_concurrent` cases are live;
//! otherwise admission fails with `ResourceExhausted`.

use vstd::prelude::*;
use crate::proto::error::{QwanCode, QwanError, QwanResult, is_error};
use crate::text::{owned, push_str, push_u64, dec};

verus! {

/// A counting admission controller.
pub struct Scheduler {
    max_concurrent: u32,
    live: u32,
}

/// A token for one admitted slot; `release` gives the slot back.
#[derive(Debug)]
#[must_use]
pub struct Admission {
    released: bool,
}

/// The message of a refused admission.
pub open spec fn exhausted_message(live: u32, cap: u32) -> Seq<char> {
    "no free slot: "@ + dec(live as nat) + "/"@ + dec(cap as nat) + " cases live"@
}

/// Live count after a successful admission.
pub open spec fn admitted(live: u32) -> u32 {
    (live + 1) as u32
}

/// Live count after a manual release: one less, never below zero.
pub open spec fn released(live: u32) -> u32 {
    if live > 0 {
        (live - 1) as u32
    } else {
        0
    }
}

impl Scheduler {
    /// The cap on live cases.
    pub closed spec fn cap(&self) -> u32 {
        self.max_concurrent
    }

    /// The number of live (admitted, not yet released) cases.
    pub closed spec fn live(&self) -> u32 {
        self.live
    }

    /// A scheduler with the given cap and no live case.
    pub fn new(max_concurrent: u32) -> (r: Self)
        ensures
            r.cap() == max_concurrent,
            r.live() == 0,
    {
        Scheduler { max_concurrent, live: 0 }
    }

    /// Live (admitted, not-yet-torn-down) case count.
    pub fn live_count(&self) -> (r: u32)
        ensures
            r == self.live(),
    {
        self.live
    }

    /// Try to admit a case: succeeds exactly when a slot is free, and then
    /// takes it; otherwise fails with `ResourceExhausted` and changes nothing.
    pub fn try_admit(&mut self) -> (r: QwanResult<Admission>)
        ensures
            final(self).cap() == old(self).cap(),
            old(self).live() < old(self).cap() ==> (r matches Ok(a) && !a.is_released()
                && final(self).live() == admitted(old(self).live())),
            old(self).live() >= old(self).cap() ==> (r matches Err(e) && is_error(
                e,
                QwanCode::ResourceExhausted,
                exhausted_message(old(self).live(), old(self).cap()),
            ) && final(self).live() == old(self).live()),
    {
        let prev = self.live;
        if prev >= self.max_concurrent {
            let mut m = owned("no free slot: ");
            push_u64(&mut m, prev as u64);
            push_str(&mut m, "/");
            push_u64(&mut m, self.max_concurrent as u64);
            push_str(&mut m, " cases live");
            return Err(QwanError::new(QwanCode::ResourceExhausted, m.as_str()));
        }
        self.live = prev + 1;
        Ok(Admission { released: false })
    }

    /// Manually release a slot (decrement the live count, never below
    /// zero). Used when the admission token is not kept.
    pub fn release(&mut self)
        ensures
            final(self).cap() == old(self).cap(),
            final(self).live() == released(old(self).live()),
    {
        if self.live > 0 {
            self.live = self.live - 1;
        }
    }
}

impl Admission {
    /// Has this token already given its slot back?
    pub closed spec fn is_released(&self) -> bool {
        self.released
    }

    /// Give the slot back to `sched` (once; a released token does nothing).
    /// The count wraps below zero as the atomic counter it models does.
    pub fn release(self, sched: &mut Scheduler)
        ensures
            final(sched).cap() == old(sched).cap(),
            !self.is_released() ==> final(sched).live() == old(sched).live().wrapping_sub(1),
            self.is_released() ==> final(sched).live() == old(sched).live(),
    {
        if !self.released {
            sched.live = sched.live.wrapping_sub(1);
        }
    }
}

/// Admission never takes the live count past the cap.
pub proof fn lemma_admit_respects_cap(cap: u32, live: u32)
    requires
        live < cap,
    ensures
        admitted(live) <= cap,
{
}

/// Admitting and then releasing a slot restores the live count.
pub proof fn lemma_admit_release_roundtrip(cap: u32, live: u32)
    requires
        live < cap,
    ensures
        released(admitted(live)) == live,
        admitted(live).wrapping_sub(1) == live,
{
}

} // verus!
