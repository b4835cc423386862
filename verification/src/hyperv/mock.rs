//! The in-memory Hyper-V driver used where there is no Hyper-V: it tracks
//! VMs by id with their case and power state. Ids are `mock-vm-NNNN`, the
//! lowercase hex of a creation counter padded to four digits. The byte
//! streams it hands out are the caller's.

use vstd::prelude::*;
use crate::hyperv::{VmHandle, VmSpec, VmState};
use crate::proto::error::{is_error, internal, not_found, QwanCode, QwanResult};
use crate::proto::id::{CaseId, CheckpointId, VmId};
use crate::text::{hex, owned, push_hex_padded, push_str, str_eq, zero_pad};

verus! {

/// One tracked VM.
#[derive(Debug, Clone)]
pub struct MockVm {
    pub case_id: CaseId,
    pub state: VmState,
}

/// The ids of a sequence of tracked VMs, in order.
pub open spec fn vm_ids(s: Seq<(VmId, MockVm)>) -> Seq<Seq<char>> {
    s.map_values(|e: (VmId, MockVm)| e.0.0@)
}

/// The map a sequence of tracked VMs with distinct ids stands for.
pub open spec fn vm_map(s: Seq<(VmId, MockVm)>) -> Map<Seq<char>, (CaseId, VmState)> {
    Map::new(
        |k: Seq<char>| vm_ids(s).contains(k),
        |k: Seq<char>| (s[vm_ids(s).index_of(k)].1.case_id, s[vm_ids(s).index_of(k)].1.state),
    )
}

/// The ids of the VMs that are not off.
pub open spec fn live_ids(m: Map<Seq<char>, (CaseId, VmState)>) -> Set<Seq<char>> {
    m.dom().filter(|k: Seq<char>| m[k].1 != VmState::Off)
}

/// The id of the VM created `n`-th (counting from 0).
pub open spec fn mock_vm_id(n: u64) -> Seq<char> {
    "mock-vm-"@ + zero_pad(hex(n as nat), 4)
}

/// The name `{:?}` gives a VM state.
pub open spec fn vm_state_name(s: VmState) -> Seq<char> {
    match s {
        VmState::Off => "Off"@,
        VmState::Booting => "Booting"@,
        VmState::Running => "Running"@,
        VmState::Held => "Held"@,
    }
}

/// The text of the error for a VM found in another state than awaited.
pub open spec fn wrong_state_message(id: Seq<char>, is: VmState, want: VmState) -> Seq<char> {
    "vm "@ + id + " is "@ + vm_state_name(is) + ", not "@ + vm_state_name(want)
}

/// An in-memory Hyper-V driver.
pub struct MockHyperVDriver {
    vms: Vec<(VmId, MockVm)>,
    next_id: u64,
}

proof fn lemma_index_of_unique(s: Seq<Seq<char>>, i: int)
    requires
        s.no_duplicates(),
        0 <= i < s.len(),
    ensures
        s.index_of(s[i]) == i,
{
    let j = s.index_of(s[i]);
    assert(s.contains(s[i]));
    assert(s[j] == s[i]);
}

impl MockHyperVDriver {
    /// The tracked VMs: id to (case, state).
    pub closed spec fn view(&self) -> Map<Seq<char>, (CaseId, VmState)> {
        vm_map(self.vms@)
    }

    /// The counter the next VM id is made from.
    pub closed spec fn next_counter(&self) -> u64 {
        self.next_id
    }

    /// No id is tracked twice.
    #[verifier::type_invariant]
    spec fn wf(&self) -> bool {
        vm_ids(self.vms@).no_duplicates()
    }

    /// A driver tracking no VM.
    pub fn new() -> (r: Self)
        ensures
            r@ == Map::<Seq<char>, (CaseId, VmState)>::empty(),
            r.next_counter() == 0,
    {
        let r = MockHyperVDriver { vms: Vec::new(), next_id: 0 };
        assert(r@ =~= Map::<Seq<char>, (CaseId, VmState)>::empty());
        r
    }

    fn position(&self, id: &VmId) -> (r: Option<usize>)
        ensures
            match r {
                Some(i) => i < self.vms@.len() && self.vms@[i as int].0.0@ == id.0@
                    && self@.dom().contains(id.0@) && self@[id.0@] == (
                    self.vms@[i as int].1.case_id,
                    self.vms@[i as int].1.state,
                ),
                None => !self@.dom().contains(id.0@),
            },
    {
        proof {
            use_type_invariant(self);
        }
        let mut i: usize = 0;
        while i < self.vms.len()
            invariant
                i <= self.vms@.len(),
                self.wf(),
                forall|j: int| 0 <= j < i ==> self.vms@[j].0.0@ != id.0@,
            decreases self.vms.len() - i,
        {
            if str_eq(self.vms[i].0.as_str(), id.as_str()) {
                proof {
                    lemma_index_of_unique(vm_ids(self.vms@), i as int);
                    assert(vm_ids(self.vms@)[i as int] == id.0@);
                }
                return Some(i);
            }
            i = i + 1;
        }
        proof {
            if vm_ids(self.vms@).contains(id.0@) {
                let j = choose|j: int| 0 <= j < vm_ids(self.vms@).len() && vm_ids(self.vms@)[j] == id.0@;
                assert(self.vms@[j].0.0@ == id.0@);
            }
        }
        None
    }

    /// Track `vm` under `id`, replacing whatever was tracked under it.
    fn put(&mut self, id: VmId, vm: MockVm)
        ensures
            final(self)@ == old(self)@.insert(id.0@, (vm.case_id, vm.state)),
            final(self).next_counter() == old(self).next_counter(),
    {
        proof {
            use_type_invariant(&*self);
        }
        let ghost e = (id, vm);
        let pos = self.position(&id);
        let mut vms: Vec<(VmId, MockVm)> = Vec::new();
        std::mem::swap(&mut vms, &mut self.vms);
        let ghost before = vms@;
        match pos {
            Some(i) => {
                vms.set(i, (id, vm));
                proof {
                    lemma_vm_update(before, i as int, e);
                }
            },
            None => {
                vms.push((id, vm));
                proof {
                    lemma_vm_push(before, e);
                }
            },
        }
        self.vms = vms;
    }

    /// Nothing to set up for the in-memory driver.
    pub fn ensure_switch(&self, name: &str) -> (r: QwanResult<()>)
        ensures
            r is Ok,
    {
        Ok(())
    }

    /// Create a VM for the spec's case, off, under the next `mock-vm-NNNN`
    /// id; the counter wraps around.
    pub fn create_case_vm(&mut self, spec: VmSpec) -> (r: QwanResult<VmHandle>)
        ensures
            r is Ok,
            r->Ok_0.vm_id.0@ == mock_vm_id(old(self).next_counter()),
            r->Ok_0.case_id == spec.case_id,
            final(self)@ == old(self)@.insert(
                mock_vm_id(old(self).next_counter()),
                (spec.case_id, VmState::Off),
            ),
            final(self).next_counter() == old(self).next_counter().wrapping_add(1),
    {
        proof {
            use_type_invariant(&*self);
        }
        let n = self.next_id;
        self.next_id = n.wrapping_add(1);
        let mut text = owned("mock-vm-");
        push_hex_padded(&mut text, n, 4);
        proof {
            reveal_strlit("mock-vm-");
        }
        let vm_id = VmId(text);
        let handle = VmHandle { vm_id: vm_id.duplicate(), case_id: spec.case_id.duplicate() };
        self.put(vm_id, MockVm { case_id: spec.case_id, state: VmState::Off });
        Ok(handle)
    }

    /// Power the VM on: it is running at once. `NotFound` for an unknown VM.
    pub fn start_vm(&mut self, vm: &VmHandle) -> (r: QwanResult<()>)
        ensures
            final(self).next_counter() == old(self).next_counter(),
            !old(self)@.dom().contains(vm.vm_id.0@) ==> r is Err && is_error(
                r->Err_0,
                QwanCode::NotFound,
                "vm not found"@,
            ) && final(self)@ == old(self)@,
            old(self)@.dom().contains(vm.vm_id.0@) ==> r is Ok && final(self)@ == old(self)@.insert(
                vm.vm_id.0@,
                (old(self)@[vm.vm_id.0@].0, VmState::Running),
            ),
    {
        proof {
            reveal_strlit("vm not found");
        }
        match self.position(&vm.vm_id) {
            None => Err(not_found("vm not found")),
            Some(i) => {
                let case_id = self.vms[i].1.case_id.duplicate();
                self.put(vm.vm_id.duplicate(), MockVm { case_id, state: VmState::Running });
                Ok(())
            },
        }
    }

    /// Check that the VM is in `state` (the in-memory driver never waits).
    /// `NotFound` for an unknown VM, `Internal` naming both states for one
    /// in another state.
    pub fn await_state(&self, vm: &VmHandle, state: VmState, timeout: std::time::Duration) -> (r:
        QwanResult<()>)
        ensures
            !self@.dom().contains(vm.vm_id.0@) ==> r is Err && is_error(
                r->Err_0,
                QwanCode::NotFound,
                "vm not found"@,
            ),
            self@.dom().contains(vm.vm_id.0@) && self@[vm.vm_id.0@].1 != state ==> r is Err
                && is_error(
                r->Err_0,
                QwanCode::Internal,
                wrong_state_message(vm.vm_id.0@, self@[vm.vm_id.0@].1, state),
            ),
            self@.dom().contains(vm.vm_id.0@) && self@[vm.vm_id.0@].1 == state ==> r is Ok,
    {
        proof {
            reveal_strlit("vm not found");
            reveal_strlit("vm ");
            reveal_strlit(" is ");
            reveal_strlit(", not ");
        }
        match self.position(&vm.vm_id) {
            None => Err(not_found("vm not found")),
            Some(i) => {
                let cur = self.vms[i].1.state;
                if cur != state {
                    let mut msg = owned("vm ");
                    push_str(&mut msg, vm.vm_id.as_str());
                    push_str(&mut msg, " is ");
                    push_str(&mut msg, state_name(cur));
                    push_str(&mut msg, ", not ");
                    push_str(&mut msg, state_name(state));
                    return Err(internal(msg.as_str()));
                }
                Ok(())
            },
        }
    }

    /// Is a VM tracked under `vm_id`?
    pub fn has_vm(&self, vm_id: &VmId) -> (r: bool)
        ensures
            r == self@.dom().contains(vm_id.0@),
    {
        self.position(vm_id).is_some()
    }

    /// A checkpoint named `ckpt-<name>` (nothing is saved in memory).
    pub fn checkpoint(&self, vm: &VmHandle, name: &str) -> (r: QwanResult<CheckpointId>)
        ensures
            r is Ok,
            r->Ok_0.0@ == "ckpt-"@ + name@,
    {
        let mut text = owned("ckpt-");
        push_str(&mut text, name);
        proof {
            reveal_strlit("ckpt-");
        }
        Ok(CheckpointId(text))
    }

    /// Power the VM off; an unknown VM is left alone.
    pub fn stop_vm(&mut self, vm: &VmHandle) -> (r: QwanResult<()>)
        ensures
            r is Ok,
            final(self).next_counter() == old(self).next_counter(),
            !old(self)@.dom().contains(vm.vm_id.0@) ==> final(self)@ == old(self)@,
            old(self)@.dom().contains(vm.vm_id.0@) ==> final(self)@ == old(self)@.insert(
                vm.vm_id.0@,
                (old(self)@[vm.vm_id.0@].0, VmState::Off),
            ),
    {
        if let Some(i) = self.position(&vm.vm_id) {
            let case_id = self.vms[i].1.case_id.duplicate();
            self.put(vm.vm_id.duplicate(), MockVm { case_id, state: VmState::Off });
        }
        Ok(())
    }

    /// Stop tracking the VM.
    pub fn destroy_case_vm(&mut self, vm: &VmHandle) -> (r: QwanResult<()>)
        ensures
            r is Ok,
            final(self).next_counter() == old(self).next_counter(),
            final(self)@ == old(self)@.remove(vm.vm_id.0@),
    {
        proof {
            use_type_invariant(&*self);
        }
        match self.position(&vm.vm_id) {
            Some(i) => {
                let mut vms: Vec<(VmId, MockVm)> = Vec::new();
                std::mem::swap(&mut vms, &mut self.vms);
                let ghost before = vms@;
                vms.remove(i);
                proof {
                    lemma_vm_remove(before, i as int);
                }
                self.vms = vms;
            },
            None => {
                assert(self@ =~= self@.remove(vm.vm_id.0@));
            },
        }
        Ok(())
    }

    /// How many tracked VMs are not off (truncated to 32 bits).
    pub fn live_vm_count(&self) -> (r: QwanResult<u32>)
        ensures
            r is Ok,
            r->Ok_0 == live_ids(self@).len() as u32,
    {
        proof {
            use_type_invariant(self);
        }
        let mut n: usize = 0;
        let mut i: usize = 0;
        let ghost mut seen: Set<Seq<char>> = Set::empty();
        while i < self.vms.len()
            invariant
                i <= self.vms@.len(),
                self.wf(),
                seen.finite(),
                n == seen.len(),
                n <= i,
                seen == live_ids(vm_map(self.vms@.subrange(0, i as int))),
            decreases self.vms.len() - i,
        {
            proof {
                lemma_live_prefix(self.vms@, i as int);
            }
            if self.vms[i].1.state != VmState::Off {
                proof {
                    seen = seen.insert(self.vms@[i as int].0.0@);
                }
                n = n + 1;
            }
            i = i + 1;
        }
        assert(self.vms@.subrange(0, self.vms@.len() as int) =~= self.vms@);
        Ok(#[verifier::truncate] (n as u32))
    }
}

impl Default for MockHyperVDriver {
    fn default() -> (r: Self)
        ensures
            r@ == Map::<Seq<char>, (CaseId, VmState)>::empty(),
            r.next_counter() == 0,
    {
        Self::new()
    }
}

/// The `{:?}` name of a VM state.
fn state_name(s: VmState) -> (r: &'static str)
    ensures
        r@ == vm_state_name(s),
{
    proof {
        reveal_strlit("Off");
        reveal_strlit("Booting");
        reveal_strlit("Running");
        reveal_strlit("Held");
    }
    match s {
        VmState::Off => "Off",
        VmState::Booting => "Booting",
        VmState::Running => "Running",
        VmState::Held => "Held",
    }
}

proof fn lemma_vm_update(before: Seq<(VmId, MockVm)>, i: int, e: (VmId, MockVm))
    requires
        vm_ids(before).no_duplicates(),
        0 <= i < before.len(),
        e.0.0@ == before[i].0.0@,
    ensures
        vm_ids(before.update(i, e)).no_duplicates(),
        vm_map(before.update(i, e)) == vm_map(before).insert(e.0.0@, (e.1.case_id, e.1.state)),
{
    let s = before.update(i, e);
    assert(vm_ids(s) =~= vm_ids(before));
    assert(vm_ids(before)[i] == e.0.0@);
    let m = vm_map(before).insert(e.0.0@, (e.1.case_id, e.1.state));
    assert forall|k: Seq<char>| #[trigger] vm_map(s).dom().contains(k) implies vm_map(s)[k]
        == m[k] by {
        let j = vm_ids(s).index_of(k);
        assert(0 <= j < s.len() && vm_ids(s)[j] == k);
        if k == e.0.0@ {
            lemma_index_of_unique(vm_ids(s), i);
        } else {
            assert(j != i);
            assert(s[j] == before[j]);
        }
    }
    assert(vm_map(s) =~= m);
}

proof fn lemma_vm_push(before: Seq<(VmId, MockVm)>, e: (VmId, MockVm))
    requires
        vm_ids(before).no_duplicates(),
        !vm_ids(before).contains(e.0.0@),
    ensures
        vm_ids(before.push(e)).no_duplicates(),
        vm_map(before.push(e)) == vm_map(before).insert(e.0.0@, (e.1.case_id, e.1.state)),
{
    let s = before.push(e);
    let n = before.len() as int;
    assert(vm_ids(s) =~= vm_ids(before).push(e.0.0@));
    assert forall|a: int, b: int|
        0 <= a < vm_ids(s).len() && 0 <= b < vm_ids(s).len() && a != b implies vm_ids(s)[a]
        != vm_ids(s)[b] by {
        if b == n {
            assert(vm_ids(before)[a] == vm_ids(s)[a]);
        } else if a == n {
            assert(vm_ids(before)[b] == vm_ids(s)[b]);
        }
    }
    let m = vm_map(before).insert(e.0.0@, (e.1.case_id, e.1.state));
    assert forall|k: Seq<char>| #[trigger] vm_map(s).dom().contains(k) implies vm_map(s)[k]
        == m[k] by {
        let j = vm_ids(s).index_of(k);
        assert(0 <= j < s.len() && vm_ids(s)[j] == k);
        if j != n {
            assert(vm_ids(before)[j] == k);
            let j2 = vm_ids(before).index_of(k);
            assert(0 <= j2 < before.len() && vm_ids(before)[j2] == k);
            assert(j2 == j);
        }
    }
    assert forall|k: Seq<char>| #[trigger] m.dom().contains(k) implies vm_map(s).dom().contains(
        k,
    ) by {
        if k != e.0.0@ {
            let j = vm_ids(before).index_of(k);
            assert(vm_ids(s)[j] == k);
        } else {
            assert(vm_ids(s)[n] == k);
        }
    }
    assert(vm_map(s) =~= m);
}

proof fn lemma_vm_remove(before: Seq<(VmId, MockVm)>, i: int)
    requires
        vm_ids(before).no_duplicates(),
        0 <= i < before.len(),
    ensures
        vm_ids(before.remove(i)).no_duplicates(),
        vm_map(before.remove(i)) == vm_map(before).remove(before[i].0.0@),
{
    let s = before.remove(i);
    let key = before[i].0.0@;
    assert(vm_ids(s) =~= vm_ids(before).remove(i));
    assert forall|a: int, b: int|
        0 <= a < vm_ids(s).len() && 0 <= b < vm_ids(s).len() && a != b implies vm_ids(s)[a]
        != vm_ids(s)[b] by {
        let a2 = if a < i { a } else { a + 1 };
        let b2 = if b < i { b } else { b + 1 };
        assert(vm_ids(s)[a] == vm_ids(before)[a2]);
        assert(vm_ids(s)[b] == vm_ids(before)[b2]);
    }
    let m = vm_map(before).remove(key);
    assert forall|k: Seq<char>| #[trigger] vm_map(s).dom().contains(k) implies m.dom().contains(k)
        && vm_map(s)[k] == m[k] by {
        let j = vm_ids(s).index_of(k);
        assert(0 <= j < s.len() && vm_ids(s)[j] == k);
        let j2 = if j < i { j } else { j + 1 };
        assert(vm_ids(before)[j2] == k);
        assert(j2 != i);
        assert(vm_ids(before)[i] == key);
        assert(k != key);
        let j3 = vm_ids(before).index_of(k);
        assert(0 <= j3 < before.len() && vm_ids(before)[j3] == k);
        assert(j3 == j2);
        assert(s[j] == before[j2]);
    }
    assert forall|k: Seq<char>| #[trigger] m.dom().contains(k) implies vm_map(s).dom().contains(
        k,
    ) by {
        let j = vm_ids(before).index_of(k);
        assert(0 <= j < before.len() && vm_ids(before)[j] == k);
        assert(j != i);
        let j2 = if j < i { j } else { j - 1 };
        assert(vm_ids(s)[j2] == k);
    }
    assert(vm_map(s) =~= m);
}

/// Extending the scanned prefix by one VM adds its id to the live ids
/// exactly when it is not off, and the id was not among them before.
proof fn lemma_live_prefix(s: Seq<(VmId, MockVm)>, i: int)
    requires
        vm_ids(s).no_duplicates(),
        0 <= i < s.len(),
    ensures
        !live_ids(vm_map(s.subrange(0, i))).contains(s[i].0.0@),
        live_ids(vm_map(s.subrange(0, i + 1))) == (if s[i].1.state != VmState::Off {
            live_ids(vm_map(s.subrange(0, i))).insert(s[i].0.0@)
        } else {
            live_ids(vm_map(s.subrange(0, i)))
        }),
        live_ids(vm_map(s.subrange(0, i))).finite(),
{
    let p = s.subrange(0, i);
    let q = s.subrange(0, i + 1);
    assert(q =~= p.push(s[i]));
    assert forall|a: int, b: int|
        0 <= a < vm_ids(p).len() && 0 <= b < vm_ids(p).len() && a != b implies vm_ids(p)[a]
        != vm_ids(p)[b] by {
        assert(vm_ids(p)[a] == vm_ids(s)[a]);
        assert(vm_ids(p)[b] == vm_ids(s)[b]);
    }
    if vm_ids(p).contains(s[i].0.0@) {
        let j = choose|j: int| 0 <= j < vm_ids(p).len() && vm_ids(p)[j] == s[i].0.0@;
        assert(vm_ids(s)[j] == vm_ids(s)[i]);
    }
    lemma_vm_push(p, s[i]);
    assert(live_ids(vm_map(p)).subset_of(vm_ids(p).to_set()));
    vstd::set_lib::lemma_len_subset(live_ids(vm_map(p)), vm_ids(p).to_set());
    let m = vm_map(p);
    let m2 = m.insert(s[i].0.0@, (s[i].1.case_id, s[i].1.state));
    if s[i].1.state != VmState::Off {
        assert(live_ids(m2) =~= live_ids(m).insert(s[i].0.0@));
    } else {
        assert(live_ids(m2) =~= live_ids(m));
    }
}

/// Creating a VM never changes how many are live; starting one that is off
/// adds one; stopping one that is not off takes one away; destroying one
/// takes one away exactly when it was not off.
pub proof fn lemma_live_count_changes(
    m: Map<Seq<char>, (CaseId, VmState)>,
    id: Seq<char>,
    case_id: CaseId,
)
    requires
        m.dom().finite(),
    ensures
        !m.dom().contains(id) ==> live_ids(m.insert(id, (case_id, VmState::Off))).len()
            == live_ids(m).len(),
        m.dom().contains(id) && m[id].1 == VmState::Off ==> live_ids(
            m.insert(id, (m[id].0, VmState::Running)),
        ).len() == live_ids(m).len() + 1,
        m.dom().contains(id) && m[id].1 != VmState::Off ==> live_ids(
            m.insert(id, (m[id].0, VmState::Off)),
        ).len() + 1 == live_ids(m).len(),
        m.dom().contains(id) ==> live_ids(m.remove(id)).len() + (if m[id].1 != VmState::Off {
            1int
        } else {
            0int
        }) == live_ids(m).len(),
{
    let l = live_ids(m);
    vstd::set_lib::lemma_len_subset(l, m.dom());
    assert(l.finite());
    if !m.dom().contains(id) {
        assert(live_ids(m.insert(id, (case_id, VmState::Off))) =~= l);
    }
    if m.dom().contains(id) && m[id].1 == VmState::Off {
        assert(live_ids(m.insert(id, (m[id].0, VmState::Running))) =~= l.insert(id));
    }
    if m.dom().contains(id) && m[id].1 != VmState::Off {
        assert(live_ids(m.insert(id, (m[id].0, VmState::Off))) =~= l.remove(id));
    }
    if m.dom().contains(id) {
        if m[id].1 != VmState::Off {
            assert(live_ids(m.remove(id)) =~= l.remove(id));
        } else {
            assert(live_ids(m.remove(id)) =~= l);
        }
    }
}

} // verus!
