//! The local orchestrator's bookkeeping: admission through the scheduler,
//! the table of cases it drives through the state machine, the VM spec a
//! case is created from, and how a finished job is reported. Driving the
//! Hyper-V driver between these steps is the caller's.

use vstd::prelude::*;
use crate::hyperv::VmSpec;
use crate::orchestration::job::{JobHandle, JobOutcome, JobSpec};
use crate::orchestration::scheduler::{admitted, exhausted_message, released, Scheduler};
use crate::orchestration::state::{illegal_message, next_state, transition, CaseEvent, CaseState};
use crate::proto::broker::CaseOutcome;
use crate::proto::config::ResourceCaps;
use crate::proto::error::{is_error, not_found, QwanCode, QwanResult};
use crate::proto::id::CaseId;
use crate::text::{owned, push_str, str_eq};

verus! {

/// What the orchestrator hands every case.
#[derive(Debug, Clone)]
pub struct OrchestratorConfig {
    pub broker_endpoint: String,
    pub broker_cert_spki: String,
    pub lmstudio_url: String,
    pub proxy_url: String,
    pub proxy_ca_fpr: String,
    pub allowed_models: Vec<String>,
    pub vswitch: String,
    pub base_vhd_path: String,
    pub max_runtime_s: u64,
}

/// One case the orchestrator drives.
#[derive(Debug, Clone)]
pub struct CaseSlot {
    pub case_id: CaseId,
    pub state: CaseState,
    pub outcome: Option<CaseOutcome>,
}

/// `i` is the position of the first slot of case `id`.
pub open spec fn is_first_slot(s: Seq<CaseSlot>, id: Seq<char>, i: int) -> bool {
    0 <= i < s.len() && s[i].case_id.0@ == id && forall|j: int|
        0 <= j < i ==> s[j].case_id.0@ != id
}

/// The position of the first slot of case `id`, if any.
pub open spec fn first_slot(s: Seq<CaseSlot>, id: Seq<char>) -> Option<int> {
    if exists|i: int| is_first_slot(s, id, i) {
        Some(choose|i: int| is_first_slot(s, id, i))
    } else {
        None
    }
}

/// The slots with the first slot of `id` (if any) in state `st`.
pub open spec fn with_state(s: Seq<CaseSlot>, id: Seq<char>, st: CaseState) -> Seq<CaseSlot> {
    match first_slot(s, id) {
        Some(i) => s.update(i, CaseSlot { state: st, ..s[i] }),
        None => s,
    }
}

/// The slots with the first slot of `id` (if any) carrying `o`.
pub open spec fn with_outcome(s: Seq<CaseSlot>, id: Seq<char>, o: CaseOutcome) -> Seq<CaseSlot> {
    match first_slot(s, id) {
        Some(i) => s.update(i, CaseSlot { outcome: Some(o), ..s[i] }),
        None => s,
    }
}

/// The slots of cases other than `id`.
pub open spec fn without_case(s: Seq<CaseSlot>, id: Seq<char>) -> Seq<CaseSlot> {
    s.filter(|slot: CaseSlot| slot.case_id.0@ != id)
}

/// The message for a case the orchestrator does not drive.
pub open spec fn unknown_case_message(id: Seq<char>) -> Seq<char> {
    "case "@ + id + " not in orchestrator"@
}

/// The report URL of a finished case.
pub open spec fn report_url(id: Seq<char>) -> Seq<char> {
    "/jobs/_/cases/"@ + id
}

/// The caps a case gets: its own, or no caps at all.
pub open spec fn caps_or_default(c: Option<ResourceCaps>) -> ResourceCaps {
    match c {
        Some(c) => c,
        None => ResourceCaps { vcpu: None, memory_mb: None, disk_gb: None, max_runtime_s: None },
    }
}

/// A job's own caps reach its VMs untouched, field for field; only a job
/// with no caps gets the default, which caps nothing.
pub proof fn lemma_job_caps_kept(c: ResourceCaps)
    ensures
        caps_or_default(Some(c)).vcpu == c.vcpu,
        caps_or_default(Some(c)).memory_mb == c.memory_mb,
        caps_or_default(Some(c)).disk_gb == c.disk_gb,
        caps_or_default(Some(c)).max_runtime_s == c.max_runtime_s,
        caps_or_default(None).vcpu is None && caps_or_default(None).memory_mb is None
            && caps_or_default(None).disk_gb is None && caps_or_default(None).max_runtime_s is None,
{
}

/// The stages of bringing a case up, each taken once the driver work
/// before it is done: `Provision` before the VM is created, `Boot` once it
/// is started, `Ready` once it runs.
#[derive(Debug, Clone, Copy, PartialEq, Eq, Structural)]
pub enum BootstrapStage {
    Provision,
    Boot,
    Ready,
}

/// The orchestrator's bookkeeping: its scheduler, its cases, its config.
pub struct LocalOrchestrator {
    scheduler: Scheduler,
    cases: Vec<CaseSlot>,
    config: OrchestratorConfig,
}

impl LocalOrchestrator {
    /// The cases, in admission order.
    pub closed spec fn slots(&self) -> Seq<CaseSlot> {
        self.cases@
    }

    /// The scheduler's cap on live cases.
    pub closed spec fn cap(&self) -> u32 {
        self.scheduler.cap()
    }

    /// The number of live cases the scheduler counts.
    pub closed spec fn live(&self) -> u32 {
        self.scheduler.live()
    }

    /// The configuration.
    pub closed spec fn config(&self) -> OrchestratorConfig {
        self.config
    }

    /// An orchestrator admitting at most `max_concurrent` cases at a time.
    pub fn new(max_concurrent: u32, config: OrchestratorConfig) -> (r: Self)
        ensures
            r.slots() == Seq::<CaseSlot>::empty(),
            r.cap() == max_concurrent,
            r.live() == 0,
            r.config() == config,
    {
        LocalOrchestrator { scheduler: Scheduler::new(max_concurrent), cases: Vec::new(), config }
    }

    /// The number of live cases.
    pub fn live_count(&self) -> (r: u32)
        ensures
            r == self.live(),
    {
        self.scheduler.live_count()
    }

    fn find(&self, case_id: &CaseId) -> (r: Option<usize>)
        ensures
            match r {
                Some(k) => first_slot(self.cases@, case_id.0@) == Some(k as int),
                None => first_slot(self.cases@, case_id.0@) is None,
            },
    {
        let mut i: usize = 0;
        while i < self.cases.len()
            invariant
                i <= self.cases@.len(),
                forall|j: int| 0 <= j < i ==> self.cases@[j].case_id.0@ != case_id.0@,
            decreases self.cases.len() - i,
        {
            if str_eq(self.cases[i].case_id.as_str(), case_id.as_str()) {
                proof {
                    let s = self.cases@;
                    assert(is_first_slot(s, case_id.0@, i as int));
                    let k = choose|k: int| is_first_slot(s, case_id.0@, k);
                    if k < i {
                        assert(s[k].case_id.0@ == case_id.0@);
                    } else if k > i {
                        assert(s[i as int].case_id.0@ == case_id.0@);
                    }
                }
                return Some(i);
            }
            i = i + 1;
        }
        None
    }

    /// The state of case `case_id` (its first slot), if it is driven here.
    pub fn state_of(&self, case_id: &CaseId) -> (r: Option<CaseState>)
        ensures
            match first_slot(self.slots(), case_id.0@) {
                Some(i) => r == Some(self.slots()[i].state),
                None => r is None,
            },
    {
        match self.find(case_id) {
            Some(i) => {
                Some(self.cases[i].state)
            },
            None => None,
        }
    }

    /// Admit a new case: take a scheduler slot (the refusal is
    /// `ResourceExhausted`, and then nothing changes) and start driving the
    /// case from `Admitted`.
    pub fn admit_case(&mut self, case_id: CaseId) -> (r: QwanResult<()>)
        ensures
            final(self).cap() == old(self).cap(),
            final(self).config() == old(self).config(),
            old(self).live() < old(self).cap() ==> r is Ok && final(self).live() == admitted(
                old(self).live(),
            ) && final(self).slots() == old(self).slots().push(
                CaseSlot { case_id, state: CaseState::Admitted, outcome: None },
            ),
            old(self).live() >= old(self).cap() ==> r is Err && is_error(
                r->Err_0,
                QwanCode::ResourceExhausted,
                exhausted_message(old(self).live(), old(self).cap()),
            ) && final(self).live() == old(self).live() && final(self).slots() == old(
                self,
            ).slots(),
    {
        match self.scheduler.try_admit() {
            Ok(_admission) => {
                self.cases.push(CaseSlot { case_id, state: CaseState::Admitted, outcome: None });
                Ok(())
            },
            Err(e) => Err(e),
        }
    }

    /// Put case `case_id` (its first slot) in `state`; a case not driven
    /// here is left alone.
    pub fn set_state(&mut self, case_id: &CaseId, state: CaseState)
        ensures
            final(self).slots() == with_state(old(self).slots(), case_id.0@, state),
            final(self).live() == old(self).live(),
            final(self).cap() == old(self).cap(),
            final(self).config() == old(self).config(),
    {
        if let Some(i) = self.find(case_id) {
            let slot = CaseSlot {
                case_id: self.cases[i].case_id.duplicate(),
                state,
                outcome: self.cases[i].outcome,
            };
            self.cases.set(i, slot);
        }
    }

    /// Record `outcome` for case `case_id` (its first slot); a case not
    /// driven here is left alone.
    pub fn set_outcome(&mut self, case_id: &CaseId, outcome: CaseOutcome)
        ensures
            final(self).slots() == with_outcome(old(self).slots(), case_id.0@, outcome),
            final(self).live() == old(self).live(),
            final(self).cap() == old(self).cap(),
            final(self).config() == old(self).config(),
    {
        if let Some(i) = self.find(case_id) {
            let slot = CaseSlot {
                case_id: self.cases[i].case_id.duplicate(),
                state: self.cases[i].state,
                outcome: Some(outcome),
            };
            self.cases.set(i, slot);
        }
    }

    /// Move case `case_id` (its first slot) along the state machine by
    /// `event`: `NotFound` for a case not driven here, the state machine's
    /// refusal for an illegal event; nothing changes on an error.
    pub fn advance(&mut self, case_id: &CaseId, event: CaseEvent) -> (r: QwanResult<()>)
        ensures
            final(self).live() == old(self).live(),
            final(self).cap() == old(self).cap(),
            final(self).config() == old(self).config(),
            match first_slot(old(self).slots(), case_id.0@) {
                None => r is Err && is_error(
                    r->Err_0,
                    QwanCode::NotFound,
                    unknown_case_message(case_id.0@),
                ) && final(self).slots() == old(self).slots(),
                Some(i) => match next_state(old(self).slots()[i].state, event) {
                    Some(st) => r is Ok && final(self).slots() == with_state(
                        old(self).slots(),
                        case_id.0@,
                        st,
                    ),
                    None => r is Err && is_error(
                        r->Err_0,
                        QwanCode::FailedPrecondition,
                        illegal_message(old(self).slots()[i].state, event),
                    ) && final(self).slots() == old(self).slots(),
                },
            },
    {
        match self.find(case_id) {
            None => {
                let mut msg = owned("case ");
                push_str(&mut msg, case_id.as_str());
                push_str(&mut msg, " not in orchestrator");
                proof {
                    reveal_strlit("case ");
                    reveal_strlit(" not in orchestrator");
                }
                Err(not_found(msg.as_str()))
            },
            Some(i) => {
                let next = transition(self.cases[i].state, event);
                match next {
                    Ok(st) => {
                        let slot = CaseSlot {
                            case_id: self.cases[i].case_id.duplicate(),
                            state: st,
                            outcome: self.cases[i].outcome,
                        };
                        self.cases.set(i, slot);
                        Ok(())
                    },
                    Err(e) => Err(e),
                }
            },
        }
    }

    /// The VM a case of `spec` runs in: the configured base disk and switch,
    /// the job's caps or none.
    pub fn vm_spec(&self, spec: &JobSpec, case_id: &CaseId) -> (r: VmSpec)
        ensures
            r.case_id == *case_id,
            r.base_vhd_path == self.config().base_vhd_path,
            r.vswitch == self.config().vswitch,
            r.caps == caps_or_default(spec.caps),
            spec.caps matches Some(c) ==> r.caps == c,
            spec.caps is None ==> r.caps.vcpu is None && r.caps.memory_mb is None
                && r.caps.disk_gb is None && r.caps.max_runtime_s is None,
    {
        let caps = match &spec.caps {
            Some(c) => ResourceCaps {
                vcpu: c.vcpu,
                memory_mb: c.memory_mb,
                disk_gb: c.disk_gb,
                max_runtime_s: c.max_runtime_s,
            },
            None => ResourceCaps { vcpu: None, memory_mb: None, disk_gb: None, max_runtime_s: None },
        };
        VmSpec {
            case_id: case_id.duplicate(),
            base_vhd_path: self.config.base_vhd_path.clone(),
            caps,
            vswitch: self.config.vswitch.clone(),
        }
    }
    /// Take one bootstrap stage for case `case_id` (its first slot):
    /// `Provision` restarts it from `Admitted` and moves it to
    /// `Provisioning`; `Boot` applies `Booted`; `Ready` applies
    /// `AgentPushed`, `AgentReady` and `Start`, taking a booting case to
    /// `Running`. `NotFound` for a case not driven here, the state machine's
    /// refusal for a stage out of order; nothing changes on an error.
    pub fn bootstrap_step(&mut self, case_id: &CaseId, stage: BootstrapStage) -> (r: QwanResult<()>)
        ensures
            final(self).live() == old(self).live(),
            final(self).cap() == old(self).cap(),
            final(self).config() == old(self).config(),
            match first_slot(old(self).slots(), case_id.0@) {
                None => r is Err && is_error(
                    r->Err_0,
                    QwanCode::NotFound,
                    unknown_case_message(case_id.0@),
                ) && final(self).slots() == old(self).slots(),
                Some(i) => match stage {
                    BootstrapStage::Provision => r is Ok && final(self).slots() == with_state(
                        old(self).slots(),
                        case_id.0@,
                        CaseState::Provisioning,
                    ),
                    BootstrapStage::Boot => if old(self).slots()[i].state == CaseState::Provisioning {
                        r is Ok && final(self).slots() == with_state(
                            old(self).slots(),
                            case_id.0@,
                            CaseState::Booting,
                        )
                    } else {
                        r is Err && is_error(
                            r->Err_0,
                            QwanCode::FailedPrecondition,
                            illegal_message(old(self).slots()[i].state, CaseEvent::Booted),
                        ) && final(self).slots() == old(self).slots()
                    },
                    BootstrapStage::Ready => if old(self).slots()[i].state == CaseState::Booting {
                        r is Ok && final(self).slots() == with_state(
                            old(self).slots(),
                            case_id.0@,
                            CaseState::Running,
                        )
                    } else {
                        r is Err && is_error(
                            r->Err_0,
                            QwanCode::FailedPrecondition,
                            illegal_message(old(self).slots()[i].state, CaseEvent::AgentPushed),
                        ) && final(self).slots() == old(self).slots()
                    },
                },
            },
    {
        let ghost s0 = self.cases@;
        let ghost id = case_id.0@;
        match stage {
            BootstrapStage::Provision => {
                self.set_state(case_id, CaseState::Admitted);
                proof {
                    if let Some(i) = first_slot(s0, id) {
                        lemma_first_slot_update(s0, id, i, self.cases@[i]);
                    }
                }
                let r = self.advance(case_id, CaseEvent::Provisioned);
                proof {
                    if let Some(i) = first_slot(s0, id) {
                        assert(self.cases@ =~= with_state(s0, id, CaseState::Provisioning));
                    }
                }
                r
            },
            BootstrapStage::Boot => self.advance(case_id, CaseEvent::Booted),
            BootstrapStage::Ready => {
                match self.advance(case_id, CaseEvent::AgentPushed) {
                    Err(e) => {
                        return Err(e);
                    },
                    Ok(()) => {},
                }
                let ghost i = first_slot(s0, id)->0;
                proof {
                    lemma_first_slot_update(s0, id, i, self.cases@[i]);
                }
                let ghost s1 = self.cases@;
                let _ready = self.advance(case_id, CaseEvent::AgentReady);
                proof {
                    lemma_first_slot_update(s1, id, i, self.cases@[i]);
                }
                let ghost s2 = self.cases@;
                let _started = self.advance(case_id, CaseEvent::Start);
                proof {
                    assert(self.cases@ =~= with_state(s0, id, CaseState::Running));
                }
                Ok(())
            },
        }
    }

    /// Finish a running job's case: it completes with outcome `Pass` and is
    /// torn down, its scheduler slot is given back and it is no longer
    /// driven here. `NotFound` for a case not driven here and the state
    /// machine's refusal for one not running; nothing changes on an error.
    pub fn finish_case(&mut self, handle: &JobHandle) -> (r: QwanResult<JobOutcome>)
        ensures
            final(self).cap() == old(self).cap(),
            final(self).config() == old(self).config(),
            match first_slot(old(self).slots(), handle.case_id.0@) {
                None => r is Err && is_error(
                    r->Err_0,
                    QwanCode::NotFound,
                    unknown_case_message(handle.case_id.0@),
                ) && final(self).slots() == old(self).slots() && final(self).live() == old(
                    self,
                ).live(),
                Some(i) => if old(self).slots()[i].state == CaseState::Running {
                    &&& r is Ok
                    &&& r->Ok_0.job_id == handle.job_id
                    &&& r->Ok_0.case_id == handle.case_id
                    &&& r->Ok_0.result == CaseOutcome::Pass
                    &&& r->Ok_0.summary@ == "case completed"@
                    &&& r->Ok_0.report_url@ == report_url(handle.case_id.0@)
                    &&& r->Ok_0.pr_url is None
                    &&& final(self).slots() == without_case(old(self).slots(), handle.case_id.0@)
                    &&& final(self).live() == released(old(self).live())
                } else {
                    &&& r is Err
                    &&& is_error(
                        r->Err_0,
                        QwanCode::FailedPrecondition,
                        illegal_message(old(self).slots()[i].state, CaseEvent::Complete),
                    )
                    &&& final(self).slots() == old(self).slots()
                    &&& final(self).live() == old(self).live()
                },
            },
    {
        let case_id = &handle.case_id;
        let ghost s0 = self.cases@;
        let ghost id = case_id.0@;
        match self.advance(case_id, CaseEvent::Complete) {
            Err(e) => {
                return Err(e);
            },
            Ok(()) => {},
        }
        let ghost i = first_slot(s0, id)->0;
        proof {
            lemma_first_slot_update(s0, id, i, self.cases@[i]);
        }
        let ghost s1 = self.cases@;
        self.set_outcome(case_id, CaseOutcome::Pass);
        proof {
            lemma_first_slot_update(s1, id, i, self.cases@[i]);
        }
        let ghost s2 = self.cases@;
        let adv = self.advance(case_id, CaseEvent::TeardownDone);
        proof {
            lemma_first_slot_update(s2, id, i, self.cases@[i]);
        }
        let outcome = match self.find(case_id) {
            Some(k) => match self.cases[k].outcome {
                Some(o) => o,
                None => CaseOutcome::Error,
            },
            None => CaseOutcome::Error,
        };
        self.scheduler.release();
        let ghost s3 = self.cases@;
        let mut kept: Vec<CaseSlot> = Vec::new();
        let mut j: usize = 0;
        while j < self.cases.len()
            invariant
                j <= self.cases@.len(),
                self.cases@ == s3,
                kept@ == without_case(s3.subrange(0, j as int), id),
                id == case_id.0@,
            decreases self.cases.len() - j,
        {
            proof {
                reveal(Seq::filter);
                assert(s3.subrange(0, j + 1).drop_last() =~= s3.subrange(0, j as int));
            }
            if !str_eq(self.cases[j].case_id.as_str(), case_id.as_str()) {
                let slot = CaseSlot {
                    case_id: self.cases[j].case_id.duplicate(),
                    state: self.cases[j].state,
                    outcome: self.cases[j].outcome,
                };
                kept.push(slot);
            }
            j = j + 1;
        }
        assert(s3.subrange(0, s3.len() as int) =~= s3);
        proof {
            lemma_without_case_same(s0, s3, id);
        }
        self.cases = kept;
        let mut url = owned("/jobs/_/cases/");
        push_str(&mut url, case_id.as_str());
        proof {
            reveal_strlit("/jobs/_/cases/");
            reveal_strlit("case completed");
        }
        Ok(JobOutcome {
            job_id: handle.job_id.duplicate(),
            case_id: case_id.duplicate(),
            result: outcome,
            summary: owned("case completed"),
            report_url: url,
            pr_url: None,
        })
    }
}

/// Replacing a slot by one of the same case keeps the first slot of every
/// case where it was.
proof fn lemma_first_slot_update(s: Seq<CaseSlot>, id: Seq<char>, i: int, x: CaseSlot)
    requires
        0 <= i < s.len(),
        x.case_id == s[i].case_id,
    ensures
        first_slot(s.update(i, x), id) == first_slot(s, id),
{
    let t = s.update(i, x);
    assert forall|k: int| is_first_slot(s, id, k) <==> is_first_slot(t, id, k) by {
        if 0 <= k < s.len() {
            assert forall|j: int| 0 <= j < k implies t[j].case_id.0@ == s[j].case_id.0@ by {}
        }
    }
    if exists|k: int| is_first_slot(s, id, k) {
        let a = choose|k: int| is_first_slot(s, id, k);
        let b = choose|k: int| is_first_slot(t, id, k);
        assert(is_first_slot(t, id, a));
        assert(is_first_slot(s, id, b));
        if a < b {
            assert(s[a].case_id.0@ == id);
        } else if b < a {
            assert(s[b].case_id.0@ == id);
        }
    }
}

/// Two slot sequences with the same cases in the same order keep the same
/// slots once a case is dropped, given their states and outcomes agree on
/// the other cases.
proof fn lemma_without_case_same(a: Seq<CaseSlot>, b: Seq<CaseSlot>, id: Seq<char>)
    requires
        a.len() == b.len(),
        forall|k: int| 0 <= k < a.len() && a[k].case_id.0@ != id ==> b[k] == a[k],
        forall|k: int| 0 <= k < a.len() ==> b[k].case_id.0@ == a[k].case_id.0@,
    ensures
        without_case(a, id) == without_case(b, id),
    decreases a.len(),
{
    reveal(Seq::filter);
    if a.len() > 0 {
        lemma_without_case_same(a.drop_last(), b.drop_last(), id);
    }
}

} // verus!
