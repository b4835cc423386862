use qwanban::orchestration::job::{JobHandle, JobKind, JobSpec};
use qwanban::orchestration::manifest_builder::{build, ManifestInputs};
use qwanban::orchestration::orchestrator::{BootstrapStage, LocalOrchestrator, OrchestratorConfig};
use qwanban::orchestration::scheduler::Scheduler;
use qwanban::orchestration::state::{transition, CaseEvent, CaseState};
use qwanban::proto::broker::CaseOutcome;
use qwanban::proto::error::QwanCode;
use qwanban::proto::id::{CaseId, JobId};
use qwanban::proto::manifest::{AgentLaunch, AgentSpec, LimitsSpec};

fn dummy_spec(kind: JobKind) -> JobSpec {
    JobSpec {
        kind,
        base_image: "linux-test".into(),
        git_ref: "main".into(),
        task_text: "do the thing".into(),
        note: None,
        caps: None,
    }
}

fn inputs(spec: &JobSpec) -> ManifestInputs<'_> {
    ManifestInputs {
        job_id: JobId::from_str_inner("job_1"),
        case_id: CaseId::from_str_inner("case_1"),
        spec,
        broker_endpoint: "https://10.0.75.1:7443".into(),
        broker_cert_spki: "abc".into(),
        inference_base_url: "https://10.0.75.1:7444/v1".into(),
        proxy_url: "http://10.0.75.1:8080".into(),
        proxy_ca_fpr: "def".into(),
        allowed_models: vec!["m1".into()],
        agent: AgentSpec {
            files: vec![],
            launch: AgentLaunch {
                shell: "bash".into(),
                command: "true".into(),
                cwd: "/qwan".into(),
                env: Default::default(),
            },
        },
        limits: LimitsSpec { max_runtime_s: 60 },
    }
}

#[test]
fn scripted_qa_puts_text_in_script_text() {
    let spec = dummy_spec(JobKind::ScriptedQa);
    let m = build(inputs(&spec));
    assert!(m.task.script_text.is_some());
    assert!(m.task.report_text.is_none());
    assert_eq!(m.schema, "qwan.manifest/v1");
    assert_eq!(m.inference.dummy_key, "DUMMY");
}

#[test]
fn bug_fix_puts_text_in_report_text() {
    let spec = dummy_spec(JobKind::BugFix);
    let m = build(inputs(&spec));
    assert!(m.task.script_text.is_none());
    assert_eq!(m.task.report_text.as_deref(), Some("do the thing"));
    assert_eq!(m.repo.ref_, "main");
    assert_eq!(m.repo.checkout_path, "/work/app");
    assert_eq!(m.auth.case_token_file, "/qwan/case.token");
    assert_eq!(m.capture.fps, 5);
    assert_eq!(m.capture.segment_seconds, 4);
    assert_eq!(m.limits.max_runtime_s, 60);
}

#[test]
fn admits_up_to_cap_then_rejects() {
    let mut s = Scheduler::new(2);
    let a = s.try_admit().unwrap();
    let b = s.try_admit().unwrap();
    assert_eq!(s.live_count(), 2);
    let err = s.try_admit().unwrap_err();
    assert_eq!(err.code(), QwanCode::ResourceExhausted);
    assert_eq!(s.live_count(), 2);
    a.release(&mut s);
    assert_eq!(s.live_count(), 1);
    let c = s.try_admit().unwrap();
    assert_eq!(s.live_count(), 2);
    b.release(&mut s);
    c.release(&mut s);
    assert_eq!(s.live_count(), 0);
}

#[test]
fn zero_cap_rejects_everything() {
    let mut s = Scheduler::new(0);
    assert_eq!(s.try_admit().unwrap_err().code(), QwanCode::ResourceExhausted);
}

#[test]
fn refused_admission_names_the_counts() {
    let mut s = Scheduler::new(1);
    let _a = s.try_admit().unwrap();
    let err = s.try_admit().unwrap_err();
    assert_eq!(err.message(), "no free slot: 1/1 cases live");
    assert_eq!(err.to_display_string(), "ResourceExhausted: no free slot: 1/1 cases live");
}

#[test]
fn manual_release_never_goes_below_zero() {
    let mut s = Scheduler::new(1);
    s.release();
    assert_eq!(s.live_count(), 0);
    let _a = s.try_admit().unwrap();
    s.release();
    assert_eq!(s.live_count(), 0);
}

#[test]
fn happy_path_transitions() {
    let s = CaseState::Admitted;
    let s = transition(s, CaseEvent::Provisioned).unwrap();
    let s = transition(s, CaseEvent::Booted).unwrap();
    let s = transition(s, CaseEvent::AgentPushed).unwrap();
    let s = transition(s, CaseEvent::AgentReady).unwrap();
    let s = transition(s, CaseEvent::Start).unwrap();
    assert_eq!(s, CaseState::Running);
    let s = transition(s, CaseEvent::Complete).unwrap();
    assert_eq!(s, CaseState::Completed);
    let s = transition(s, CaseEvent::TeardownDone).unwrap();
    assert_eq!(s, CaseState::Archived);
}

#[test]
fn illegal_transition_is_error() {
    let err = transition(CaseState::Admitted, CaseEvent::Start).unwrap_err();
    assert_eq!(err.code(), QwanCode::FailedPrecondition);
}

#[test]
fn illegal_transition_message_names_state_and_event() {
    let err = transition(CaseState::Admitted, CaseEvent::Start).unwrap_err();
    assert_eq!(err.message(), "illegal transition: Admitted + Start");
}

#[test]
fn intervention_holds_vm() {
    let s = transition(CaseState::Running, CaseEvent::RequestIntervention).unwrap();
    assert_eq!(s, CaseState::InterventionRequested);
    assert!(s.holds_vm());
}

#[test]
fn final_states_only_archive() {
    for s in [CaseState::Completed, CaseState::Failed, CaseState::Error] {
        assert!(s.is_terminal());
        assert_eq!(transition(s, CaseEvent::TeardownDone).unwrap(), CaseState::Archived);
        assert!(transition(s, CaseEvent::Start).is_err());
    }
    assert!(transition(CaseState::Archived, CaseEvent::TeardownDone).is_err());
}

fn cfg() -> OrchestratorConfig {
    OrchestratorConfig {
        broker_endpoint: "https://10.0.75.1:7443".into(),
        broker_cert_spki: "abc".into(),
        lmstudio_url: "http://10.0.75.1:1234/v1".into(),
        proxy_url: "http://10.0.75.1:8080".into(),
        proxy_ca_fpr: "def".into(),
        allowed_models: vec!["qwen2.5-coder-32b".into()],
        vswitch: "qwan-internal".into(),
        base_vhd_path: "/tmp/base.vhdx".into(),
        max_runtime_s: 3600,
    }
}

fn bootstrap(orch: &mut LocalOrchestrator, case_id: &CaseId) {
    orch.set_state(case_id, CaseState::Admitted);
    orch.advance(case_id, CaseEvent::Provisioned).unwrap();
    orch.advance(case_id, CaseEvent::Booted).unwrap();
    orch.advance(case_id, CaseEvent::AgentPushed).unwrap();
    orch.advance(case_id, CaseEvent::AgentReady).unwrap();
    orch.advance(case_id, CaseEvent::Start).unwrap();
}

#[test]
fn orchestrated_case_runs_and_finishes_with_pass() {
    let mut orch = LocalOrchestrator::new(2, cfg());
    let case_id = CaseId::from_str_inner("case_a");
    orch.admit_case(case_id.clone()).unwrap();
    assert_eq!(orch.live_count(), 1);
    bootstrap(&mut orch, &case_id);
    assert_eq!(orch.state_of(&case_id), Some(CaseState::Running));
    let handle = JobHandle { job_id: JobId::from_str_inner("job_a"), case_id: case_id.clone() };
    let outcome = orch.finish_case(&handle).unwrap();
    assert_eq!(outcome.result, CaseOutcome::Pass);
    assert_eq!(outcome.summary, "case completed");
    assert_eq!(outcome.report_url, "/jobs/_/cases/case_a");
    assert!(outcome.pr_url.is_none());
    assert_eq!(orch.state_of(&case_id), None);
    assert_eq!(orch.live_count(), 0);
}

#[test]
fn orchestrator_rejects_when_cap_full() {
    let mut orch = LocalOrchestrator::new(1, cfg());
    orch.admit_case(CaseId::from_str_inner("c1")).unwrap();
    let err = orch.admit_case(CaseId::from_str_inner("c2")).unwrap_err();
    assert_eq!(err.code(), QwanCode::ResourceExhausted);
    assert_eq!(orch.state_of(&CaseId::from_str_inner("c2")), None);
}

#[test]
fn advancing_an_unknown_case_is_not_found() {
    let mut orch = LocalOrchestrator::new(1, cfg());
    let err = orch.advance(&CaseId::from_str_inner("ghost"), CaseEvent::Start).unwrap_err();
    assert_eq!(err.code(), QwanCode::NotFound);
    assert_eq!(err.message(), "case ghost not in orchestrator");
}

#[test]
fn finishing_a_case_that_is_not_running_changes_nothing() {
    let mut orch = LocalOrchestrator::new(1, cfg());
    let case_id = CaseId::from_str_inner("c1");
    orch.admit_case(case_id.clone()).unwrap();
    let handle = JobHandle { job_id: JobId::from_str_inner("j"), case_id: case_id.clone() };
    let err = orch.finish_case(&handle).unwrap_err();
    assert_eq!(err.code(), QwanCode::FailedPrecondition);
    assert_eq!(orch.state_of(&case_id), Some(CaseState::Admitted));
    assert_eq!(orch.live_count(), 1);
}

#[test]
fn vm_spec_uses_config_and_job_caps() {
    let orch = LocalOrchestrator::new(1, cfg());
    let spec = dummy_spec(JobKind::ScriptedQa);
    let vm = orch.vm_spec(&spec, &CaseId::from_str_inner("c9"));
    assert_eq!(vm.case_id.as_str(), "c9");
    assert_eq!(vm.base_vhd_path, "/tmp/base.vhdx");
    assert_eq!(vm.vswitch, "qwan-internal");
    assert!(vm.caps.vcpu.is_none());
}

#[test]
fn discarded_case_is_torn_down_then_archived() {
    let s = transition(CaseState::Held, CaseEvent::Discard).unwrap();
    assert_eq!(s, CaseState::Teardown);
    assert!(!s.holds_vm());
    assert_eq!(transition(s, CaseEvent::TeardownDone).unwrap(), CaseState::Archived);
    assert!(transition(s, CaseEvent::Resume).is_err());
}

#[test]
fn illegal_event_is_refused_in_every_state() {
    let all = [
        CaseState::Admitted,
        CaseState::Provisioning,
        CaseState::Booting,
        CaseState::QwanAgentPushed,
        CaseState::ClineAgentReady,
        CaseState::Running,
        CaseState::InterventionRequested,
        CaseState::Held,
        CaseState::OsMigration,
        CaseState::Completed,
        CaseState::Failed,
        CaseState::Error,
        CaseState::Teardown,
        CaseState::Archived,
    ];
    for s in all {
        let err = transition(s, CaseEvent::Illegal).unwrap_err();
        assert_eq!(err.code(), QwanCode::FailedPrecondition);
    }
}

#[test]
fn bootstrap_stages_bring_a_case_to_running_in_order() {
    let mut orch = LocalOrchestrator::new(1, cfg());
    let c = CaseId::from_str_inner("c1");
    assert_eq!(orch.bootstrap_step(&c, BootstrapStage::Provision).unwrap_err().code(), QwanCode::NotFound);
    orch.admit_case(c.clone()).unwrap();
    let err = orch.bootstrap_step(&c, BootstrapStage::Ready).unwrap_err();
    assert_eq!(err.code(), QwanCode::FailedPrecondition);
    assert_eq!(orch.state_of(&c), Some(CaseState::Admitted));
    orch.bootstrap_step(&c, BootstrapStage::Provision).unwrap();
    assert_eq!(orch.state_of(&c), Some(CaseState::Provisioning));
    orch.bootstrap_step(&c, BootstrapStage::Boot).unwrap();
    assert_eq!(orch.state_of(&c), Some(CaseState::Booting));
    orch.bootstrap_step(&c, BootstrapStage::Ready).unwrap();
    assert_eq!(orch.state_of(&c), Some(CaseState::Running));
}
