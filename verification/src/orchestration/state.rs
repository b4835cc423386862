//! Case state machine. Admission is a synchronous accept/reject (hard cap,
//! no queue). States flow:
//!
//! ```text
//! submit -> Admitted -> Provisioning -> Booting -> QwanAgentPushed ->
//!           ClineAgentReady -> Running
//!   Running -> (Completed | Failed | Error) -> Archived (on teardown)
//!   Running -> InterventionRequested -> Held
//!   Running -> OsMigration -> Running
//!   Held -> (Resume -> Running | Discard -> Teardown -> Archived)
//! ```

use vstd::prelude::*;
use crate::proto::error::{QwanCode, QwanError, is_error};
use crate::text::{owned, push_str};

verus! {

/// The states of a case.
#[derive(Debug, Clone, Copy, PartialEq, Eq, Structural)]
pub enum CaseState {
    Admitted,
    Provisioning,
    Booting,
    QwanAgentPushed,
    ClineAgentReady,
    Running,
    InterventionRequested,
    Held,
    OsMigration,
    Completed,
    Failed,
    Error,
    Teardown,
    Archived,
}

/// Events that drive the state machine.
#[derive(Debug, Clone, Copy, PartialEq, Eq, Structural)]
pub enum CaseEvent {
    Admit,
    Provisioned,
    Booted,
    AgentPushed,
    AgentReady,
    Start,
    Complete,
    Fail,
    Errored,
    RequestIntervention,
    Resume,
    Discard,
    RequestOsMigration,
    Migrated,
    TeardownDone,
    /// An event that is illegal in the current state.
    Illegal,
}

/// The display name of each casestate (its variant name).
pub open spec fn state_name(x: CaseState) -> Seq<char> {
    match x {
        CaseState::Admitted => "Admitted"@,
        CaseState::Provisioning => "Provisioning"@,
        CaseState::Booting => "Booting"@,
        CaseState::QwanAgentPushed => "QwanAgentPushed"@,
        CaseState::ClineAgentReady => "ClineAgentReady"@,
        CaseState::Running => "Running"@,
        CaseState::InterventionRequested => "InterventionRequested"@,
        CaseState::Held => "Held"@,
        CaseState::OsMigration => "OsMigration"@,
        CaseState::Completed => "Completed"@,
        CaseState::Failed => "Failed"@,
        CaseState::Error => "Error"@,
        CaseState::Teardown => "Teardown"@,
        CaseState::Archived => "Archived"@,
    }
}

/// The display name of each caseevent (its variant name).
pub open spec fn event_name(x: CaseEvent) -> Seq<char> {
    match x {
        CaseEvent::Admit => "Admit"@,
        CaseEvent::Provisioned => "Provisioned"@,
        CaseEvent::Booted => "Booted"@,
        CaseEvent::AgentPushed => "AgentPushed"@,
        CaseEvent::AgentReady => "AgentReady"@,
        CaseEvent::Start => "Start"@,
        CaseEvent::Complete => "Complete"@,
        CaseEvent::Fail => "Fail"@,
        CaseEvent::Errored => "Errored"@,
        CaseEvent::RequestIntervention => "RequestIntervention"@,
        CaseEvent::Resume => "Resume"@,
        CaseEvent::Discard => "Discard"@,
        CaseEvent::RequestOsMigration => "RequestOsMigration"@,
        CaseEvent::Migrated => "Migrated"@,
        CaseEvent::TeardownDone => "TeardownDone"@,
        CaseEvent::Illegal => "Illegal"@,
    }
}

/// The state machine's transition relation: the next state, or `None`
/// when the event is illegal in `from`.
pub open spec fn next_state(from: CaseState, event: CaseEvent) -> Option<CaseState> {
    match (from, event) {
        (CaseState::Admitted, CaseEvent::Provisioned) => Some(CaseState::Provisioning),
        (CaseState::Provisioning, CaseEvent::Booted) => Some(CaseState::Booting),
        (CaseState::Booting, CaseEvent::AgentPushed) => Some(CaseState::QwanAgentPushed),
        (CaseState::QwanAgentPushed, CaseEvent::AgentReady) => Some(CaseState::ClineAgentReady),
        (CaseState::ClineAgentReady, CaseEvent::Start) => Some(CaseState::Running),
        (CaseState::Running, CaseEvent::Complete) => Some(CaseState::Completed),
        (CaseState::Running, CaseEvent::Fail) => Some(CaseState::Failed),
        (CaseState::Running, CaseEvent::Errored) => Some(CaseState::Error),
        (CaseState::Running, CaseEvent::RequestIntervention) => Some(CaseState::InterventionRequested),
        (CaseState::InterventionRequested, CaseEvent::Resume) => Some(CaseState::Held),
        (CaseState::Held, CaseEvent::Resume) => Some(CaseState::Running),
        (CaseState::Held, CaseEvent::Discard) => Some(CaseState::Teardown),
        (CaseState::Running, CaseEvent::RequestOsMigration) => Some(CaseState::OsMigration),
        (CaseState::OsMigration, CaseEvent::Migrated) => Some(CaseState::Running),
        (CaseState::Completed, CaseEvent::TeardownDone) => Some(CaseState::Archived),
        (CaseState::Failed, CaseEvent::TeardownDone) => Some(CaseState::Archived),
        (CaseState::Error, CaseEvent::TeardownDone) => Some(CaseState::Archived),
        (CaseState::Teardown, CaseEvent::TeardownDone) => Some(CaseState::Archived),
        _ => None,
    }
}

/// Terminal-ish states: no further guest work.
pub open spec fn terminal(s: CaseState) -> bool {
    s == CaseState::Completed || s == CaseState::Failed || s == CaseState::Error || s
        == CaseState::Archived
}

/// States that hold a live VM (auto-teardown must be suppressed).
pub open spec fn holding(s: CaseState) -> bool {
    s == CaseState::Held || s == CaseState::InterventionRequested
}

/// The message of an illegal transition.
pub open spec fn illegal_message(from: CaseState, event: CaseEvent) -> Seq<char> {
    "illegal transition: "@ + state_name(from) + " + "@ + event_name(event)
}

impl CaseState {
    /// Is this a terminal-ish state (no further guest work)?
    pub fn is_terminal(self) -> (r: bool)
        ensures
            r == terminal(self),
    {
        match self {
            CaseState::Completed | CaseState::Failed | CaseState::Error | CaseState::Archived => true,
            _ => false,
        }
    }

    /// Does the case hold a live VM?
    pub fn holds_vm(self) -> (r: bool)
        ensures
            r == holding(self),
    {
        match self {
            CaseState::Held | CaseState::InterventionRequested => true,
            _ => false,
        }
    }

    /// The display name (variant name).
    pub fn name(self) -> (r: &'static str)
        ensures
            r@ == state_name(self),
    {
        match self {
            CaseState::Admitted => "Admitted",
            CaseState::Provisioning => "Provisioning",
            CaseState::Booting => "Booting",
            CaseState::QwanAgentPushed => "QwanAgentPushed",
            CaseState::ClineAgentReady => "ClineAgentReady",
            CaseState::Running => "Running",
            CaseState::InterventionRequested => "InterventionRequested",
            CaseState::Held => "Held",
            CaseState::OsMigration => "OsMigration",
            CaseState::Completed => "Completed",
            CaseState::Failed => "Failed",
            CaseState::Error => "Error",
            CaseState::Teardown => "Teardown",
            CaseState::Archived => "Archived",
        }
    }
}

impl CaseEvent {
    /// The display name (variant name).
    pub fn name(self) -> (r: &'static str)
        ensures
            r@ == event_name(self),
    {
        match self {
            CaseEvent::Admit => "Admit",
            CaseEvent::Provisioned => "Provisioned",
            CaseEvent::Booted => "Booted",
            CaseEvent::AgentPushed => "AgentPushed",
            CaseEvent::AgentReady => "AgentReady",
            CaseEvent::Start => "Start",
            CaseEvent::Complete => "Complete",
            CaseEvent::Fail => "Fail",
            CaseEvent::Errored => "Errored",
            CaseEvent::RequestIntervention => "RequestIntervention",
            CaseEvent::Resume => "Resume",
            CaseEvent::Discard => "Discard",
            CaseEvent::RequestOsMigration => "RequestOsMigration",
            CaseEvent::Migrated => "Migrated",
            CaseEvent::TeardownDone => "TeardownDone",
            CaseEvent::Illegal => "Illegal",
        }
    }
}

/// Pure transition function: the next state, or `FailedPrecondition` with
/// the message `illegal transition: <from> + <event>`.
pub fn transition(from: CaseState, event: CaseEvent) -> (r: Result<CaseState, QwanError>)
    ensures
        match next_state(from, event) {
            Some(s) => r == Ok::<CaseState, QwanError>(s),
            None => r matches Err(e) && is_error(
                e,
                QwanCode::FailedPrecondition,
                illegal_message(from, event),
            ),
        },
{
    let next = match (from, event) {
        (CaseState::Admitted, CaseEvent::Provisioned) => CaseState::Provisioning,
        (CaseState::Provisioning, CaseEvent::Booted) => CaseState::Booting,
        (CaseState::Booting, CaseEvent::AgentPushed) => CaseState::QwanAgentPushed,
        (CaseState::QwanAgentPushed, CaseEvent::AgentReady) => CaseState::ClineAgentReady,
        (CaseState::ClineAgentReady, CaseEvent::Start) => CaseState::Running,
        (CaseState::Running, CaseEvent::Complete) => CaseState::Completed,
        (CaseState::Running, CaseEvent::Fail) => CaseState::Failed,
        (CaseState::Running, CaseEvent::Errored) => CaseState::Error,
        (CaseState::Running, CaseEvent::RequestIntervention) => CaseState::InterventionRequested,
        (CaseState::InterventionRequested, CaseEvent::Resume) => CaseState::Held,
        (CaseState::Held, CaseEvent::Resume) => CaseState::Running,
        (CaseState::Held, CaseEvent::Discard) => CaseState::Teardown,
        (CaseState::Running, CaseEvent::RequestOsMigration) => CaseState::OsMigration,
        (CaseState::OsMigration, CaseEvent::Migrated) => CaseState::Running,
        (CaseState::Completed, CaseEvent::TeardownDone) => CaseState::Archived,
        (CaseState::Failed, CaseEvent::TeardownDone) => CaseState::Archived,
        (CaseState::Error, CaseEvent::TeardownDone) => CaseState::Archived,
        (CaseState::Teardown, CaseEvent::TeardownDone) => CaseState::Archived,
        _ => {
            let mut m = owned("illegal transition: ");
            push_str(&mut m, from.name());
            push_str(&mut m, " + ");
            push_str(&mut m, event.name());
            return Err(QwanError::new(QwanCode::FailedPrecondition, m.as_str()));
        },
    };
    Ok(next)
}

/// Every accepted event moves the case to a different state.
pub proof fn lemma_transition_changes_state(from: CaseState, event: CaseEvent)
    requires
        next_state(from, event) is Some,
    ensures
        next_state(from, event).unwrap() != from,
{
}

/// The `Illegal` event is refused in every state.
pub proof fn lemma_illegal_always_refused(from: CaseState)
    ensures
        next_state(from, CaseEvent::Illegal) is None,
{
}

/// `Archived` is final: no event leaves it.
pub proof fn lemma_final_states_absorb(from: CaseState, event: CaseEvent)
    requires
        from == CaseState::Archived,
    ensures
        next_state(from, event) is None,
{
}

/// A discarded case is torn down and then archived, and nothing else
/// happens to it on the way.
pub proof fn lemma_discard_leads_to_archive(event: CaseEvent)
    ensures
        next_state(CaseState::Held, CaseEvent::Discard) == Some(CaseState::Teardown),
        next_state(CaseState::Teardown, event) is Some <==> event == CaseEvent::TeardownDone,
        next_state(CaseState::Teardown, CaseEvent::TeardownDone) == Some(CaseState::Archived),
{
}

/// The bootstrap sequence Provisioned, Booted, AgentPushed, AgentReady,
/// Start takes an admitted case to `Running`.
pub proof fn lemma_bootstrap_reaches_running()
    ensures
        next_state(CaseState::Admitted, CaseEvent::Provisioned) == Some(CaseState::Provisioning),
        next_state(CaseState::Provisioning, CaseEvent::Booted) == Some(CaseState::Booting),
        next_state(CaseState::Booting, CaseEvent::AgentPushed) == Some(CaseState::QwanAgentPushed),
        next_state(CaseState::QwanAgentPushed, CaseEvent::AgentReady) == Some(
            CaseState::ClineAgentReady,
        ),
        next_state(CaseState::ClineAgentReady, CaseEvent::Start) == Some(CaseState::Running),
{
}

/// A terminal case other than `Archived` is archived by `TeardownDone`, and
/// that is the only event it accepts.
pub proof fn lemma_terminal_only_archives(from: CaseState, event: CaseEvent)
    requires
        terminal(from),
        from != CaseState::Archived,
    ensures
        next_state(from, event) is Some <==> event == CaseEvent::TeardownDone,
        event == CaseEvent::TeardownDone ==> next_state(from, event) == Some(CaseState::Archived),
{
}

/// The only way into a VM-holding state is an intervention request on a
/// running case, or the hold that follows it.
pub proof fn lemma_holding_entered_by_intervention(from: CaseState, event: CaseEvent)
    requires
        next_state(from, event) matches Some(s) && holding(s),
        !holding(from),
    ensures
        from == CaseState::Running && event == CaseEvent::RequestIntervention,
{
}

/// A running case ends by the event that names its outcome: whichever
/// event takes it to a terminal state, the event's name and the state's
/// name agree (`Complete` to `Completed`, `Fail` to `Failed`, `Errored` to
/// `Error`), so no outcome is reported under another one's name.
pub proof fn lemma_run_outcome_named_by_event(event: CaseEvent, to: CaseState)
    requires
        next_state(CaseState::Running, event) == Some(to),
        terminal(to),
    ensures
        event_name(event).is_prefix_of(state_name(to)) || state_name(to).is_prefix_of(
            event_name(event),
        ),
{
    reveal_strlit("Complete");
    reveal_strlit("Completed");
    reveal_strlit("Fail");
    reveal_strlit("Failed");
    reveal_strlit("Errored");
    reveal_strlit("Error");
    reveal_strlit("Archived");
    if event == CaseEvent::Complete {
        assert(state_name(to) == "Completed"@);
        assert(event_name(event) =~= state_name(to).subrange(0, 8));
    } else if event == CaseEvent::Fail {
        assert(state_name(to) == "Failed"@);
        assert(event_name(event) =~= state_name(to).subrange(0, 4));
    } else {
        assert(event == CaseEvent::Errored);
        assert(state_name(to) =~= event_name(event).subrange(0, 5));
    }
}

/// Completing, failing and erroring each end a running case: the case
/// lands in a terminal state that still awaits its teardown.
pub proof fn lemma_run_ending_events_end_the_run(event: CaseEvent)
    requires
        event == CaseEvent::Complete || event == CaseEvent::Fail || event == CaseEvent::Errored,
    ensures
        next_state(CaseState::Running, event) matches Some(s) && terminal(s) && s
            != CaseState::Archived,
{
}

/// Distinct events take a running case to distinct states: no two ways of
/// ending or pausing a run are confused.
pub proof fn lemma_running_events_distinct(e1: CaseEvent, e2: CaseEvent)
    requires
        next_state(CaseState::Running, e1) is Some,
        next_state(CaseState::Running, e1) == next_state(CaseState::Running, e2),
    ensures
        e1 == e2,
{
}

} // verus!
