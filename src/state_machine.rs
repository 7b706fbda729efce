//! The dunning ("chasing") state machine: a pure, total step function from
//! the current chase state and the number of days overdue to the next state
//! and the action to perform.
use vstd::prelude::*;
use crate::text::str_eq;

verus! {

/// How far an invoice has progressed through the chasing process.
#[derive(Debug, Clone, Copy, PartialEq, Eq, Structural)]
pub enum ChaseState {
    /// Due, but not yet overdue.
    Pending,
    /// The due date has passed.
    Overdue,
    /// A polite reminder has been sent.
    ChasingLevel1,
    /// A firm reminder has been sent.
    ChasingLevel2,
    /// Paid: terminal.
    Paid,
}

/// What the executor must do after a step.
#[derive(Debug, Clone, Copy, PartialEq, Eq, Structural)]
pub enum ChaseAction {
    SendPoliteReminder,
    SendFirmReminder,
    MarkAsPaid,
    NoAction,
}

/// The step of the chasing state machine, as a mathematical function.
pub open spec fn chase_step(state: ChaseState, days_overdue: int) -> (ChaseState, ChaseAction) {
    match state {
        ChaseState::Pending => if days_overdue > 0 {
            (ChaseState::Overdue, ChaseAction::SendPoliteReminder)
        } else {
            (ChaseState::Pending, ChaseAction::NoAction)
        },
        ChaseState::Overdue => (ChaseState::ChasingLevel1, ChaseAction::SendPoliteReminder),
        ChaseState::ChasingLevel1 => if days_overdue >= 7 {
            (ChaseState::ChasingLevel2, ChaseAction::SendFirmReminder)
        } else {
            (ChaseState::ChasingLevel1, ChaseAction::NoAction)
        },
        ChaseState::ChasingLevel2 => (ChaseState::ChasingLevel2, ChaseAction::NoAction),
        ChaseState::Paid => (ChaseState::Paid, ChaseAction::NoAction),
    }
}

impl ChaseState {
    /// The name under which the state is stored in invoice metadata.
    pub open spec fn spec_name(self) -> Seq<char> {
        match self {
            ChaseState::Pending => "pending"@,
            ChaseState::Overdue => "overdue"@,
            ChaseState::ChasingLevel1 => "chasing_level_1"@,
            ChaseState::ChasingLevel2 => "chasing_level_2"@,
            ChaseState::Paid => "paid"@,
        }
    }

    /// The state stored under a name, if any.
    pub open spec fn spec_from_name(name: Seq<char>) -> Option<ChaseState> {
        if name == "pending"@ {
            Some(ChaseState::Pending)
        } else if name == "overdue"@ {
            Some(ChaseState::Overdue)
        } else if name == "chasing_level_1"@ {
            Some(ChaseState::ChasingLevel1)
        } else if name == "chasing_level_2"@ {
            Some(ChaseState::ChasingLevel2)
        } else if name == "paid"@ {
            Some(ChaseState::Paid)
        } else {
            None
        }
    }

    /// Reads a stored state name.
    pub fn from_name(name: &str) -> (r: Option<ChaseState>)
        ensures
            r == Self::spec_from_name(name@),
    {
        if str_eq(name, "pending") {
            Some(ChaseState::Pending)
        } else if str_eq(name, "overdue") {
            Some(ChaseState::Overdue)
        } else if str_eq(name, "chasing_level_1") {
            Some(ChaseState::ChasingLevel1)
        } else if str_eq(name, "chasing_level_2") {
            Some(ChaseState::ChasingLevel2)
        } else if str_eq(name, "paid") {
            Some(ChaseState::Paid)
        } else {
            None
        }
    }

    /// The stored name of the state.
    pub fn as_str(&self) -> (r: &'static str)
        ensures
            r@ == self.spec_name(),
    {
        match self {
            ChaseState::Pending => "pending",
            ChaseState::Overdue => "overdue",
            ChaseState::ChasingLevel1 => "chasing_level_1",
            ChaseState::ChasingLevel2 => "chasing_level_2",
            ChaseState::Paid => "paid",
        }
    }

    /// The stored name of the state, owned.
    pub fn to_string(&self) -> (r: String)
        ensures
            r@ == self.spec_name(),
    {
        self.as_str().to_owned()
    }
}

impl ChaseAction {
    pub open spec fn spec_name(self) -> Seq<char> {
        match self {
            ChaseAction::SendPoliteReminder => "send_polite_reminder"@,
            ChaseAction::SendFirmReminder => "send_firm_reminder"@,
            ChaseAction::MarkAsPaid => "mark_as_paid"@,
            ChaseAction::NoAction => "no_action"@,
        }
    }

    /// The name of the action, as it appears in logs.
    pub fn as_str(&self) -> (r: &'static str)
        ensures
            r@ == self.spec_name(),
    {
        match self {
            ChaseAction::SendPoliteReminder => "send_polite_reminder",
            ChaseAction::SendFirmReminder => "send_firm_reminder",
            ChaseAction::MarkAsPaid => "mark_as_paid",
            ChaseAction::NoAction => "no_action",
        }
    }

    pub fn to_string(&self) -> (r: String)
        ensures
            r@ == self.spec_name(),
    {
        self.as_str().to_owned()
    }
}

/// A chasing state machine: a step function and an initial state.
pub trait Transition {
    /// The step, as a mathematical function.
    spec fn spec_transition(current_state: ChaseState, days_overdue: int) -> (ChaseState, ChaseAction);

    /// Determines the next state and the action to take.
    fn transition(current_state: ChaseState, days_overdue: i64) -> (r: (ChaseState, ChaseAction))
        ensures
            r == Self::spec_transition(current_state, days_overdue as int),
    ;

    /// The state of an invoice that has never been chased.
    fn initial_state() -> (r: ChaseState)
        ensures
            r == ChaseState::Pending,
    {
        ChaseState::Pending
    }
}

/// The default chasing policy (see [`chase_step`]).
pub struct ChaseStateMachine;

impl Transition for ChaseStateMachine {
    open spec fn spec_transition(current_state: ChaseState, days_overdue: int) -> (ChaseState, ChaseAction) {
        chase_step(current_state, days_overdue)
    }

    fn transition(current_state: ChaseState, days_overdue: i64) -> (r: (ChaseState, ChaseAction)) {
        match current_state {
            ChaseState::Pending => {
                if days_overdue > 0 {
                    (ChaseState::Overdue, ChaseAction::SendPoliteReminder)
                } else {
                    (ChaseState::Pending, ChaseAction::NoAction)
                }
            },
            ChaseState::Overdue => (ChaseState::ChasingLevel1, ChaseAction::SendPoliteReminder),
            ChaseState::ChasingLevel1 => {
                if days_overdue >= 7 {
                    (ChaseState::ChasingLevel2, ChaseAction::SendFirmReminder)
                } else {
                    (ChaseState::ChasingLevel1, ChaseAction::NoAction)
                }
            },
            ChaseState::ChasingLevel2 => (ChaseState::ChasingLevel2, ChaseAction::NoAction),
            ChaseState::Paid => (ChaseState::Paid, ChaseAction::NoAction),
        }
    }
}

/// Paid is a fixed point of the step, whatever the number of days overdue.
pub proof fn lemma_paid_is_terminal(days_overdue: int)
    ensures
        chase_step(ChaseState::Paid, days_overdue) == (ChaseState::Paid, ChaseAction::NoAction),
{
}

/// The step is deterministic: equal inputs give equal outputs.
pub proof fn lemma_step_deterministic(s1: ChaseState, d1: int, s2: ChaseState, d2: int)
    requires
        s1 == s2,
        d1 == d2,
    ensures
        chase_step(s1, d1) == chase_step(s2, d2),
{
}

} // verus!
