use gigpilot_core::state_machine::{ChaseAction, ChaseState, ChaseStateMachine, Transition};

#[test]
fn test_pending_to_overdue_transition() {
    let (next_state, action) = ChaseStateMachine::transition(ChaseState::Pending, 1);
    assert_eq!(next_state, ChaseState::Overdue);
    assert_eq!(action, ChaseAction::SendPoliteReminder);
}

#[test]
fn test_overdue_to_chasing_level_1() {
    let (next_state, action) = ChaseStateMachine::transition(ChaseState::Overdue, 1);
    assert_eq!(next_state, ChaseState::ChasingLevel1);
    assert_eq!(action, ChaseAction::SendPoliteReminder);
}

#[test]
fn test_chasing_level_1_to_level_2() {
    let (next_state, action) = ChaseStateMachine::transition(ChaseState::ChasingLevel1, 7);
    assert_eq!(next_state, ChaseState::ChasingLevel2);
    assert_eq!(action, ChaseAction::SendFirmReminder);
}

#[test]
fn test_paid_state_no_transition() {
    let (next_state, action) = ChaseStateMachine::transition(ChaseState::Paid, 100);
    assert_eq!(next_state, ChaseState::Paid);
    assert_eq!(action, ChaseAction::NoAction);
}

#[test]
fn transition_table_matches_the_chasing_policy() {
    let cases = [
        (ChaseState::Pending, 0, ChaseState::Pending, ChaseAction::NoAction),
        (ChaseState::Pending, 1, ChaseState::Overdue, ChaseAction::SendPoliteReminder),
        (ChaseState::Overdue, 3, ChaseState::ChasingLevel1, ChaseAction::SendPoliteReminder),
        (ChaseState::ChasingLevel1, 6, ChaseState::ChasingLevel1, ChaseAction::NoAction),
        (ChaseState::ChasingLevel1, 7, ChaseState::ChasingLevel2, ChaseAction::SendFirmReminder),
        (ChaseState::ChasingLevel2, 365, ChaseState::ChasingLevel2, ChaseAction::NoAction),
        (ChaseState::Paid, 365, ChaseState::Paid, ChaseAction::NoAction),
    ];
    for (state, days, next, action) in cases {
        assert_eq!(ChaseStateMachine::transition(state, days), (next, action));
    }
}

#[test]
fn paid_is_a_fixed_point_for_any_days() {
    for days in [i64::MIN, -1, 0, 1, 7, 10_000, i64::MAX] {
        assert_eq!(
            ChaseStateMachine::transition(ChaseState::Paid, days),
            (ChaseState::Paid, ChaseAction::NoAction)
        );
        // the same input gives the same output
        assert_eq!(
            ChaseStateMachine::transition(ChaseState::ChasingLevel1, days),
            ChaseStateMachine::transition(ChaseState::ChasingLevel1, days)
        );
    }
}

#[test]
fn pending_with_negative_days_stays_pending() {
    assert_eq!(
        ChaseStateMachine::transition(ChaseState::Pending, -5),
        (ChaseState::Pending, ChaseAction::NoAction)
    );
}

#[test]
fn initial_state_is_pending() {
    assert_eq!(ChaseStateMachine::initial_state(), ChaseState::Pending);
}

#[test]
fn state_and_action_names() {
    assert_eq!(ChaseState::ChasingLevel1.to_string(), "chasing_level_1");
    assert_eq!(ChaseState::Paid.as_str(), "paid");
    assert_eq!(ChaseAction::SendFirmReminder.to_string(), "send_firm_reminder");
    assert_eq!(ChaseAction::MarkAsPaid.as_str(), "mark_as_paid");
    assert_eq!(ChaseState::from_name("chasing_level_2"), Some(ChaseState::ChasingLevel2));
    assert_eq!(ChaseState::from_name("bogus"), None);
}
