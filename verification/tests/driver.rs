use lam::driver::{
    advance, effective_budget, is_final, must_yield, plain_text, settle, DriverState,
    ResumeEvent, DEFAULT_BUDGET,
};
use lam::host::UnitStatus;
use lam::{LamError, StateValue};
use std::time::Duration;

#[test]
fn budget_defaults_to_thirty_seconds() {
    assert_eq!(30, DEFAULT_BUDGET);
    assert_eq!(30, effective_budget(None));
    assert_eq!(1, effective_budget(Some(1)));
    assert_eq!(0, effective_budget(Some(0)));
}

#[test]
fn yield_once_the_budget_is_spent() {
    assert!(!must_yield(0, 1));
    assert!(must_yield(1, 1));
    assert!(must_yield(2, 1));
    assert!(must_yield(0, 0));
    assert!(!must_yield(59, 60));
}

#[test]
fn first_resume_leaves_created() {
    let gave = ResumeEvent::Gave(UnitStatus::Resumable);
    assert_eq!(DriverState::Running, advance(DriverState::Created, gave, 0, 1));
    assert_eq!(DriverState::Suspended, advance(DriverState::Created, gave, 1, 1));
}

#[test]
fn return_completes_even_past_the_budget() {
    let gave = ResumeEvent::Gave(UnitStatus::Finished);
    assert_eq!(DriverState::Completed, advance(DriverState::Running, gave, 0, 1));
    assert_eq!(DriverState::Completed, advance(DriverState::Running, gave, 5, 1));
    assert_eq!(DriverState::Completed, advance(DriverState::Created, gave, 0, 30));
    let failed = ResumeEvent::Gave(UnitStatus::Failed);
    assert_eq!(DriverState::Completed, advance(DriverState::Running, failed, 0, 1));
}

#[test]
fn fault_ends_in_errored() {
    assert_eq!(
        DriverState::Errored,
        advance(DriverState::Running, ResumeEvent::Faulted, 0, 1)
    );
    assert_eq!(
        DriverState::Errored,
        advance(DriverState::Created, ResumeEvent::Faulted, 9, 1)
    );
}

#[test]
fn final_states_stay() {
    let events = [
        ResumeEvent::Faulted,
        ResumeEvent::Gave(UnitStatus::Resumable),
        ResumeEvent::Gave(UnitStatus::Finished),
    ];
    for state in [DriverState::Suspended, DriverState::Completed, DriverState::Errored] {
        assert!(is_final(state));
        for event in events {
            assert_eq!(state, advance(state, event, 0, 1));
        }
    }
    assert!(!is_final(DriverState::Created));
    assert!(!is_final(DriverState::Running));
}

#[test]
fn text_of_values_that_are_no_numbers() {
    assert_eq!(Some(String::new()), plain_text(&StateValue::Absent));
    assert_eq!(Some("true".to_string()), plain_text(&StateValue::Boolean(true)));
    assert_eq!(Some("false".to_string()), plain_text(&StateValue::Boolean(false)));
    assert_eq!(Some("lam".to_string()), plain_text(&StateValue::Text("lam".to_string())));
    assert_eq!(None, plain_text(&StateValue::Number(0)));
}

#[test]
fn completion_and_suspension_give_the_text() {
    let time = Duration::from_millis(1500);
    for state in [DriverState::Completed, DriverState::Suspended] {
        let r = settle(state, String::new(), Ok("done".to_string()), time).unwrap();
        assert_eq!(time, r.duration);
        assert_eq!("done", r.result);
    }
}

#[test]
fn fault_gives_the_fault() {
    let time = Duration::from_millis(1500);
    let err = settle(DriverState::Errored, "boom".to_string(), Ok(String::new()), time);
    assert_eq!(LamError::Runtime("boom".to_string()), err.unwrap_err());
}

#[test]
fn text_that_cannot_be_written_is_a_fault() {
    let time = Duration::from_millis(1500);
    let err = settle(DriverState::Completed, String::new(), Err("full".to_string()), time);
    assert_eq!(LamError::Runtime("full".to_string()), err.unwrap_err());
}
