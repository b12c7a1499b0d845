use maiq_cache::clock::{day_of_timestamp, seconds_of_day, seconds_until_midnight, seconds_until_reset};
use maiq_cache::config::parse_var;
use maiq_cache::model::Fetch;
use maiq_cache::supervisor::{
    supervise_step, SupervisorAction, SupervisorEvent, SupervisorState, RESTART_BACKOFF_SECS,
};

#[test]
fn parse_var_reads_decimal() {
    assert_eq!(parse_var("0"), Some(0));
    assert_eq!(parse_var("123"), Some(123));
    assert_eq!(parse_var("0600"), Some(600));
}

#[test]
fn parse_var_rejects_empty_and_non_digits() {
    assert_eq!(parse_var(""), None);
    assert_eq!(parse_var("12a"), None);
    assert_eq!(parse_var("-5"), None);
    assert_eq!(parse_var(" 5"), None);
    assert_eq!(parse_var("1.5"), None);
}

#[test]
fn parse_var_bounds() {
    assert_eq!(parse_var("18446744073709551615"), Some(u64::MAX));
    assert_eq!(parse_var("18446744073709551616"), None);
    assert_eq!(parse_var("99999999999999999999999"), None);
}

#[test]
fn fetch_from_param() {
    assert_eq!(Fetch::from_param("today"), Some(Fetch::Today));
    assert_eq!(Fetch::from_param("tomorrow"), Some(Fetch::Next));
    assert_eq!(Fetch::from_param("next"), Some(Fetch::Next));
    assert_eq!(Fetch::from_param("yesterday"), None);
    assert_eq!(Fetch::from_param(""), None);
}

#[test]
fn supervisor_tick_runs_cycle() {
    let (s, a) = supervise_step(SupervisorState::Idle, SupervisorEvent::Tick);
    assert_eq!(s, SupervisorState::Running);
    assert_eq!(a, SupervisorAction::RunCycle);
}

#[test]
fn supervisor_finished_cycle_returns_to_idle() {
    let (s, a) = supervise_step(SupervisorState::Running, SupervisorEvent::CycleOk);
    assert_eq!(s, SupervisorState::Idle);
    assert_eq!(a, SupervisorAction::AwaitTick);
}

#[test]
fn supervisor_fault_crashes_then_backs_off_then_restarts() {
    let (s, a) = supervise_step(SupervisorState::Running, SupervisorEvent::CycleFault);
    assert_eq!(s, SupervisorState::Crashed);
    assert_eq!(a, SupervisorAction::AwaitBackoff);
    // A tick while crashed does not start a cycle.
    let (s, a) = supervise_step(s, SupervisorEvent::Tick);
    assert_eq!(s, SupervisorState::Crashed);
    assert_eq!(a, SupervisorAction::AwaitBackoff);
    // After the backoff the supervisor is back on its timer loop.
    let (s, a) = supervise_step(s, SupervisorEvent::BackoffDone);
    assert_eq!(s, SupervisorState::Idle);
    assert_eq!(a, SupervisorAction::AwaitTick);
    assert_eq!(RESTART_BACKOFF_SECS, 10);
}

#[test]
fn supervisor_ignores_stray_events() {
    let (s, a) = supervise_step(SupervisorState::Idle, SupervisorEvent::CycleOk);
    assert_eq!(s, SupervisorState::Idle);
    assert_eq!(a, SupervisorAction::AwaitTick);
    let (s, a) = supervise_step(SupervisorState::Running, SupervisorEvent::Tick);
    assert_eq!(s, SupervisorState::Running);
    assert_eq!(a, SupervisorAction::AwaitTick);
}

#[test]
fn day_and_second_arithmetic() {
    assert_eq!(day_of_timestamp(0, 0), 0);
    assert_eq!(day_of_timestamp(86399, 0), 0);
    assert_eq!(day_of_timestamp(86400, 0), 1);
    // A three-hour offset moves the day boundary.
    assert_eq!(day_of_timestamp(86400 - 10800, 10800), 1);
    assert_eq!(seconds_of_day(86400 + 7, 0), 7);
    assert_eq!(seconds_until_midnight(0), 86400);
    assert_eq!(seconds_until_midnight(86399), 1);
}

#[test]
fn seconds_until_reset_is_within_a_day() {
    let r = seconds_until_reset(10800);
    assert!(1 <= r && r <= 86400);
}
