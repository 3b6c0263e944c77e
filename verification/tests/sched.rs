use linkwatch::sched::SchedAction;
use linkwatch::sched::SchedEvent;
use linkwatch::sched::SchedState;
use linkwatch::sched::sched_step;

#[test]
fn a_tick_without_a_live_run_just_starts_one() {
    let (next, actions) = sched_step(SchedState { run_live: false }, SchedEvent::Tick);

    assert_eq!(actions, vec![SchedAction::StartRun]);
    assert!(next.run_live);
}

#[test]
fn a_tick_cancels_the_live_run_before_starting_the_next() {
    let (next, actions) = sched_step(SchedState { run_live: true }, SchedEvent::Tick);

    assert_eq!(actions, vec![SchedAction::CancelRun, SchedAction::StartRun]);
    assert!(next.run_live);
}

#[test]
fn a_cancel_signals_the_live_run() {
    let (next, actions) = sched_step(SchedState { run_live: true }, SchedEvent::CancelRequested);

    assert_eq!(actions, vec![SchedAction::CancelRun]);
    assert!(!next.run_live);
}

#[test]
fn a_cancel_without_a_live_run_does_nothing() {
    let (next, actions) = sched_step(SchedState { run_live: false }, SchedEvent::CancelRequested);

    assert!(actions.is_empty());
    assert!(!next.run_live);
}

#[test]
fn a_clean_reload_adopts_the_new_configuration() {
    let (next, actions) = sched_step(SchedState { run_live: true }, SchedEvent::ReloadOk);

    assert_eq!(actions, vec![SchedAction::AdoptNewConfig]);
    assert!(next.run_live);
}

#[test]
fn a_failed_reload_keeps_the_old_configuration_and_the_loop() {
    let (next, actions) = sched_step(SchedState { run_live: true }, SchedEvent::ReloadFailed);

    assert_eq!(actions, vec![SchedAction::KeepConfig]);
    assert!(next.run_live);
}

#[test]
fn a_finished_run_clears_the_live_handle() {
    let (next, actions) = sched_step(SchedState { run_live: true }, SchedEvent::RunFinished);

    assert!(actions.is_empty());
    assert!(!next.run_live);
}
