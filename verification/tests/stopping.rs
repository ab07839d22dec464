use virtual_core::model::Engine;
use virtual_core::session::run_end;
use virtual_core::stopping::{stop_step, StopAction, StopPhase};

/// Runs a stop with the given answers to polls (true: the process has ended) and a
/// delivered request; returns the actions in order.
fn actions(engine: Engine, force: bool, delivered: bool, ends_after: Option<usize>) -> Vec<StopAction> {
    let mut out = Vec::new();
    let mut phase = StopPhase::Start { force };
    let mut outcome = false;
    let mut polls = 0usize;
    loop {
        let (next, action) = stop_step(engine, phase, outcome);
        out.push(action);
        if action == StopAction::Finish {
            return out;
        }
        outcome = match next {
            StopPhase::Requested => delivered,
            StopPhase::Polling(_) => {
                polls += 1;
                ends_after == Some(polls)
            }
            _ => true,
        };
        phase = next;
        assert!(out.len() < 200, "a stop must end");
    }
}

#[test]
fn forced_qemu_stop_quits_then_kills() {
    assert_eq!(
        actions(Engine::Qemu, true, true, None),
        vec![StopAction::SendQuit, StopAction::Sleep(300), StopAction::Kill, StopAction::Finish]
    );
}

#[test]
fn forced_console_stop_kills_at_once() {
    assert_eq!(actions(Engine::Libretro, true, true, None), vec![StopAction::Kill, StopAction::Finish]);
}

#[test]
fn undelivered_request_kills() {
    assert_eq!(
        actions(Engine::Qemu, false, false, None),
        vec![StopAction::SendPowerdown, StopAction::Kill, StopAction::Finish]
    );
    assert_eq!(
        actions(Engine::Libretro, false, false, None),
        vec![StopAction::SendRetroQuit, StopAction::Kill, StopAction::Finish]
    );
}

#[test]
fn process_that_ends_is_not_killed() {
    let a = actions(Engine::Qemu, false, true, Some(3));
    assert_eq!(a.len(), 1 + 3 * 2 + 1);
    assert!(!a.contains(&StopAction::Kill));
    assert_eq!(a.last(), Some(&StopAction::Finish));
}

#[test]
fn qemu_escalates_after_ten_seconds() {
    let a = actions(Engine::Qemu, false, true, None);
    assert_eq!(a.iter().filter(|x| **x == StopAction::Poll).count(), 40);
    assert_eq!(a.iter().filter(|x| **x == StopAction::Sleep(250)).count(), 40);
    assert_eq!(&a[a.len() - 4..], &[StopAction::SendQuit, StopAction::Sleep(500), StopAction::Kill, StopAction::Finish]);
}

#[test]
fn console_escalates_after_five_seconds() {
    let a = actions(Engine::Libretro, false, true, None);
    assert_eq!(a.iter().filter(|x| **x == StopAction::Poll).count(), 20);
    assert_eq!(&a[a.len() - 2..], &[StopAction::Kill, StopAction::Finish]);
    assert_eq!(a.len(), 1 + 40 + 2);
}

#[test]
fn early_failure_is_a_start_error() {
    let log: Vec<String> = (1..=7).map(|i| format!("line {i}")).collect();
    let (state, err) = run_end(false, 1200, "exit status: 1", &log);
    assert_eq!(state, "error");
    assert_eq!(err.as_deref(), Some("Engine beendet mit exit status: 1: line 3 | line 4 | line 5 | line 6 | line 7"));
}

#[test]
fn late_or_clean_end_is_a_stop() {
    let log = vec!["x".to_string()];
    assert_eq!(run_end(false, 3000, "exit status: 1", &log), ("stopped", None));
    assert_eq!(run_end(true, 10, "exit status: 0", &log), ("stopped", None));
}
