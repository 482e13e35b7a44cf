use grimoire_watcher::aggregator::ChangeAggregator;
use grimoire_watcher::executor::AttemptOutcome;
use grimoire_watcher::retry::{RetryCoordinator, RetryDecision};
use grimoire_watcher::run_loop::{LoopAction, LoopState, Observation, RunLoop, IDLE_POLL_MS};

fn obs(shutdown: bool, owed: bool, open: bool) -> Observation {
    Observation { shutdown_requested: shutdown, rebuild_owed: owed, source_open: open }
}

#[test]
fn running_loop_rebuilds_or_waits() {
    let mut l = RunLoop::new();
    assert_eq!(l.state(), LoopState::Running);
    assert_eq!(l.step(obs(false, true, true)), LoopAction::Rebuild);
    assert_eq!(l.step(obs(false, false, true)), LoopAction::Wait { delay_ms: IDLE_POLL_MS });
    assert_eq!(IDLE_POLL_MS, 100);
    assert_eq!(l.state(), LoopState::Running);
}

#[test]
fn no_rebuild_after_shutdown() {
    let mut l = RunLoop::new();
    assert_eq!(l.step(obs(true, true, true)), LoopAction::Stop);
    assert_eq!(l.state(), LoopState::ShuttingDown);
    assert_eq!(l.step(obs(false, true, true)), LoopAction::Stop);
    assert_eq!(l.step(obs(false, false, true)), LoopAction::Stop);
    assert_eq!(l.state(), LoopState::ShuttingDown);
}

#[test]
fn disconnected_source_stops_the_loop() {
    let mut l = RunLoop::new();
    assert_eq!(l.step(obs(false, false, false)), LoopAction::Stop);
    assert_eq!(l.state(), LoopState::ShuttingDown);
}

#[test]
fn owed_rebuild_is_served_before_a_disconnect() {
    let mut l = RunLoop::new();
    assert_eq!(l.step(obs(false, true, false)), LoopAction::Rebuild);
    assert_eq!(l.step(obs(false, false, false)), LoopAction::Stop);
}

#[test]
fn three_quick_edits_give_one_build() {
    let a = "/p/a.css".to_string();
    let mut agg = ChangeAggregator::new(300, vec![a.clone()]);
    let mut l = RunLoop::new();
    let mut builds = 0;
    let mut fired_at = Vec::new();
    for t in (0..=2000u64).step_by(10) {
        if t == 1000 || t == 1050 || t == 1100 {
            agg.on_change(&a, t);
        }
        let owed = agg.poll(t);
        if owed {
            fired_at.push(t);
        }
        match l.step(obs(false, owed, true)) {
            LoopAction::Rebuild => {
                let mut c = RetryCoordinator::new();
                builds += 1;
                assert!(matches!(c.record(AttemptOutcome::Success), RetryDecision::Succeeded));
                assert_eq!(c.attempts(), 1);
            }
            LoopAction::Wait { .. } => {}
            LoopAction::Stop => panic!("loop stopped"),
        }
    }
    assert_eq!(fired_at, vec![1400]);
    assert_eq!(builds, 1);
}
