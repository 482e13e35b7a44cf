use grimoire_watcher::executor::{
    exit_failure, next_poll_action, timeout_failure, AttemptOutcome, PollAction, ProcessStatus,
    BUILD_TIMEOUT_MS, POLL_INTERVAL_MS,
};

#[test]
fn exit_status_decides_success_or_diagnostics() {
    assert_eq!(next_poll_action(ProcessStatus::Exited { success: true }, 10), PollAction::Succeed);
    assert_eq!(
        next_poll_action(ProcessStatus::Exited { success: false }, 10),
        PollAction::CollectDiagnostics
    );
    assert_eq!(
        next_poll_action(ProcessStatus::Exited { success: true }, 99_999),
        PollAction::Succeed
    );
}

#[test]
fn running_build_is_polled_until_the_timeout() {
    assert_eq!(BUILD_TIMEOUT_MS, 30_000);
    assert_eq!(
        next_poll_action(ProcessStatus::Running, 0),
        PollAction::PollAgainAfter { delay_ms: POLL_INTERVAL_MS }
    );
    assert_eq!(
        next_poll_action(ProcessStatus::Running, 30_000),
        PollAction::PollAgainAfter { delay_ms: 100 }
    );
    assert_eq!(next_poll_action(ProcessStatus::Running, 30_001), PollAction::KillForTimeout);
}

#[test]
fn timeout_is_killed_on_the_first_poll_past_the_limit() {
    let mut elapsed = 0u64;
    let mut polls = 0;
    loop {
        polls += 1;
        match next_poll_action(ProcessStatus::Running, elapsed) {
            PollAction::PollAgainAfter { delay_ms } => elapsed += delay_ms,
            PollAction::KillForTimeout => break,
            other => panic!("unexpected action {:?}", other),
        }
    }
    assert_eq!(elapsed, 30_100);
    assert_eq!(polls, 302);
    match timeout_failure() {
        AttemptOutcome::TimedOut { limit_ms } => assert_eq!(limit_ms, 30_000),
        other => panic!("unexpected outcome {:?}", other),
    }
}

#[test]
fn unreadable_status_abandons_the_attempt() {
    assert_eq!(next_poll_action(ProcessStatus::Unreadable, 0), PollAction::Abandon);
}

#[test]
fn diagnostics_are_decoded_permissively() {
    match exit_failure(&b"error: bad \xff token".to_vec()) {
        AttemptOutcome::ExitFailure { stderr } => assert_eq!(stderr, "error: bad \u{fffd} token"),
        other => panic!("unexpected outcome {:?}", other),
    }
    match exit_failure(&b"missing file".to_vec()) {
        AttemptOutcome::ExitFailure { stderr } => assert_eq!(stderr, "missing file"),
        other => panic!("unexpected outcome {:?}", other),
    }
    match exit_failure(&Vec::new()) {
        AttemptOutcome::ExitFailure { stderr } => assert_eq!(stderr, ""),
        other => panic!("unexpected outcome {:?}", other),
    }
}
