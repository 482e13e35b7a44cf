//! The build executor's decisions: what to do after each poll of the child
//! process, and how a finished attempt is reported.

use vstd::prelude::*;

verus! {

/// Longest time, in milliseconds, that one build may run.
pub const BUILD_TIMEOUT_MS: u64 = 30000;

/// Pause, in milliseconds, between two polls of a running build.
pub const POLL_INTERVAL_MS: u64 = 100;

/// What one poll of the child process found.
#[derive(Clone, Copy, Debug, PartialEq, Eq, Structural)]
pub enum ProcessStatus {
    /// The process has exited, successfully or not.
    Exited { success: bool },
    /// The process is still running.
    Running,
    /// The status could not be read.
    Unreadable,
}

/// What the executor does after a poll.
#[derive(Clone, Copy, Debug, PartialEq, Eq, Structural)]
pub enum PollAction {
    /// The build succeeded.
    Succeed,
    /// The build failed: read its standard error and report it.
    CollectDiagnostics,
    /// The build ran too long: kill it, reap it, report a timeout.
    KillForTimeout,
    /// The status could not be read: kill and reap the process, report the error.
    Abandon,
    /// Sleep this many milliseconds, then poll again.
    PollAgainAfter { delay_ms: u64 },
}

/// How one build attempt ended.
#[derive(Clone, Debug)]
pub enum AttemptOutcome {
    Success,
    /// The command could not be started.
    SpawnFailed { message: String },
    /// The command exited with a failure status; its standard error, decoded.
    ExitFailure { stderr: String },
    /// The command was killed after running for `limit_ms` milliseconds.
    TimedOut { limit_ms: u64 },
    /// The process status could not be read.
    WaitFailed { message: String },
}

/// The action owed after a poll that found `status` after `elapsed` milliseconds.
pub open spec fn poll_action(status: ProcessStatus, elapsed: int) -> PollAction {
    match status {
        ProcessStatus::Exited { success } => if success {
            PollAction::Succeed
        } else {
            PollAction::CollectDiagnostics
        },
        ProcessStatus::Unreadable => PollAction::Abandon,
        ProcessStatus::Running => if elapsed > BUILD_TIMEOUT_MS as int {
            PollAction::KillForTimeout
        } else {
            PollAction::PollAgainAfter { delay_ms: POLL_INTERVAL_MS }
        },
    }
}

/// Decides what to do after a poll that found `status`, `elapsed_ms`
/// milliseconds after the process was started.
pub fn next_poll_action(status: ProcessStatus, elapsed_ms: u64) -> (a: PollAction)
    ensures
        a == poll_action(status, elapsed_ms as int),
{
    match status {
        ProcessStatus::Exited { success } => if success {
            PollAction::Succeed
        } else {
            PollAction::CollectDiagnostics
        },
        ProcessStatus::Unreadable => PollAction::Abandon,
        ProcessStatus::Running => if elapsed_ms > BUILD_TIMEOUT_MS {
            PollAction::KillForTimeout
        } else {
            PollAction::PollAgainAfter { delay_ms: POLL_INTERVAL_MS }
        },
    }
}

/// The text of a byte string decoded as UTF-8, each invalid sequence replaced.
pub uninterp spec fn lossy_utf8(b: Seq<u8>) -> Seq<char>;

/// Relies on `String::from_utf8_lossy`: it decodes every input, replacing
/// invalid sequences, and decodes no bytes to the empty string.
#[verifier::external_body]
fn decode_lossy(bytes: &Vec<u8>) -> (r: String)
    ensures
        r@ == lossy_utf8(bytes@),
        bytes@.len() == 0 ==> r@.len() == 0,
{
    String::from_utf8_lossy(bytes.as_slice()).into_owned()
}

/// The outcome of an attempt whose process exited with a failure status
/// and wrote `stderr` to its standard error.
pub fn exit_failure(stderr: &Vec<u8>) -> (o: AttemptOutcome)
    ensures
        o matches AttemptOutcome::ExitFailure { stderr: text } && text@ == lossy_utf8(stderr@),
{
    AttemptOutcome::ExitFailure { stderr: decode_lossy(stderr) }
}

/// The outcome of an attempt that was killed for running too long.
pub fn timeout_failure() -> (o: AttemptOutcome)
    ensures
        o == (AttemptOutcome::TimedOut { limit_ms: BUILD_TIMEOUT_MS }),
{
    AttemptOutcome::TimedOut { limit_ms: BUILD_TIMEOUT_MS }
}

/// The action a poll calls for, followed over a sequence of polls: the
/// actions until the first that is not a further poll, and that one.
pub open spec fn poll_trace(polls: Seq<(ProcessStatus, int)>) -> Seq<PollAction>
    decreases polls.len(),
{
    if polls.len() == 0 {
        Seq::empty()
    } else {
        let a = poll_action(polls[0].0, polls[0].1);
        if a is PollAgainAfter {
            seq![a] + poll_trace(polls.drop_first())
        } else {
            seq![a]
        }
    }
}

/// Timeout enforcement: while the process keeps running, polls within the
/// timeout only sleep, and the first poll past the timeout kills it; an
/// attempt ended that way is reported as a timeout.
pub proof fn lemma_timeout_enforced(polls: Seq<(ProcessStatus, int)>, k: int)
    requires
        0 <= k < polls.len(),
        forall|i: int| 0 <= i <= k ==> (#[trigger] polls[i]).0 == ProcessStatus::Running,
        forall|i: int| 0 <= i < k ==> (#[trigger] polls[i]).1 <= BUILD_TIMEOUT_MS as int,
        polls[k].1 > BUILD_TIMEOUT_MS as int,
    ensures
        poll_trace(polls).len() == k + 1,
        forall|i: int| 0 <= i < k ==> (#[trigger] poll_trace(polls)[i]) == (PollAction::PollAgainAfter {
            delay_ms: POLL_INTERVAL_MS,
        }),
        poll_trace(polls)[k] == PollAction::KillForTimeout,
    decreases k,
{
    assert(polls[0] == polls[0int]);
    if k > 0 {
        let rest = polls.drop_first();
        assert forall|i: int| 0 <= i <= k - 1 implies (#[trigger] rest[i]).0 == ProcessStatus::Running by {
            assert(rest[i] == polls[i + 1]);
        }
        assert forall|i: int| 0 <= i < k - 1 implies (#[trigger] rest[i]).1 <= BUILD_TIMEOUT_MS as int by {
            assert(rest[i] == polls[i + 1]);
        }
        assert(rest[k - 1] == polls[k]);
        lemma_timeout_enforced(rest, k - 1);
        let a = poll_action(polls[0].0, polls[0].1);
        assert(poll_trace(polls) == seq![a] + poll_trace(rest));
        assert forall|i: int| 0 <= i < k implies (#[trigger] poll_trace(polls)[i]) == (PollAction::PollAgainAfter {
            delay_ms: POLL_INTERVAL_MS,
        }) by {
            if i > 0 {
                assert(poll_trace(polls)[i] == poll_trace(rest)[i - 1]);
            }
        }
    }
}

} // verus!
