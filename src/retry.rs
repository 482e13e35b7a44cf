//! The retry coordinator: a bounded number of build attempts per rebuild
//! signal, with a fixed delay between a failed attempt and the next.

use vstd::prelude::*;
use crate::executor::AttemptOutcome;

verus! {

/// Most attempts made for one rebuild signal.
pub const MAX_RETRIES: u32 = 3;

/// Pause, in milliseconds, between a failed attempt and the next.
pub const RETRY_DELAY_MS: u64 = 1000;

/// What the coordinator decides after an attempt.
#[derive(Clone, Debug)]
pub enum RetryDecision {
    /// The attempt succeeded; the cycle ends in success.
    Succeeded,
    /// The attempt failed; wait this long and attempt again.
    RetryAfter { delay_ms: u64 },
    /// The last allowed attempt failed; the cycle ends with this failure.
    GiveUp { failure: AttemptOutcome },
}

/// The decision after attempt number `attempts + 1` ended with `o`.
pub open spec fn decide(attempts: nat, o: AttemptOutcome) -> RetryDecision {
    if o is Success {
        RetryDecision::Succeeded
    } else if attempts + 1 < MAX_RETRIES as nat {
        RetryDecision::RetryAfter { delay_ms: RETRY_DELAY_MS }
    } else {
        RetryDecision::GiveUp { failure: o }
    }
}

/// What the coordinator holds during one rebuild cycle.
pub struct RetryView {
    /// Attempts made so far.
    pub attempts: nat,
    /// Whether the cycle has ended.
    pub finished: bool,
}

/// Counts the attempts of one rebuild cycle and decides after each.
pub struct RetryCoordinator {
    attempts: u32,
    finished: bool,
}

impl View for RetryCoordinator {
    type V = RetryView;

    closed spec fn view(&self) -> RetryView {
        RetryView { attempts: self.attempts as nat, finished: self.finished }
    }
}

impl RetryCoordinator {
    /// Well-formed: an unfinished cycle has attempts left.
    pub open spec fn wf(&self) -> bool {
        self@.attempts <= MAX_RETRIES as nat && (!self@.finished ==> self@.attempts
            < MAX_RETRIES as nat)
    }

    /// Starts a cycle with no attempt made.
    pub fn new() -> (r: Self)
        ensures
            r.wf(),
            r@.attempts == 0,
            !r@.finished,
    {
        RetryCoordinator { attempts: 0, finished: false }
    }

    /// Whether the cycle has ended.
    pub fn is_finished(&self) -> (r: bool)
        ensures
            r == self@.finished,
    {
        self.finished
    }

    /// The number of attempts made so far.
    pub fn attempts(&self) -> (r: u32)
        ensures
            r as nat == self@.attempts,
    {
        self.attempts
    }

    /// Records how the next attempt ended and decides what follows.
    pub fn record(&mut self, outcome: AttemptOutcome) -> (d: RetryDecision)
        requires
            old(self).wf(),
            !old(self)@.finished,
        ensures
            final(self).wf(),
            d == decide(old(self)@.attempts, outcome),
            final(self)@.attempts == old(self)@.attempts + 1,
            final(self)@.finished == !(d is RetryAfter),
    {
        self.attempts = self.attempts + 1;
        match outcome {
            AttemptOutcome::Success => {
                self.finished = true;
                RetryDecision::Succeeded
            },
            _ => {
                if self.attempts < MAX_RETRIES {
                    RetryDecision::RetryAfter { delay_ms: RETRY_DELAY_MS }
                } else {
                    self.finished = true;
                    RetryDecision::GiveUp { failure: outcome }
                }
            },
        }
    }
}

/// One rebuild cycle fed the attempt outcomes `outcomes`, from `attempts`
/// attempts made: the attempts made when it ends, and its decisions in order.
pub open spec fn cycle(attempts: nat, outcomes: Seq<AttemptOutcome>) -> (nat, Seq<RetryDecision>)
    decreases outcomes.len(),
{
    if outcomes.len() == 0 {
        (attempts, Seq::empty())
    } else {
        let d = decide(attempts, outcomes[0]);
        if d is RetryAfter {
            let (n, ds) = cycle(attempts + 1, outcomes.drop_first());
            (n, seq![d] + ds)
        } else {
            (attempts + 1, seq![d])
        }
    }
}

/// Retry bound: against attempts that always fail, a cycle makes exactly
/// the maximum number of attempts, waits the retry delay after each but the
/// last, and gives up with the last attempt's failure.
pub proof fn lemma_retry_bound(outcomes: Seq<AttemptOutcome>)
    requires
        outcomes.len() >= MAX_RETRIES,
        forall|i: int| 0 <= i < outcomes.len() ==> !(#[trigger] outcomes[i] is Success),
    ensures
        cycle(0, outcomes) == (
        MAX_RETRIES as nat,
        seq![
            RetryDecision::RetryAfter { delay_ms: RETRY_DELAY_MS },
            RetryDecision::RetryAfter { delay_ms: RETRY_DELAY_MS },
            RetryDecision::GiveUp { failure: outcomes[2] },
        ],
    ),
{
    let r1 = outcomes.drop_first();
    let r2 = r1.drop_first();
    assert(r1[0] == outcomes[1]);
    assert(r2[0] == outcomes[2]);
    assert(!(outcomes[0] is Success));
    assert(!(outcomes[1] is Success));
    assert(!(outcomes[2] is Success));
    assert(cycle(2, r2) == (3nat, seq![RetryDecision::GiveUp { failure: outcomes[2] }]));
    assert(cycle(1, r1).1 =~= seq![
        RetryDecision::RetryAfter { delay_ms: RETRY_DELAY_MS },
        RetryDecision::GiveUp { failure: outcomes[2] },
    ]);
    assert(cycle(0, outcomes).1 =~= seq![
        RetryDecision::RetryAfter { delay_ms: RETRY_DELAY_MS },
        RetryDecision::RetryAfter { delay_ms: RETRY_DELAY_MS },
        RetryDecision::GiveUp { failure: outcomes[2] },
    ]);
}

/// Retry short-circuit: a first attempt that fails and a second that
/// succeeds end the cycle after two attempts, in success.
pub proof fn lemma_retry_short_circuit(outcomes: Seq<AttemptOutcome>)
    requires
        outcomes.len() >= 2,
        !(outcomes[0] is Success),
        outcomes[1] is Success,
    ensures
        cycle(0, outcomes) == (
        2nat,
        seq![RetryDecision::RetryAfter { delay_ms: RETRY_DELAY_MS }, RetryDecision::Succeeded],
    ),
{
    let r1 = outcomes.drop_first();
    assert(r1[0] == outcomes[1]);
    assert(cycle(1, r1) == (2nat, seq![RetryDecision::Succeeded]));
    assert(cycle(0, outcomes).1 =~= seq![
        RetryDecision::RetryAfter { delay_ms: RETRY_DELAY_MS },
        RetryDecision::Succeeded,
    ]);
}

} // verus!
