//! The run loop's decisions: rebuild when a signal is owed, wait otherwise,
//! and stop for good once shutdown is requested.

use vstd::prelude::*;

verus! {

/// Pause, in milliseconds, between two looks at the signal source.
pub const IDLE_POLL_MS: u64 = 100;

/// The loop's state.
#[derive(Clone, Copy, Debug, PartialEq, Eq, Structural)]
pub enum LoopState {
    Running,
    /// Terminal: no further rebuild starts.
    ShuttingDown,
}

/// What the loop sees at the start of an iteration.
#[derive(Clone, Copy, Debug, PartialEq, Eq, Structural)]
pub struct Observation {
    /// The shutdown flag has been set.
    pub shutdown_requested: bool,
    /// The change aggregator has emitted a rebuild signal.
    pub rebuild_owed: bool,
    /// The source of file changes is still connected.
    pub source_open: bool,
}

/// What the loop does in an iteration.
#[derive(Clone, Copy, Debug, PartialEq, Eq, Structural)]
pub enum LoopAction {
    /// Run one full retry cycle to its end, then look again.
    Rebuild,
    /// Sleep this many milliseconds, then look again.
    Wait { delay_ms: u64 },
    /// Leave the loop.
    Stop,
}

/// The state and action that follow observation `o` in state `s`.
pub open spec fn loop_step(s: LoopState, o: Observation) -> (LoopState, LoopAction) {
    match s {
        LoopState::ShuttingDown => (LoopState::ShuttingDown, LoopAction::Stop),
        LoopState::Running => if o.shutdown_requested {
            (LoopState::ShuttingDown, LoopAction::Stop)
        } else if o.rebuild_owed {
            (LoopState::Running, LoopAction::Rebuild)
        } else if !o.source_open {
            (LoopState::ShuttingDown, LoopAction::Stop)
        } else {
            (LoopState::Running, LoopAction::Wait { delay_ms: IDLE_POLL_MS })
        },
    }
}

/// The loop's state machine.
pub struct RunLoop {
    state: LoopState,
}

impl View for RunLoop {
    type V = LoopState;

    closed spec fn view(&self) -> LoopState {
        self.state
    }
}

impl RunLoop {
    /// A loop in the running state.
    pub fn new() -> (r: Self)
        ensures
            r@ == LoopState::Running,
    {
        RunLoop { state: LoopState::Running }
    }

    /// The current state.
    pub fn state(&self) -> (r: LoopState)
        ensures
            r == self@,
    {
        self.state
    }

    /// Takes one observation and returns the action it calls for.
    pub fn step(&mut self, o: Observation) -> (a: LoopAction)
        ensures
            (final(self)@, a) == loop_step(old(self)@, o),
    {
        match self.state {
            LoopState::ShuttingDown => LoopAction::Stop,
            LoopState::Running => {
                if o.shutdown_requested {
                    self.state = LoopState::ShuttingDown;
                    LoopAction::Stop
                } else if o.rebuild_owed {
                    LoopAction::Rebuild
                } else if !o.source_open {
                    self.state = LoopState::ShuttingDown;
                    LoopAction::Stop
                } else {
                    LoopAction::Wait { delay_ms: IDLE_POLL_MS }
                }
            },
        }
    }
}

/// The final state and the actions of the loop fed `obs` from state `s`.
pub open spec fn loop_run(s: LoopState, obs: Seq<Observation>) -> (LoopState, Seq<LoopAction>)
    decreases obs.len(),
{
    if obs.len() == 0 {
        (s, Seq::empty())
    } else {
        let (s1, a) = loop_step(s, obs[0]);
        let (s2, rest) = loop_run(s1, obs.drop_first());
        (s2, seq![a] + rest)
    }
}

/// The loop takes one action per observation.
pub proof fn lemma_one_action_per_observation(s: LoopState, obs: Seq<Observation>)
    ensures
        loop_run(s, obs).1.len() == obs.len(),
    decreases obs.len(),
{
    if obs.len() > 0 {
        lemma_one_action_per_observation(loop_step(s, obs[0]).0, obs.drop_first());
    }
}

/// Graceful shutdown: from the first observation of the shutdown request
/// on, the loop starts no rebuild and ends shut down; the actions before it
/// are those of the loop as if it had never been requested.
pub proof fn lemma_no_rebuild_after_shutdown(s: LoopState, obs: Seq<Observation>, k: int)
    requires
        0 <= k < obs.len(),
        obs[k].shutdown_requested,
    ensures
        forall|j: int| k <= j < obs.len() ==> #[trigger] loop_run(s, obs).1[j] == LoopAction::Stop,
        loop_run(s, obs).0 == LoopState::ShuttingDown,
        loop_run(s, obs).1.subrange(0, k) == loop_run(s, obs.subrange(0, k)).1,
    decreases k,
{
    lemma_one_action_per_observation(s, obs);
    let (s1, a) = loop_step(s, obs[0]);
    let rest = obs.drop_first();
    if k == 0 {
        lemma_stopped_stays(s1, rest);
        assert(loop_run(s, obs.subrange(0, 0)).1 =~= Seq::<LoopAction>::empty());
        assert(loop_run(s, obs).1.subrange(0, 0) =~= Seq::<LoopAction>::empty());
        assert forall|j: int| k <= j < obs.len() implies #[trigger] loop_run(s, obs).1[j] == LoopAction::Stop by {
            if j > 0 {
                assert(loop_run(s, obs).1[j] == loop_run(s1, rest).1[j - 1]);
            }
        }
    } else {
        assert(rest[k - 1] == obs[k]);
        lemma_no_rebuild_after_shutdown(s1, rest, k - 1);
        assert forall|j: int| k <= j < obs.len() implies #[trigger] loop_run(s, obs).1[j] == LoopAction::Stop by {
            assert(loop_run(s, obs).1[j] == loop_run(s1, rest).1[j - 1]);
        }
        let pre = obs.subrange(0, k);
        assert(pre[0] == obs[0]);
        assert(pre.drop_first() =~= rest.subrange(0, k - 1));
        assert(loop_run(s, obs).1.subrange(0, k) =~= seq![a] + loop_run(s1, rest).1.subrange(0, k - 1));
        assert(loop_run(s, pre).1 == seq![a] + loop_run(s1, pre.drop_first()).1);
    }
}

/// Once shut down, the loop only stops.
pub proof fn lemma_stopped_stays(s: LoopState, obs: Seq<Observation>)
    requires
        s == LoopState::ShuttingDown,
    ensures
        forall|j: int| 0 <= j < obs.len() ==> #[trigger] loop_run(s, obs).1[j] == LoopAction::Stop,
        loop_run(s, obs).0 == LoopState::ShuttingDown,
    decreases obs.len(),
{
    lemma_one_action_per_observation(s, obs);
    if obs.len() > 0 {
        lemma_stopped_stays(s, obs.drop_first());
        assert forall|j: int| 0 <= j < obs.len() implies #[trigger] loop_run(s, obs).1[j] == LoopAction::Stop by {
            if j > 0 {
                assert(loop_run(s, obs).1[j] == loop_run(s, obs.drop_first()).1[j - 1]);
            }
        }
    }
}

} // verus!
