//! The change aggregator: filters file changes against the watch set and
//! debounces them into rebuild signals (reset on every qualifying change,
//! fire once the window has passed in quiet).

use vstd::prelude::*;

verus! {

/// The paths of a watch set, as character sequences.
pub open spec fn paths_of(ws: Seq<String>) -> Seq<Seq<char>> {
    ws.map_values(|s: String| s@)
}

/// Returns whether `path` is one of the watched paths.
pub fn is_watched(watch_set: &Vec<String>, path: &String) -> (r: bool)
    ensures
        r == paths_of(watch_set@).contains(path@),
{
    let mut i: usize = 0;
    while i < watch_set.len()
        invariant
            0 <= i <= watch_set.len(),
            forall|j: int| 0 <= j < i ==> watch_set@[j]@ != path@,
        decreases watch_set.len() - i,
    {
        if watch_set[i] == *path {
            assert(paths_of(watch_set@)[i as int] == path@);
            return true;
        }
        i += 1;
    }
    proof {
        if paths_of(watch_set@).contains(path@) {
            let k = choose|k: int| 0 <= k < paths_of(watch_set@).len() && paths_of(watch_set@)[k] == path@;
            assert(watch_set@[k]@ == path@);
        }
    }
    false
}

/// What the aggregator holds between calls.
pub struct AggregatorState {
    /// Quiet period, in milliseconds, that must follow the last qualifying change.
    pub window: int,
    /// The watched paths.
    pub watched: Seq<Seq<char>>,
    /// Whether a rebuild is owed.
    pub pending: bool,
    /// Time of the latest qualifying change, in milliseconds.
    pub last: int,
}

/// The state after a change on `path` at time `at`: only a watched path
/// restarts the window.
pub open spec fn after_change(s: AggregatorState, path: Seq<char>, at: int) -> AggregatorState {
    if s.watched.contains(path) {
        AggregatorState { pending: true, last: at, ..s }
    } else {
        s
    }
}

/// Whether a check at time `at` emits a rebuild signal.
pub open spec fn check_fires(s: AggregatorState, at: int) -> bool {
    s.pending && at >= s.last + s.window
}

/// The state after a check at time `at`.
pub open spec fn after_check(s: AggregatorState, at: int) -> AggregatorState {
    if check_fires(s, at) {
        AggregatorState { pending: false, ..s }
    } else {
        s
    }
}

/// One input to the aggregator: a file change, or a check of the clock.
pub enum Stimulus {
    Change { path: Seq<char>, at: int },
    Check { at: int },
}

/// The state after one stimulus, and whether it emitted a signal.
pub open spec fn step(s: AggregatorState, x: Stimulus) -> (AggregatorState, bool) {
    match x {
        Stimulus::Change { path, at } => (after_change(s, path, at), false),
        Stimulus::Check { at } => (after_check(s, at), check_fires(s, at)),
    }
}

/// The state after a whole trace of stimuli, and how many signals it emitted.
pub open spec fn run(s: AggregatorState, trace: Seq<Stimulus>) -> (AggregatorState, nat)
    decreases trace.len(),
{
    if trace.len() == 0 {
        (s, 0)
    } else {
        let (s1, fired) = step(s, trace[0]);
        let (s2, n) = run(s1, trace.drop_first());
        (s2, if fired { n + 1 } else { n })
    }
}

/// Whether `trace` is one burst: every change is on a watched path and comes
/// less than a window after the previous change (`last`), and no check comes a
/// full window after the latest change.
pub open spec fn quiet_burst(watched: Seq<Seq<char>>, window: int, trace: Seq<Stimulus>, last: Option<int>) -> bool
    decreases trace.len(),
{
    if trace.len() == 0 {
        true
    } else {
        match trace[0] {
            Stimulus::Change { path, at } => watched.contains(path) && (last matches Some(l) ==> at
                < l + window) && quiet_burst(watched, window, trace.drop_first(), Some(at)),
            Stimulus::Check { at } => (last matches Some(l) ==> at < l + window) && quiet_burst(
                watched,
                window,
                trace.drop_first(),
                last,
            ),
        }
    }
}

/// The time of the latest change in `trace`, or `last` if it has none.
pub open spec fn latest_change(trace: Seq<Stimulus>, last: Option<int>) -> Option<int>
    decreases trace.len(),
{
    if trace.len() == 0 {
        last
    } else {
        match trace[0] {
            Stimulus::Change { at, .. } => latest_change(trace.drop_first(), Some(at)),
            Stimulus::Check { .. } => latest_change(trace.drop_first(), last),
        }
    }
}

/// Whether the state records exactly the pending change `last`.
pub open spec fn owes(s: AggregatorState, last: Option<int>) -> bool {
    match last {
        Some(l) => s.pending && s.last == l,
        None => !s.pending,
    }
}

/// Running a trace with one more stimulus is running the trace, then that stimulus.
pub proof fn lemma_run_push(s: AggregatorState, trace: Seq<Stimulus>, x: Stimulus)
    ensures
        run(s, trace.push(x)).0 == step(run(s, trace).0, x).0,
        run(s, trace.push(x)).1 == run(s, trace).1 + if step(run(s, trace).0, x).1 {
            1nat
        } else {
            0nat
        },
    decreases trace.len(),
{
    if trace.len() == 0 {
        assert(trace.push(x)[0] == x);
        assert(trace.push(x).drop_first() =~= Seq::<Stimulus>::empty());
        assert(run(step(s, x).0, trace.push(x).drop_first()) == (step(s, x).0, 0nat));
    } else {
        assert(trace.push(x)[0] == trace[0]);
        assert(trace.push(x).drop_first() =~= trace.drop_first().push(x));
        lemma_run_push(step(s, trace[0]).0, trace.drop_first(), x);
    }
}

proof fn lemma_quiet_burst_run(s: AggregatorState, trace: Seq<Stimulus>, last: Option<int>)
    requires
        s.window > 0,
        owes(s, last),
        quiet_burst(s.watched, s.window, trace, last),
    ensures
        run(s, trace).1 == 0,
        owes(run(s, trace).0, latest_change(trace, last)),
        run(s, trace).0.window == s.window,
        run(s, trace).0.watched == s.watched,
    decreases trace.len(),
{
    if trace.len() > 0 {
        match trace[0] {
            Stimulus::Change { path, at } => {
                lemma_quiet_burst_run(step(s, trace[0]).0, trace.drop_first(), Some(at));
            },
            Stimulus::Check { at } => {
                lemma_quiet_burst_run(step(s, trace[0]).0, trace.drop_first(), last);
            },
        }
    }
}

/// Debounce coalescing: a burst of watched changes, each less than a window
/// after the one before, emits no signal while it lasts and exactly one
/// signal at the first check a full window after its last change; nothing
/// is owed afterwards.
pub proof fn lemma_burst_coalesces(s: AggregatorState, burst: Seq<Stimulus>, t_last: int, at: int)
    requires
        s.window > 0,
        !s.pending,
        quiet_burst(s.watched, s.window, burst, None),
        latest_change(burst, None) == Some(t_last),
        at >= t_last + s.window,
    ensures
        run(s, burst).1 == 0,
        run(s, burst.push(Stimulus::Check { at })).1 == 1,
        !run(s, burst.push(Stimulus::Check { at })).0.pending,
{
    lemma_quiet_burst_run(s, burst, None);
    lemma_run_push(s, burst, Stimulus::Check { at });
}

/// Debounce separation: two watched changes more than a window apart, each
/// followed by a check a window later, emit two signals.
pub proof fn lemma_separated_changes_fire_twice(
    s: AggregatorState,
    p: Seq<char>,
    t1: int,
    c1: int,
    q: Seq<char>,
    t2: int,
    c2: int,
)
    requires
        s.window > 0,
        s.watched.contains(p),
        s.watched.contains(q),
        t2 - t1 > s.window,
        t1 + s.window <= c1 <= t2,
        c2 >= t2 + s.window,
    ensures
        run(
            s,
            seq![
                Stimulus::Change { path: p, at: t1 },
                Stimulus::Check { at: c1 },
                Stimulus::Change { path: q, at: t2 },
                Stimulus::Check { at: c2 },
            ],
        ).1 == 2,
{
    let tr = seq![
        Stimulus::Change { path: p, at: t1 },
        Stimulus::Check { at: c1 },
        Stimulus::Change { path: q, at: t2 },
        Stimulus::Check { at: c2 },
    ];
    let s1 = step(s, tr[0]).0;
    let s2 = step(s1, tr[1]).0;
    let s3 = step(s2, tr[2]).0;
    let s4 = step(s3, tr[3]).0;
    assert(tr.drop_first().drop_first().drop_first().drop_first() =~= Seq::<Stimulus>::empty());
    assert(run(s4, tr.drop_first().drop_first().drop_first().drop_first()).1 == 0);
    assert(tr.drop_first()[0] == tr[1]);
    assert(tr.drop_first().drop_first()[0] == tr[2]);
    assert(tr.drop_first().drop_first().drop_first()[0] == tr[3]);
    assert(run(s3, tr.drop_first().drop_first().drop_first()).1 == 1);
    assert(run(s2, tr.drop_first().drop_first()).1 == 1);
    assert(run(s1, tr.drop_first()).1 == 2);
}

/// Whether no change in `trace` is on a watched path.
pub open spec fn all_unwatched(watched: Seq<Seq<char>>, trace: Seq<Stimulus>) -> bool {
    forall|i: int|
        0 <= i < trace.len() ==> (#[trigger] trace[i] matches Stimulus::Change { path, .. } ==> !watched.contains(path))
}

/// Non-qualifying changes are filtered: from a state with nothing owed,
/// changes on unwatched paths, with any checks between them, never emit a
/// signal and leave the state as it was.
pub proof fn lemma_unwatched_changes_never_signal(s: AggregatorState, trace: Seq<Stimulus>)
    requires
        !s.pending,
        all_unwatched(s.watched, trace),
    ensures
        run(s, trace).1 == 0,
        run(s, trace).0 == s,
    decreases trace.len(),
{
    if trace.len() > 0 {
        assert(trace[0] == trace[0 as int]);
        assert(all_unwatched(s.watched, trace.drop_first())) by {
            assert forall|i: int| 0 <= i < trace.drop_first().len() implies (#[trigger] trace.drop_first()[i] matches Stimulus::Change { path, .. } ==> !s.watched.contains(path)) by {
                assert(trace.drop_first()[i] == trace[i + 1]);
            }
        }
        lemma_unwatched_changes_never_signal(s, trace.drop_first());
    }
}

/// Debounces changes on a fixed set of paths into rebuild signals.
pub struct ChangeAggregator {
    window_ms: u64,
    watch_set: Vec<String>,
    pending: bool,
    last_change_ms: u64,
}

impl View for ChangeAggregator {
    type V = AggregatorState;

    closed spec fn view(&self) -> AggregatorState {
        AggregatorState {
            window: self.window_ms as int,
            watched: paths_of(self.watch_set@),
            pending: self.pending,
            last: self.last_change_ms as int,
        }
    }
}

impl ChangeAggregator {
    /// Creates an aggregator with nothing owed; the window must be positive.
    pub fn new(window_ms: u64, watch_set: Vec<String>) -> (r: Self)
        requires
            window_ms > 0,
        ensures
            r@.window == window_ms as int,
            r@.watched == paths_of(watch_set@),
            !r@.pending,
    {
        ChangeAggregator { window_ms, watch_set, pending: false, last_change_ms: 0 }
    }

    /// Records a change on `path` at time `now_ms`; returns whether it qualified.
    pub fn on_change(&mut self, path: &String, now_ms: u64) -> (qualified: bool)
        ensures
            qualified == old(self)@.watched.contains(path@),
            final(self)@ == after_change(old(self)@, path@, now_ms as int),
    {
        let qualified = is_watched(&self.watch_set, path);
        if qualified {
            self.pending = true;
            self.last_change_ms = now_ms;
        }
        qualified
    }

    /// Checks the clock at `now_ms`; returns whether a rebuild signal fires.
    pub fn poll(&mut self, now_ms: u64) -> (fired: bool)
        ensures
            fired == check_fires(old(self)@, now_ms as int),
            final(self)@ == after_check(old(self)@, now_ms as int),
    {
        if self.pending && now_ms >= self.last_change_ms && now_ms - self.last_change_ms
            >= self.window_ms {
            self.pending = false;
            true
        } else {
            false
        }
    }

    /// Whether a rebuild is currently owed.
    pub fn is_pending(&self) -> (r: bool)
        ensures
            r == self@.pending,
    {
        self.pending
    }
}

} // verus!
