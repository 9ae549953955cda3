//! The decisions of the refresh loop: when to stop and when to refresh.
//!
//! The caller polls for a key with a timeout of one tick, hands the outcome
//! and the clock reading to `step`, and carries out the action; after a
//! refresh has been drawn it reports the time with `mark_refreshed`.

use vstd::prelude::*;

verus! {

/// The tick interval, in nanoseconds (250 ms). It is both the input poll's
/// timeout and the minimum time between refreshes.
pub const TICK_NANOS: u64 = 250_000_000;

/// The key that ends the loop.
pub const QUIT_KEY: char = 'q';

#[derive(Clone, Copy, Debug, PartialEq, Eq, Structural)]
pub enum LoopState {
    Running,
    /// Terminal: nothing is refreshed any more.
    Stopped,
}

#[derive(Clone, Copy, Debug, PartialEq, Eq, Structural)]
pub enum Action {
    /// Leave the loop and restore the terminal.
    Stop,
    /// Read the counters, update the tracks and draw them.
    Refresh,
    /// Poll for input again.
    Wait,
}

#[derive(Clone, Copy, Debug, PartialEq, Eq, Structural)]
pub struct Scheduler {
    pub state: LoopState,
    /// Clock reading, in nanoseconds, at the last refresh (or at the start).
    pub last_refresh: u64,
}

/// The state and action after a poll that gave `key` at clock reading `now`.
pub open spec fn step_spec(s: Scheduler, key: Option<char>, now: u64) -> (Scheduler, Action) {
    if s.state == LoopState::Stopped {
        (s, Action::Stop)
    } else if key == Some(QUIT_KEY) {
        (Scheduler { state: LoopState::Stopped, ..s }, Action::Stop)
    } else if now >= s.last_refresh && now - s.last_refresh >= TICK_NANOS {
        (s, Action::Refresh)
    } else {
        (s, Action::Wait)
    }
}

/// The actions taken, in order, from state `s` over the polls `polls`
/// (each a key, if one came, and the clock reading).
pub open spec fn run_actions(s: Scheduler, polls: Seq<(Option<char>, u64)>) -> Seq<Action>
    decreases polls.len(),
{
    if polls.len() == 0 {
        Seq::empty()
    } else {
        let (next, a) = step_spec(s, polls[0].0, polls[0].1);
        seq![a] + run_actions(next, polls.drop_first())
    }
}

impl Scheduler {
    /// A running loop whose refresh clock starts at `now`.
    pub fn new(now: u64) -> (r: Scheduler)
        ensures
            r.state == LoopState::Running,
            r.last_refresh == now,
    {
        Scheduler { state: LoopState::Running, last_refresh: now }
    }

    /// Decides what to do after a poll that gave `key` (`None` on timeout)
    /// at clock reading `now`: stop on the quit key, refresh once a tick has
    /// passed since the last refresh, else wait. A stopped loop stays stopped.
    pub fn step(&mut self, key: Option<char>, now: u64) -> (r: Action)
        ensures
            (*final(self), r) == step_spec(*old(self), key, now),
    {
        if self.state == LoopState::Stopped {
            return Action::Stop;
        }
        let quit = match key {
            Some(c) => c == QUIT_KEY,
            None => false,
        };
        if quit {
            self.state = LoopState::Stopped;
            Action::Stop
        } else if now >= self.last_refresh && now - self.last_refresh >= TICK_NANOS {
            Action::Refresh
        } else {
            Action::Wait
        }
    }

    /// Restarts the refresh clock at `now`, after a refresh was drawn.
    pub fn mark_refreshed(&mut self, now: u64)
        ensures
            final(self).state == old(self).state,
            final(self).last_refresh == now,
    {
        self.last_refresh = now;
    }

    pub fn is_running(&self) -> (r: bool)
        ensures
            r == (self.state == LoopState::Running),
    {
        self.state == LoopState::Running
    }
}

/// One action per poll.
pub proof fn lemma_run_len(s: Scheduler, polls: Seq<(Option<char>, u64)>)
    ensures
        run_actions(s, polls).len() == polls.len(),
    decreases polls.len(),
{
    if polls.len() > 0 {
        lemma_run_len(step_spec(s, polls[0].0, polls[0].1).0, polls.drop_first());
    }
}

/// Once a poll gives the quit key, in whatever state and at whatever point
/// of the run, that poll and every later one stop the loop: no refresh
/// follows, whatever keys and times come after.
pub proof fn lemma_quit_stops_for_good(s: Scheduler, polls: Seq<(Option<char>, u64)>, j: int)
    requires
        0 <= j < polls.len(),
        polls[j].0 == Some(QUIT_KEY),
    ensures
        forall|k: int|
            j <= k < polls.len() ==> #[trigger] run_actions(s, polls)[k] == Action::Stop,
    decreases j,
{
    let next = step_spec(s, polls[0].0, polls[0].1).0;
    let rest = polls.drop_first();
    lemma_run_len(next, rest);
    if j == 0 {
        assert(next.state == LoopState::Stopped);
        lemma_stopped_stays(next, rest);
    } else {
        lemma_quit_stops_for_good(next, rest, j - 1);
    }
    assert forall|k: int| j <= k < polls.len() implies #[trigger] run_actions(s, polls)[k]
        == Action::Stop by {
        if k > 0 {
            assert(run_actions(s, polls)[k] == run_actions(next, rest)[k - 1]);
        }
    }
}

/// A stopped loop answers every poll with `Stop`.
pub proof fn lemma_stopped_stays(s: Scheduler, polls: Seq<(Option<char>, u64)>)
    requires
        s.state == LoopState::Stopped,
    ensures
        run_actions(s, polls).len() == polls.len(),
        forall|k: int|
            0 <= k < polls.len() ==> #[trigger] run_actions(s, polls)[k] == Action::Stop,
    decreases polls.len(),
{
    if polls.len() > 0 {
        lemma_stopped_stays(s, polls.drop_first());
    }
}

} // verus!
