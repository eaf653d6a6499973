//! The decisions of a document's persistence worker, as a state machine.
//!
//! The worker's driver waits for what the current action asks (a dirty signal, a timeout,
//! the end of a throttling sleep, a persist), feeds what happened back as a [`Signal`] with
//! the time in milliseconds, and performs the action that comes back.
use vstd::prelude::*;

verus! {

/// Where the worker stands.
#[derive(Debug, Clone, Copy, PartialEq, Eq, Structural)]
pub enum Phase {
    /// Waiting for a dirty signal, cancellation, or a checkpoint interval to pass.
    Waiting,
    /// Holding back a persist until `until`, discarding further dirty signals.
    Throttling { until: u64 },
    /// A persist is in flight; the worker exits after it when `exit_after` holds.
    Persisting { exit_after: bool },
    /// The worker has finished.
    Exited,
}

/// What happened while the worker waited.
#[derive(Debug, Clone, Copy, PartialEq, Eq, Structural)]
pub enum Signal {
    /// The map was mutated.
    Dirty,
    /// The dirty channel has no senders left.
    ChannelClosed,
    /// The server is shutting down.
    Cancelled,
    /// A checkpoint interval passed without a signal; `shut_down` tells whether the map
    /// has been shut down meanwhile.
    Timeout { shut_down: bool },
    /// The throttling sleep ended.
    SleepElapsed,
    /// The persist in flight finished, successfully or not.
    PersistDone,
}

/// What the driver does next.
#[derive(Debug, Clone, Copy, PartialEq, Eq, Structural)]
pub enum Action {
    /// Wait for a dirty signal or cancellation, for at most `timeout` milliseconds.
    Wait { timeout: u64 },
    /// Sleep until the time `deadline`, discarding dirty signals, unless cancelled.
    SleepUntil { deadline: u64 },
    /// Snapshot the map and write it to the store.
    Persist,
    /// Stop the worker.
    Exit,
}

/// The state of one document's persistence worker. Times are in milliseconds.
#[derive(Debug, Clone, Copy, PartialEq, Eq, Structural)]
pub struct PersistenceWorker {
    /// The minimum interval between two persists that no shutdown forces.
    pub checkpoint_freq: u64,
    /// When the last persist finished (or the worker started).
    pub last_save: u64,
    pub phase: Phase,
}

/// The action that a worker in this state asks of its driver.
pub open spec fn action_of(w: PersistenceWorker) -> Action {
    match w.phase {
        Phase::Waiting => Action::Wait { timeout: w.checkpoint_freq },
        Phase::Throttling { until } => Action::SleepUntil { deadline: until },
        Phase::Persisting { .. } => Action::Persist,
        Phase::Exited => Action::Exit,
    }
}

/// The earliest time at which a persist may follow the last one without a shutdown.
pub open spec fn next_allowed(w: PersistenceWorker) -> int {
    w.last_save + w.checkpoint_freq
}

/// The end of a checkpoint interval, as a `u64` time.
pub open spec fn throttle_deadline(w: PersistenceWorker) -> u64 {
    if next_allowed(w) > u64::MAX {
        u64::MAX
    } else {
        next_allowed(w) as u64
    }
}

/// After a wait ends: persist at once when the worker is done or the interval has passed,
/// else throttle until it has.
pub open spec fn after_wait(w: PersistenceWorker, done: bool, now: u64) -> PersistenceWorker {
    if !done && now < next_allowed(w) {
        PersistenceWorker { phase: Phase::Throttling { until: throttle_deadline(w) }, ..w }
    } else {
        PersistenceWorker { phase: Phase::Persisting { exit_after: done }, ..w }
    }
}

/// The state after `s` arrives at time `now`. Signals that the current phase does not wait
/// for leave the state as it is.
pub open spec fn next(w: PersistenceWorker, s: Signal, now: u64) -> PersistenceWorker {
    match w.phase {
        Phase::Waiting => match s {
            Signal::Dirty => after_wait(w, false, now),
            Signal::ChannelClosed => after_wait(w, true, now),
            Signal::Cancelled => after_wait(w, true, now),
            Signal::Timeout { shut_down } => after_wait(w, shut_down, now),
            _ => w,
        },
        Phase::Throttling { until } => match s {
            Signal::SleepElapsed => if now >= until {
                PersistenceWorker { phase: Phase::Persisting { exit_after: false }, ..w }
            } else {
                w
            },
            Signal::ChannelClosed => PersistenceWorker {
                phase: Phase::Persisting { exit_after: false },
                ..w
            },
            Signal::Cancelled => PersistenceWorker {
                phase: Phase::Persisting { exit_after: false },
                ..w
            },
            _ => w,
        },
        Phase::Persisting { exit_after } => match s {
            Signal::PersistDone => PersistenceWorker {
                last_save: now,
                phase: if exit_after {
                    Phase::Exited
                } else {
                    Phase::Waiting
                },
                ..w
            },
            _ => w,
        },
        Phase::Exited => w,
    }
}

/// Signals that end the worker's wait for good: the server shuts down, the map's owner is
/// gone, or the map was shut down.
pub open spec fn is_final_signal(s: Signal) -> bool {
    match s {
        Signal::ChannelClosed => true,
        Signal::Cancelled => true,
        Signal::Timeout { shut_down } => shut_down,
        _ => false,
    }
}

impl PersistenceWorker {
    /// A worker that starts at time `now`, waiting.
    pub fn new(checkpoint_freq: u64, now: u64) -> (r: (PersistenceWorker, Action))
        ensures
            r.0 == (PersistenceWorker { checkpoint_freq, last_save: now, phase: Phase::Waiting }),
            r.1 == action_of(r.0),
    {
        let w = PersistenceWorker { checkpoint_freq, last_save: now, phase: Phase::Waiting };
        (w, Action::Wait { timeout: checkpoint_freq })
    }

    fn after_wait(&mut self, done: bool, now: u64)
        requires
            old(self).phase == Phase::Waiting,
        ensures
            *final(self) == after_wait(*old(self), done, now),
    {
        if !done && (now as u128) < self.last_save as u128 + self.checkpoint_freq as u128 {
            let until = if self.last_save as u128 + self.checkpoint_freq as u128
                > u64::MAX as u128 {
                u64::MAX
            } else {
                self.last_save + self.checkpoint_freq
            };
            self.phase = Phase::Throttling { until };
        } else {
            self.phase = Phase::Persisting { exit_after: done };
        }
    }

    /// Takes in what happened at time `now` and returns what to do next.
    pub fn step(&mut self, s: Signal, now: u64) -> (a: Action)
        ensures
            *final(self) == next(*old(self), s, now),
            a == action_of(*final(self)),
    {
        match self.phase {
            Phase::Waiting => match s {
                Signal::Dirty => self.after_wait(false, now),
                Signal::ChannelClosed => self.after_wait(true, now),
                Signal::Cancelled => self.after_wait(true, now),
                Signal::Timeout { shut_down } => self.after_wait(shut_down, now),
                _ => {},
            },
            Phase::Throttling { until } => match s {
                Signal::SleepElapsed => {
                    if now >= until {
                        self.phase = Phase::Persisting { exit_after: false };
                    }
                },
                Signal::ChannelClosed => {
                    self.phase = Phase::Persisting { exit_after: false };
                },
                Signal::Cancelled => {
                    self.phase = Phase::Persisting { exit_after: false };
                },
                _ => {},
            },
            Phase::Persisting { exit_after } => match s {
                Signal::PersistDone => {
                    self.last_save = now;
                    self.phase = if exit_after {
                        Phase::Exited
                    } else {
                        Phase::Waiting
                    };
                },
                _ => {},
            },
            Phase::Exited => {},
        }
        self.action()
    }

    /// The action that the worker asks for in its current state.
    pub fn action(&self) -> (a: Action)
        ensures
            a == action_of(*self),
    {
        match self.phase {
            Phase::Waiting => Action::Wait { timeout: self.checkpoint_freq },
            Phase::Throttling { until } => Action::SleepUntil { deadline: until },
            Phase::Persisting { .. } => Action::Persist,
            Phase::Exited => Action::Exit,
        }
    }
}

/// Mutations coalesce: a persist that no shutdown forces starts only once a full checkpoint
/// interval has passed since the last persist finished, so at most one such persist falls in
/// any one interval, however many dirty signals arrive in it.
pub proof fn lemma_persist_spacing(w: PersistenceWorker, s: Signal, now: u64)
    requires
        !is_final_signal(s),
        w.phase == Phase::Waiting || w.phase is Throttling,
        deadline_consistent(w),
        next_allowed(w) <= u64::MAX,
    ensures
        action_of(next(w, s, now)) == Action::Persist ==> now >= next_allowed(w),
{
}

/// A throttling worker sleeps until exactly the end of the checkpoint interval that began
/// with its last persist.
pub open spec fn deadline_consistent(w: PersistenceWorker) -> bool {
    w.phase matches Phase::Throttling { until } ==> until == throttle_deadline(w)
}

/// Every worker that `new` and `step` produce keeps its throttling deadline consistent, so
/// the spacing of persists holds in every state a worker reaches.
pub proof fn lemma_deadline_consistent(w: PersistenceWorker, s: Signal, now: u64)
    requires
        deadline_consistent(w),
    ensures
        deadline_consistent(next(w, s, now)),
{
}

/// On cancellation a waiting or throttling worker persists at once, and a waiting one exits
/// right after that persist, so that no mutation made before cancellation is lost.
pub proof fn lemma_cancel_flushes(w: PersistenceWorker, now: u64, later: u64)
    requires
        w.phase == Phase::Waiting || w.phase is Throttling,
    ensures
        action_of(next(w, Signal::Cancelled, now)) == Action::Persist,
        w.phase == Phase::Waiting ==> action_of(
            next(next(w, Signal::Cancelled, now), Signal::PersistDone, later),
        ) == Action::Exit,
        w.phase is Throttling ==> action_of(
            next(
                next(next(w, Signal::Cancelled, now), Signal::PersistDone, later),
                Signal::Cancelled,
                later,
            ),
        ) == Action::Persist,
{
}

/// Once the map is shut down, the next timeout makes the worker persist one last time and
/// exit.
pub proof fn lemma_shutdown_flushes_then_exits(w: PersistenceWorker, now: u64, later: u64)
    requires
        w.phase == Phase::Waiting,
    ensures
        action_of(next(w, Signal::Timeout { shut_down: true }, now)) == Action::Persist,
        action_of(
            next(next(w, Signal::Timeout { shut_down: true }, now), Signal::PersistDone, later),
        ) == Action::Exit,
{
}

/// The state a worker reaches after the first `k` of a run of timed signals.
pub open spec fn state_after(w: PersistenceWorker, events: Seq<(Signal, u64)>, k: int) -> PersistenceWorker
    decreases k,
{
    if k <= 0 {
        w
    } else {
        next(state_after(w, events, k - 1), events[k - 1].0, events[k - 1].1)
    }
}

/// The signal makes the worker start a persist.
pub open spec fn starts_persist(w: PersistenceWorker, s: Signal, now: u64) -> bool {
    !(w.phase is Persisting) && next(w, s, now).phase is Persisting
}

/// The times of a run never go back, and stay far enough from the end of the clock that an
/// interval after any of them can be told.
pub open spec fn well_timed(w: PersistenceWorker, events: Seq<(Signal, u64)>) -> bool {
    &&& w.last_save + w.checkpoint_freq <= u64::MAX
    &&& forall|k: int| 0 <= k < events.len() ==> w.last_save <= (#[trigger] events[k]).1
    &&& forall|k: int|
        0 <= k < events.len() ==> (#[trigger] events[k]).1 + w.checkpoint_freq <= u64::MAX
    &&& forall|a: int, b: int|
        0 <= a <= b < events.len() ==> (#[trigger] events[a]).1 <= (#[trigger] events[b]).1
}

proof fn lemma_run_invariants(w: PersistenceWorker, events: Seq<(Signal, u64)>, k: int)
    requires
        deadline_consistent(w),
        well_timed(w, events),
        0 <= k <= events.len(),
    ensures
        state_after(w, events, k).checkpoint_freq == w.checkpoint_freq,
        deadline_consistent(state_after(w, events, k)),
        state_after(w, events, k).last_save + w.checkpoint_freq <= u64::MAX,
        state_after(w, events, k).last_save >= w.last_save,
    decreases k,
{
    if k > 0 {
        lemma_run_invariants(w, events, k - 1);
        let prev = state_after(w, events, k - 1);
        lemma_deadline_consistent(prev, events[k - 1].0, events[k - 1].1);
    }
}

proof fn lemma_saved_since(w: PersistenceWorker, events: Seq<(Signal, u64)>, i: int, k: int)
    requires
        deadline_consistent(w),
        well_timed(w, events),
        0 <= i < k <= events.len(),
        starts_persist(state_after(w, events, i), events[i].0, events[i].1),
    ensures
        state_after(w, events, k).phase is Persisting || state_after(w, events, k).last_save
            >= events[i].1,
    decreases k,
{
    if k > i + 1 {
        lemma_saved_since(w, events, i, k - 1);
        assert(events[i].1 <= events[k - 1].1);
    }
}

/// Mutations coalesce over a whole run: of two persists that a worker starts, the later,
/// unless a shutdown forces it, starts a full checkpoint interval after the earlier. So no
/// window of one interval holds two such persists, however many dirty signals arrive in it.
pub proof fn lemma_one_persist_per_interval(
    w: PersistenceWorker,
    events: Seq<(Signal, u64)>,
    i: int,
    j: int,
)
    requires
        deadline_consistent(w),
        well_timed(w, events),
        0 <= i < j < events.len(),
        starts_persist(state_after(w, events, i), events[i].0, events[i].1),
        starts_persist(state_after(w, events, j), events[j].0, events[j].1),
        !is_final_signal(events[j].0),
    ensures
        events[j].1 >= events[i].1 + w.checkpoint_freq,
{
    lemma_saved_since(w, events, i, j);
    lemma_run_invariants(w, events, j);
    let st = state_after(w, events, j);
    lemma_persist_spacing(st, events[j].0, events[j].1);
}

} // verus!
