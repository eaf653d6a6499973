//! The decisions of a document's garbage collector, as a state machine.
//!
//! Every checkpoint interval the driver reports whether the document is still in the
//! registry and how many connections hold it; after two idle intervals in a row the
//! document is evicted.
use vstd::prelude::*;

verus! {

/// Idle intervals in a row after which a document is evicted.
pub const IDLE_TICKS_TO_EVICT: u8 = 2;

/// What the driver saw at the end of an interval, or cancellation.
#[derive(Debug, Clone, Copy, PartialEq, Eq, Structural)]
pub enum GcSignal {
    /// A checkpoint interval passed. `in_registry`: the document is still registered;
    /// `connections`: how many client connections hold it.
    Tick { in_registry: bool, connections: u64 },
    /// The server is shutting down.
    Cancelled,
}

/// What the driver does next.
#[derive(Debug, Clone, Copy, PartialEq, Eq, Structural)]
pub enum GcAction {
    /// Sleep for one checkpoint interval and report again.
    Sleep,
    /// Shut the document's map down, remove it from the registry, and stop.
    Evict,
    /// Stop without touching the document.
    Exit,
}

/// The state of one document's collector.
#[derive(Debug, Clone, Copy, PartialEq, Eq, Structural)]
pub struct GcWorker {
    /// Idle intervals in a row so far.
    pub idle_ticks: u8,
    /// The collector has stopped.
    pub finished: bool,
}

/// The state after a signal, and the action it calls for.
pub open spec fn gc_next(w: GcWorker, s: GcSignal) -> (GcWorker, GcAction) {
    if w.finished {
        (w, GcAction::Exit)
    } else {
        match s {
            GcSignal::Cancelled => (GcWorker { finished: true, ..w }, GcAction::Exit),
            GcSignal::Tick { in_registry, connections } => if !in_registry {
                (GcWorker { finished: true, ..w }, GcAction::Exit)
            } else {
                let idle: u8 = if connections > 0 {
                    0
                } else if w.idle_ticks < IDLE_TICKS_TO_EVICT {
                    (w.idle_ticks + 1) as u8
                } else {
                    w.idle_ticks
                };
                if idle >= IDLE_TICKS_TO_EVICT {
                    (GcWorker { idle_ticks: idle, finished: true }, GcAction::Evict)
                } else {
                    (GcWorker { idle_ticks: idle, finished: false }, GcAction::Sleep)
                }
            },
        }
    }
}

/// An idle, in-registry tick.
pub open spec fn idle_tick() -> GcSignal {
    GcSignal::Tick { in_registry: true, connections: 0 }
}

impl GcWorker {
    /// A collector with no idle intervals counted.
    pub fn new() -> (r: GcWorker)
        ensures
            r == (GcWorker { idle_ticks: 0, finished: false }),
    {
        GcWorker { idle_ticks: 0, finished: false }
    }

    /// Takes in the signal and returns what to do next.
    pub fn step(&mut self, s: GcSignal) -> (a: GcAction)
        ensures
            (*final(self), a) == gc_next(*old(self), s),
    {
        if self.finished {
            return GcAction::Exit;
        }
        match s {
            GcSignal::Cancelled => {
                self.finished = true;
                GcAction::Exit
            },
            GcSignal::Tick { in_registry, connections } => {
                if !in_registry {
                    self.finished = true;
                    return GcAction::Exit;
                }
                if connections > 0 {
                    self.idle_ticks = 0;
                } else if self.idle_ticks < IDLE_TICKS_TO_EVICT {
                    self.idle_ticks = self.idle_ticks + 1;
                }
                if self.idle_ticks >= IDLE_TICKS_TO_EVICT {
                    self.finished = true;
                    GcAction::Evict
                } else {
                    GcAction::Sleep
                }
            },
        }
    }
}

/// A document that some connection holds is never evicted.
pub proof fn lemma_active_never_evicted(w: GcWorker, in_registry: bool, connections: u64)
    requires
        connections > 0,
    ensures
        gc_next(w, GcSignal::Tick { in_registry, connections }).1 != GcAction::Evict,
{
}

/// A document that no connection holds for two intervals in a row is evicted, at the
/// latest on the second.
pub proof fn lemma_idle_twice_evicts(w: GcWorker)
    requires
        !w.finished,
    ensures
        gc_next(w, idle_tick()).1 == GcAction::Evict || gc_next(gc_next(w, idle_tick()).0, idle_tick()).1
            == GcAction::Evict,
{
}

/// One idle interval alone does not evict a document that a connection held before it.
pub proof fn lemma_one_idle_tick_spares(w: GcWorker)
    requires
        !w.finished,
        w.idle_ticks == 0,
    ensures
        gc_next(w, idle_tick()).1 == GcAction::Sleep,
{
}

/// A cancelled collector stops without evicting.
pub proof fn lemma_cancel_exits(w: GcWorker)
    ensures
        gc_next(w, GcSignal::Cancelled).1 == GcAction::Exit,
{
}

} // verus!
