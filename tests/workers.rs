use y_sweet::documents::doc_exists;
use y_sweet::gc::{GcAction, GcSignal, GcWorker};
use y_sweet::persistence::{Action, PersistenceWorker, Phase, Signal};
use y_sweet::sync_kv::SyncKv;

#[test]
fn burst_of_updates_persists_once_per_window() {
    let freq = 10_000u64;
    let (mut w, first) = PersistenceWorker::new(freq, 0);
    assert_eq!(first, Action::Wait { timeout: freq });
    let mut persists = 0;
    for i in 0..1000u64 {
        let now = i * 5;
        if w.step(Signal::Dirty, now) == Action::Persist {
            persists += 1;
        }
    }
    assert_eq!(w.phase, Phase::Throttling { until: freq });
    assert_eq!(w.step(Signal::SleepElapsed, freq - 1), Action::SleepUntil { deadline: freq });
    if w.step(Signal::SleepElapsed, freq) == Action::Persist {
        persists += 1;
    }
    assert_eq!(persists, 1);
    assert_eq!(w.step(Signal::PersistDone, freq + 20), Action::Wait { timeout: freq });
    assert_eq!(w.last_save, freq + 20);
    assert_eq!(w.step(Signal::Dirty, freq + 30), Action::SleepUntil { deadline: 2 * freq + 20 });
}

#[test]
fn late_dirty_signal_persists_at_once() {
    let (mut w, _) = PersistenceWorker::new(1000, 0);
    assert_eq!(w.step(Signal::Dirty, 5000), Action::Persist);
}

#[test]
fn idle_timeout_persists_and_continues() {
    let (mut w, _) = PersistenceWorker::new(1000, 0);
    assert_eq!(w.step(Signal::Timeout { shut_down: false }, 1000), Action::Persist);
    assert_eq!(w.step(Signal::PersistDone, 1001), Action::Wait { timeout: 1000 });
}

#[test]
fn cancellation_flushes_before_exit() {
    let mut kv = SyncKv::new();
    let (mut w, _) = PersistenceWorker::new(10_000, 0);
    kv.set(b"k".to_vec(), b"v".to_vec());
    assert_eq!(w.step(Signal::Dirty, 10), Action::SleepUntil { deadline: 10_000 });
    kv.set(b"k2".to_vec(), b"v2".to_vec());
    assert_eq!(w.step(Signal::Cancelled, 20), Action::Persist);
    let stored = kv.snapshot();
    assert_eq!(w.step(Signal::PersistDone, 30), Action::Wait { timeout: 10_000 });
    assert_eq!(w.step(Signal::Cancelled, 30), Action::Persist);
    assert_eq!(w.step(Signal::PersistDone, 40), Action::Exit);
    assert_eq!(w.step(Signal::Dirty, 50), Action::Exit);
    let reloaded = SyncKv::load(Some(stored)).ok().unwrap();
    assert_eq!(reloaded.get(b"k"), Some(b"v".to_vec()));
    assert_eq!(reloaded.get(b"k2"), Some(b"v2".to_vec()));
}

#[test]
fn shutdown_map_flushes_then_exits() {
    let (mut w, _) = PersistenceWorker::new(1000, 0);
    assert_eq!(w.step(Signal::Timeout { shut_down: true }, 1000), Action::Persist);
    assert_eq!(w.step(Signal::PersistDone, 1005), Action::Exit);
}

#[test]
fn closed_channel_ends_the_worker() {
    let (mut w, _) = PersistenceWorker::new(1000, 0);
    assert_eq!(w.step(Signal::ChannelClosed, 1), Action::Persist);
    assert_eq!(w.step(Signal::PersistDone, 2), Action::Exit);
}

#[test]
fn connected_document_is_never_evicted() {
    let mut gc = GcWorker::new();
    for _ in 0..10 {
        assert_eq!(gc.step(GcSignal::Tick { in_registry: true, connections: 1 }), GcAction::Sleep);
    }
    assert_eq!(gc.idle_ticks, 0);
}

#[test]
fn idle_document_is_evicted_after_two_intervals() {
    let mut gc = GcWorker::new();
    let idle = GcSignal::Tick { in_registry: true, connections: 0 };
    assert_eq!(gc.step(idle), GcAction::Sleep);
    assert_eq!(gc.step(GcSignal::Tick { in_registry: true, connections: 2 }), GcAction::Sleep);
    assert_eq!(gc.step(idle), GcAction::Sleep);
    assert_eq!(gc.step(idle), GcAction::Evict);
    assert_eq!(gc.step(idle), GcAction::Exit);
}

#[test]
fn evicted_document_reloads_its_state() {
    let mut kv = SyncKv::new();
    kv.set(b"doc".to_vec(), b"state".to_vec());
    let mut gc = GcWorker::new();
    let idle = GcSignal::Tick { in_registry: true, connections: 0 };
    gc.step(idle);
    assert_eq!(gc.step(idle), GcAction::Evict);
    kv.shutdown();
    let (mut w, _) = PersistenceWorker::new(1000, 0);
    assert_eq!(w.step(Signal::Timeout { shut_down: kv.is_shutdown() }, 1000), Action::Persist);
    let stored = kv.snapshot();
    assert_eq!(w.step(Signal::PersistDone, 1001), Action::Exit);
    let reloaded = SyncKv::load(Some(stored)).ok().unwrap();
    assert_eq!(reloaded.get(b"doc"), Some(b"state".to_vec()));
}

#[test]
fn gc_stops_when_unregistered_or_cancelled() {
    let mut gc = GcWorker::new();
    assert_eq!(gc.step(GcSignal::Tick { in_registry: false, connections: 0 }), GcAction::Exit);
    let mut gc = GcWorker::new();
    gc.step(GcSignal::Tick { in_registry: true, connections: 0 });
    assert_eq!(gc.step(GcSignal::Cancelled), GcAction::Exit);
    assert!(gc.finished);
}

#[test]
fn unconnected_document_leaves_the_registry_but_stays_stored() {
    let mut gc = GcWorker::new();
    let idle = GcSignal::Tick { in_registry: true, connections: 0 };
    assert_eq!(gc.step(idle), GcAction::Sleep);
    assert_eq!(gc.step(idle), GcAction::Evict);
    assert_eq!(doc_exists(false, Some(Ok(true))), Ok(true));
}
