use y_sweet::snapshot::{decode, encode};
use y_sweet::sync_kv::{LoadError, SyncKv};

fn kv_with(ops: &[(&str, Option<&str>)]) -> SyncKv {
    let mut kv = SyncKv::new();
    for (k, v) in ops {
        match v {
            Some(v) => {
                kv.set(k.as_bytes().to_vec(), v.as_bytes().to_vec());
            }
            None => {
                kv.remove(k.as_bytes());
            }
        }
    }
    kv
}

#[test]
fn snapshot_round_trip_after_sets_and_removes() {
    let ops = [
        ("a", Some("1")),
        ("b", Some("2")),
        ("a", Some("3")),
        ("c", Some("")),
        ("b", None),
        ("", Some("empty key")),
    ];
    let mut kv = kv_with(&ops);
    let bytes = kv.snapshot();
    let loaded = SyncKv::load(Some(bytes)).ok().unwrap();
    for key in ["a", "b", "c", "", "zzz"] {
        assert_eq!(loaded.get(key.as_bytes()), kv.get(key.as_bytes()));
    }
    assert_eq!(loaded.get(b"a"), Some(b"3".to_vec()));
    assert_eq!(loaded.get(b"b"), None);
    assert_eq!(loaded.get(b"c"), Some(Vec::new()));
}

#[test]
fn snapshot_format_bytes() {
    let mut kv = SyncKv::new();
    kv.set(b"k".to_vec(), b"vv".to_vec());
    let bytes = kv.snapshot();
    let mut expected = vec![1u8];
    expected.extend_from_slice(&1u64.to_le_bytes());
    expected.extend_from_slice(&1u64.to_le_bytes());
    expected.extend_from_slice(b"k");
    expected.extend_from_slice(&2u64.to_le_bytes());
    expected.extend_from_slice(b"vv");
    assert_eq!(bytes, expected);
    let entries = vec![(b"k".to_vec(), b"vv".to_vec())];
    assert_eq!(encode(&entries), expected);
    assert_eq!(decode(&expected), Some(entries));
}

#[test]
fn empty_map_snapshot() {
    let mut kv = SyncKv::new();
    let bytes = kv.snapshot();
    assert_eq!(bytes.len(), 9);
    let loaded = SyncKv::load(Some(bytes)).ok().unwrap();
    assert_eq!(loaded.get(b"x"), None);
}

#[test]
fn missing_snapshot_loads_empty() {
    let kv = SyncKv::load(None).ok().unwrap();
    assert_eq!(kv.get(b"a"), None);
    assert!(!kv.is_dirty());
}

#[test]
fn malformed_snapshots_are_rejected() {
    let bad: Vec<Vec<u8>> = vec![
        vec![],
        vec![2, 0, 0, 0, 0, 0, 0, 0, 0],
        vec![1, 1, 0, 0, 0, 0, 0, 0, 0],
        vec![1, 0, 0, 0, 0, 0, 0, 0, 0, 7],
        vec![1, 1, 0, 0, 0, 0, 0, 0, 0, 5, 0, 0, 0, 0, 0, 0, 0, b'a'],
    ];
    for b in bad {
        assert!(matches!(SyncKv::load(Some(b.clone())), Err(LoadError::MalformedSnapshot)));
        assert_eq!(decode(&b), None);
    }
}

#[test]
fn remove_twice_is_remove_once() {
    for present in [true, false] {
        let mut once = SyncKv::new();
        let mut twice = SyncKv::new();
        if present {
            once.set(b"k".to_vec(), b"v".to_vec());
            twice.set(b"k".to_vec(), b"v".to_vec());
        }
        once.set(b"other".to_vec(), b"x".to_vec());
        twice.set(b"other".to_vec(), b"x".to_vec());
        once.remove(b"k");
        twice.remove(b"k");
        twice.remove(b"k");
        assert_eq!(once.get(b"k"), twice.get(b"k"));
        assert_eq!(once.get(b"other"), twice.get(b"other"));
        assert_eq!(once.is_dirty(), twice.is_dirty());
        assert_eq!(once.snapshot(), twice.snapshot());
    }
}

#[test]
fn dirty_and_shutdown_flags() {
    let mut kv = SyncKv::new();
    assert!(!kv.is_dirty());
    assert!(kv.set(b"a".to_vec(), b"1".to_vec()));
    assert!(kv.is_dirty());
    let _ = kv.snapshot();
    assert!(!kv.is_dirty());
    kv.persist_failed();
    assert!(kv.is_dirty());
    let _ = kv.snapshot();
    kv.shutdown();
    assert!(kv.is_shutdown());
    assert!(!kv.set(b"b".to_vec(), b"2".to_vec()));
    assert!(kv.is_dirty());
    assert!(!kv.remove(b"a"));
    assert_eq!(kv.get(b"a"), None);
    assert_eq!(kv.get(b"b"), Some(b"2".to_vec()));
}
