use exec_store::memory::MemoryStore;
use exec_store::store::Store;
use exec_store::types::{ExecutionId, Record, RuntimeConfig};

fn rec(id: u64, payload: &str) -> Record {
    Record { id: ExecutionId(id), payload: payload.to_string() }
}

fn requires_send_sync<T: Send + Sync>() {}

#[test]
fn fresh_store_is_empty() {
    let store = MemoryStore::new();
    assert_eq!(store.get_latest_id().unwrap(), None);
    assert!(store.get_records().unwrap().is_empty());
    assert_eq!(store.get_record(ExecutionId(1)).unwrap(), None);
    assert_eq!(store.get_runtime_config().unwrap(), None);
}

#[test]
fn replacement_keeps_latest_and_count() {
    let mut store = MemoryStore::new();
    store.add_record(rec(1, "a")).unwrap();
    store.add_record(rec(2, "b")).unwrap();
    store.add_record(rec(1, "c")).unwrap();
    assert_eq!(store.get_record(ExecutionId(1)).unwrap(), Some(rec(1, "c")));
    assert_eq!(store.get_record(ExecutionId(2)).unwrap(), Some(rec(2, "b")));
    assert_eq!(store.get_latest_id().unwrap(), Some(ExecutionId(1)));
    assert_eq!(store.get_records().unwrap().len(), 2);
}

#[test]
fn last_config_set_wins() {
    let mut store = MemoryStore::new();
    store.set_runtime_config(RuntimeConfig { timeout: 30 }).unwrap();
    store.set_runtime_config(RuntimeConfig { timeout: 60 }).unwrap();
    assert_eq!(store.get_runtime_config().unwrap(), Some(RuntimeConfig { timeout: 60 }));
}

#[test]
fn missing_id_is_none_not_error() {
    let mut store = MemoryStore::new();
    store.add_record(rec(7, "x")).unwrap();
    assert_eq!(store.get_record(ExecutionId(8)).unwrap(), None);
}

#[test]
fn latest_follows_call_order_not_key_order() {
    let mut store = MemoryStore::new();
    store.add_record(rec(9, "late key")).unwrap();
    store.add_record(rec(3, "early key")).unwrap();
    assert_eq!(store.get_latest_id().unwrap(), Some(ExecutionId(3)));
}

#[test]
fn snapshot_holds_each_record_once() {
    let mut store = MemoryStore::new();
    for i in 0..5u64 {
        store.add_record(rec(i, "first")).unwrap();
    }
    store.add_record(rec(2, "second")).unwrap();
    let mut all = store.get_records().unwrap();
    all.sort_by_key(|r| r.id.0);
    let ids: Vec<u64> = all.iter().map(|r| r.id.0).collect();
    assert_eq!(ids, vec![0, 1, 2, 3, 4]);
    assert_eq!(all[2].payload, "second");
    assert_eq!(all[3].payload, "first");
}

#[test]
fn clones_share_state() {
    let store = MemoryStore::new();
    let mut writer = store.clone();
    writer.add_record(rec(4, "shared")).unwrap();
    writer.set_runtime_config(RuntimeConfig { timeout: 5 }).unwrap();
    assert_eq!(store.get_record(ExecutionId(4)).unwrap(), Some(rec(4, "shared")));
    assert_eq!(store.get_latest_id().unwrap(), Some(ExecutionId(4)));
    assert_eq!(store.get_runtime_config().unwrap(), Some(RuntimeConfig { timeout: 5 }));
}

#[test]
fn distinct_adds_through_many_handles_all_present() {
    let store = MemoryStore::new();
    let n: u64 = 16;
    for i in 0..n {
        let mut handle = store.clone();
        handle.add_record(rec(100 + i, "run")).unwrap();
    }
    let all = store.get_records().unwrap();
    assert_eq!(all.len(), n as usize);
    for i in 0..n {
        assert!(all.iter().any(|r| r.id == ExecutionId(100 + i)));
    }
    let latest = store.get_latest_id().unwrap().unwrap();
    assert!(latest.0 >= 100 && latest.0 < 100 + n);
}

#[test]
fn store_can_be_shared_between_threads() {
    requires_send_sync::<MemoryStore>();
}
