use exec_store::config::ConfigCell;
use exec_store::table::RecordTable;
use exec_store::types::{ExecutionId, Record, RuntimeConfig};

fn rec(id: u64, payload: &str) -> Record {
    Record { id: ExecutionId(id), payload: payload.to_string() }
}

#[test]
fn table_starts_empty() {
    let t = RecordTable::new();
    assert_eq!(t.get_latest_id(), None);
    assert!(t.get_records().is_empty());
    assert_eq!(t.get_record(ExecutionId(0)), None);
}

#[test]
fn table_last_write_wins() {
    let mut t = RecordTable::new();
    t.add_record(rec(1, "a"));
    t.add_record(rec(2, "b"));
    t.add_record(rec(1, "c"));
    assert_eq!(t.get_record(ExecutionId(1)), Some(rec(1, "c")));
    assert_eq!(t.get_record(ExecutionId(2)), Some(rec(2, "b")));
    assert_eq!(t.get_latest_id(), Some(ExecutionId(1)));
    assert_eq!(t.get_records().len(), 2);
}

#[test]
fn table_largest_id() {
    let mut t = RecordTable::new();
    t.add_record(rec(u64::MAX, "max"));
    t.add_record(rec(0, "zero"));
    assert_eq!(t.get_record(ExecutionId(u64::MAX)), Some(rec(u64::MAX, "max")));
    assert_eq!(t.get_latest_id(), Some(ExecutionId(0)));
    assert_eq!(t.get_records().len(), 2);
}

#[test]
fn table_get_record_returns_equal_copy() {
    let mut t = RecordTable::new();
    t.add_record(rec(5, "payload five"));
    let got = t.get_record(ExecutionId(5)).unwrap();
    assert_eq!(got.payload, "payload five");
    assert_eq!(got.id, ExecutionId(5));
}

#[test]
fn cell_starts_empty_and_keeps_last() {
    let mut c = ConfigCell::new();
    assert_eq!(c.get_runtime_config(), None);
    c.set_runtime_config(RuntimeConfig { timeout: 30 });
    assert_eq!(c.get_runtime_config(), Some(RuntimeConfig { timeout: 30 }));
    c.set_runtime_config(RuntimeConfig { timeout: 60 });
    assert_eq!(c.get_runtime_config(), Some(RuntimeConfig { timeout: 60 }));
}

#[test]
fn record_clone_is_equal() {
    let r = rec(3, "copy me");
    assert_eq!(r.clone(), r);
}
