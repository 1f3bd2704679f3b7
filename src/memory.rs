use std::sync::Arc;
use vstd::prelude::*;
use vstd::rwlock::{RwLock, RwLockPredicate};

use crate::config::ConfigCell;
use crate::store::{Store, StoreError};
use crate::table::RecordTable;
use crate::types::{ExecutionId, Record, RuntimeConfig};

verus! {

/// Lock invariant of the record partition: the table is well formed.
struct TableInv {}

impl RwLockPredicate<RecordTable> for TableInv {
    open spec fn inv(self, t: RecordTable) -> bool {
        t.wf()
    }
}

/// Lock invariant of the config partition: any cell will do.
struct ConfigInv {}

impl RwLockPredicate<ConfigCell> for ConfigInv {
    open spec fn inv(self, c: ConfigCell) -> bool {
        true
    }
}

/// The in-memory store: a record table and a config cell, each behind its
/// own readers-writer lock.
///
/// Cloning a `MemoryStore` gives another handle to the same two partitions.
/// No operation holds both locks, so record traffic never waits on config
/// traffic. Each critical section is one call of `RecordTable` or
/// `ConfigCell`, whose contracts give the exact effect; since other handles
/// may act between two calls, the contracts here state what holds whatever
/// they did. The critical sections are verified not to panic, so a lock is
/// never left held by a failed writer and every operation returns `Ok`.
#[derive(Clone)]
pub struct MemoryStore {
    data: Arc<RwLock<RecordTable, TableInv>>,
    runtime_config: Arc<RwLock<ConfigCell, ConfigInv>>,
}

impl MemoryStore {
    /// A store with no records, no latest id and no runtime configuration.
    pub fn new() -> Self {
        MemoryStore {
            data: Arc::new(RwLock::new(RecordTable::new(), Ghost(TableInv {}))),
            runtime_config: Arc::new(RwLock::new(ConfigCell::new(), Ghost(ConfigInv {}))),
        }
    }
}

impl Store for MemoryStore {
    fn add_record(&mut self, record: Record) -> (r: Result<(), StoreError>)
        ensures
            *final(self) == *old(self),
            r is Ok,
    {
        let (mut table, handle) = self.data.acquire_write();
        table.add_record(record);
        handle.release_write(table);
        Ok(())
    }

    fn get_record(&self, id: ExecutionId) -> (r: Result<Option<Record>, StoreError>)
        ensures
            r is Ok,
    {
        let handle = self.data.acquire_read();
        let found = handle.borrow().get_record(id);
        handle.release_read();
        Ok(found)
    }

    fn get_latest_id(&self) -> (r: Result<Option<ExecutionId>, StoreError>)
        ensures
            r is Ok,
    {
        let handle = self.data.acquire_read();
        let latest = handle.borrow().get_latest_id();
        handle.release_read();
        Ok(latest)
    }

    fn get_records(&self) -> (r: Result<Vec<Record>, StoreError>)
        ensures
            r is Ok,
    {
        let handle = self.data.acquire_read();
        let all = handle.borrow().get_records();
        handle.release_read();
        Ok(all)
    }

    fn get_runtime_config(&self) -> (r: Result<Option<RuntimeConfig>, StoreError>)
        ensures
            r is Ok,
    {
        let handle = self.runtime_config.acquire_read();
        let config = handle.borrow().get_runtime_config();
        handle.release_read();
        Ok(config)
    }

    fn set_runtime_config(&mut self, config: RuntimeConfig) -> (r: Result<(), StoreError>)
        ensures
            *final(self) == *old(self),
            r is Ok,
    {
        let (mut cell, handle) = self.runtime_config.acquire_write();
        cell.set_runtime_config(config);
        handle.release_write(cell);
        Ok(())
    }
}

} // verus!
