use vstd::prelude::*;

use crate::types::{ExecutionId, Record, RuntimeConfig};

verus! {

/// Why a store backend could not carry out an operation.
#[derive(Clone, Copy, Debug, PartialEq, Eq, Structural)]
pub enum StoreError {
    /// The backend could not reach its state.
    Unavailable,
}

/// The six operations every store backend offers.
///
/// What each backend promises beyond the clauses here is stated on its impl.
pub trait Store {
    /// Inserts or replaces the record under its own id and makes that id the
    /// latest.
    fn add_record(&mut self, record: Record) -> (r: Result<(), StoreError>);

    /// The record stored under `id`; a missing id is `Ok(None)`, not an error.
    fn get_record(&self, id: ExecutionId) -> (r: Result<Option<Record>, StoreError>)
        ensures
            r matches Ok(Some(rec)) ==> rec.id == id,
    ;

    /// The id of the most recent `add_record`, or `None` before the first.
    fn get_latest_id(&self) -> (r: Result<Option<ExecutionId>, StoreError>);

    /// A snapshot of all stored records, each once, in no promised order.
    fn get_records(&self) -> (r: Result<Vec<Record>, StoreError>)
        ensures
            r matches Ok(v) ==> forall|i: int, j: int|
                0 <= i < j < v.len() ==> #[trigger] v@[i].id != #[trigger] v@[j].id,
    ;

    /// The current runtime configuration, or `None` if none was ever set.
    fn get_runtime_config(&self) -> (r: Result<Option<RuntimeConfig>, StoreError>);

    /// Replaces the current runtime configuration.
    fn set_runtime_config(&mut self, config: RuntimeConfig) -> (r: Result<(), StoreError>);
}

} // verus!
