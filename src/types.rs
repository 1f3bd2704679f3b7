use vstd::prelude::*;

verus! {

/// Identifies one execution. Assigned by the caller; the store never makes one up.
#[derive(Clone, Copy, Debug, PartialEq, Eq, Hash, Structural)]
pub struct ExecutionId(pub u64);

/// The record of one execution, carrying its own id.
#[derive(Debug, PartialEq, Eq)]
pub struct Record {
    pub id: ExecutionId,
    pub payload: String,
}

impl Clone for Record {
    fn clone(&self) -> (r: Self)
        ensures
            r == *self,
    {
        Record { id: self.id, payload: self.payload.clone() }
    }
}

/// The process-wide runtime configuration.
#[derive(Clone, Copy, Debug, PartialEq, Eq, Structural)]
pub struct RuntimeConfig {
    /// Timeout in seconds.
    pub timeout: u64,
}

} // verus!
