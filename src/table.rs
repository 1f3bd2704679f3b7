use std::collections::HashMap;
use vstd::prelude::*;
use vstd::std_specs::hash::{group_hash_axioms, spec_values_iter};
use vstd::std_specs::iter::IteratorSpec;

use crate::types::{ExecutionId, Record};

verus! {

broadcast use group_hash_axioms;

/// The record partition: execution id to record, plus the id of the most
/// recent insertion.
///
/// Records are keyed by the number inside their `ExecutionId`. The walk
/// order of `get_records` is that of the underlying hash map and is not part
/// of the contract.
pub struct RecordTable {
    records: HashMap<u64, Record>,
    latest_id: Option<ExecutionId>,
}

impl RecordTable {
    /// The stored records, keyed by the number inside their id.
    pub closed spec fn records(&self) -> Map<u64, Record> {
        self.records@
    }

    /// The id passed to the most recent `add_record`, if any.
    pub closed spec fn latest(&self) -> Option<ExecutionId> {
        self.latest_id
    }

    /// Every record sits under its own id, and the latest id is absent
    /// exactly when nothing was ever stored, and is stored otherwise.
    pub open spec fn wf(&self) -> bool {
        &&& forall|k: u64| #[trigger]
            self.records().contains_key(k) ==> self.records()[k].id == ExecutionId(k)
        &&& match self.latest() {
            None => self.records().is_empty(),
            Some(id) => self.records().contains_key(id.0),
        }
    }

    /// What `get_record(id)` reports on this table.
    pub open spec fn lookup(&self, id: ExecutionId) -> Option<Record> {
        if self.records().contains_key(id.0) {
            Some(self.records()[id.0])
        } else {
            None
        }
    }

    /// An empty table: no records, no latest id.
    pub fn new() -> (t: Self)
        ensures
            t.wf(),
            t.records().is_empty(),
            t.latest() is None,
    {
        RecordTable { records: HashMap::new(), latest_id: None }
    }

    /// Inserts `record` under its id, replacing any earlier record with that
    /// id, and makes its id the latest.
    pub fn add_record(&mut self, record: Record)
        requires
            old(self).wf(),
        ensures
            final(self).wf(),
            final(self).records() == old(self).records().insert(record.id.0, record),
            final(self).latest() == Some(record.id),
    {
        let id = record.id;
        self.latest_id = Some(id);
        self.records.insert(id.0, record);
    }

    /// The record stored under `id`, or `None` when there is none.
    pub fn get_record(&self, id: ExecutionId) -> (r: Option<Record>)
        requires
            self.wf(),
        ensures
            r == self.lookup(id),
    {
        match self.records.get(&id.0) {
            Some(rec) => Some(rec.clone()),
            None => None,
        }
    }

    /// A snapshot of every stored record, each once, in no promised order.
    pub fn get_records(&self) -> (r: Vec<Record>)
        requires
            self.wf(),
        ensures
            r.len() == self.records().dom().len(),
            forall|i: int| 0 <= i < r.len() ==> self.lookup(#[trigger] r@[i].id) == Some(r@[i]),
            forall|k: u64| #[trigger]
                self.records().contains_key(k) ==> exists|i: int|
                    0 <= i < r.len() && #[trigger] r@[i] == self.records()[k],
            forall|i: int, j: int| 0 <= i < j < r.len() ==> #[trigger] r@[i].id != #[trigger] r@[j].id,
    {
        let ghost s = spec_values_iter(&self.records).remaining().unref();
        let mut out: Vec<Record> = Vec::new();
        for rec in it: self.records.values()
            invariant
                self.wf(),
                it.seq().unref() == s,
                out.len() == it.index(),
                forall|i: int| 0 <= i < it.index() ==> out@[i] == s[i],
        {
            out.push(rec.clone());
        }
        proof {
            assert(s.to_set() == self.records@.values());
            assert(s.len() == self.records@.dom().len());
            assert(out@ =~= s);
            assert forall|i: int| 0 <= i < out.len() implies self.lookup(#[trigger] out@[i].id) == Some(out@[i]) by {
                assert(s.to_set().contains(s[i]));
            }
            assert forall|k: u64| #[trigger] self.records().contains_key(k) implies exists|i: int|
                    0 <= i < out.len() && #[trigger] out@[i] == self.records()[k] by {
                assert(self.records@.values().contains(self.records@[k]));
                assert(s.to_set().contains(self.records@[k]));
            }
            let ids = out@.map_values(|rec: Record| rec.id.0);
            assert(ids.to_set() =~= self.records@.dom()) by {
                assert forall|k: u64| #[trigger] ids.to_set().contains(k) implies self.records@.dom().contains(k) by {
                    let i = choose|i: int| 0 <= i < ids.len() && ids[i] == k;
                    assert(self.lookup(out@[i].id) == Some(out@[i]));
                }
                assert forall|k: u64| #[trigger] self.records@.dom().contains(k) implies ids.to_set().contains(k) by {
                    assert(self.records().contains_key(k));
                    let i = choose|i: int| 0 <= i < out.len() && #[trigger] out@[i] == self.records()[k];
                    assert(ids[i] == k);
                }
            }
            lemma_full_set_no_duplicates(ids);
            assert forall|i: int, j: int| 0 <= i < j < out.len() implies #[trigger] out@[i].id != #[trigger] out@[j].id by {
                assert(ids[i] != ids[j]);
            }
        }
        out
    }

    /// The id of the most recent insertion, or `None` on a table that never
    /// had one.
    pub fn get_latest_id(&self) -> (r: Option<ExecutionId>)
        ensures
            r == self.latest(),
    {
        self.latest_id
    }
}

/// A sequence whose set of elements is as large as the sequence itself holds
/// no element twice.
proof fn lemma_full_set_no_duplicates<A>(s: Seq<A>)
    requires
        s.to_set().len() == s.len(),
    ensures
        s.no_duplicates(),
{
    assert forall|i: int, j: int| 0 <= i < s.len() && 0 <= j < s.len() && i != j implies s[i] != s[j] by {
        if s[i] == s[j] {
            let t = s.remove(j);
            assert(t.to_set() =~= s.to_set()) by {
                assert forall|x: A| #[trigger] s.to_set().contains(x) implies t.to_set().contains(x) by {
                    let k = choose|k: int| 0 <= k < s.len() && s[k] == x;
                    if k < j {
                        assert(t[k] == x);
                    } else if k > j {
                        assert(t[k - 1] == x);
                    } else if i < j {
                        assert(t[i] == x);
                    } else {
                        assert(t[i - 1] == x);
                    }
                }
            }
            t.lemma_cardinality_of_set();
        }
    }
}

} // verus!
