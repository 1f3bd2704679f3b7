//! What holds after a whole series of writes, stated over the states that the
//! write contracts of `RecordTable` and `ConfigCell` describe one step at a
//! time.
use vstd::prelude::*;

use crate::config::ConfigCell;
use crate::table::RecordTable;
use crate::types::{ExecutionId, Record, RuntimeConfig};

verus! {

/// One call of `RecordTable::add_record(r)` takes `before` to `after`, as
/// its `ensures` states it.
pub open spec fn add_step(before: RecordTable, after: RecordTable, r: Record) -> bool {
    &&& after.records() == before.records().insert(r.id.0, r)
    &&& after.latest() == Some(r.id)
}

/// `tables` are the states a table passes through while `adds` are added to
/// it in order.
pub open spec fn add_run(tables: Seq<RecordTable>, adds: Seq<Record>) -> bool {
    &&& tables.len() == adds.len() + 1
    &&& forall|i: int| 0 <= i < adds.len() ==> #[trigger] add_step(tables[i], tables[i + 1], adds[i])
}

/// A table as `RecordTable::new` leaves it.
pub open spec fn is_fresh(t: RecordTable) -> bool {
    t.records().is_empty() && t.latest() is None
}

/// The last record of `adds` whose id is `id`, if any.
pub open spec fn last_added(adds: Seq<Record>, id: ExecutionId) -> Option<Record>
    decreases adds.len(),
{
    if adds.len() == 0 {
        None
    } else if adds.last().id == id {
        Some(adds.last())
    } else {
        last_added(adds.drop_last(), id)
    }
}

/// The numbers inside the ids that occur in `adds`.
pub open spec fn added_ids(adds: Seq<Record>) -> Set<u64> {
    Set::new(|k: u64| exists|i: int| 0 <= i < adds.len() && #[trigger] adds[i].id.0 == k)
}

/// One call of `ConfigCell::set_runtime_config(c)` takes the cell to
/// `after`, as its `ensures` states it.
pub open spec fn set_step(after: ConfigCell, c: RuntimeConfig) -> bool {
    after.current() == Some(c)
}

/// `cells` are the states a config cell passes through while `sets` are set
/// in order.
pub open spec fn set_run(cells: Seq<ConfigCell>, sets: Seq<RuntimeConfig>) -> bool {
    &&& cells.len() == sets.len() + 1
    &&& forall|i: int| 0 <= i < sets.len() ==> #[trigger] set_step(cells[i + 1], sets[i])
}

/// Last write wins: after adding `adds` to a fresh table, looking up any id
/// gives the last record added under it, and nothing for an id never added.
pub proof fn lemma_last_write_wins(tables: Seq<RecordTable>, adds: Seq<Record>, id: ExecutionId)
    requires
        add_run(tables, adds),
        is_fresh(tables[0]),
    ensures
        tables.last().lookup(id) == last_added(adds, id),
    decreases adds.len(),
{
    if adds.len() > 0 {
        let n = adds.len() - 1;
        let prefix = tables.take(n + 1);
        assert(add_run(prefix, adds.drop_last())) by {
            assert forall|i: int| 0 <= i < n implies #[trigger] add_step(prefix[i], prefix[i + 1], adds.drop_last()[i]) by {
                assert(add_step(tables[i], tables[i + 1], adds[i]));
            }
        }
        lemma_last_write_wins(prefix, adds.drop_last(), id);
        assert(add_step(tables[n], tables[n + 1], adds[n]));
        assert(prefix.last() == tables[n]);
    }
}

/// After any non-empty series of additions, the latest id is the id of the
/// last record added.
pub proof fn lemma_latest_is_last_added(tables: Seq<RecordTable>, adds: Seq<Record>)
    requires
        add_run(tables, adds),
        adds.len() > 0,
    ensures
        tables.last().latest() == Some(adds.last().id),
{
    let n = adds.len() - 1;
    assert(add_step(tables[n], tables[n + 1], adds[n]));
}

/// Replacements do not count twice: after adding `adds` to a fresh table, the
/// stored ids are exactly the distinct ids of `adds`, so `get_records`
/// returns one record for each of them.
pub proof fn lemma_count_is_distinct_ids(tables: Seq<RecordTable>, adds: Seq<Record>)
    requires
        add_run(tables, adds),
        is_fresh(tables[0]),
    ensures
        tables.last().records().dom() == added_ids(adds),
        tables.last().records().dom().len() == added_ids(adds).len(),
    decreases adds.len(),
{
    if adds.len() > 0 {
        let n = adds.len() - 1;
        let prefix = tables.take(n + 1);
        let front = adds.drop_last();
        assert(add_run(prefix, front)) by {
            assert forall|i: int| 0 <= i < n implies #[trigger] add_step(prefix[i], prefix[i + 1], adds.drop_last()[i]) by {
                assert(add_step(tables[i], tables[i + 1], adds[i]));
            }
        }
        lemma_count_is_distinct_ids(prefix, front);
        assert(prefix.last() == tables[n]);
        assert(add_step(tables[n], tables[n + 1], adds[n]));
        assert(added_ids(adds) =~= added_ids(front).insert(adds[n].id.0)) by {
            assert forall|k: u64| #[trigger] added_ids(adds).contains(k) implies added_ids(
                front,
            ).insert(adds[n].id.0).contains(k) by {
                let i = choose|i: int| 0 <= i < adds.len() && #[trigger] adds[i].id.0 == k;
                if i < n {
                    assert(front[i].id.0 == k);
                }
            }
            assert forall|k: u64| #[trigger] added_ids(front).contains(k) implies added_ids(
                adds,
            ).contains(k) by {
                let i = choose|i: int| 0 <= i < front.len() && #[trigger] front[i].id.0 == k;
                assert(adds[i].id.0 == k);
            }
        }
    } else {
        assert(added_ids(adds) =~= Set::empty());
        assert(tables.last().records().dom() =~= Set::empty());
    }
}

/// Additions with pairwise distinct ids, in whatever order their critical
/// sections ran, leave every one of them stored as added, one entry each,
/// and the latest id is one of theirs.
pub proof fn lemma_distinct_adds_all_present(tables: Seq<RecordTable>, adds: Seq<Record>)
    requires
        add_run(tables, adds),
        is_fresh(tables[0]),
        adds.len() > 0,
        forall|i: int, j: int|
            0 <= i < j < adds.len() ==> #[trigger] adds[i].id != #[trigger] adds[j].id,
    ensures
        forall|i: int| 0 <= i < adds.len() ==> tables.last().lookup(#[trigger] adds[i].id) == Some(adds[i]),
        tables.last().records().dom().len() == adds.len(),
        exists|i: int| 0 <= i < adds.len() && tables.last().latest() == Some(#[trigger] adds[i].id),
{
    assert forall|i: int| 0 <= i < adds.len() implies tables.last().lookup(#[trigger] adds[i].id) == Some(adds[i]) by {
        lemma_last_write_wins(tables, adds, adds[i].id);
        lemma_last_added_distinct(adds, i);
    }
    lemma_count_is_distinct_ids(tables, adds);
    lemma_distinct_ids_count(adds);
    lemma_latest_is_last_added(tables, adds);
    assert(tables.last().latest() == Some(adds[adds.len() - 1].id));
}

/// Where ids are distinct, the last record added under `adds[i].id` is
/// `adds[i]`.
proof fn lemma_last_added_distinct(adds: Seq<Record>, i: int)
    requires
        0 <= i < adds.len(),
        forall|a: int, b: int|
            0 <= a < b < adds.len() ==> #[trigger] adds[a].id != #[trigger] adds[b].id,
    ensures
        last_added(adds, adds[i].id) == Some(adds[i]),
    decreases adds.len(),
{
    if i < adds.len() - 1 {
        let front = adds.drop_last();
        assert(adds[i].id != adds[adds.len() - 1].id);
        lemma_last_added_distinct(front, i);
    }
}

/// Where ids are distinct, there are as many of them as records.
proof fn lemma_distinct_ids_count(adds: Seq<Record>)
    requires
        forall|a: int, b: int|
            0 <= a < b < adds.len() ==> #[trigger] adds[a].id != #[trigger] adds[b].id,
    ensures
        added_ids(adds).len() == adds.len(),
        added_ids(adds).finite(),
    decreases adds.len(),
{
    if adds.len() == 0 {
        assert(added_ids(adds) =~= Set::empty());
    } else {
        let n = adds.len() - 1;
        let front = adds.drop_last();
        lemma_distinct_ids_count(front);
        assert(added_ids(adds) =~= added_ids(front).insert(adds[n].id.0)) by {
            assert forall|k: u64| #[trigger] added_ids(adds).contains(k) implies added_ids(
                front,
            ).insert(adds[n].id.0).contains(k) by {
                let i = choose|i: int| 0 <= i < adds.len() && #[trigger] adds[i].id.0 == k;
                if i < n {
                    assert(front[i].id.0 == k);
                }
            }
            assert forall|k: u64| #[trigger] added_ids(front).contains(k) implies added_ids(
                adds,
            ).contains(k) by {
                let i = choose|i: int| 0 <= i < front.len() && #[trigger] front[i].id.0 == k;
                assert(adds[i].id.0 == k);
            }
        }
        assert(!added_ids(front).contains(adds[n].id.0)) by {
            if added_ids(front).contains(adds[n].id.0) {
                let i = choose|i: int| 0 <= i < front.len() && #[trigger] front[i].id.0 == adds[n].id.0;
                assert(adds[i].id == adds[n].id);
            }
        }
    }
}

/// The config cell holds exactly the last value set, and nothing before the
/// first set.
pub proof fn lemma_config_last_set_wins(cells: Seq<ConfigCell>, sets: Seq<RuntimeConfig>)
    requires
        set_run(cells, sets),
        cells[0].current() is None,
    ensures
        sets.len() == 0 ==> cells.last().current() is None,
        sets.len() > 0 ==> cells.last().current() == Some(sets.last()),
{
    if sets.len() > 0 {
        let n = sets.len() - 1;
        assert(set_step(cells[n + 1], sets[n]));
    }
}

} // verus!
