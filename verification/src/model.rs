//! The store as mathematics: a finite map from identifiers to records, and
//! what each operation makes of it.

use vstd::prelude::*;
use crate::record::{chance_of, DataView, Id, CHANCE_SCALE};

verus! {

/// The live records of a store.
pub type Records = Map<Id, DataView>;

/// The record that is live under `id`, if one is.
pub open spec fn found(records: Records, id: Id) -> Option<DataView> {
    if records.contains_key(id) {
        Some(records[id])
    } else {
        None
    }
}

/// The records after `data` was created under `id`.
pub open spec fn created(records: Records, id: Id, data: DataView) -> Records {
    records.insert(id, data)
}

/// The records after an update of `id` to `data`: replaced where `id` is
/// live, untouched where it is not.
pub open spec fn updated(records: Records, id: Id, data: DataView) -> Records {
    if records.contains_key(id) {
        records.insert(id, data)
    } else {
        records
    }
}

/// The records after `id` was deleted.
pub open spec fn deleted(records: Records, id: Id) -> Records {
    records.remove(id)
}

/// Whether a sweep that picks `id` and draws `draw` evicts: the record is
/// live and the draw stands for a chance strictly greater than the record's.
pub open spec fn evicts(records: Records, id: Id, draw: u64) -> bool {
    records.contains_key(id) && chance_of(draw) > records[id].chance
}

/// The records after a sweep that picked `id` and drew `draw`.
pub open spec fn swept(records: Records, id: Id, draw: u64) -> Records {
    if evicts(records, id, draw) {
        records.remove(id)
    } else {
        records
    }
}

/// Whether `entries` lists `records`: every live record once, and nothing
/// else, in whatever order.
pub open spec fn is_listing(records: Records, entries: Seq<(Id, DataView)>) -> bool {
    &&& entries.len() == records.len()
    &&& forall|i: int|
        0 <= i < entries.len() ==> records.contains_key((#[trigger] entries[i]).0)
            && records[entries[i].0] == entries[i].1
    &&& forall|i: int, j: int|
        0 <= i < j < entries.len() ==> (#[trigger] entries[i]).0 != (#[trigger] entries[j]).0
}

/// One operation on a store, with whatever it drew at random made explicit.
pub enum Op {
    /// A create that drew the identifier `id` and made the record `data`.
    Create { id: Id, data: DataView },
    /// A read of `id`.
    Read { id: Id },
    /// A listing.
    List,
    /// An update of `id` that made the record `data`.
    Update { id: Id, data: DataView },
    /// A delete of `id`.
    Delete { id: Id },
    /// A sweep that picked `id` and drew `draw`. On an empty store a sweep
    /// picks nothing, which is as good as picking an identifier that is not
    /// live.
    Sweep { id: Id, draw: u64 },
}

/// The records after one operation.
pub open spec fn step(records: Records, op: Op) -> Records {
    match op {
        Op::Create { id, data } => created(records, id, data),
        Op::Read { id } => records,
        Op::List => records,
        Op::Update { id, data } => updated(records, id, data),
        Op::Delete { id } => deleted(records, id),
        Op::Sweep { id, draw } => swept(records, id, draw),
    }
}

/// The records after the operations `ops`, one after the other.
pub open spec fn run(records: Records, ops: Seq<Op>) -> Records
    decreases ops.len(),
{
    if ops.len() == 0 {
        records
    } else {
        step(run(records, ops.drop_last()), ops.last())
    }
}

/// Whether `op` is a create that draws an identifier which is live already,
/// and so replaces a record where it should add one.
pub open spec fn collides(records: Records, op: Op) -> bool {
    op matches Op::Create { id, .. } && records.contains_key(id)
}

/// Whether no create among `ops` draws an identifier that is live when its
/// turn comes.
pub open spec fn collision_free(records: Records, ops: Seq<Op>) -> bool
    decreases ops.len(),
{
    if ops.len() == 0 {
        true
    } else {
        collision_free(records, ops.drop_last()) && !collides(
            run(records, ops.drop_last()),
            ops.last(),
        )
    }
}

/// How many of `ops` are creates.
pub open spec fn creates(ops: Seq<Op>) -> nat
    decreases ops.len(),
{
    if ops.len() == 0 {
        0
    } else {
        creates(ops.drop_last()) + if ops.last() is Create {
            1nat
        } else {
            0nat
        }
    }
}

/// How many of `ops` are deletes that find their record.
pub open spec fn deletes_done(records: Records, ops: Seq<Op>) -> nat
    decreases ops.len(),
{
    if ops.len() == 0 {
        0
    } else {
        deletes_done(records, ops.drop_last()) + if ops.last() matches Op::Delete { id } && run(
            records,
            ops.drop_last(),
        ).contains_key(id) {
            1nat
        } else {
            0nat
        }
    }
}

/// How many of `ops` are sweeps that evict.
pub open spec fn evictions(records: Records, ops: Seq<Op>) -> nat
    decreases ops.len(),
{
    if ops.len() == 0 {
        0
    } else {
        evictions(records, ops.drop_last()) + if ops.last() matches Op::Sweep { id, draw }
            && evicts(run(records, ops.drop_last()), id, draw) {
            1nat
        } else {
            0nat
        }
    }
}

/// A record that was created is found under its identifier, as it was made.
pub proof fn lemma_created_is_found(records: Records, id: Id, data: DataView)
    ensures
        found(created(records, id, data), id) == Some(data),
{
}

/// An update or a delete of an identifier that is not live changes nothing,
/// and a delete leaves nothing to find.
pub proof fn lemma_absent_is_untouched(records: Records, id: Id, data: DataView)
    ensures
        !records.contains_key(id) ==> updated(records, id, data) == records && deleted(records, id)
            == records,
        found(deleted(records, id), id) is None,
{
    if !records.contains_key(id) {
        assert(deleted(records, id) =~= records);
    }
}

/// A sweep of an empty store changes nothing, whatever it picks and draws.
pub proof fn lemma_sweep_of_empty(id: Id, draw: u64)
    ensures
        swept(Records::empty(), id, draw) == Records::empty(),
{
}

/// A sweep removes at most the record that it picked.
pub proof fn lemma_sweep_removes_one(records: Records, id: Id, draw: u64)
    ensures
        swept(records, id, draw) == records || swept(records, id, draw) == records.remove(id),
        forall|other: Id| other != id ==> found(swept(records, id, draw), other) == found(
            records,
            other,
        ),
{
}

/// A record without any chance goes with the first sweep that picks it and
/// draws anything but the lowest chance.
pub proof fn lemma_no_chance_goes(records: Records, id: Id, draw: u64)
    requires
        records.contains_key(id),
        records[id].chance == 0,
        chance_of(draw) > 0,
    ensures
        !swept(records, id, draw).contains_key(id),
{
}

/// A record whose chance no draw exceeds outlives every sequence of sweeps.
pub proof fn lemma_full_chance_stays(records: Records, id: Id, ops: Seq<Op>)
    requires
        records.contains_key(id),
        records[id].chance >= CHANCE_SCALE - 1,
        forall|i: int| 0 <= i < ops.len() ==> (#[trigger] ops[i]) is Sweep,
    ensures
        found(run(records, ops), id) == Some(records[id]),
    decreases ops.len(),
{
    if ops.len() > 0 {
        let head = ops.drop_last();
        assert forall|i: int| 0 <= i < head.len() implies (#[trigger] head[i]) is Sweep by {
            assert(head[i] == ops[i]);
        }
        lemma_full_chance_stays(records, id, head);
        assert(ops.last() == ops[ops.len() - 1]);
    }
}

/// The number of live records after any sequence of operations: those that
/// were live before, plus the creates, minus the deletes that found their
/// record, minus the evictions. This holds as long as no create draws an
/// identifier that is live already.
pub proof fn lemma_live_count(records: Records, ops: Seq<Op>)
    requires
        records.dom().finite(),
        collision_free(records, ops),
    ensures
        run(records, ops).dom().finite(),
        run(records, ops).len() + deletes_done(records, ops) + evictions(records, ops)
            == records.len() + creates(ops),
    decreases ops.len(),
{
    if ops.len() > 0 {
        let head = ops.drop_last();
        lemma_live_count(records, head);
        let before = run(records, head);
        match ops.last() {
            Op::Create { id, data } => {
                assert(created(before, id, data).dom() =~= before.dom().insert(id));
            },
            Op::Read { id } => {},
            Op::List => {},
            Op::Update { id, data } => {
                if before.contains_key(id) {
                    assert(updated(before, id, data).dom() =~= before.dom());
                }
            },
            Op::Delete { id } => {
                assert(deleted(before, id).dom() =~= before.dom().remove(id));
            },
            Op::Sweep { id, draw } => {
                if evicts(before, id, draw) {
                    assert(swept(before, id, draw).dom() =~= before.dom().remove(id));
                }
            },
        }
    }
}

} // verus!
