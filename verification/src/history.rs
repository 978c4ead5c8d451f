//! What holds of the store over any run of operations.
//!
//! The laws here speak of sequences of creates and deletes, each with the
//! outcome of its write, applied one after the other by [`step`], which is
//! what [`Store::create`](crate::store::Store::create) and
//! [`Store::delete`](crate::store::Store::delete) are proved to do.

use vstd::prelude::*;
use crate::record::RecordView;
use crate::store::{creatable, delete_spec, resolve_spec, step, Op, StoreError};

verus! {

/// The records after all of `ops`, applied in order.
pub open spec fn run(records: Seq<RecordView>, ops: Seq<Op>) -> Seq<RecordView>
    decreases ops.len(),
{
    if ops.len() == 0 {
        records
    } else {
        step(run(records, ops.drop_last()), ops.last())
    }
}

/// The ids that the creates among `ops` hand out, in order. A create that
/// does not go through hands out none.
pub open spec fn handed_out(records: Seq<RecordView>, ops: Seq<Op>) -> Seq<int>
    decreases ops.len(),
{
    if ops.len() == 0 {
        Seq::empty()
    } else {
        let before = run(records, ops.drop_last());
        let earlier = handed_out(records, ops.drop_last());
        if ops.last() is Create && ops.last().succeeds(before) {
            earlier.push(before.len() as int)
        } else {
            earlier
        }
    }
}

/// `op` is a delete of `id` that goes through in `records`.
pub open spec fn deletes(op: Op, records: Seq<RecordView>, id: u64) -> bool {
    op matches Op::Delete { id: target, .. } && target == id && op.succeeds(records)
}

/// Sequence ids are dense and increasing, whatever deletes come in between:
/// the creates that go through hand out, in order, the ids that follow the
/// records already there, and each of them adds one record. From an empty
/// store the ids are 0, 1, 2 and so on; no id is handed out twice.
pub proof fn law_ids_are_dense(records: Seq<RecordView>, ops: Seq<Op>)
    ensures
        run(records, ops).len() == records.len() + handed_out(records, ops).len(),
        forall|j: int|
            0 <= j < handed_out(records, ops).len() ==> #[trigger] handed_out(records, ops)[j]
                == records.len() + j,
    decreases ops.len(),
{
    if ops.len() > 0 {
        law_ids_are_dense(records, ops.drop_last());
    }
}

/// Positions are permanent. No run of operations removes or renumbers a
/// record: every record stays at its id with its token, and its URL is either
/// what it was or blank.
pub proof fn law_positions_are_permanent(records: Seq<RecordView>, ops: Seq<Op>, id: u64)
    requires
        id < records.len(),
    ensures
        id < run(records, ops).len(),
        run(records, ops)[id as int] == records[id as int] || run(records, ops)[id as int]
            == records[id as int].tombstone(),
    decreases ops.len(),
{
    if ops.len() > 0 {
        law_positions_are_permanent(records, ops.drop_last(), id);
    }
}

/// A created redirect resolves to its URL until a delete on its id goes
/// through: after the create, and after any further operations none of which
/// is a successful delete of that id, resolving the id gives the URL.
pub proof fn law_created_resolves(
    records: Seq<RecordView>,
    record: RecordView,
    later: Seq<Op>,
)
    requires
        creatable(record),
        records.len() <= u64::MAX,
        forall|k: int|
            0 <= k < later.len() ==> !deletes(
                #[trigger] later[k],
                run(records.push(record), later.take(k)),
                records.len() as u64,
            ),
    ensures
        step(records, Op::Create { record, appended: true }) == records.push(record),
        resolve_spec(run(records.push(record), later), records.len() as u64) == Ok::<
            Seq<char>,
            StoreError,
        >(record.url),
{
    lemma_untouched(records.push(record), later, records.len() as u64);
}

/// A record that no successful delete names stays exactly as it is.
proof fn lemma_untouched(records: Seq<RecordView>, ops: Seq<Op>, id: u64)
    requires
        id < records.len(),
        forall|k: int|
            0 <= k < ops.len() ==> !deletes(#[trigger] ops[k], run(records, ops.take(k)), id),
    ensures
        id < run(records, ops).len(),
        run(records, ops)[id as int] == records[id as int],
    decreases ops.len(),
{
    if ops.len() > 0 {
        let init = ops.drop_last();
        assert forall|k: int| 0 <= k < init.len() implies !deletes(
            #[trigger] init[k],
            run(records, init.take(k)),
            id,
        ) by {
            assert(init.take(k) == ops.take(k));
            assert(init[k] == ops[k]);
        }
        lemma_untouched(records, init, id);
        assert(ops.take(ops.len() - 1) == init);
        assert(!deletes(ops[ops.len() - 1], run(records, init), id));
    }
}

/// Deletion is final. Once a delete of `id` has gone through, and whatever
/// operations follow, resolving the id fails with `NotFound`, and so does
/// another delete of it, with the same token or with any other.
pub proof fn law_delete_is_final(
    records: Seq<RecordView>,
    id: u64,
    token: Seq<char>,
    later: Seq<Op>,
)
    requires
        delete_spec(records, id, token) is Ok,
    ensures
        ({
            let after = run(step(records, Op::Delete { id, token, journaled: true }), later);
            &&& resolve_spec(after, id) == Err::<Seq<char>, StoreError>(StoreError::NotFound)
            &&& delete_spec(after, id, token) == Err::<Seq<char>, StoreError>(
                StoreError::NotFound,
            )
            &&& forall|other: Seq<char>| #[trigger]
                delete_spec(after, id, other) == Err::<Seq<char>, StoreError>(
                    StoreError::NotFound,
                )
        }),
{
    let deleted = step(records, Op::Delete { id, token, journaled: true });
    law_positions_are_permanent(deleted, later, id);
}

} // verus!
