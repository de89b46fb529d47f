use vstd::prelude::*;

use crate::engine::lock_order_spec;
use crate::sums::{lemma_sum_update, sum_u64};
use crate::system::{
    apply_batch_spec, apply_record_spec, apply_workload_spec, batch_outcomes_spec, find_index,
    lemma_find_index, record_outcome_spec, workload_outcomes_spec, Record,
};

verus! {

/// The fees of the committed records of a batch, each record judged against
/// the state its predecessors left.
pub open spec fn committed_fees_spec(ids: Seq<Seq<char>>, bals: Seq<u64>, recs: Seq<Record>) -> int
    decreases recs.len(),
{
    if recs.len() == 0 {
        0
    } else {
        (if record_outcome_spec(ids, bals, recs[0]) is Ok {
            recs[0].fee as int
        } else {
            0
        }) + committed_fees_spec(ids, apply_record_spec(ids, bals, recs[0]), recs.drop_first())
    }
}

/// The fees of the committed records of a whole workload, batch by batch.
pub open spec fn workload_committed_fees_spec(
    ids: Seq<Seq<char>>,
    bals: Seq<u64>,
    batches: Seq<Seq<Record>>,
) -> int
    decreases batches.len(),
{
    if batches.len() == 0 {
        0
    } else {
        committed_fees_spec(ids, bals, batches[0]) + workload_committed_fees_spec(
            ids,
            apply_batch_spec(ids, bals, batches[0]),
            batches.drop_first(),
        )
    }
}

/// Conservation, one record: applying a record lowers the total of all
/// balances by exactly its fee when it commits, and by nothing when it
/// fails. The fee is burned — debited from the sender, credited nowhere.
pub proof fn lemma_record_conservation(ids: Seq<Seq<char>>, bals: Seq<u64>, r: Record)
    requires
        ids.len() == bals.len(),
    ensures
        apply_record_spec(ids, bals, r).len() == bals.len(),
        sum_u64(apply_record_spec(ids, bals, r)) == sum_u64(bals) - (if record_outcome_spec(
            ids,
            bals,
            r,
        ) is Ok {
            r.fee as int
        } else {
            0
        }),
{
    lemma_find_index(ids, r.from@);
    lemma_find_index(ids, r.to@);
    let f = find_index(ids, r.from@);
    let t = find_index(ids, r.to@);
    if record_outcome_spec(ids, bals, r) is Ok {
        let ok = record_outcome_spec(ids, bals, r)->Ok_0;
        lemma_sum_update(bals, f, ok.from_balance);
        lemma_sum_update(bals.update(f, ok.from_balance), t, ok.to_balance);
    }
}

/// Conservation, one batch: the total of all balances after a batch is the
/// total before it minus the fees of exactly the records that committed.
pub proof fn lemma_batch_conservation(ids: Seq<Seq<char>>, bals: Seq<u64>, recs: Seq<Record>)
    requires
        ids.len() == bals.len(),
    ensures
        apply_batch_spec(ids, bals, recs).len() == bals.len(),
        sum_u64(apply_batch_spec(ids, bals, recs)) == sum_u64(bals) - committed_fees_spec(
            ids,
            bals,
            recs,
        ),
    decreases recs.len(),
{
    if recs.len() > 0 {
        lemma_record_conservation(ids, bals, recs[0]);
        lemma_batch_conservation(ids, apply_record_spec(ids, bals, recs[0]), recs.drop_first());
    }
}

/// Conservation, one run: the total of all balances after a workload is the
/// total before it minus the fees of exactly the transfers that committed.
pub proof fn lemma_workload_conservation(
    ids: Seq<Seq<char>>,
    bals: Seq<u64>,
    batches: Seq<Seq<Record>>,
)
    requires
        ids.len() == bals.len(),
    ensures
        apply_workload_spec(ids, bals, batches).len() == bals.len(),
        sum_u64(apply_workload_spec(ids, bals, batches)) == sum_u64(bals)
            - workload_committed_fees_spec(ids, bals, batches),
    decreases batches.len(),
{
    if batches.len() > 0 {
        lemma_batch_conservation(ids, bals, batches[0]);
        lemma_workload_conservation(
            ids,
            apply_batch_spec(ids, bals, batches[0]),
            batches.drop_first(),
        );
    }
}

/// No negative balances: a record commits only when the source balance
/// covers the full debit `amount + fee`, so the debit never drives it below
/// zero, and every balance after a record is non-negative.
pub proof fn lemma_no_negative_balance(ids: Seq<Seq<char>>, bals: Seq<u64>, r: Record)
    requires
        ids.len() == bals.len(),
    ensures
        record_outcome_spec(ids, bals, r) is Ok ==> bals[find_index(ids, r.from@)] >= r.amount
            + r.fee,
        forall|k: int|
            0 <= k < apply_record_spec(ids, bals, r).len() ==> apply_record_spec(ids, bals, r)[k]
                >= 0,
{
    lemma_find_index(ids, r.from@);
    lemma_find_index(ids, r.to@);
}

/// Atomic commit: applying one record either leaves every balance exactly
/// as it was, or moves the source and destination together — the full debit
/// and the full credit in one step — touching no other account. No state
/// with only one side of a transfer ever exists.
pub proof fn lemma_atomic_commit(ids: Seq<Seq<char>>, bals: Seq<u64>, r: Record)
    requires
        ids.len() == bals.len(),
    ensures
        record_outcome_spec(ids, bals, r) is Err ==> apply_record_spec(ids, bals, r) == bals,
        record_outcome_spec(ids, bals, r) is Ok ==> {
            let after = apply_record_spec(ids, bals, r);
            let f = find_index(ids, r.from@);
            let t = find_index(ids, r.to@);
            &&& after[f] == bals[f] - r.amount - r.fee
            &&& after[t] == bals[t] + r.amount
            &&& forall|k: int| 0 <= k < bals.len() && k != f && k != t ==> after[k] == bals[k]
        },
{
    lemma_find_index(ids, r.from@);
    lemma_find_index(ids, r.to@);
}

/// Per-record isolation: a failing record changes nothing, so the records
/// after it run against the very state they would have seen had it never
/// been in the batch — its failure is reported in its slot and the rest of
/// the batch proceeds untouched.
pub proof fn lemma_failed_record_isolated(ids: Seq<Seq<char>>, bals: Seq<u64>, recs: Seq<Record>)
    requires
        recs.len() > 0,
        record_outcome_spec(ids, bals, recs[0]) is Err,
    ensures
        apply_batch_spec(ids, bals, recs) == apply_batch_spec(ids, bals, recs.drop_first()),
        batch_outcomes_spec(ids, bals, recs) == seq![record_outcome_spec(ids, bals, recs[0])]
            + batch_outcomes_spec(ids, bals, recs.drop_first()),
{
}

/// Complete reporting, one batch: a batch yields exactly one outcome per
/// record, in record order — no failure aborts the batch or swallows a slot.
pub proof fn lemma_every_record_reported(ids: Seq<Seq<char>>, bals: Seq<u64>, recs: Seq<Record>)
    ensures
        batch_outcomes_spec(ids, bals, recs).len() == recs.len(),
    decreases recs.len(),
{
    if recs.len() > 0 {
        lemma_every_record_reported(ids, apply_record_spec(ids, bals, recs[0]), recs.drop_first());
    }
}

/// Complete reporting, one run: a workload yields one outcome sequence per
/// batch, each with one outcome per record.
pub proof fn lemma_every_batch_reported(
    ids: Seq<Seq<char>>,
    bals: Seq<u64>,
    batches: Seq<Seq<Record>>,
)
    ensures
        workload_outcomes_spec(ids, bals, batches).len() == batches.len(),
        forall|i: int|
            0 <= i < batches.len() ==> #[trigger] workload_outcomes_spec(ids, bals, batches)[i].len()
                == batches[i].len(),
    decreases batches.len(),
{
    if batches.len() > 0 {
        lemma_every_record_reported(ids, bals, batches[0]);
        let rest_bals = apply_batch_spec(ids, bals, batches[0]);
        lemma_every_batch_reported(ids, rest_bals, batches.drop_first());
        assert forall|i: int| 0 <= i < batches.len() implies #[trigger] workload_outcomes_spec(
            ids,
            bals,
            batches,
        )[i].len() == batches[i].len() by {
            if i > 0 {
                assert(workload_outcomes_spec(ids, bals, batches)[i] == workload_outcomes_spec(
                    ids,
                    rest_bals,
                    batches.drop_first(),
                )[i - 1]);
                assert(batches[i] == batches.drop_first()[i - 1]);
            }
        }
    }
}

/// Deadlock freedom, structural core: the canonical pair order is one total
/// order shared by every caller. Both directions of a transfer over the same
/// two accounts yield the same ordered pair, and the pair is strictly
/// ordered for distinct accounts — so no two engine calls can each hold the
/// lock the other waits for, and an acquirer that misses the second lock
/// releases the first before retrying, holding nothing while it waits.
pub proof fn lemma_lock_order_canonical(a: usize, b: usize)
    ensures
        lock_order_spec(a, b) == lock_order_spec(b, a),
        lock_order_spec(a, b).0 <= lock_order_spec(a, b).1,
        a != b ==> lock_order_spec(a, b).0 < lock_order_spec(a, b).1,
{
}

} // verus!
