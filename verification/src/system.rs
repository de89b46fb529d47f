use vstd::prelude::*;

use crate::engine::{transfer_amounts_spec, TransferOk};
use crate::errors::{BuildError, TransferError};
use crate::ledger::{distinct_ids, Accounts, Ledger};

verus! {

/// One requested transfer: debit `amount + fee` from `from`, credit `amount`
/// to `to`. Immutable value; amounts and fee are non-negative by type.
#[derive(Debug)]
pub struct Record {
    pub from: String,
    pub to: String,
    pub amount: u64,
    pub fee: u64,
}

/// One batch: an ordered sequence of records, committed strictly in order.
#[derive(Debug)]
pub struct Request {
    pub records: Vec<Record>,
}

/// A whole workload: the batches of one run. No ordering is guaranteed
/// across batches.
#[derive(Debug)]
pub struct Requests {
    pub requests: Vec<Request>,
}

/// The first index carrying `id`, or `-1` when `id` is absent.
pub open spec fn find_index(ids: Seq<Seq<char>>, id: Seq<char>) -> int
    decreases ids.len(),
{
    if ids.len() == 0 {
        -1
    } else if ids[0] == id {
        0
    } else {
        let r = find_index(ids.drop_first(), id);
        if r < 0 {
            -1
        } else {
            r + 1
        }
    }
}

/// `find_index` returns the first matching index, or `-1` exactly when no
/// index matches.
pub proof fn lemma_find_index(ids: Seq<Seq<char>>, id: Seq<char>)
    ensures
        -1 <= find_index(ids, id) < ids.len(),
        find_index(ids, id) >= 0 ==> ids[find_index(ids, id)] == id && (forall|j: int|
            0 <= j < find_index(ids, id) ==> ids[j] != id),
        find_index(ids, id) == -1 ==> forall|j: int| 0 <= j < ids.len() ==> ids[j] != id,
    decreases ids.len(),
{
    if ids.len() > 0 && ids[0] != id {
        let rest = ids.drop_first();
        lemma_find_index(rest, id);
        let r = find_index(rest, id);
        if r >= 0 {
            assert(ids[r + 1] == rest[r]);
            assert forall|j: int| 0 <= j < r + 1 implies ids[j] != id by {
                if j > 0 {
                    assert(rest[j - 1] == ids[j]);
                }
            }
        } else {
            assert forall|j: int| 0 <= j < ids.len() implies ids[j] != id by {
                if j > 0 {
                    assert(rest[j - 1] == ids[j]);
                }
            }
        }
    }
}

/// The exact outcome of one record against the given identifiers and
/// balances: a missing identifier is reported, a self-transfer is refused,
/// and otherwise the engine's transfer step decides.
pub open spec fn record_outcome_spec(ids: Seq<Seq<char>>, bals: Seq<u64>, r: Record) -> Result<
    TransferOk,
    TransferError,
> {
    let f = find_index(ids, r.from@);
    let t = find_index(ids, r.to@);
    if f < 0 || t < 0 {
        Err(TransferError::AccountNotFound)
    } else if f == t {
        Err(TransferError::SameAccount)
    } else {
        transfer_amounts_spec(bals[f], bals[t], r.amount, r.fee)
    }
}

/// The balances after one record: a two-point update on commit, untouched
/// balances on any per-record failure.
pub open spec fn apply_record_spec(ids: Seq<Seq<char>>, bals: Seq<u64>, r: Record) -> Seq<u64> {
    match record_outcome_spec(ids, bals, r) {
        Ok(ok) => bals.update(find_index(ids, r.from@), ok.from_balance).update(
            find_index(ids, r.to@),
            ok.to_balance,
        ),
        Err(_) => bals,
    }
}

/// The balances after a batch's records, applied strictly in order, each
/// from the state the previous ones left.
pub open spec fn apply_batch_spec(ids: Seq<Seq<char>>, bals: Seq<u64>, recs: Seq<Record>) -> Seq<
    u64,
>
    decreases recs.len(),
{
    if recs.len() == 0 {
        bals
    } else {
        apply_batch_spec(ids, apply_record_spec(ids, bals, recs[0]), recs.drop_first())
    }
}

/// The per-record outcomes of a batch, in record order.
pub open spec fn batch_outcomes_spec(ids: Seq<Seq<char>>, bals: Seq<u64>, recs: Seq<Record>) -> Seq<
    Result<TransferOk, TransferError>,
>
    decreases recs.len(),
{
    if recs.len() == 0 {
        Seq::empty()
    } else {
        seq![record_outcome_spec(ids, bals, recs[0])] + batch_outcomes_spec(
            ids,
            apply_record_spec(ids, bals, recs[0]),
            recs.drop_first(),
        )
    }
}

/// The balances after the batches of a workload, in the commit order the
/// sequential scheduler uses (one legal order of a run).
pub open spec fn apply_workload_spec(
    ids: Seq<Seq<char>>,
    bals: Seq<u64>,
    batches: Seq<Seq<Record>>,
) -> Seq<u64>
    decreases batches.len(),
{
    if batches.len() == 0 {
        bals
    } else {
        apply_workload_spec(ids, apply_batch_spec(ids, bals, batches[0]), batches.drop_first())
    }
}

/// The per-record outcomes of a whole workload, batch by batch.
pub open spec fn workload_outcomes_spec(
    ids: Seq<Seq<char>>,
    bals: Seq<u64>,
    batches: Seq<Seq<Record>>,
) -> Seq<Seq<Result<TransferOk, TransferError>>>
    decreases batches.len(),
{
    if batches.len() == 0 {
        Seq::empty()
    } else {
        seq![batch_outcomes_spec(ids, bals, batches[0])] + workload_outcomes_spec(
            ids,
            apply_batch_spec(ids, bals, batches[0]),
            batches.drop_first(),
        )
    }
}

impl Ledger {
    /// Applies one record: resolves both identifiers to handles and runs the
    /// transfer, or reports the per-record error that left every balance
    /// untouched. The outcome and the new balances are exactly what the
    /// record application specification gives.
    pub fn apply_record(&mut self, r: &Record) -> (out: Result<TransferOk, TransferError>)
        requires
            old(self).wf(),
        ensures
            final(self).wf(),
            final(self).ids() == old(self).ids(),
            out == record_outcome_spec(old(self).ids(), old(self).balances(), *r),
            final(self).balances() == apply_record_spec(old(self).ids(), old(self).balances(), *r),
    {
        proof {
            lemma_find_index(self.ids(), r.from@);
            lemma_find_index(self.ids(), r.to@);
        }
        let from = self.lookup(&r.from);
        let to = self.lookup(&r.to);
        match (from, to) {
            (Some(f), Some(t)) => {
                proof {
                    lemma_lookup_is_find_index(old(self).ids(), r.from@, f as int);
                    lemma_lookup_is_find_index(old(self).ids(), r.to@, t as int);
                }
                if f == t {
                    Err(TransferError::SameAccount)
                } else {
                    self.transfer(f, t, r.amount, r.fee)
                }
            },
            _ => Err(TransferError::AccountNotFound),
        }
    }

    /// Applies a batch's records strictly in order. A failing record is
    /// reported in its slot and never prevents the records after it from
    /// being attempted: each is applied to exactly the state its
    /// predecessors left.
    pub fn apply_batch(&mut self, recs: &Vec<Record>) -> (outs: Vec<
        Result<TransferOk, TransferError>,
    >)
        requires
            old(self).wf(),
        ensures
            final(self).wf(),
            final(self).ids() == old(self).ids(),
            final(self).balances() == apply_batch_spec(
                old(self).ids(),
                old(self).balances(),
                recs@,
            ),
            outs@ == batch_outcomes_spec(old(self).ids(), old(self).balances(), recs@),
    {
        let ghost ids0 = self.ids();
        let ghost bals0 = self.balances();
        let mut outs: Vec<Result<TransferOk, TransferError>> = Vec::new();
        proof {
            assert(recs@.skip(0) =~= recs@);
            assert(outs@ + batch_outcomes_spec(ids0, bals0, recs@) =~= batch_outcomes_spec(
                ids0,
                bals0,
                recs@,
            ));
        }
        let n = recs.len();
        let mut i: usize = 0;
        while i < n
            invariant
                i <= n,
                n == recs@.len(),
                self.wf(),
                self.ids() == ids0,
                apply_batch_spec(ids0, self.balances(), recs@.skip(i as int)) == apply_batch_spec(
                    ids0,
                    bals0,
                    recs@,
                ),
                outs@ + batch_outcomes_spec(ids0, self.balances(), recs@.skip(i as int))
                    == batch_outcomes_spec(ids0, bals0, recs@),
            decreases n - i,
        {
            let ghost pre = self.balances();
            let ghost pre_outs = outs@;
            let out = self.apply_record(&recs[i]);
            outs.push(out);
            proof {
                assert(recs@.skip(i as int)[0] == recs@[i as int]);
                assert(recs@.skip(i as int).drop_first() =~= recs@.skip(i as int + 1));
                assert(apply_batch_spec(ids0, pre, recs@.skip(i as int)) == apply_batch_spec(
                    ids0,
                    self.balances(),
                    recs@.skip(i as int + 1),
                ));
                assert(batch_outcomes_spec(ids0, pre, recs@.skip(i as int)) == seq![out]
                    + batch_outcomes_spec(ids0, self.balances(), recs@.skip(i as int + 1)));
                assert(outs@ + batch_outcomes_spec(ids0, self.balances(), recs@.skip(i as int + 1))
                    =~= pre_outs + batch_outcomes_spec(ids0, pre, recs@.skip(i as int)));
            }
            i += 1;
        }
        proof {
            assert(recs@.skip(n as int) =~= Seq::<Record>::empty());
            assert(outs@ + Seq::<Result<TransferOk, TransferError>>::empty() =~= outs@);
        }
        outs
    }
}

/// Lookup's first-match answer coincides with `find_index`.
proof fn lemma_lookup_is_find_index(ids: Seq<Seq<char>>, id: Seq<char>, i: int)
    requires
        0 <= i < ids.len(),
        ids[i] == id,
        forall|j: int| 0 <= j < i ==> ids[j] != id,
    ensures
        find_index(ids, id) == i,
{
    lemma_find_index(ids, id);
}

/// The whole system of one run: the workload and the ledger it executes
/// against. The ledger's shape and the workload never change after
/// construction; only balances mutate.
#[derive(Debug)]
pub struct System {
    requests: Vec<Request>,
    ledger: Ledger,
}

impl System {
    /// The batches of the workload, in dispatch order.
    pub closed spec fn batches(&self) -> Seq<Seq<Record>> {
        self.requests@.map_values(|r: Request| r.records@)
    }

    /// The account identifiers, by handle.
    pub closed spec fn ids(&self) -> Seq<Seq<char>> {
        self.ledger.ids()
    }

    /// The account balances, by handle.
    pub closed spec fn balances(&self) -> Seq<u64> {
        self.ledger.balances()
    }

    /// The system is well-formed exactly when its ledger is.
    pub open spec fn wf(&self) -> bool {
        &&& self.ids().len() == self.balances().len()
        &&& distinct_ids(self.ids())
        &&& crate::sums::sum_u64(self.balances()) <= u64::MAX
    }

    /// Builds the ledger and takes the workload. Fails exactly when the
    /// ledger cannot be built: duplicate identifiers or an unrepresentable
    /// total of initial balances.
    pub fn new(accounts: Accounts, requests: Requests) -> (r: Result<System, BuildError>)
        ensures
            r matches Ok(s) ==> {
                &&& s.wf()
                &&& s.ids() == accounts.accounts@.map_values(|a: crate::ledger::Account| a.name@)
                &&& s.balances() == accounts.accounts@.map_values(
                    |a: crate::ledger::Account| a.balance,
                )
                &&& s.batches() == requests.requests@.map_values(|q: Request| q.records@)
            },
            r is Ok <==> {
                let ids = accounts.accounts@.map_values(|a: crate::ledger::Account| a.name@);
                let bals = accounts.accounts@.map_values(|a: crate::ledger::Account| a.balance);
                distinct_ids(ids) && crate::sums::sum_u64(bals) <= u64::MAX
            },
            r matches Err(e) ==> {
                let ids = accounts.accounts@.map_values(|a: crate::ledger::Account| a.name@);
                let bals = accounts.accounts@.map_values(|a: crate::ledger::Account| a.balance);
                &&& (e == BuildError::DuplicateId <==> !distinct_ids(ids))
                &&& e == BuildError::TotalOverflow ==> distinct_ids(ids) && crate::sums::sum_u64(
                    bals,
                ) > u64::MAX
            },
    {
        match Ledger::build(accounts) {
            Ok(ledger) => Ok(System { requests: requests.requests, ledger }),
            Err(e) => Err(e),
        }
    }

    /// Runs the workload to completion, committing each batch's records in
    /// order, and returns every record's outcome, batch by batch. No failure
    /// aborts the run: a missing account or uncovered debit is reported in
    /// its slot and the rest of the workload still executes. The final
    /// balances and all outcomes are exactly those of the sequential commit
    /// order; a concurrent dispatcher may commit batches in another
    /// interleaving, but each batch still sees its own records in order.
    pub fn run(&mut self) -> (outs: Vec<Vec<Result<TransferOk, TransferError>>>)
        requires
            old(self).wf(),
        ensures
            final(self).wf(),
            final(self).ids() == old(self).ids(),
            final(self).batches() == old(self).batches(),
            final(self).balances() == apply_workload_spec(
                old(self).ids(),
                old(self).balances(),
                old(self).batches(),
            ),
            outs@.map_values(|v: Vec<Result<TransferOk, TransferError>>| v@)
                == workload_outcomes_spec(old(self).ids(), old(self).balances(), old(self).batches()),
    {
        let ghost ids0 = self.ids();
        let ghost bals0 = self.balances();
        let ghost batches0 = self.batches();
        let mut outs: Vec<Vec<Result<TransferOk, TransferError>>> = Vec::new();
        proof {
            assert(batches0.skip(0) =~= batches0);
            assert(outs@.map_values(|v: Vec<Result<TransferOk, TransferError>>| v@)
                =~= Seq::<Seq<Result<TransferOk, TransferError>>>::empty());
            assert(outs@.map_values(|v: Vec<Result<TransferOk, TransferError>>| v@)
                + workload_outcomes_spec(ids0, bals0, batches0) =~= workload_outcomes_spec(
                ids0,
                bals0,
                batches0,
            ));
        }
        let n = self.requests.len();
        let mut i: usize = 0;
        while i < n
            invariant
                i <= n,
                n == self.requests@.len(),
                self.ledger.wf(),
                self.ledger.ids() == ids0,
                self.batches() == batches0,
                apply_workload_spec(ids0, self.ledger.balances(), batches0.skip(i as int))
                    == apply_workload_spec(ids0, bals0, batches0),
                outs@.map_values(|v: Vec<Result<TransferOk, TransferError>>| v@)
                    + workload_outcomes_spec(ids0, self.ledger.balances(), batches0.skip(i as int))
                    == workload_outcomes_spec(ids0, bals0, batches0),
            decreases n - i,
        {
            let ghost pre = self.ledger.balances();
            let ghost pre_views = outs@.map_values(|v: Vec<Result<TransferOk, TransferError>>| v@);
            let batch_outs = self.ledger.apply_batch(&self.requests[i].records);
            let ghost batch_views = batch_outs@;
            outs.push(batch_outs);
            proof {
                assert(batches0.skip(i as int)[0] == batches0[i as int]);
                assert(batches0[i as int] == self.requests@[i as int].records@);
                assert(batches0.skip(i as int).drop_first() =~= batches0.skip(i as int + 1));
                assert(apply_workload_spec(ids0, pre, batches0.skip(i as int))
                    == apply_workload_spec(ids0, self.ledger.balances(), batches0.skip(i as int + 1)));
                assert(workload_outcomes_spec(ids0, pre, batches0.skip(i as int)) == seq![
                    batch_views,
                ] + workload_outcomes_spec(ids0, self.ledger.balances(), batches0.skip(i as int + 1)));
                assert(outs@.map_values(|v: Vec<Result<TransferOk, TransferError>>| v@)
                    =~= pre_views.push(batch_views));
                assert(outs@.map_values(|v: Vec<Result<TransferOk, TransferError>>| v@)
                    + workload_outcomes_spec(ids0, self.ledger.balances(), batches0.skip(i as int + 1))
                    =~= pre_views + workload_outcomes_spec(ids0, pre, batches0.skip(i as int)));
            }
            i += 1;
        }
        proof {
            assert(batches0.skip(n as int) =~= Seq::<Seq<Record>>::empty());
            assert(outs@.map_values(|v: Vec<Result<TransferOk, TransferError>>| v@) + Seq::<
                Seq<Result<TransferOk, TransferError>>,
            >::empty() =~= outs@.map_values(|v: Vec<Result<TransferOk, TransferError>>| v@));
        }
        outs
    }
}

} // verus!
