use vstd::prelude::*;

use crate::engine::{transfer_amounts, transfer_amounts_spec, TransferOk};
use crate::errors::{BuildError, TransferError};
use crate::sums::{lemma_pair_le_sum, lemma_sum_push, lemma_sum_take_le, lemma_sum_update, sum_u64};

verus! {

/// One account as the loader supplies it: a unique identifier and an
/// initial balance.
#[derive(Debug)]
pub struct Account {
    pub name: String,
    pub balance: u64,
}

/// The input set of accounts a ledger is built from.
#[derive(Debug)]
pub struct Accounts {
    pub accounts: Vec<Account>,
}

/// No two identifiers in the sequence are the same.
pub open spec fn distinct_ids(ids: Seq<Seq<char>>) -> bool {
    forall|i: int, j: int| 0 <= i < j < ids.len() ==> ids[i] != ids[j]
}

/// The in-memory store of accounts. Identifiers and balances live at the
/// same index: the index is the account's stable handle, assigned once at
/// construction. The shape never changes afterwards; only balances mutate.
#[derive(Debug)]
pub struct Ledger {
    ids: Vec<String>,
    balances: Vec<u64>,
}

impl Ledger {
    /// The account identifiers, by handle.
    pub closed spec fn ids(&self) -> Seq<Seq<char>> {
        self.ids@.map_values(|s: String| s@)
    }

    /// The account balances, by handle.
    pub closed spec fn balances(&self) -> Seq<u64> {
        self.balances@
    }

    /// Well-formedness: one balance per identifier, identifiers unique, and
    /// the total of all balances fits in one balance cell — the invariant
    /// that keeps every committed credit representable, since no balance can
    /// ever exceed the (never increasing) total.
    pub open spec fn wf(&self) -> bool {
        &&& self.ids().len() == self.balances().len()
        &&& distinct_ids(self.ids())
        &&& sum_u64(self.balances()) <= u64::MAX
    }

    /// Builds a ledger from the input accounts, assigning handle `i` to the
    /// `i`-th account. Fails with `DuplicateId` when two accounts carry the
    /// same identifier, and with `TotalOverflow` when the identifiers are
    /// unique but the balances sum beyond one cell's capacity.
    pub fn build(accounts: Accounts) -> (r: Result<Ledger, BuildError>)
        ensures
            r matches Ok(l) ==> {
                &&& l.wf()
                &&& l.ids() == accounts.accounts@.map_values(|a: Account| a.name@)
                &&& l.balances() == accounts.accounts@.map_values(|a: Account| a.balance)
            },
            r matches Err(e) ==> {
                let ids = accounts.accounts@.map_values(|a: Account| a.name@);
                let bals = accounts.accounts@.map_values(|a: Account| a.balance);
                &&& (e == BuildError::DuplicateId <==> !distinct_ids(ids))
                &&& e == BuildError::TotalOverflow ==> distinct_ids(ids) && sum_u64(bals)
                    > u64::MAX
            },
            r is Ok <==> {
                let ids = accounts.accounts@.map_values(|a: Account| a.name@);
                let bals = accounts.accounts@.map_values(|a: Account| a.balance);
                distinct_ids(ids) && sum_u64(bals) <= u64::MAX
            },
    {
        let ghost all_ids = accounts.accounts@.map_values(|a: Account| a.name@);
        let ghost all_bals = accounts.accounts@.map_values(|a: Account| a.balance);
        let n = accounts.accounts.len();
        let mut i: usize = 0;
        while i < n
            invariant
                i <= n,
                n == accounts.accounts.len(),
                all_ids == accounts.accounts@.map_values(|a: Account| a.name@),
                forall|p: int, q: int| 0 <= p < q < i ==> all_ids[p] != all_ids[q],
            decreases n - i,
        {
            let mut j: usize = 0;
            while j < i
                invariant
                    j <= i < n,
                    n == accounts.accounts.len(),
                    all_ids == accounts.accounts@.map_values(|a: Account| a.name@),
                    forall|q: int| 0 <= q < j ==> all_ids[q] != all_ids[i as int],
                decreases i - j,
            {
                if accounts.accounts[j].name == accounts.accounts[i].name {
                    proof {
                        assert(all_ids[j as int] == all_ids[i as int]);
                        assert(!distinct_ids(all_ids));
                    }
                    return Err(BuildError::DuplicateId);
                }
                j += 1;
            }
            i += 1;
        }
        assert(distinct_ids(all_ids));
        let mut ids: Vec<String> = Vec::new();
        let mut balances: Vec<u64> = Vec::new();
        let mut acc: u64 = 0;
        let mut k: usize = 0;
        while k < n
            invariant
                k <= n,
                n == accounts.accounts.len(),
                all_ids == accounts.accounts@.map_values(|a: Account| a.name@),
                all_bals == accounts.accounts@.map_values(|a: Account| a.balance),
                distinct_ids(all_ids),
                ids@.map_values(|s: String| s@) == all_ids.take(k as int),
                balances@ == all_bals.take(k as int),
                acc == sum_u64(all_bals.take(k as int)),
            decreases n - k,
        {
            let b = accounts.accounts[k].balance;
            proof {
                lemma_sum_push(all_bals.take(k as int), b);
                assert(all_bals.take(k as int).push(b) =~= all_bals.take(k as int + 1));
            }
            if b > u64::MAX - acc {
                proof {
                    lemma_sum_take_le(all_bals, k as int + 1);
                }
                return Err(BuildError::TotalOverflow);
            }
            acc = acc + b;
            let name = accounts.accounts[k].name.clone();
            ids.push(name);
            balances.push(b);
            proof {
                assert(ids@.drop_last().map_values(|s: String| s@) == all_ids.take(k as int));
                assert(ids@.map_values(|s: String| s@) =~= all_ids.take(k as int + 1));
            }
            k += 1;
        }
        proof {
            assert(all_ids.take(n as int) =~= all_ids);
            assert(all_bals.take(n as int) =~= all_bals);
        }
        Ok(Ledger { ids, balances })
    }

    /// The number of accounts in the ledger.
    pub fn len(&self) -> (r: usize)
        ensures
            r == self.balances().len(),
    {
        self.balances.len()
    }

    /// The current balance of the account at handle `i`.
    pub fn balance(&self, i: usize) -> (r: u64)
        requires
            i < self.balances().len(),
        ensures
            r == self.balances()[i as int],
    {
        self.balances[i]
    }

    /// Resolves an identifier to its handle: the first index carrying it,
    /// or `None` when the identifier is absent. Needs no lock: the ledger's
    /// shape is immutable once built.
    pub fn lookup(&self, id: &String) -> (r: Option<usize>)
        ensures
            r matches Some(i) ==> i < self.ids().len() && self.ids()[i as int] == id@ && (forall|
                j: int,
            | 0 <= j < i ==> self.ids()[j] != id@),
            r is None ==> forall|j: int| 0 <= j < self.ids().len() ==> self.ids()[j] != id@,
    {
        let n = self.ids.len();
        let mut i: usize = 0;
        while i < n
            invariant
                i <= n,
                n == self.ids@.len(),
                forall|j: int| 0 <= j < i ==> self.ids()[j] != id@,
            decreases n - i,
        {
            if self.ids[i] == *id {
                return Some(i);
            }
            i += 1;
        }
        None
    }

    /// Commits one transfer between two distinct accounts, or reports why
    /// nothing changed. On commit the source loses `amount + fee`, the
    /// destination gains `amount`, every other balance is untouched, and the
    /// total drops by exactly the fee (the fee is burned, credited nowhere).
    /// On a well-formed ledger the credit can never overflow, so the only
    /// error is `InsufficientFunds`, reported if and only if the source
    /// balance does not cover `amount + fee`.
    pub fn transfer(&mut self, from: usize, to: usize, amount: u64, fee: u64) -> (r: Result<
        TransferOk,
        TransferError,
    >)
        requires
            old(self).wf(),
            from < old(self).balances().len(),
            to < old(self).balances().len(),
            from != to,
        ensures
            final(self).wf(),
            final(self).ids() == old(self).ids(),
            final(self).balances().len() == old(self).balances().len(),
            r == transfer_amounts_spec(
                old(self).balances()[from as int],
                old(self).balances()[to as int],
                amount,
                fee,
            ),
            r matches Ok(ok) ==> {
                &&& old(self).balances()[from as int] >= amount + fee
                &&& ok.from_balance == old(self).balances()[from as int] - amount - fee
                &&& ok.to_balance == old(self).balances()[to as int] + amount
                &&& final(self).balances() == old(self).balances().update(
                    from as int,
                    ok.from_balance,
                ).update(to as int, ok.to_balance)
                &&& sum_u64(final(self).balances()) == sum_u64(old(self).balances()) - fee
            },
            r matches Err(e) ==> {
                &&& e matches TransferError::InsufficientFunds { needed, available }
                &&& needed == amount + fee
                &&& available == old(self).balances()[from as int]
                &&& old(self).balances()[from as int] < amount + fee
                &&& *final(self) == *old(self)
            },
            r is Ok <==> old(self).balances()[from as int] >= amount + fee,
    {
        proof {
            lemma_pair_le_sum(self.balances(), from as int, to as int);
        }
        let from_balance = self.balances[from];
        let to_balance = self.balances[to];
        let r = transfer_amounts(from_balance, to_balance, amount, fee);
        match r {
            Ok(ok) => {
                self.balances[from] = ok.from_balance;
                self.balances[to] = ok.to_balance;
                proof {
                    lemma_sum_update(old(self).balances(), from as int, ok.from_balance);
                    lemma_sum_update(
                        old(self).balances().update(from as int, ok.from_balance),
                        to as int,
                        ok.to_balance,
                    );
                }
                Ok(ok)
            },
            Err(e) => Err(e),
        }
    }
}

} // verus!
