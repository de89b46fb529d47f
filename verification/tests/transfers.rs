use trading_system::engine::{lock_order, transfer_amounts, TransferOk};
use trading_system::errors::{BuildError, TransferError};
use trading_system::ledger::{Account, Accounts, Ledger};
use trading_system::system::{Record, Request, Requests, System};

fn account(name: &str, balance: u64) -> Account {
    Account { name: name.to_string(), balance }
}

fn ledger(entries: &[(&str, u64)]) -> Ledger {
    let accounts = entries.iter().map(|(n, b)| account(n, *b)).collect();
    Ledger::build(Accounts { accounts }).expect("ledger should build")
}

fn record(from: &str, to: &str, amount: u64, fee: u64) -> Record {
    Record { from: from.to_string(), to: to.to_string(), amount, fee }
}

#[test]
fn test_transfer_success() {
    let mut l = ledger(&[("A", 1000), ("B", 0)]);
    let a = l.lookup(&"A".to_string()).unwrap();
    let b = l.lookup(&"B".to_string()).unwrap();

    let result = l.transfer(a, b, 100, 10);

    assert!(result.is_ok());
    assert_eq!(l.balance(a), 890);
    assert_eq!(l.balance(b), 100);
}

#[test]
fn test_transfer_insufficient_funds() {
    let mut l = ledger(&[("Alice", 100), ("Bob", 500)]);
    let alice = l.lookup(&"Alice".to_string()).unwrap();
    let bob = l.lookup(&"Bob".to_string()).unwrap();

    let result = l.transfer(alice, bob, 200, 10);

    assert!(result.is_err());
    assert_eq!(
        result.unwrap_err(),
        TransferError::InsufficientFunds { needed: 210, available: 100 }
    );
    assert_eq!(l.balance(alice), 100);
    assert_eq!(l.balance(bob), 500);
}

#[test]
fn transfer_ok_reports_resulting_balances() {
    let mut l = ledger(&[("A", 1000), ("B", 0)]);
    let ok = l.transfer(0, 1, 100, 10).unwrap();
    assert_eq!(ok, TransferOk { from_balance: 890, to_balance: 100 });
}

#[test]
fn concurrent_pair_both_orders_land_on_allowed_split() {
    // Two opposite transfers on one pair; whichever commits first, the
    // final split must be one of the two allowed outcomes.
    let allowed = [(94u64, 104u64), (99u64, 99u64)];
    for first_a_to_b in [true, false] {
        let mut l = ledger(&[("A", 100), ("B", 100)]);
        if first_a_to_b {
            l.transfer(0, 1, 10, 1).unwrap();
            l.transfer(1, 0, 5, 1).unwrap();
        } else {
            l.transfer(1, 0, 5, 1).unwrap();
            l.transfer(0, 1, 10, 1).unwrap();
        }
        let split = (l.balance(0), l.balance(1));
        assert!(allowed.contains(&split), "unexpected split {:?}", split);
        assert_eq!(l.balance(0) + l.balance(1), 198);
    }
}

#[test]
fn failing_record_does_not_block_the_next() {
    // One batch [insufficient X->Y, sufficient X->Z]: the second record
    // still commits.
    let mut l = ledger(&[("X", 50), ("Y", 0), ("Z", 0)]);
    let batch = vec![record("X", "Y", 100, 1), record("X", "Z", 40, 5)];

    let outs = l.apply_batch(&batch);

    assert_eq!(outs.len(), 2);
    assert_eq!(
        outs[0],
        Err(TransferError::InsufficientFunds { needed: 101, available: 50 })
    );
    assert_eq!(outs[1], Ok(TransferOk { from_balance: 5, to_balance: 40 }));
    assert_eq!(l.balance(0), 5);
    assert_eq!(l.balance(1), 0);
    assert_eq!(l.balance(2), 40);
}

#[test]
fn exact_balance_drains_to_zero_never_below() {
    // The debit is committed only when fully covered; covering it exactly
    // leaves zero, and one unit short changes nothing.
    let mut l = ledger(&[("A", 110), ("B", 0)]);
    let r = l.transfer(0, 1, 100, 10);
    assert_eq!(r, Ok(TransferOk { from_balance: 0, to_balance: 100 }));
    assert_eq!(l.balance(0), 0);

    let mut short = ledger(&[("A", 109), ("B", 0)]);
    let r = short.transfer(0, 1, 100, 10);
    assert_eq!(r, Err(TransferError::InsufficientFunds { needed: 110, available: 109 }));
    assert_eq!(short.balance(0), 109);
    assert_eq!(short.balance(1), 0);
}

#[test]
fn duplicate_identifier_fails_construction() {
    let accounts = vec![account("A", 10), account("A", 20)];
    let r = Ledger::build(Accounts { accounts });
    assert_eq!(r.unwrap_err(), BuildError::DuplicateId);
}

#[test]
fn unrepresentable_total_fails_construction() {
    let accounts = vec![account("A", u64::MAX), account("B", 1)];
    let r = Ledger::build(Accounts { accounts });
    assert_eq!(r.unwrap_err(), BuildError::TotalOverflow);
}

#[test]
fn missing_account_is_reported_per_record() {
    let mut l = ledger(&[("A", 100)]);
    let outs = l.apply_batch(&vec![record("A", "Nobody", 10, 1)]);
    assert_eq!(outs[0], Err(TransferError::AccountNotFound));
    assert_eq!(l.balance(0), 100);
}

#[test]
fn self_transfer_is_refused() {
    let mut l = ledger(&[("A", 100)]);
    let outs = l.apply_batch(&vec![record("A", "A", 10, 1)]);
    assert_eq!(outs[0], Err(TransferError::SameAccount));
    assert_eq!(l.balance(0), 100);
}

#[test]
fn engine_step_matches_spec_on_plain_values() {
    assert_eq!(
        transfer_amounts(1000, 0, 100, 10),
        Ok(TransferOk { from_balance: 890, to_balance: 100 })
    );
    assert_eq!(
        transfer_amounts(100, 500, 200, 10),
        Err(TransferError::InsufficientFunds { needed: 210, available: 100 })
    );
}

#[test]
fn engine_step_reports_unpayable_debit_exactly() {
    // amount + fee does not even fit a balance cell: the needed figure is
    // still reported exactly, one past u64::MAX here.
    let r = transfer_amounts(u64::MAX, 0, u64::MAX, 1);
    assert_eq!(
        r,
        Err(TransferError::InsufficientFunds {
            needed: u64::MAX as u128 + 1,
            available: u64::MAX
        })
    );
}

#[test]
fn engine_step_refuses_unrepresentable_credit() {
    let r = transfer_amounts(u64::MAX, u64::MAX, 1, 0);
    assert_eq!(r, Err(TransferError::CreditOverflow));
}

#[test]
fn lock_order_is_direction_independent() {
    assert_eq!(lock_order(3, 7), (3, 7));
    assert_eq!(lock_order(7, 3), (3, 7));
    assert_eq!(lock_order(5, 5), (5, 5));
    assert!(lock_order(7, 3).0 < lock_order(7, 3).1);
}

#[test]
fn run_conserves_funds_minus_committed_fees() {
    let accounts = Accounts {
        accounts: vec![account("A", 1000), account("B", 200), account("C", 0)],
    };
    let requests = Requests {
        requests: vec![
            Request { records: vec![record("A", "B", 100, 10), record("B", "C", 50, 2)] },
            Request { records: vec![record("C", "A", 5000, 1), record("A", "C", 300, 7)] },
        ],
    };
    let before: u64 = 1000 + 200;

    let mut system = System::new(accounts, requests).expect("system should build");
    let outs = system.run();

    let committed_fees: u64 = outs
        .iter()
        .flatten()
        .zip([10u64, 2, 1, 7])
        .filter(|(o, _)| o.is_ok())
        .map(|(_, fee)| fee)
        .sum();
    assert_eq!(committed_fees, 10 + 2 + 7);
    let a = 1000 - 110 - 307;
    let b = 200 + 100 - 52;
    let c = 50 + 300;
    let after = a + b + c;
    assert_eq!(after, before - committed_fees);
    assert_eq!(outs[1][0], Err(TransferError::InsufficientFunds { needed: 5001, available: 50 }));
}

#[test]
fn run_reports_one_outcome_per_record() {
    let accounts = Accounts { accounts: vec![account("A", 10), account("B", 0)] };
    let requests = Requests {
        requests: vec![
            Request { records: vec![] },
            Request { records: vec![record("A", "B", 1, 0), record("A", "Z", 1, 0)] },
        ],
    };
    let mut system = System::new(accounts, requests).unwrap();
    let outs = system.run();
    assert_eq!(outs.len(), 2);
    assert!(outs[0].is_empty());
    assert_eq!(outs[1].len(), 2);
    assert_eq!(outs[1][0], Ok(TransferOk { from_balance: 9, to_balance: 1 }));
    assert_eq!(outs[1][1], Err(TransferError::AccountNotFound));
}

#[test]
fn duplicate_identifier_fails_system_construction() {
    let accounts = Accounts { accounts: vec![account("A", 1), account("A", 2)] };
    let requests = Requests { requests: vec![] };
    assert_eq!(System::new(accounts, requests).unwrap_err(), BuildError::DuplicateId);
}

#[test]
fn lookup_resolves_first_match_and_absence() {
    let l = ledger(&[("A", 1), ("B", 2)]);
    assert_eq!(l.lookup(&"A".to_string()), Some(0));
    assert_eq!(l.lookup(&"B".to_string()), Some(1));
    assert_eq!(l.lookup(&"C".to_string()), None);
    assert_eq!(l.len(), 2);
}
